use grimoire::audio::VoiceDeviceNames;
use grimoire::community::{Community, MemberId, MembershipChange};
use grimoire::config::{connectivity_mode, AppConfig};
use grimoire::forms::{
    check_backup, cycle_device, member_hex, parse_hex_32, parse_member, read_command, split_once,
    strip_prefix, trim, Typed,
};
use grimoire::launch::{channel_name, read_arguments, Launch};
use grimoire::model::{
    AuthoredText, Channel, ChannelId, ChannelKind, Command, Event, MessageId, Snapshot,
    TextMessage, VoicePresence,
};
use grimoire::session::{SessionCommand, SessionUpdate, VoiceUpdate};
use grimoire::shell::{hear, Former, Heed, Onboarding, Order, Overlay, Shell, Slot};
use grimoire::sorted::SortedMap;
use grimoire::state::{CommunityAccess, CommunityState, ConnectivityMode};
use grimoire::timeline::{member_color, message_millis, message_time, timeline};
use grimoire::window::{
    attachment_of_file, check_file, Fields, OpenAction, Opened, Screen,
};

#[test]
fn connectivity_choice_selects_relay_only() {
    assert_eq!(connectivity_mode(false), ConnectivityMode::Wan);
    assert_eq!(connectivity_mode(true), ConnectivityMode::RelayOnly);
}

#[test]
fn device_selection_cycles_through_defaults() {
    let devices = vec!["mic one".to_owned(), "mic two".to_owned()];

    assert_eq!(cycle_device(None, &devices).as_deref(), Some("mic one"));
    assert_eq!(
        cycle_device(Some("mic one"), &devices).as_deref(),
        Some("mic two")
    );
    assert_eq!(cycle_device(Some("mic two"), &devices), None);
    assert_eq!(cycle_device(Some("missing"), &devices), None);
}

fn local() -> MemberId {
    MemberId::from_bytes([1; 32])
}

fn member(byte: u8) -> MemberId {
    MemberId::from_bytes([byte; 32])
}

/// A community of five members that the first one owns.
fn state() -> CommunityState {
    let mut community = Community::new(local());
    for byte in 2..=5 {
        community
            .change_membership(local(), MembershipChange::Admit(member(byte)))
            .unwrap();
    }
    let snapshot = Snapshot::new(
        Channel::default_channels().to_vec(),
        vec![],
        vec![],
        community,
        SortedMap::new(),
    );
    CommunityState::from_snapshot(&snapshot, local())
}

fn text(author: MemberId, id: MessageId, body: &str) -> Event {
    Event::TextStored(AuthoredText::new(
        author,
        TextMessage::new(id, body).unwrap(),
    ))
}

fn shell() -> Shell {
    let (shell, orders) = Shell::new(
        Ok(Some(state())),
        vec!["/one".to_owned()],
        AppConfig::default(),
        false,
    );
    assert!(matches!(
        &orders[..],
        [Order::UseDevices {
            slot: Slot::Current,
            heed: Heed::Never
        }]
    ));
    shell
}

fn fields(name: &str) -> Fields {
    Fields {
        name: name.to_owned(),
        data_dir: " /two ".to_owned(),
        invite: String::new(),
        backup: String::new(),
        passphrase: String::new(),
    }
}

#[test]
fn typed_commands_are_read() {
    let id = ChannelId::from_bytes([7; 32]);
    assert!(matches!(read_command("/leave", id), Typed::Leave));
    assert!(matches!(read_command("/mute", id), Typed::Mute));
    assert!(matches!(
        read_command("/name maren", id),
        Typed::Name(name) if name.as_str() == "maren"
    ));
    assert!(matches!(
        read_command("/attach /tmp/a.txt", id),
        Typed::Attach(path) if path == "/tmp/a.txt"
    ));
    assert!(matches!(
        read_command("/dance", id),
        Typed::Complaint(text) if text == "unknown command; use /help"
    ));
    let ask = read_command(&format!("/remove {}", "02".repeat(32)), id);
    assert!(matches!(
        ask,
        Typed::Ask(SessionCommand::Execute(Command::ChangeMembership(
            MembershipChange::Remove(removed)
        ))) if removed == member(2)
    ));
    assert!(matches!(
        read_command("/remove 02", id),
        Typed::Complaint(_)
    ));
    assert!(matches!(
        read_command("/connect nowhere", id),
        Typed::Complaint(_)
    ));
    let channel = read_command("/channel voice den", id);
    assert!(matches!(
        channel,
        Typed::Ask(SessionCommand::Execute(Command::CreateChannel(made)))
            if made.id() == id && made.name() == "den" && made.kind() == ChannelKind::Voice
    ));
}

#[test]
fn texts_are_taken_apart() {
    assert_eq!(trim("  a b\t"), "a b");
    assert_eq!(strip_prefix("/name x", "/name ").as_deref(), Some("x"));
    assert_eq!(strip_prefix("name x", "/name "), None);
    assert_eq!(
        split_once("a b c"),
        Some(("a".to_owned(), "b c".to_owned()))
    );
    assert_eq!(split_once("abc"), None);
    assert_eq!(member_hex(member(0xab)), "ab".repeat(32));
    assert_eq!(parse_member(&member_hex(member(9))), Ok(member(9)));
    assert_eq!(parse_hex_32(&"Ab".repeat(32)), Ok([0xab; 32]));
    assert!(parse_hex_32("zz").is_err());
    assert!(parse_hex_32(&"zz".repeat(32)).is_err());
}

#[test]
fn backups_need_a_path_and_a_long_passphrase() {
    assert_eq!(
        check_backup("  ", "twelve chars", "twelve chars").unwrap_err(),
        "choose an identity backup path"
    );
    assert_eq!(
        check_backup("a", "short", "short").unwrap_err(),
        "backup passphrase must contain at least 12 characters"
    );
    assert_eq!(
        check_backup("a", "twelve chars", "other twelve").unwrap_err(),
        "backup passphrases do not match"
    );
    assert_eq!(
        check_backup(" a ", "twelve chars", "twelve chars"),
        Ok("a".to_owned())
    );
    let mut shell = shell();
    let orders = shell.export_backup("a", "twelve chars".to_owned(), "twelve chars");
    assert!(matches!(
        &orders[..],
        [Order::Ask {
            slot: Slot::Current,
            command: SessionCommand::ExportIdentity { .. }
        }]
    ));
}

#[test]
fn arguments_say_what_to_open() {
    let remembering = AppConfig {
        last_data_dir: Some("/last".to_owned()),
        ..AppConfig::default()
    };
    let none: Vec<String> = vec![];
    assert!(matches!(
        read_arguments(&none, &remembering),
        Launch::Existing { paths, remembered: true } if paths == vec!["/last".to_owned()]
    ));
    let create = vec!["--create".to_owned(), "/new".to_owned()];
    assert!(matches!(
        read_arguments(&create, &remembering),
        Launch::Create { path } if path == "/new"
    ));
    let join = vec!["--join".to_owned(), "/new".to_owned(), "inv".to_owned()];
    assert!(matches!(
        read_arguments(&join, &remembering),
        Launch::Join { invite, .. } if invite == "inv"
    ));
    let preview = vec!["--preview".to_owned()];
    assert!(matches!(
        read_arguments(&preview, &remembering),
        Launch::Preview
    ));
    let paths = vec!["/a".to_owned(), "/b".to_owned()];
    assert!(matches!(
        read_arguments(&paths, &remembering),
        Launch::Existing { paths, remembered: false } if paths.len() == 2
    ));
}

#[test]
fn configurations_are_recovered_from_their_backup() {
    let backup = AppConfig {
        relay_only: true,
        ..AppConfig::default()
    };
    assert_eq!(
        AppConfig::recovered(None, Some(backup.clone())),
        backup
    );
    assert_eq!(AppConfig::recovered(None, None), AppConfig::default());
    assert_eq!(
        AppConfig::recovered(Some(AppConfig::default()), Some(backup.clone())),
        AppConfig::default()
    );
    assert_eq!(backup.connectivity_mode(), ConnectivityMode::RelayOnly);
    let mut config = AppConfig::default();
    config.remember(Some("/one".to_owned()), Some(Some("inv".to_owned())));
    config.remember(Some("/two".to_owned()), None);
    assert_eq!(config.last_data_dir.as_deref(), Some("/two"));
    assert_eq!(config.last_invite.as_deref(), Some("inv"));
}

#[test]
fn texts_go_to_the_selected_channel() {
    let mut shell = shell();
    let id = MessageId::from_bytes([9; 32]);
    let orders = shell.send_text("hello", id, ChannelId::from_bytes([8; 32]));
    assert!(matches!(
        &orders[..],
        [Order::Ask {
            slot: Slot::Current,
            command: SessionCommand::Execute(Command::PostText(message))
        }] if message.body() == "hello" && message.channel_id() == ChannelId::general()
    ));
    assert!(shell
        .send_text("", id, ChannelId::from_bytes([8; 32]))
        .is_empty());
    assert!(shell.load_error.is_some());
    let orders = shell.send_text("/leave", id, ChannelId::from_bytes([8; 32]));
    assert!(orders.is_empty());
}

#[test]
fn voice_goes_on_while_another_community_is_shown() {
    let room = ChannelId::voice_room();
    let mut shell = shell();
    let orders = shell.select_channel(room);
    assert!(matches!(
        &orders[..],
        [Order::Ask {
            slot: Slot::Current,
            command: SessionCommand::JoinVoice(_)
        }]
    ));
    assert_eq!(shell.voice_origin.as_deref(), Some("/one"));
    shell.apply_voice_update("/one", VoiceUpdate::Joined(room));
    shell.select_channel(ChannelId::general());
    assert!(shell.voice.is_connected());

    assert!(shell.opens_on_switch("/two"));
    let orders = shell.switch_community("/two".to_owned(), Some(Ok(state())));
    assert!(orders.iter().any(|order| matches!(
        order,
        Order::Arrive {
            from: Slot::Fresh,
            former: Former::Parked
        }
    )));
    assert_eq!(shell.background.as_ref().unwrap().0, "/one");
    assert!(shell.voice.is_connected());
    let orders = shell.leave_voice();
    assert!(matches!(
        &orders[..],
        [Order::Ask {
            slot: Slot::Background,
            command: SessionCommand::LeaveVoice
        }]
    ));
    let orders = shell.apply_voice_update("/one", VoiceUpdate::Disconnected);
    assert!(matches!(&orders[..], [Order::CloseBackground]));
    assert!(shell.background.is_none());
    assert_eq!(shell.voice_origin, None);
}

#[test]
fn full_voice_rooms_are_not_entered() {
    let room = ChannelId::voice_room();
    let mut shell = shell();
    for byte in 2..=5 {
        shell.apply_session_update(
            "/one",
            SessionUpdate::Event(Event::VoicePresence {
                channel: room,
                member: member(byte),
                state: VoicePresence::Joined,
            }),
            0,
        );
    }
    assert!(shell.select_channel(room).is_empty());
    assert_eq!(
        shell.load_error.as_deref(),
        Some("voice room is full (4/4)")
    );
}

#[test]
fn shown_texts_are_marked_read() {
    let mut shell = shell();
    let id = MessageId::from_bytes([9; 32]);
    let orders = shell.apply_session_update(
        "/one",
        SessionUpdate::Event(text(member(2), id, "news")),
        0,
    );
    assert!(orders.iter().any(|order| matches!(
        order,
        Order::Ask {
            slot: Slot::Current,
            command: SessionCommand::MarkRead { message, .. }
        } if *message == id
    )));
    shell.apply_session_update(
        "/one",
        SessionUpdate::ReadStored {
            channel: ChannelId::general(),
            message: id,
        },
        0,
    );
    let shown = shell.state.as_ref().unwrap();
    assert_eq!(shown.unread_count(ChannelId::general()), 0);
    shell.apply_session_update("/one", SessionUpdate::CommandFailed("no".to_owned()), 0);
    assert_eq!(shell.load_error.as_deref(), Some("no"));
}

#[test]
fn removed_members_leave_the_voice() {
    let room = ChannelId::voice_room();
    let owner = member(2);
    let mut community = Community::new(owner);
    community
        .change_membership(owner, MembershipChange::Admit(local()))
        .unwrap();
    let snapshot = Snapshot::new(
        Channel::default_channels().to_vec(),
        vec![],
        vec![],
        community.clone(),
        SortedMap::new(),
    );
    let (mut shell, _) = Shell::new(
        Ok(Some(CommunityState::from_snapshot(&snapshot, local()))),
        vec!["/one".to_owned()],
        AppConfig::default(),
        false,
    );
    assert!(!shell.is_owner());
    shell.select_channel(room);
    shell.apply_voice_update("/one", VoiceUpdate::Joined(room));
    community
        .change_membership(owner, MembershipChange::Remove(local()))
        .unwrap();
    let orders = shell.apply_session_update(
        "/one",
        SessionUpdate::Event(Event::MembershipChanged(community)),
        0,
    );
    assert!(orders.iter().any(|order| matches!(
        order,
        Order::Ask {
            command: SessionCommand::LeaveVoice,
            ..
        }
    )));
    assert_eq!(shell.screen(), Screen::Access(CommunityAccess::Removed));
}

#[test]
fn attempts_to_open_are_told_apart() {
    let (mut shell, orders) =
        Shell::new(Ok(None), vec![], AppConfig::default(), false);
    assert!(orders.is_empty());
    assert_eq!(shell.screen(), Screen::Onboarding);
    assert!(shell.open_from_onboarding(fields("maren")).is_none());
    shell.show_onboarding(Onboarding::Create);
    assert!(shell.open_from_onboarding(fields("")).is_none());
    assert!(shell.load_error.is_some());
    let attempt = shell.open_from_onboarding(fields("maren")).unwrap();
    assert!(matches!(
        &attempt.action,
        OpenAction::Create { path, name } if path == "/two" && name.as_str() == "maren"
    ));
    assert_eq!(shell.onboarding, Onboarding::Opening);
    let failed = Err("broken".to_owned());
    assert!(shell
        .finish_opening(attempt.generation.wrapping_sub(1), attempt.previous, failed)
        .is_empty());
    assert_eq!(shell.onboarding, Onboarding::Opening);
    let opened = Opened {
        state: state(),
        path: "/two".to_owned(),
        name: None,
        invite: None,
    };
    let orders = shell.finish_opening(attempt.generation, attempt.previous, Ok(opened));
    assert!(orders
        .iter()
        .any(|order| matches!(order, Order::Arrive { from: Slot::Fresh, .. })));
    assert_eq!(shell.current_path.as_deref(), Some("/two"));
    assert_eq!(shell.screen(), Screen::Community);
    assert_eq!(shell.badge(), "copy invite");
}

#[test]
fn failed_openings_go_back() {
    let (mut shell, _) = Shell::new(Ok(None), vec![], AppConfig::default(), false);
    shell.show_onboarding(Onboarding::Create);
    let attempt = shell.open_from_onboarding(fields("maren")).unwrap();
    shell.finish_opening(
        attempt.generation,
        attempt.previous,
        Err("broken".to_owned()),
    );
    assert_eq!(shell.onboarding, Onboarding::Create);
    assert_eq!(shell.load_error.as_deref(), Some("broken"));
    assert!(shell
        .switch_community("/x".to_owned(), Some(Err("gone".to_owned())))
        .is_empty());
    assert_eq!(shell.load_error.as_deref(), Some("gone"));
}

/// Carries out orders, of which those fail that have an error here, and tells which error is shown.
fn carried_out(orders: &[Order], errors: &[Option<&str>]) -> Option<String> {
    let mut shown: Option<String> = None;
    for (order, error) in orders.iter().zip(errors) {
        if let (true, Some(error)) = (order.is_due(shown.is_some()), error) {
            shown = hear(shown, error.to_string(), order.heed());
        }
    }
    shown
}

#[test]
fn one_error_of_several_is_shown() {
    let mut window = shell();
    let devices = window.cycle_voice_input();
    assert_eq!(
        carried_out(&devices, &[Some("device"), Some("config")]).as_deref(),
        Some("device")
    );
    assert_eq!(
        carried_out(&devices, &[None, Some("config")]).as_deref(),
        Some("config")
    );
    let switched = window.switch_community("/two".to_owned(), Some(Ok(state())));
    assert_eq!(
        carried_out(&switched, &[Some("device"), Some("close"), Some("config")]).as_deref(),
        Some("config")
    );
    assert_eq!(
        carried_out(&switched, &[Some("device"), Some("close"), None]).as_deref(),
        Some("close")
    );
    let (_, started) = Shell::new(
        Ok(Some(state())),
        vec!["/one".to_owned()],
        AppConfig::default(),
        false,
    );
    assert_eq!(carried_out(&started, &[Some("device")]), None);
    assert!(!Order::CloseOverlay.is_due(true));
    assert!(Order::CloseOverlay.is_due(false));
    assert!(!Order::AlsoUseDevices(Slot::Background).is_due(true));
    assert!(!Order::RememberName("maren".to_owned()).is_due(true));
}

#[test]
fn settings_choose_devices_and_connectivity() {
    let mut shell = shell();
    assert!(matches!(
        &shell.open_overlay(Overlay::Settings)[..],
        [Order::ScanDevices]
    ));
    shell.devices_scanned(Ok(VoiceDeviceNames {
        input: vec!["mic".to_owned()],
        output: vec!["speaker".to_owned()],
    }));
    assert!(matches!(
        &shell.cycle_voice_input()[..],
        [
            Order::UseDevices {
                slot: Slot::Current,
                heed: Heed::Always
            },
            Order::SaveConfig(Heed::Otherwise)
        ]
    ));
    shell.cycle_voice_output();
    let devices = shell.voice_device_config();
    assert_eq!(devices.input_device.as_deref(), Some("mic"));
    assert_eq!(devices.output_device.as_deref(), Some("speaker"));
    shell.toggle_relay_only();
    assert!(shell.config.relay_only);
    shell.devices_scanned(Err("no audio".to_owned()));
    assert_eq!(shell.load_error.as_deref(), Some("no audio"));
    shell.close_overlay();
    assert_eq!(shell.overlay, None);
}

#[test]
fn owners_change_the_membership_from_the_window() {
    let mut shell = shell();
    let orders = shell.remove_member(member(2));
    assert!(matches!(
        &orders[0],
        Order::Ask {
            command: SessionCommand::Execute(Command::ChangeMembership(
                MembershipChange::Remove(_)
            )),
            ..
        }
    ));
    let orders = shell.admit_availability_peer(member(9));
    assert!(matches!(
        &orders[0],
        Order::Ask {
            command: SessionCommand::Execute(Command::ChangeMembership(
                MembershipChange::AdmitAvailability(_)
            )),
            ..
        }
    ));
    assert!(matches!(
        &shell.copy_member_id(member(9))[..],
        [Order::CopyText(text)] if *text == "09".repeat(32)
    ));
}

fn at(millis: u64, tail: u8) -> MessageId {
    MessageId::stamped(millis, [tail; 32])
}

#[test]
fn texts_by_one_author_within_minutes_are_grouped() {
    let mut state = state();
    state.apply(text(member(2), at(1_000, 1), "one"), 0);
    state.apply(text(member(2), at(2_000, 1), "two"), 0);
    state.apply(text(member(3), at(3_000, 1), "three"), 0);
    state.apply(text(member(3), at(303_001, 1), "four"), 0);
    let entries = timeline(&state);
    let grouped: Vec<bool> = entries.iter().map(|entry| entry.grouped).collect();
    assert_eq!(grouped, vec![false, true, false, false]);
    assert_eq!(message_millis(at(303_001, 1)), 303_001);
    assert_eq!(message_time(at(303_001, 1)), "00:05");
    assert_eq!(message_time(at(86_399_999, 1)), "23:59");
    assert_eq!(member_color(member(2)), 0);
    assert_eq!(
        channel_name(&state.channels, ChannelId::general()).as_deref(),
        Some("general")
    );
    assert_eq!(channel_name(&state.channels, ChannelId::from_bytes([9; 32])), None);
}

#[test]
fn shared_files_are_checked() {
    let refused = "attachment must be a regular file up to 8 MiB";
    let limit = 8 * 1024 * 1024;
    assert_eq!(check_file(true, limit, Some("a.txt")), Ok("a.txt"));
    assert_eq!(check_file(true, limit + 1, Some("a.txt")).unwrap_err(), refused);
    assert_eq!(check_file(false, 1, None).unwrap_err(), refused);
    assert_eq!(
        check_file(true, 1, None).unwrap_err(),
        "attachment name is invalid"
    );
    let id = MessageId::from_bytes([3; 32]);
    let share = |name, bytes| attachment_of_file(id, ChannelId::general(), name, bytes);
    let shared = share("a.txt", vec![1, 2]).unwrap();
    assert_eq!((shared.name(), shared.bytes()), ("a.txt", &[1, 2][..]));
    assert_eq!(share("a.txt", vec![]).unwrap_err(), "attachment is empty");
}
