use grimoire::address::{CommunityInvite, PeerAddress};
use grimoire::audio::VoiceDeviceConfig;
use grimoire::community::{Community, CommunityId, MemberId, MembershipChange};
use grimoire::connection::{
    Connectivity, ConnectionPathDiagnostic, ConnectionPathKind, PeerDiagnostic,
};
use grimoire::crypto::member_of;
use grimoire::egregore::Egregore;
use grimoire::model::{
    Attachment, AuthoredAttachment, AuthoredText, AuthoredVoice, Channel, ChannelId, ChannelKind,
    Command, DisplayName, Event, MessageId, Snapshot, TextMessage, VoiceFrame, VoicePresence,
    VoiceStreamId,
};
use grimoire::replica::Replica;
use grimoire::session::{
    create_new, join_new, open_existing, opened, recover, Action, Pending, Reply, Session,
    SessionCommand, SessionUpdate, VoiceState, VoiceUpdate,
};
use grimoire::sorted::SortedMap;
use grimoire::state::{
    connection_label, initial_access, is_unread, next_access, path_priority, speaking_recent,
    voice_room_available, CommunityAccess, CommunityState, ConnectivityMode,
};

/// In nanoseconds.
const MILLISECOND: u64 = 1_000_000;

#[test]
fn access_state_tracks_waiting_admission_and_removal() {
    assert_eq!(initial_access(false, false), CommunityAccess::Waiting);
    assert_eq!(initial_access(true, false), CommunityAccess::Removed);
    assert_eq!(initial_access(true, true), CommunityAccess::Active);
    assert_eq!(
        next_access(CommunityAccess::Waiting, false),
        CommunityAccess::Waiting
    );
    assert_eq!(
        next_access(CommunityAccess::Waiting, true),
        CommunityAccess::Active
    );
    assert_eq!(
        next_access(CommunityAccess::Active, false),
        CommunityAccess::Removed
    );
    assert_eq!(
        next_access(CommunityAccess::Removed, false),
        CommunityAccess::Removed
    );
}

#[test]
fn full_voice_room_only_allows_existing_participants() {
    assert!(voice_room_available(3, false));
    assert!(!voice_room_available(4, false));
    assert!(voice_room_available(4, true));
}

#[test]
fn speaking_expires_after_recency_window() {
    assert!(speaking_recent(0));
    assert!(speaking_recent(699 * MILLISECOND));
    assert!(!speaking_recent(700 * MILLISECOND));
    assert!(speaking_recent(700 * MILLISECOND - 1));
}

#[test]
fn connection_labels_describe_selected_path() {
    assert_eq!(connection_label(None), "OFFLINE");
    assert_eq!(
        connection_label(Some((ConnectionPathKind::Direct, 42))),
        "DIRECT 42ms"
    );
    assert_eq!(
        connection_label(Some((ConnectionPathKind::Relay, 180))),
        "RELAY 180ms"
    );
    assert_eq!(
        connection_label(Some((ConnectionPathKind::Custom, 90))),
        "CUSTOM 90ms"
    );
}

#[test]
fn unread_logic_excludes_local_and_seen_items() {
    let local = MemberId::from_bytes([1; 32]);
    let remote = MemberId::from_bytes([2; 32]);
    let seen = MessageId::from_bytes([3; 32]);
    let newer = MessageId::from_bytes([4; 32]);

    assert!(!is_unread(Some(seen), local, local, newer));
    assert!(!is_unread(Some(seen), local, remote, seen));
    assert!(is_unread(Some(seen), local, remote, newer));
    assert!(is_unread(None, local, remote, seen));
}

#[test]
fn voice_state_survives_channel_navigation_until_disconnect() {
    let channel = ChannelId::from_bytes([9; 32]);
    let mut voice = VoiceState::default();

    voice.apply(VoiceUpdate::Joining(channel));
    voice.apply(VoiceUpdate::Joined(channel));
    voice.apply(VoiceUpdate::Muted(true));
    voice.apply(VoiceUpdate::Deafened(true));

    assert_eq!(voice.channel(), Some(channel));
    assert!(voice.is_connected());
    assert!(voice.is_muted());
    assert!(voice.is_deafened());

    voice.apply(VoiceUpdate::Leaving(channel));
    assert_eq!(voice.channel(), Some(channel));
    voice.apply(VoiceUpdate::Disconnected);
    assert_eq!(voice.channel(), None);
    assert!(!voice.is_deafened());
}

fn local() -> MemberId {
    MemberId::from_bytes([1; 32])
}

fn remote() -> MemberId {
    MemberId::from_bytes([2; 32])
}

/// A community of the local member, who owns it, and another.
fn shared() -> Snapshot {
    let mut community = Community::new(local());
    community
        .change_membership(local(), MembershipChange::Admit(remote()))
        .unwrap();
    let mut names = SortedMap::new();
    names.insert(remote(), DisplayName::new("maren").unwrap());
    Snapshot::new(
        Channel::default_channels().to_vec(),
        vec![],
        vec![],
        community,
        names,
    )
}

fn text(author: MemberId, id: u8, body: &str) -> Event {
    Event::TextStored(AuthoredText::new(
        author,
        TextMessage::new(MessageId::from_bytes([id; 32]), body).unwrap(),
    ))
}

fn file(author: MemberId, id: u8) -> Event {
    Event::AttachmentStored(AuthoredAttachment::new(
        author,
        Attachment::new(
            MessageId::from_bytes([id; 32]),
            ChannelId::general(),
            "signal.txt",
            vec![1],
        )
        .unwrap(),
    ))
}

#[test]
fn members_without_a_name_are_shown_by_their_bytes() {
    let state = CommunityState::from_snapshot(&shared(), local());
    assert_eq!(state.members[0].name, "010101010101");
    assert!(state.members[0].is_owner && state.members[0].is_local);
    assert_eq!(state.members[1].name, "maren");
    assert!(!state.members[1].is_owner && !state.members[1].is_local);
    assert_eq!(state.selected_channel, ChannelId::general());
    assert_eq!(state.access(), CommunityAccess::Active);
    assert_eq!(state.local_member(), local());
}

#[test]
fn texts_are_shown_in_order_and_once() {
    let mut forwards = CommunityState::from_snapshot(&shared(), local());
    let mut backwards = CommunityState::from_snapshot(&shared(), local());
    for id in [3, 4, 5] {
        forwards.apply(text(remote(), id, "said"), 0);
        forwards.apply(text(remote(), id, "said"), 0);
        backwards.apply(text(remote(), 8 - id, "said"), 0);
    }
    assert_eq!(forwards, backwards);
    let ids: Vec<u8> = forwards
        .messages
        .iter()
        .map(|message| message.id.as_bytes()[0])
        .collect();
    assert_eq!(ids, vec![3, 4, 5]);
    assert_eq!(forwards.messages[0].author, "maren");
}

#[test]
fn unread_items_are_counted_until_they_are_read() {
    let general = ChannelId::general();
    let mut state = CommunityState::from_snapshot(&shared(), local());
    assert_eq!(state.latest_item(general), None);
    state.apply(text(remote(), 3, "one"), 0);
    state.apply(text(local(), 4, "own"), 0);
    state.apply(file(remote(), 5), 0);
    assert_eq!(state.unread_count(general), 2);
    assert_eq!(
        state.latest_item(general),
        Some(MessageId::from_bytes([5; 32]))
    );
    state.record_read(general, MessageId::from_bytes([3; 32]));
    assert_eq!(state.unread_count(general), 1);
    state.record_read(general, MessageId::from_bytes([5; 32]));
    state.record_read(general, MessageId::from_bytes([3; 32]));
    assert_eq!(state.unread_count(general), 0);
    assert_eq!(state.unread_count(ChannelId::voice_room()), 0);
}

#[test]
fn names_change_everywhere_at_once() {
    let mut state = CommunityState::from_snapshot(&shared(), local());
    state.apply(text(remote(), 3, "one"), 0);
    state.apply(file(remote(), 5), 0);
    state.apply(
        Event::DisplayNameChanged {
            member: remote(),
            name: DisplayName::new("juno").unwrap(),
        },
        0,
    );
    assert_eq!(state.members[1].name, "juno");
    assert_eq!(state.messages[0].author, "juno");
    assert_eq!(state.attachments[0].author, "juno");
    state.apply(
        Event::AttachmentForgotten {
            author: remote(),
            id: MessageId::from_bytes([5; 32]),
        },
        0,
    );
    assert!(state.attachments.is_empty());
}

#[test]
fn strangers_wait_until_they_are_let_in_or_dismissed() {
    let stranger = MemberId::from_bytes([7; 32]);
    let mut state = CommunityState::from_snapshot(&shared(), local());
    state.apply(Event::PeerConnected(remote()), 0);
    assert!(state.pending_members().is_empty());
    assert!(state.is_online(remote()));
    state.apply(Event::PeerConnected(stranger), 0);
    assert_eq!(state.pending_members(), vec![stranger]);
    state.dismiss_pending(stranger);
    assert!(state.pending_members().is_empty());
    state.apply(Event::PeerConnected(stranger), 0);
    let mut community = Community::new(local());
    community
        .change_membership(local(), MembershipChange::Admit(stranger))
        .unwrap();
    state.apply(Event::MembershipChanged(community), 0);
    assert!(state.pending_members().is_empty());
    assert_eq!(state.members.len(), 2);
}

#[test]
fn whoever_speaks_is_lit_for_a_moment() {
    let room = ChannelId::voice_room();
    let mut state = CommunityState::from_snapshot(&shared(), local());
    let frame =
        VoiceFrame::in_channel(VoiceStreamId::from_bytes([5; 16]), room, 0, vec![1]).unwrap();
    state.apply(
        Event::VoicePresence {
            channel: room,
            member: remote(),
            state: VoicePresence::Joined,
        },
        900 * MILLISECOND,
    );
    state.apply(
        Event::VoiceReceived(AuthoredVoice::new(remote(), frame)),
        1_000 * MILLISECOND,
    );
    assert!(state.is_speaking(room, remote(), 1_699 * MILLISECOND));
    assert!(!state.is_speaking(room, remote(), 1_700 * MILLISECOND));
    assert!(!state.is_speaking(room, local(), 1_000 * MILLISECOND));
    assert_eq!(state.voice_members(room).len(), 1);
    state.apply(
        Event::VoicePresence {
            channel: room,
            member: remote(),
            state: VoicePresence::Left,
        },
        1_100 * MILLISECOND,
    );
    assert!(!state.is_speaking(room, remote(), 1_100 * MILLISECOND));
    assert!(state.voice_members(room).is_empty());
}

#[test]
fn the_worst_selected_path_is_shown() {
    let path = |kind, selected, millis| ConnectionPathDiagnostic {
        kind,
        selected,
        rtt: millis * MILLISECOND + 999_999,
    };
    let mut state = CommunityState::from_snapshot(&shared(), local());
    state.apply_diagnostics(&vec![
        PeerDiagnostic {
            member: remote(),
            paths: vec![
                path(ConnectionPathKind::Direct, true, 40),
                path(ConnectionPathKind::Relay, false, 300),
            ],
        },
        PeerDiagnostic {
            member: MemberId::from_bytes([9; 32]),
            paths: vec![path(ConnectionPathKind::Relay, true, 200)],
        },
    ]);
    assert_eq!(state.connection(), Some((ConnectionPathKind::Direct, 40)));
    assert_eq!(state.peer_paths(remote()).len(), 2);
    assert_eq!(state.online_count(), 2);
    assert!(
        path_priority(ConnectionPathKind::Relay) > path_priority(ConnectionPathKind::Direct)
    );
    state.apply_diagnostics(&vec![]);
    assert_eq!(state.connection(), None);
}

#[test]
fn connectivity_reaches_the_configuration() {
    assert_eq!(ConnectivityMode::default(), ConnectivityMode::Wan);
    let config = create_new("/data", ConnectivityMode::RelayOnly);
    assert_eq!(config.connectivity, Connectivity::RelayOnly);
    assert_eq!(config.data_dir, "/data");
    assert_eq!(config.community, None);
    let existing = open_existing("/data", ConnectivityMode::Wan, true).unwrap();
    assert!(existing.require_existing_community);
    assert_eq!(
        open_existing("/data", ConnectivityMode::Wan, false).unwrap_err(),
        "/data is not an existing community"
    );
    assert!(recover("/data", ConnectivityMode::Wan).require_existing_community);
}

#[test]
fn invites_lead_to_their_community() {
    let key = ed25519_dalek::SigningKey::from_bytes(&[7; 32]);
    let id = iroh::EndpointId::from_bytes(&key.verifying_key().to_bytes()).unwrap();
    let text = serde_json::to_string(&iroh::EndpointAddr::new(id)).unwrap();
    let address = PeerAddress::from_text(&text).unwrap();
    let invite = CommunityInvite::new(CommunityId::from_bytes([3; 32]), address.clone());
    let (config, reached) = join_new("/data", &invite, ConnectivityMode::Wan);
    assert_eq!(
        config.community,
        Some((CommunityId::from_bytes([3; 32]), member_of(&[7; 32])))
    );
    assert_eq!(reached, address);
}

#[test]
fn an_opened_community_shows_its_address() {
    let replica = Replica::new(CommunityId::from_bytes([2; 32]), member_of(&[1; 32]), false);
    let egregore = Egregore::open(replica, [1; 32], [2; 32]).unwrap();
    let state = opened(&egregore, "here".to_owned()).unwrap();
    assert_eq!(state.local_address(), "here");
    assert_eq!(state.local_member(), member_of(&[1; 32]));
    assert_eq!(state.channels.len(), 2);
}

fn updates(session: &mut Session, command: SessionCommand) -> (Vec<SessionUpdate>, Action) {
    let step = session.command(command);
    (step.updates, step.action)
}

#[test]
fn joining_leaves_the_channel_before() {
    let first = ChannelId::from_bytes([1; 32]);
    let second = ChannelId::from_bytes([2; 32]);
    let mut session = Session::new();
    let (told, action) = updates(&mut session, SessionCommand::JoinVoice(first));
    assert!(matches!(
        &told[..],
        [SessionUpdate::Voice(VoiceUpdate::Joining(channel))] if *channel == first
    ));
    assert!(matches!(action, Action::JoinVoice { generation: 1, .. }));
    let step = session.reply(Reply::Done);
    assert!(matches!(
        &step.updates[..],
        [SessionUpdate::Voice(VoiceUpdate::Joined(_))]
    ));
    assert_eq!(session.voice, Some((1, first)));

    let (told, action) = updates(&mut session, SessionCommand::JoinVoice(second));
    assert!(matches!(
        &told[..],
        [SessionUpdate::Voice(VoiceUpdate::Leaving(channel))] if *channel == first
    ));
    assert!(matches!(action, Action::LeaveVoice));
    let step = session.reply(Reply::Failed("lost".to_owned()));
    assert!(matches!(
        &step.updates[..],
        [
            SessionUpdate::Voice(VoiceUpdate::Failed { .. }),
            SessionUpdate::Voice(VoiceUpdate::Joining(_))
        ]
    ));
    assert!(matches!(
        step.action,
        Action::JoinVoice { generation: 2, .. }
    ));
    session.reply(Reply::Done);

    let stale = SessionCommand::VoiceFinished {
        generation: 1,
        channel: first,
        result: Ok(()),
    };
    let (told, action) = updates(&mut session, stale);
    assert!(told.is_empty());
    assert!(matches!(action, Action::Nothing));
    let ended = SessionCommand::VoiceFinished {
        generation: 2,
        channel: second,
        result: Err("device lost".to_owned()),
    };
    let (told, action) = updates(&mut session, ended);
    assert!(matches!(action, Action::ReleaseVoice));
    assert!(matches!(
        &told[..],
        [SessionUpdate::Voice(VoiceUpdate::Failed { error, .. })] if error == "device lost"
    ));
    assert_eq!(session.voice, None);
}

#[test]
fn refused_commands_are_told() {
    let mut session = Session::new();
    let command = Command::SetDisplayName(DisplayName::new("first").unwrap());
    let (told, action) = updates(&mut session, SessionCommand::Execute(command));
    assert!(told.is_empty());
    assert!(matches!(action, Action::Execute(_)));
    let step = session.reply(Reply::Failed("no".to_owned()));
    assert!(matches!(
        &step.updates[..],
        [SessionUpdate::CommandFailed(error)] if error == "no"
    ));
    assert_eq!(session.pending, Pending::Nothing);

    updates(&mut session, SessionCommand::RequestInvite);
    let step = session.reply(Reply::Invite("come".to_owned()));
    assert!(matches!(
        &step.updates[..],
        [SessionUpdate::InviteReady(text)] if text == "come"
    ));
    let channel = ChannelId::general();
    let message = MessageId::from_bytes([3; 32]);
    updates(&mut session, SessionCommand::MarkRead { channel, message });
    let step = session.reply(Reply::Done);
    assert!(matches!(
        &step.updates[..],
        [SessionUpdate::ReadStored { .. }]
    ));
}

#[test]
fn shutting_down_leaves_the_voice_first() {
    let mut session = Session::new();
    updates(&mut session, SessionCommand::JoinVoice(ChannelId::voice_room()));
    session.reply(Reply::Done);
    let (_, action) = updates(&mut session, SessionCommand::SetVoiceMuted(true));
    assert!(matches!(action, Action::SetMuted(true)));
    let devices = VoiceDeviceConfig {
        input_device: Some("mic".to_owned()),
        output_device: None,
    };
    updates(&mut session, SessionCommand::SetVoiceDevices(devices));
    assert_eq!(session.devices().input_device.as_deref(), Some("mic"));
    let (_, action) = updates(&mut session, SessionCommand::Shutdown);
    assert!(matches!(action, Action::LeaveVoice));
    assert!(matches!(session.reply(Reply::Done).action, Action::Stop));
    assert_eq!(session.pending, Pending::Stopped);
    let mut silent = Session::new();
    let (told, action) = updates(&mut silent, SessionCommand::LeaveVoice);
    assert!(told.is_empty());
    assert!(matches!(action, Action::Nothing));
}

#[test]
fn voice_status_is_put_into_words() {
    let channel = ChannelId::voice_room();
    let mut voice = VoiceState::default();
    assert_eq!(voice.status(), "disconnected");
    voice.apply(VoiceUpdate::Joining(channel));
    assert_eq!(voice.status(), "joining");
    voice.apply(VoiceUpdate::Joined(channel));
    assert_eq!(voice.status(), "connected");
    voice.apply(VoiceUpdate::Muted(true));
    assert_eq!(voice.status(), "muted");
    voice.apply(VoiceUpdate::Deafened(true));
    assert_eq!(voice.status(), "deafened");
    voice.apply(VoiceUpdate::Failed {
        channel,
        error: "device lost".to_owned(),
    });
    assert_eq!(voice.status(), "device lost");
}

#[test]
fn new_channels_appear_once() {
    let mut state = CommunityState::from_snapshot(&shared(), local());
    let channel = Channel::new(ChannelId::from_bytes([7; 32]), "notes", ChannelKind::Text).unwrap();
    state.apply(Event::ChannelCreated(channel.clone()), 0);
    state.apply(Event::ChannelCreated(channel.clone()), 0);
    assert_eq!(state.channels.len(), 3);
    state.select_channel(channel.id());
    assert_eq!(state.selected_channel, channel.id());
    state.set_local_address("there".to_owned());
    assert_eq!(state.local_address(), "there");
}
