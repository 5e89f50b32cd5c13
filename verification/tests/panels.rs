use grimoire::community::{Community, MemberId, MembershipChange};
use grimoire::config::AppConfig;
use grimoire::connection::{ConnectionPathDiagnostic, ConnectionPathKind, PeerDiagnostic};
use grimoire::model::{
    AuthoredText, AuthoredVoice, Channel, ChannelId, ChannelKind, Event, MessageId, Snapshot,
    TextMessage, VoiceFrame, VoicePresence, VoiceStreamId,
};
use grimoire::panels::{
    access_notice, initial, knock_label, Asked, Entrance, Panel, VoiceNote,
};
use grimoire::session::{SessionUpdate, VoiceUpdate};
use grimoire::shell::{Onboarding, Overlay, Shell};
use grimoire::sorted::SortedMap;
use grimoire::state::{CommunityAccess, CommunityState};

fn member(byte: u8) -> MemberId {
    MemberId::from_bytes([byte; 32])
}

/// A window onto a community of three: an owner, a member and an availability peer. The first
/// argument is the member that looks at it.
fn window(local: MemberId) -> Shell {
    let owner = member(1);
    let mut community = Community::new(owner);
    community
        .change_membership(owner, MembershipChange::Admit(member(2)))
        .unwrap();
    community
        .change_membership(owner, MembershipChange::AdmitAvailability(member(3)))
        .unwrap();
    let snapshot = Snapshot::new(
        Channel::default_channels().to_vec(),
        vec![],
        vec![],
        community,
        SortedMap::new(),
    );
    let (shell, _) = Shell::new(
        Ok(Some(CommunityState::from_snapshot(&snapshot, local))),
        vec!["/one".to_owned(), "/two".to_owned()],
        AppConfig::default(),
        false,
    );
    shell
}

fn tell(shell: &mut Shell, event: Event, now: u64) {
    shell.apply_session_update("/one", SessionUpdate::Event(event), now);
}

#[test]
fn the_entrance_offers_ways_in() {
    let (mut shell, _) = Shell::new(Ok(None), vec![], AppConfig::default(), false);
    assert!(matches!(
        shell.entrance(),
        Entrance::Choices {
            transport: "transport: automatic (direct + relay)",
            way_back: false
        }
    ));
    shell.config.relay_only = true;
    shell.switching_community = true;
    assert!(matches!(
        shell.entrance(),
        Entrance::Choices {
            transport: "transport: relay only ✓",
            way_back: true
        }
    ));
    let asked = |shell: &mut Shell, screen: Onboarding| {
        shell.show_onboarding(screen);
        match shell.entrance() {
            Entrance::Form {
                title,
                submit,
                asks,
            } => (title, submit, asks),
            _ => panic!("a form is shown"),
        }
    };
    assert_eq!(
        asked(&mut shell, Onboarding::Create),
        (
            "create a Community",
            "create",
            vec![Asked::Name, Asked::DataDir]
        )
    );
    assert_eq!(
        asked(&mut shell, Onboarding::Join),
        (
            "join a Community",
            "join",
            vec![Asked::Name, Asked::DataDir, Asked::Invite]
        )
    );
    assert_eq!(
        asked(&mut shell, Onboarding::Recover),
        (
            "recover an identity",
            "recover",
            vec![Asked::DataDir, Asked::Backup, Asked::Passphrase]
        )
    );
    shell.onboarding = Onboarding::Opening;
    assert!(matches!(
        shell.entrance(),
        Entrance::Busy("opening encrypted Community… keep this window open")
    ));
}

#[test]
fn missing_access_is_explained() {
    assert_eq!(access_notice(CommunityAccess::Active), None);
    let (title, _) = access_notice(CommunityAccess::Waiting).unwrap();
    assert_eq!(title, "⧖ waiting for admission");
    let (title, detail) = access_notice(CommunityAccess::Removed).unwrap();
    assert_eq!(title, "your access ended");
    assert_eq!(
        detail,
        "History already stored on this device remains available in its data directory."
    );
}

#[test]
fn settings_name_the_devices() {
    let mut shell = window(member(1));
    assert!(shell.panel().is_none());
    shell.overlay = Some(Overlay::Settings);
    shell.config.voice_input_device = Some("mic one".to_owned());
    match shell.panel() {
        Some(Panel::Settings {
            transport,
            input,
            output,
        }) => {
            assert_eq!(transport, "automatic transport on next open");
            assert_eq!(input, "input · mic one");
            assert_eq!(output, "output · system default");
        }
        _ => panic!("the settings are shown"),
    }
    shell.overlay = Some(Overlay::CreateChannel(ChannelKind::Voice));
    assert!(matches!(
        shell.panel(),
        Some(Panel::CreateChannel {
            title: "create voice channel",
            kind: ChannelKind::Voice
        })
    ));
    shell.overlay = Some(Overlay::ConfirmRemove(member(2)));
    assert!(matches!(
        shell.panel(),
        Some(Panel::ConfirmRemove { member: removed, fingerprint })
            if removed == member(2) && fingerprint == "02".repeat(32)
    ));
}

#[test]
fn members_are_described() {
    let path = |kind, selected, millis: u64| ConnectionPathDiagnostic {
        kind,
        selected,
        rtt: millis * 1_000_000,
    };
    let mut shell = window(member(1));
    shell.apply_session_update(
        "/one",
        SessionUpdate::Diagnostics(vec![PeerDiagnostic {
            member: member(3),
            paths: vec![
                path(ConnectionPathKind::Direct, true, 40),
                path(ConnectionPathKind::Relay, false, 300),
            ],
        }]),
        0,
    );
    let described = |shell: &mut Shell, who: MemberId| {
        shell.overlay = Some(Overlay::Member(who));
        match shell.panel() {
            Some(Panel::Member {
                name,
                availability,
                fingerprint,
                paths,
                removable,
            }) => (name, availability, fingerprint, paths, removable),
            _ => panic!("a member is shown"),
        }
    };
    let (_, availability, fingerprint, paths, removable) = described(&mut shell, member(3));
    assert!(availability && removable);
    assert_eq!(fingerprint, "03".repeat(32));
    assert_eq!(paths.len(), 2);
    assert_eq!(paths[0].text, "DIRECT 40ms · selected");
    assert!(paths[0].selected);
    assert_eq!(paths[1].text, "RELAY 300ms");
    let (_, availability, _, paths, removable) = described(&mut shell, member(1));
    assert!(!availability && paths.is_empty() && !removable);
    let (name, _, _, _, removable) = described(&mut shell, member(9));
    assert_eq!(name, "unknown member");
    assert!(!removable);
    let mut guest = window(member(2));
    assert!(!described(&mut guest, member(3)).4);
}

#[test]
fn the_sidebar_lists_channels_and_voices() {
    let room = ChannelId::voice_room();
    let mut shell = window(member(1));
    let sidebar = shell.sidebar(0);
    assert!(sidebar.dock.is_none());
    let tree = sidebar.tree.unwrap();
    assert!(tree.creates);
    assert_eq!(tree.communities.len(), 2);
    assert!(tree.communities[0].active && !tree.communities[1].active);
    assert!(!tree.communities[0].voice);
    assert_eq!(tree.texts.len(), 1);
    assert!(tree.texts[0].active);
    assert_eq!(tree.texts[0].occupancy, None);
    assert_eq!(tree.voices.len(), 1);
    assert_eq!(tree.voices[0].row.occupancy, Some(0));
    assert!(!window(member(2)).sidebar(0).tree.unwrap().creates);

    shell.select_channel(room);
    shell.apply_voice_update("/one", VoiceUpdate::Joined(room));
    let text = TextMessage::new(MessageId::from_bytes([9; 32]), "news").unwrap();
    tell(
        &mut shell,
        Event::TextStored(AuthoredText::new(member(2), text)),
        0,
    );
    for state in [VoicePresence::Joined, VoicePresence::Muted(true)] {
        tell(
            &mut shell,
            Event::VoicePresence {
                channel: room,
                member: member(1),
                state,
            },
            0,
        );
    }
    tell(
        &mut shell,
        Event::VoicePresence {
            channel: room,
            member: member(2),
            state: VoicePresence::Joined,
        },
        0,
    );
    let frame =
        VoiceFrame::in_channel(VoiceStreamId::from_bytes([5; 16]), room, 0, vec![1]).unwrap();
    tell(
        &mut shell,
        Event::VoiceReceived(AuthoredVoice::new(member(2), frame)),
        1_000_000_000,
    );
    let sidebar = shell.sidebar(1_699_000_000);
    let tree = sidebar.tree.unwrap();
    assert!(tree.communities[0].voice);
    assert_eq!(tree.texts[0].unread, 1);
    assert!(!tree.texts[0].active);
    let group = &tree.voices[0];
    assert!(group.row.active);
    assert_eq!(group.row.occupancy, Some(2));
    assert!(!group.row.is_full());
    assert_eq!(group.seats.len(), 2);
    assert_eq!(group.seats[0].note, VoiceNote::MicOff);
    assert_eq!(group.seats[1].note, VoiceNote::Speaking);
    assert!(group.seats[1].lit);
    let dock = sidebar.dock.unwrap();
    assert_eq!(dock.channel, "Voice Room");
    assert!(dock.connected);
    assert_eq!(dock.status, "connected");
    assert_eq!((dock.mute, dock.deafen), ("mute", "deafen"));
    let quiet = shell.sidebar(1_700_000_000).tree.unwrap();
    assert_eq!(quiet.voices[0].seats[1].note, VoiceNote::Quiet);
    assert_eq!(
        shell.room_line().as_deref(),
        Some("2/4 participants · connected")
    );
}

#[test]
fn without_a_community_the_sidebar_is_a_sample() {
    let (shell, _) = Shell::new(Ok(None), vec![], AppConfig::default(), true);
    let sidebar = shell.sidebar(0);
    assert!(sidebar.tree.is_none());
    assert_eq!(sidebar.local_name, "maren");
    assert_eq!(sidebar.dock.unwrap().channel, "lounge");
    assert_eq!(shell.room_line(), None);
    assert_eq!(shell.awake_line(), None);
}

#[test]
fn small_texts_are_spelled() {
    let shell = window(member(1));
    assert_eq!(shell.room_line(), None);
    assert_eq!(shell.awake_line().as_deref(), Some("1/3 awake"));
    assert_eq!(knock_label(member(0xab)), "abababababab…");
    assert_eq!(initial("maren"), 'm');
    assert_eq!(initial(""), '?');
}
