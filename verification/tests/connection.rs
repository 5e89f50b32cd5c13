use grimoire::community::{Community, MemberId, MembershipChange};
use grimoire::connection::{
    delivery, path_kind, reconnect_candidates, reconnect_delay, replace_connection, serving_order,
    track, Connectivity, ConnectionOrigin, ConnectionPathKind, Delivery, NodeConfig, Retries,
    Tracking,
};
use grimoire::fault::FaultKind;
use grimoire::model::{ChannelId, Event, VoicePresence};
use grimoire::sorted::SortedMap;
use grimoire::voice::{apply_voice_presence, clear_voice_presence, ActiveVoicePresence};

/// In nanoseconds.
const MILLISECOND: u64 = 1_000_000;

fn member(byte: u8) -> MemberId {
    MemberId::from_bytes([byte; 32])
}

#[test]
fn reconnect_candidates_are_admitted_remote_dial_owners_only() {
    let local = member(2);
    let mut community = Community::new(member(1));
    community
        .change_membership(member(1), MembershipChange::Admit(local))
        .unwrap();
    community
        .change_membership(member(1), MembershipChange::Admit(member(3)))
        .unwrap();
    community
        .change_membership(member(1), MembershipChange::Admit(member(4)))
        .unwrap();

    assert_eq!(
        reconnect_candidates(&community, local, &vec![member(3)]),
        vec![member(4)]
    );
}

#[test]
fn reconnect_backoff_is_bounded() {
    assert_eq!(reconnect_delay(0), 1);
    assert_eq!(reconnect_delay(3), 8);
    assert_eq!(reconnect_delay(99), 30);
}

#[test]
fn duplicate_connection_prefers_the_owned_direction() {
    assert!(replace_connection(
        member(1),
        member(2),
        ConnectionOrigin::Incoming,
        ConnectionOrigin::Outgoing,
    ));
    assert!(!replace_connection(
        member(2),
        member(1),
        ConnectionOrigin::Incoming,
        ConnectionOrigin::Outgoing,
    ));
    assert!(!replace_connection(
        member(1),
        member(2),
        ConnectionOrigin::Outgoing,
        ConnectionOrigin::Outgoing,
    ));
}

#[test]
fn voice_presence_enforces_cap_and_one_channel_per_member() {
    let channel = ChannelId::from_bytes([7; 32]);
    let other = ChannelId::from_bytes([8; 32]);
    let mut active = SortedMap::new();
    for byte in 1..=4 {
        assert_eq!(
            apply_voice_presence(&mut active, member(byte), channel, VoicePresence::Joined)
                .unwrap()
                .len(),
            1
        );
    }
    assert_eq!(
        apply_voice_presence(&mut active, member(5), channel, VoicePresence::Joined)
            .unwrap_err()
            .kind(),
        FaultKind::Authorization
    );

    let moved = apply_voice_presence(&mut active, member(1), other, VoicePresence::Joined).unwrap();
    assert!(matches!(
        moved.as_slice(),
        [
            Event::VoicePresence {
                channel: left,
                state: VoicePresence::Left,
                ..
            },
            Event::VoicePresence {
                channel: joined,
                state: VoicePresence::Joined,
                ..
            }
        ] if *left == channel && *joined == other
    ));
}

#[test]
fn concurrent_full_room_joins_choose_the_same_participants() {
    let channel = ChannelId::from_bytes([9; 32]);
    let mut active = SortedMap::new();
    for byte in 2..=5 {
        apply_voice_presence(&mut active, member(byte), channel, VoicePresence::Joined).unwrap();
    }

    let events =
        apply_voice_presence(&mut active, member(1), channel, VoicePresence::Joined).unwrap();

    assert!(!active.contains_key(member(5)));
    assert!(active.contains_key(member(1)));
    assert!(matches!(
        events.as_slice(),
        [
            Event::VoicePresence {
                member: displaced,
                state: VoicePresence::Left,
                ..
            },
            Event::VoicePresence {
                member: joined,
                state: VoicePresence::Joined,
                ..
            }
        ] if *displaced == member(5) && *joined == member(1)
    ));
}

#[test]
fn joins_in_any_order_leave_the_same_room() {
    let channel = ChannelId::from_bytes([9; 32]);
    let mut forwards = SortedMap::new();
    let mut backwards = SortedMap::new();
    for byte in 1..=6 {
        let _ = apply_voice_presence(&mut forwards, member(byte), channel, VoicePresence::Joined);
        let _ =
            apply_voice_presence(&mut backwards, member(7 - byte), channel, VoicePresence::Joined);
    }
    assert_eq!(forwards, backwards);
    assert_eq!(forwards.len(), 4);
}

#[test]
fn mutes_need_a_presence_in_the_same_channel() {
    let channel = ChannelId::from_bytes([9; 32]);
    let other = ChannelId::from_bytes([8; 32]);
    let mut active: SortedMap<MemberId, ActiveVoicePresence> = SortedMap::new();
    let absent =
        apply_voice_presence(&mut active, member(1), channel, VoicePresence::Muted(true))
            .unwrap_err();
    assert_eq!(absent.kind(), FaultKind::Protocol);
    assert_eq!(
        absent.message(),
        "voice mute requires an active voice presence"
    );
    apply_voice_presence(&mut active, member(1), channel, VoicePresence::Joined).unwrap();
    let elsewhere = apply_voice_presence(&mut active, member(1), other, VoicePresence::Muted(true))
        .unwrap_err();
    assert_eq!(
        elsewhere.message(),
        "voice mute references a different channel"
    );
    apply_voice_presence(&mut active, member(1), channel, VoicePresence::Muted(true)).unwrap();
    assert!(active.get(member(1)).unwrap().muted);
    assert!(matches!(
        clear_voice_presence(&mut active, member(1)),
        Some(Event::VoicePresence {
            state: VoicePresence::Left,
            ..
        })
    ));
    assert_eq!(clear_voice_presence(&mut active, member(1)), None);
}

#[test]
fn both_ends_keep_one_and_the_same_connection() {
    let low = member(1);
    let high = member(2);
    let open = vec![(high, ConnectionOrigin::Incoming)];
    assert_eq!(
        track(low, &open, high, ConnectionOrigin::Outgoing),
        Tracking::Replace(0)
    );
    let there = vec![(low, ConnectionOrigin::Outgoing)];
    assert_eq!(
        track(high, &there, low, ConnectionOrigin::Incoming),
        Tracking::Replace(0)
    );
    assert_eq!(
        track(high, &there, low, ConnectionOrigin::Outgoing),
        Tracking::Refuse
    );
    assert_eq!(
        track(low, &open, member(3), ConnectionOrigin::Outgoing),
        Tracking::Keep
    );
}

#[test]
fn delays_double_up_to_half_a_minute() {
    let delays: Vec<u64> = (0..7).map(reconnect_delay).collect();
    assert_eq!(delays, vec![1, 2, 4, 8, 16, 30, 30]);
}

#[test]
fn failed_attempts_are_tried_again_later() {
    let mut retries = Retries::new();
    assert!(retries.due(member(1), 1_000 * MILLISECOND));
    retries.failed(member(1), 1_000 * MILLISECOND);
    assert!(!retries.due(member(1), 1_999 * MILLISECOND));
    assert!(retries.due(member(1), 2_000 * MILLISECOND));
    retries.failed(member(1), 2_000 * MILLISECOND);
    assert!(!retries.due(member(1), 3_999 * MILLISECOND));
    assert!(retries.due(member(1), 4_000 * MILLISECOND));
    retries.connected(member(1));
    assert!(retries.due(member(1), 0));
    retries.failed(member(1), 0);
    retries.keep(&vec![member(2)]);
    assert!(retries.due(member(1), MILLISECOND));
}

#[test]
fn outsiders_get_only_their_removal() {
    let mut community = Community::new(member(1));
    community
        .change_membership(member(1), MembershipChange::Admit(member(2)))
        .unwrap();
    assert_eq!(
        delivery(&community, None, None, member(2)),
        Delivery::Send
    );
    assert_eq!(
        delivery(&community, None, None, member(3)),
        Delivery::Skip
    );
    assert_eq!(
        delivery(&community, Some(member(3)), Some(member(3)), member(3)),
        Delivery::SendAndClose
    );
    assert_eq!(
        delivery(&community, Some(member(3)), None, member(3)),
        Delivery::Skip
    );
    assert_eq!(
        serving_order(
            &vec![member(4), member(5), member(6)],
            Some(member(5))
        ),
        vec![1, 0, 2]
    );
}

#[test]
fn paths_and_configurations_are_told_apart() {
    assert_eq!(path_kind(true, true), ConnectionPathKind::Direct);
    assert_eq!(path_kind(false, true), ConnectionPathKind::Relay);
    assert_eq!(path_kind(false, false), ConnectionPathKind::Custom);
    let plain = NodeConfig::new("/data");
    assert_eq!(plain.data_dir, "/data");
    assert_eq!(plain.connectivity, Connectivity::Local);
    assert!(!plain.require_existing_community);
    let wide = plain.wan().existing();
    assert_eq!(wide.connectivity, Connectivity::Wan);
    assert!(wide.require_existing_community);
    assert_eq!(wide.relay_only().connectivity, Connectivity::RelayOnly);
}
