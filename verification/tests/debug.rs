use grimoire::community::MemberId;
use grimoire::debug::{
    audio_headline, crypto_headline, event_summary, push_capped, short_member, sparkline,
    DebugPage, DebugState, EVENT_LOG_LEN, HISTORY_LEN, SPARKLINE_LEN,
};
use grimoire::metrics::MetricsSnapshot;
use grimoire::model::{Channel, ChannelId, ChannelKind, DisplayName, Event, VoicePresence};

use std::collections::VecDeque;

#[test]
fn ring_buffers_cap_at_history_len() {
    let mut debug = DebugState::default();
    for i in 0..(HISTORY_LEN as u64 + 10) {
        let snapshot = MetricsSnapshot {
            db_bytes: i,
            ..Default::default()
        };
        debug.apply_metrics(snapshot);
    }
    assert_eq!(debug.db_bytes_history.len(), HISTORY_LEN);
    assert_eq!(
        *debug.db_bytes_history.back().unwrap(),
        HISTORY_LEN as u64 + 9
    );
}

#[test]
fn rates_are_deltas_between_snapshots() {
    let mut debug = DebugState::default();
    debug.apply_metrics(MetricsSnapshot {
        messages_sent: 10,
        messages_received: 4,
        ..Default::default()
    });
    assert_eq!(debug.send_rate_history.back(), Some(&0));
    debug.apply_metrics(MetricsSnapshot {
        messages_sent: 13,
        messages_received: 9,
        ..Default::default()
    });
    assert_eq!(debug.send_rate_history.back(), Some(&3));
    assert_eq!(debug.recv_rate_history.back(), Some(&5));
}

#[test]
fn event_log_caps_and_keeps_newest() {
    let mut debug = DebugState::default();
    for i in 0..(EVENT_LOG_LEN + 5) {
        debug.push_event(format!("event {i}"), String::new(), 0);
    }
    assert_eq!(debug.events.len(), EVENT_LOG_LEN);
    assert!(debug
        .events
        .back()
        .unwrap()
        .summary
        .ends_with(&format!("{}", EVENT_LOG_LEN + 4)));
}

#[test]
fn rtt_history_tracked_per_member() {
    let mut debug = DebugState::default();
    let member = MemberId::from_bytes([7u8; 32]);
    debug.push_rtt(member, 12);
    debug.push_rtt(member, 15);
    assert_eq!(debug.rtt_history.get(member).unwrap().len(), 2);
}

#[test]
fn short_member_formats_leading_bytes_as_hex() {
    let mut bytes = [0u8; 32];
    bytes[..4].copy_from_slice(&[0xab, 0xcd, 0x01, 0xef]);
    let member = MemberId::from_bytes(bytes);
    assert_eq!(short_member(&member), "abcd01ef");
}

#[test]
fn event_summary_peer_connected_includes_member_hex() {
    let member = MemberId::from_bytes([7u8; 32]);
    let summary = event_summary(&Event::PeerConnected(member));
    assert!(summary.starts_with("peer connected"));
    assert!(summary.ends_with("07070707"), "got {summary:?}");
}

#[test]
fn event_summary_display_name_changed_includes_name() {
    let member = MemberId::from_bytes([1u8; 32]);
    let name = DisplayName::new("Alice").unwrap();
    assert_eq!(
        event_summary(&Event::DisplayNameChanged { member, name }),
        "display name changed to Alice"
    );
}

#[test]
fn event_summary_channel_created_includes_name() {
    let channel = Channel::new(ChannelId::general(), "random-chat", ChannelKind::Text).unwrap();
    assert_eq!(
        event_summary(&Event::ChannelCreated(channel)),
        "channel created random-chat"
    );
}

#[test]
fn event_summary_voice_presence_includes_state() {
    let summary = event_summary(&Event::VoicePresence {
        channel: ChannelId::voice_room(),
        member: MemberId::from_bytes([2u8; 32]),
        state: VoicePresence::Joined,
    });
    assert!(summary.starts_with("voice presence changed"));
    assert!(summary.contains("Joined"), "got {summary:?}");
}

#[test]
fn full_buffers_drop_their_oldest() {
    let mut buffer = VecDeque::new();
    for value in 1..=5 {
        push_capped(&mut buffer, value, 3);
    }
    assert_eq!(buffer, VecDeque::from(vec![3, 4, 5]));
}

#[test]
fn sparklines_show_the_latest_values() {
    let history: VecDeque<u64> = (0..100).collect();
    let (values, highest) = sparkline(&history);
    assert_eq!(values.len(), SPARKLINE_LEN);
    assert_eq!(values.last(), Some(&99));
    assert_eq!(highest, 99);
    let (empty, _) = sparkline(&VecDeque::new());
    assert!(empty.iter().all(|value| *value == 0));
}

#[test]
fn the_latest_event_is_quoted() {
    let mut debug = DebugState::default();
    let quiet = debug.latest_event();
    debug.push_event("joined".to_owned(), "maren".to_owned(), 7);
    assert_ne!(debug.latest_event(), quiet);
    assert!(debug.latest_event().contains("joined"));
    assert_eq!(debug.events.back().unwrap().at, 7);
}

#[test]
fn pages_and_headlines_are_labelled() {
    assert_eq!(DebugPage::all().len(), 6);
    assert_eq!(DebugPage::default(), DebugPage::Overview);
    assert_eq!(DebugPage::all()[0].label(), DebugPage::Overview.label());
    let metrics = MetricsSnapshot {
        content_epoch: 31,
        membership_revision: 4,
        voice_frames_sent: 17,
        voice_frames_received: 9,
        ..Default::default()
    };
    assert_eq!(crypto_headline(&metrics), "epoch 31 · rev 4");
    assert_eq!(audio_headline(&metrics), "17 sent · 9 recv");
}
