//! What a user who looks closer is shown: counts over time, and the latest events.

use std::collections::VecDeque;

use vstd::prelude::*;

use crate::bytes::bytes_between;
use crate::community::MemberId;
use crate::metrics::MetricsSnapshot;
use crate::model::{Event, VoicePresence};
use crate::outcome::EventModel;
use crate::sorted::SortedMap;
use crate::text::{decimal, hex, push_decimal, push_hex, push_text};

verus! {

/// Samples that are kept: two minutes, one a second.
pub const HISTORY_LEN: usize = 120;

/// Events that are kept.
pub const EVENT_LOG_LEN: usize = 500;

/// Samples that a small chart shows.
pub const SPARKLINE_LEN: usize = 60;

/// An event: when it was, in nanoseconds, and what it was.
#[derive(Clone, Debug)]
pub struct DebugEvent {
    pub at: u64,
    pub summary: String,
    pub detail: String,
}

/// Counts over time, and the latest events.
#[derive(Debug)]
pub struct DebugState {
    pub current: Option<MetricsSnapshot>,
    pub previous: Option<MetricsSnapshot>,
    pub db_bytes_history: VecDeque<u64>,
    pub send_rate_history: VecDeque<u64>,
    pub recv_rate_history: VecDeque<u64>,
    pub rtt_history: SortedMap<MemberId, VecDeque<u64>>,
    pub events: VecDeque<DebugEvent>,
}

/// What a log holds.
#[verifier::ext_equal]
pub struct DebugModel {
    pub current: Option<MetricsSnapshot>,
    pub previous: Option<MetricsSnapshot>,
    pub db_bytes_history: Seq<u64>,
    pub send_rate_history: Seq<u64>,
    pub recv_rate_history: Seq<u64>,
    pub rtt_history: Map<MemberId, Seq<u64>>,
    pub events: Seq<DebugEvent>,
}

/// Round trips, by member.
pub open spec fn samples(history: Map<MemberId, VecDeque<u64>>) -> Map<MemberId, Seq<u64>> {
    history.map_values(|buffer: VecDeque<u64>| buffer@)
}

impl View for DebugState {
    type V = DebugModel;

    open spec fn view(&self) -> DebugModel {
        DebugModel {
            current: self.current,
            previous: self.previous,
            db_bytes_history: self.db_bytes_history@,
            send_rate_history: self.send_rate_history@,
            recv_rate_history: self.recv_rate_history@,
            rtt_history: samples(self.rtt_history@),
            events: self.events@,
        }
    }
}

/// The list with one more at its end; where it was full the oldest leaves.
pub open spec fn pushed_capped<T>(list: Seq<T>, value: T, cap: usize) -> Seq<T> {
    if list.len() == cap && list.len() > 0 {
        list.drop_first().push(value)
    } else {
        list.push(value)
    }
}

/// Puts `value` at the end; where the buffer is full the oldest leaves.
pub fn push_capped<T>(buffer: &mut VecDeque<T>, value: T, cap: usize)
    ensures
        final(buffer)@ == pushed_capped(old(buffer)@, value, cap),
{
    let ghost before = buffer@;
    if buffer.len() == cap {
        let _oldest: Option<T> = buffer.pop_front();
        assert(before.len() > 0 ==> buffer@ =~= before.drop_first());
    }
    buffer.push_back(value);
}

/// A capped list stays within its cap, and its last item is the one that came last.
pub proof fn capped_lists_stay_capped<T>(list: Seq<T>, value: T, cap: usize)
    requires
        0 < cap,
        list.len() <= cap,
    ensures
        pushed_capped(list, value, cap).len() <= cap,
        pushed_capped(list, value, cap).len() >= list.len(),
        pushed_capped(list, value, cap).last() == value,
{
}

/// By how much a count rose; nothing where it fell.
pub open spec fn rise(before: u64, after: u64) -> u64 {
    if after > before {
        (after - before) as u64
    } else {
        0
    }
}

impl DebugModel {
    /// A log of which nothing is known.
    pub open spec fn blank() -> DebugModel {
        DebugModel {
            current: None,
            previous: None,
            db_bytes_history: Seq::empty(),
            send_rate_history: Seq::empty(),
            recv_rate_history: Seq::empty(),
            rtt_history: Map::empty(),
            events: Seq::empty(),
        }
    }

    /// Whether nothing is kept longer than it is to be.
    pub open spec fn capped(self) -> bool {
        &&& self.db_bytes_history.len() <= HISTORY_LEN
        &&& self.send_rate_history.len() <= HISTORY_LEN
        &&& self.recv_rate_history.len() <= HISTORY_LEN
        &&& self.events.len() <= EVENT_LOG_LEN
        &&& forall|member: MemberId| #[trigger]
            self.rtt_history.dom().contains(member) ==> self.rtt_history[member].len()
                <= HISTORY_LEN
    }

    /// The log after a snapshot of the counts: rates are what the counts rose by.
    pub open spec fn measured(self, snapshot: MetricsSnapshot) -> DebugModel {
        let sent = match self.current {
            Some(before) => rise(before.messages_sent, snapshot.messages_sent),
            None => 0,
        };
        let received = match self.current {
            Some(before) => rise(before.messages_received, snapshot.messages_received),
            None => 0,
        };
        DebugModel {
            current: Some(snapshot),
            previous: self.current,
            db_bytes_history: pushed_capped(self.db_bytes_history, snapshot.db_bytes, HISTORY_LEN),
            send_rate_history: pushed_capped(self.send_rate_history, sent, HISTORY_LEN),
            recv_rate_history: pushed_capped(self.recv_rate_history, received, HISTORY_LEN),
            ..self
        }
    }

    /// The log after a round trip to a member.
    pub open spec fn timed(self, member: MemberId, rtt_ms: u64) -> DebugModel {
        let before = if self.rtt_history.dom().contains(member) {
            self.rtt_history[member]
        } else {
            Seq::empty()
        };
        DebugModel {
            rtt_history: self.rtt_history.insert(
                member,
                pushed_capped(before, rtt_ms, HISTORY_LEN),
            ),
            ..self
        }
    }
}

/// Whatever is logged, nothing is kept longer than it is to be.
pub proof fn logs_stay_capped(
    log: DebugModel,
    snapshot: MetricsSnapshot,
    member: MemberId,
    rtt_ms: u64,
    event: DebugEvent,
)
    requires
        log.capped(),
    ensures
        log.measured(snapshot).capped(),
        log.timed(member, rtt_ms).capped(),
        (DebugModel { events: pushed_capped(log.events, event, EVENT_LOG_LEN), ..log }).capped(),
{
}

impl Default for DebugState {
    fn default() -> (state: Self)
        ensures
            state@ == DebugModel::blank(),
            state@.capped(),
    {
        let state: DebugState = DebugState {
            current: None,
            previous: None,
            db_bytes_history: VecDeque::new(),
            send_rate_history: VecDeque::new(),
            recv_rate_history: VecDeque::new(),
            rtt_history: SortedMap::new(),
            events: VecDeque::new(),
        };
        assert(state@ =~= DebugModel::blank());
        state
    }
}

impl DebugState {
    /// Takes a snapshot of the counts.
    pub fn apply_metrics(&mut self, snapshot: MetricsSnapshot)
        ensures
            final(self)@ == old(self)@.measured(snapshot),
    {
        let previous: Option<MetricsSnapshot> = self.current;
        self.current = Some(snapshot);
        let (sent, received): (u64, u64) = match previous {
            Some(before) => (
                snapshot.messages_sent.saturating_sub(before.messages_sent),
                snapshot.messages_received.saturating_sub(before.messages_received),
            ),
            None => (0, 0),
        };
        self.previous = previous;
        push_capped(&mut self.db_bytes_history, snapshot.db_bytes, HISTORY_LEN);
        push_capped(&mut self.send_rate_history, sent, HISTORY_LEN);
        push_capped(&mut self.recv_rate_history, received, HISTORY_LEN);
    }

    /// Takes how long a round trip to a member took.
    pub fn push_rtt(&mut self, member: MemberId, rtt_ms: u64)
        ensures
            final(self)@ == old(self)@.timed(member, rtt_ms),
    {
        let ghost before = self.rtt_history@;
        let mut buffer: VecDeque<u64> = match self.rtt_history.remove(member) {
            Some(buffer) => buffer,
            None => VecDeque::new(),
        };
        let ghost earlier = buffer@;
        assert(earlier =~= if samples(before).dom().contains(member) {
            samples(before)[member]
        } else {
            Seq::empty()
        });
        push_capped(&mut buffer, rtt_ms, HISTORY_LEN);
        self.rtt_history.insert(member, buffer);
        assert(samples(self.rtt_history@) =~= samples(before).insert(member, buffer@));
    }

    /// Takes an event.
    pub fn push_event(&mut self, summary: String, detail: String, at: u64)
        ensures
            final(self)@ == (DebugModel {
                events: pushed_capped(
                    old(self)@.events,
                    DebugEvent { at, summary, detail },
                    EVENT_LOG_LEN,
                ),
                ..old(self)@
            }),
    {
        push_capped(&mut self.events, DebugEvent { at, summary, detail }, EVENT_LOG_LEN);
    }

    /// What the latest event was.
    pub fn latest_event(&self) -> (text: String)
        ensures
            text@ == (if self@.events.len() > 0 {
                self@.events.last().summary@
            } else {
                "no events yet"@
            }),
    {
        if self.events.len() > 0 {
            self.events[self.events.len() - 1].summary.clone()
        } else {
            "no events yet".to_owned()
        }
    }
}

/// What is said of where a member is.
pub open spec fn presence_text(state: VoicePresence) -> Seq<char> {
    match state {
        VoicePresence::Joined => "Joined"@,
        VoicePresence::Left => "Left"@,
        VoicePresence::Muted(muted) => if muted {
            "Muted(true)"@
        } else {
            "Muted(false)"@
        },
    }
}

/// An event in one line.
pub open spec fn summary_of(event: EventModel) -> Seq<char> {
    match event {
        EventModel::PeerConnected(member) => "peer connected "@ + hex(member@.take(4)),
        EventModel::DisplayNameChanged { member, name } => "display name changed to "@ + name,
        EventModel::ChannelCreated(channel) => "channel created "@ + channel.name,
        EventModel::TextStored { .. } => "message stored"@,
        EventModel::AttachmentStored { .. } => "attachment stored"@,
        EventModel::AttachmentForgotten { .. } => "attachment forgotten"@,
        EventModel::VoiceReceived { .. } => "voice frame received"@,
        EventModel::VoicePresence { channel, member, state } => "voice presence changed: "@
            + presence_text(state),
        EventModel::MembershipChanged(_) => "membership changed"@,
        EventModel::Fault(_) => "fault"@,
    }
}

/// An event in one line.
pub fn event_summary(event: &Event) -> (summary: String)
    ensures
        summary@ == summary_of(event@),
{
    match event {
        Event::PeerConnected(member) => {
            let mut text: String = "peer connected ".to_owned();
            let short: String = short_member(member);
            push_text(&mut text, short.as_str());
            text
        },
        Event::DisplayNameChanged { member: _, name } => {
            let mut text: String = "display name changed to ".to_owned();
            push_text(&mut text, name.as_str());
            text
        },
        Event::ChannelCreated(channel) => {
            let mut text: String = "channel created ".to_owned();
            push_text(&mut text, channel.name());
            text
        },
        Event::TextStored(_) => "message stored".to_owned(),
        Event::AttachmentStored(_) => "attachment stored".to_owned(),
        Event::AttachmentForgotten { .. } => "attachment forgotten".to_owned(),
        Event::VoiceReceived(_) => "voice frame received".to_owned(),
        Event::VoicePresence { channel: _, member: _, state } => {
            let mut text: String = "voice presence changed: ".to_owned();
            let said: &str = match state {
                VoicePresence::Joined => "Joined",
                VoicePresence::Left => "Left",
                VoicePresence::Muted(muted) => if *muted {
                    "Muted(true)"
                } else {
                    "Muted(false)"
                },
            };
            push_text(&mut text, said);
            text
        },
        Event::MembershipChanged(_) => "membership changed".to_owned(),
        Event::Fault(_) => "fault".to_owned(),
    }
}

/// The first four bytes of a member's name, in hexadecimal.
pub fn short_member(member: &MemberId) -> (text: String)
    ensures
        text@ == hex(member@.take(4)),
{
    let start: Vec<u8> = bytes_between(member.0.as_slice(), 0, 4);
    let mut text: String = String::new();
    push_hex(&mut text, start.as_slice());
    assert(member@.subrange(0, 4) =~= member@.take(4));
    assert(text@ =~= hex(member@.take(4)));
    text
}

/// The pages.
#[derive(Clone, Copy, Debug, PartialEq, Eq, Structural)]
pub enum DebugPage {
    Overview,
    Connections,
    Storage,
    Crypto,
    Audio,
    Events,
}

impl Default for DebugPage {
    fn default() -> (page: Self)
        ensures
            page is Overview,
    {
        DebugPage::Overview
    }
}

/// What a page is called.
pub open spec fn page_name(page: DebugPage) -> Seq<char> {
    match page {
        DebugPage::Overview => "overview"@,
        DebugPage::Connections => "connections"@,
        DebugPage::Storage => "storage"@,
        DebugPage::Crypto => "crypto"@,
        DebugPage::Audio => "audio"@,
        DebugPage::Events => "events"@,
    }
}

impl DebugPage {
    /// The pages, in the order in which they are listed.
    pub fn all() -> (pages: [DebugPage; 6])
        ensures
            pages@ == seq![
                DebugPage::Overview,
                DebugPage::Connections,
                DebugPage::Storage,
                DebugPage::Crypto,
                DebugPage::Audio,
                DebugPage::Events,
            ],
    {
        let pages: [DebugPage; 6] = [
            DebugPage::Overview,
            DebugPage::Connections,
            DebugPage::Storage,
            DebugPage::Crypto,
            DebugPage::Audio,
            DebugPage::Events,
        ];
        assert(pages@ =~= seq![
            DebugPage::Overview,
            DebugPage::Connections,
            DebugPage::Storage,
            DebugPage::Crypto,
            DebugPage::Audio,
            DebugPage::Events,
        ]);
        pages
    }

    /// What the page is called.
    pub fn label(self) -> (label: &'static str)
        ensures
            label@ == page_name(self),
    {
        match self {
            DebugPage::Overview => "overview",
            DebugPage::Connections => "connections",
            DebugPage::Storage => "storage",
            DebugPage::Crypto => "crypto",
            DebugPage::Audio => "audio",
            DebugPage::Events => "events",
        }
    }
}

/// What the overview says of the keys.
pub fn crypto_headline(metrics: &MetricsSnapshot) -> (text: String)
    ensures
        text@ == "epoch "@ + decimal(metrics.content_epoch as nat) + " · rev "@ + decimal(
            metrics.membership_revision as nat,
        ),
{
    let mut text: String = "epoch ".to_owned();
    push_decimal(&mut text, metrics.content_epoch);
    push_text(&mut text, " · rev ");
    push_decimal(&mut text, metrics.membership_revision);
    text
}

/// What the overview says of voice.
pub fn audio_headline(metrics: &MetricsSnapshot) -> (text: String)
    ensures
        text@ == decimal(metrics.voice_frames_sent as nat) + " sent · "@ + decimal(
            metrics.voice_frames_received as nat,
        ) + " recv"@,
{
    let mut text: String = String::new();
    push_decimal(&mut text, metrics.voice_frames_sent);
    assert(text@ =~= decimal(metrics.voice_frames_sent as nat));
    push_text(&mut text, " sent · ");
    push_decimal(&mut text, metrics.voice_frames_received);
    push_text(&mut text, " recv");
    text
}

/// The latest samples, as many as a small chart shows, and the highest of them; at least one.
pub fn sparkline(history: &VecDeque<u64>) -> (chart: (Vec<u64>, u64))
    ensures
        chart.0@ == history@.skip(
            if history@.len() > SPARKLINE_LEN {
                history@.len() - SPARKLINE_LEN
            } else {
                0
            },
        ),
        chart.1 >= 1,
        forall|i: int| 0 <= i < chart.0@.len() ==> #[trigger] chart.0@[i] <= chart.1,
        chart.1 == 1 || chart.0@.contains(chart.1),
{
    let start: usize = if history.len() > SPARKLINE_LEN {
        history.len() - SPARKLINE_LEN
    } else {
        0
    };
    let mut list: Vec<u64> = Vec::new();
    let mut highest: u64 = 1;
    let mut i: usize = start;
    while i < history.len()
        invariant
            start <= i <= history@.len(),
            list@ == history@.subrange(start as int, i as int),
            highest >= 1,
            forall|j: int| 0 <= j < list@.len() ==> #[trigger] list@[j] <= highest,
            highest == 1 || list@.contains(highest),
        decreases history@.len() - i,
    {
        let sample: u64 = history[i];
        let ghost before = list@;
        list.push(sample);
        assert(list@[before.len() as int] == sample);
        proof {
            if before.contains(highest) {
                let k = before.index_of(highest);
                assert(list@[k] == highest);
            }
        }
        if sample > highest {
            highest = sample;
        }
        i += 1;
        assert(list@ =~= history@.subrange(start as int, i as int));
    }
    assert(list@ =~= history@.skip(start as int));
    (list, highest)
}

/// A capped list takes every new value last and lets go of nothing but the oldest, and of that only
/// where it is full.
pub proof fn capped_lists_let_go_of_the_oldest<T>(list: Seq<T>, value: T, cap: usize)
    requires
        0 < cap,
        list.len() <= cap,
    ensures
        list.len() < cap ==> pushed_capped(list, value, cap) == list + seq![value],
        list.len() == cap ==> pushed_capped(list, value, cap).len() == cap,
        list.len() == cap ==> forall|i: int|
            0 <= i < cap - 1 ==> #[trigger] pushed_capped(list, value, cap)[i] == list[i + 1],
        pushed_capped(list, value, cap).last() == value,
{
}

/// Every measurement is noted: the size of the store as it is, and the traffic as the rise since the
/// measurement before, or nothing where there was none. The last hundred and twenty are kept.
pub proof fn measurements_are_noted(log: DebugModel, snapshot: MetricsSnapshot)
    requires
        log.capped(),
    ensures
        ({
            let after = log.measured(snapshot);
            &&& after.current == Some(snapshot)
            &&& after.previous == log.current
            &&& after.db_bytes_history.last() == snapshot.db_bytes
            &&& log.current is None ==> after.send_rate_history.last() == 0
                && after.recv_rate_history.last() == 0
            &&& log.current matches Some(before) ==> {
                &&& snapshot.messages_sent >= before.messages_sent
                    ==> after.send_rate_history.last() == snapshot.messages_sent
                    - before.messages_sent
                &&& snapshot.messages_received >= before.messages_received
                    ==> after.recv_rate_history.last() == snapshot.messages_received
                    - before.messages_received
            }
            &&& after.rtt_history == log.rtt_history
            &&& after.events == log.events
            &&& log.db_bytes_history.len() < 120 ==> after.db_bytes_history
                == log.db_bytes_history + seq![snapshot.db_bytes]
        }),
{
}

/// A round trip is noted with its member, and with nobody else.
pub proof fn round_trips_are_noted(log: DebugModel, member: MemberId, rtt_ms: u64, other: MemberId)
    requires
        log.capped(),
    ensures
        ({
            let after = log.timed(member, rtt_ms);
            &&& after.rtt_history.dom().contains(member)
            &&& after.rtt_history[member].last() == rtt_ms
            &&& !log.rtt_history.dom().contains(member) ==> after.rtt_history[member] == seq![rtt_ms]
            &&& other != member ==> (after.rtt_history.dom().contains(other)
                <==> log.rtt_history.dom().contains(other)) && (log.rtt_history.dom().contains(
                other,
            ) ==> after.rtt_history[other] == log.rtt_history[other])
            &&& after == (DebugModel { rtt_history: after.rtt_history, ..log })
        }),
{
}

} // verus!
