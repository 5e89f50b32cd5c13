//! Which packets of the streams that come in are played, and when.

use vstd::prelude::*;

use crate::audio::{
    AudioError, Sequence, JITTER_FRAMES, MAX_MISSED_FRAMES, MAX_PACKET_BYTES, MAX_REMOTE_STREAMS,
    MAX_STREAM_QUEUE,
};
use crate::bytes::be64_spells;
use crate::model::VoiceStreamId;
use crate::sorted::{
    ascending, finite_maps_are_listed, rank, sorted_keys, sorted_keys_are, SortedMap,
};

verus! {

/// A stream that comes in: the packets that wait, the number that is played next, how many frames in
/// a row had no packet, and how many frames went by before the stream started.
#[derive(Debug)]
pub struct RemoteStream {
    packets: SortedMap<Sequence, Vec<u8>>,
    next_sequence: Option<u64>,
    missed_frames: usize,
    startup_ticks: usize,
}

/// What a stream holds.
#[verifier::ext_equal]
pub struct StreamModel {
    pub packets: Map<u64, Seq<u8>>,
    pub next_sequence: Option<u64>,
    pub missed_frames: int,
    pub startup_ticks: int,
}

impl View for RemoteStream {
    type V = StreamModel;

    closed spec fn view(&self) -> StreamModel {
        StreamModel {
            packets: waiting(self.packets@),
            next_sequence: self.next_sequence,
            missed_frames: self.missed_frames as int,
            startup_ticks: self.startup_ticks as int,
        }
    }
}

spec fn waiting(packets: Map<Sequence, Vec<u8>>) -> Map<u64, Seq<u8>> {
    Map::new(
        |n: u64| packets.dom().contains(Sequence(n)),
        |n: u64| packets[Sequence(n)]@,
    )
}

proof fn same_size(packets: Map<Sequence, Vec<u8>>)
    requires
        packets.dom().finite(),
    ensures
        waiting(packets).dom().finite(),
        waiting(packets).dom().len() == packets.dom().len(),
{
    let number = |s: Sequence| s.0;
    assert(waiting(packets).dom() =~= packets.dom().map(number)) by {
        assert forall|n: u64| waiting(packets).dom().contains(n) implies packets.dom().map(
            number,
        ).contains(n) by {
            assert(number(Sequence(n)) == n);
        }
        assert forall|n: u64| packets.dom().map(number).contains(n) implies waiting(
            packets,
        ).dom().contains(n) by {
            let s = choose|s: Sequence| packets.dom().contains(s) && n == number(s);
            assert(s == Sequence(n));
        }
    }
    assert(vstd::relations::injective(number));
    vstd::set_lib::lemma_map_size(packets.dom(), waiting(packets).dom(), number);
}

/// A stream of which nothing came in.
pub open spec fn fresh_stream() -> StreamModel {
    StreamModel {
        packets: Map::empty(),
        next_sequence: None,
        missed_frames: 0,
        startup_ticks: 0,
    }
}

impl StreamModel {
    /// Whether a stream is within its bounds.
    pub open spec fn well_formed(self) -> bool {
        &&& self.packets.dom().finite()
        &&& self.packets.dom().len() <= MAX_STREAM_QUEUE
        &&& 0 <= self.missed_frames <= MAX_MISSED_FRAMES
        &&& 0 <= self.startup_ticks <= MAX_MISSED_FRAMES
    }

    /// Whether a packet comes too late, or finds the stream full.
    pub open spec fn turns_away(self, sequence: u64) -> bool {
        (self.next_sequence is Some && sequence < self.next_sequence->0) || self.packets.dom().len()
            == MAX_STREAM_QUEUE
    }

    /// The stream with a packet; the first packet with a number stays.
    pub open spec fn received(self, sequence: u64, packet: Seq<u8>) -> StreamModel {
        if self.turns_away(sequence) {
            self
        } else {
            StreamModel {
                packets: if self.packets.dom().contains(sequence) {
                    self.packets
                } else {
                    self.packets.insert(sequence, packet)
                },
                startup_ticks: 0,
                ..self
            }
        }
    }

    /// What a stream does for the next frame.
    pub open spec fn turn(self) -> Turn {
        if self.next_sequence is None && self.packets.dom().len() < JITTER_FRAMES {
            if self.startup_ticks + 1 > MAX_MISSED_FRAMES {
                Turn::Expires
            } else {
                Turn::Waits(StreamModel { startup_ticks: self.startup_ticks + 1, ..self })
            }
        } else {
            let sequence = match self.next_sequence {
                Some(sequence) => sequence,
                None => lowest(self.packets),
            };
            Turn::Plays {
                packet: if self.packets.dom().contains(sequence) {
                    Some(self.packets[sequence])
                } else {
                    None
                },
                rest: StreamModel {
                    packets: self.packets.remove(sequence),
                    next_sequence: Some(sequence),
                    ..self
                },
            }
        }
    }

    /// What is left of a stream once its frame was decoded, if it was; nothing where it is over.
    pub open spec fn decoded(self, had_packet: bool, decoded: bool) -> Option<StreamModel> {
        match self.next_sequence {
            Some(sequence) => {
                let missed = if had_packet {
                    0
                } else {
                    self.missed_frames + 1
                };
                if !decoded || missed > MAX_MISSED_FRAMES {
                    None
                } else {
                    Some(
                        StreamModel {
                            next_sequence: Some(
                                if sequence == u64::MAX {
                                    u64::MAX
                                } else {
                                    (sequence + 1) as u64
                                },
                            ),
                            missed_frames: missed,
                            ..self
                        },
                    )
                }
            },
            None => Some(self),
        }
    }
}

/// What a stream does for the next frame: it waits, it is over, or it plays a packet or a gap.
pub enum Turn {
    Waits(StreamModel),
    Expires,
    Plays { packet: Option<Seq<u8>>, rest: StreamModel },
}

/// Whether a number is the lowest of those that wait.
pub open spec fn is_lowest(packets: Map<u64, Seq<u8>>, sequence: u64) -> bool {
    packets.dom().contains(sequence) && forall|other: u64| #[trigger]
        packets.dom().contains(other) ==> sequence <= other
}

/// The lowest number of those that wait.
pub open spec fn lowest(packets: Map<u64, Seq<u8>>) -> u64 {
    choose|sequence: u64| is_lowest(packets, sequence)
}

/// What a draw gives: a stream, and the packet to decode where there is one.
#[derive(Debug, PartialEq, Eq)]
pub struct Draw {
    pub stream: VoiceStreamId,
    pub packet: Option<Vec<u8>>,
}

/// The streams that come in.
#[derive(Debug)]
pub struct VoicePlayout {
    streams: SortedMap<VoiceStreamId, RemoteStream>,
}

impl View for VoicePlayout {
    type V = Map<VoiceStreamId, StreamModel>;

    closed spec fn view(&self) -> Map<VoiceStreamId, StreamModel> {
        Map::new(
            |id: VoiceStreamId| self.streams@.dom().contains(id),
            |id: VoiceStreamId| self.streams@[id]@,
        )
    }
}

/// Whether the streams are within their bounds.
pub open spec fn bounded(streams: Map<VoiceStreamId, StreamModel>) -> bool {
    &&& streams.dom().finite()
    &&& streams.dom().len() <= MAX_REMOTE_STREAMS
    &&& forall|id: VoiceStreamId| #[trigger]
        streams.dom().contains(id) ==> streams[id].well_formed()
}

/// Why a packet is refused.
pub open spec fn refusal(
    streams: Map<VoiceStreamId, StreamModel>,
    id: VoiceStreamId,
    length: int,
) -> Option<Seq<char>> {
    if length == 0 || length > MAX_PACKET_BYTES {
        Some("invalid Opus packet size"@)
    } else if !streams.dom().contains(id) && streams.dom().len() == MAX_REMOTE_STREAMS {
        Some("voice playout already has three remote streams"@)
    } else {
        None
    }
}

/// The streams once a packet came in.
pub open spec fn pushed(
    streams: Map<VoiceStreamId, StreamModel>,
    id: VoiceStreamId,
    sequence: u64,
    packet: Seq<u8>,
) -> Map<VoiceStreamId, StreamModel> {
    let stream = if streams.dom().contains(id) {
        streams[id]
    } else {
        fresh_stream()
    };
    streams.insert(id, stream.received(sequence, packet))
}

/// The streams once each had its turn.
pub open spec fn after_turns(streams: Map<VoiceStreamId, StreamModel>) -> Map<
    VoiceStreamId,
    StreamModel,
> {
    Map::new(
        |id: VoiceStreamId| streams.dom().contains(id) && !(streams[id].turn() is Expires),
        |id: VoiceStreamId|
            match streams[id].turn() {
                Turn::Waits(rest) => rest,
                Turn::Plays { packet, rest } => rest,
                Turn::Expires => streams[id],
            },
    )
}

/// The streams once a frame of one was decoded, or was not.
pub open spec fn after_decoding(
    streams: Map<VoiceStreamId, StreamModel>,
    id: VoiceStreamId,
    had_packet: bool,
    decoded: bool,
) -> Map<VoiceStreamId, StreamModel> {
    if streams.dom().contains(id) {
        match streams[id].decoded(had_packet, decoded) {
            Some(stream) => streams.insert(id, stream),
            None => streams.remove(id),
        }
    } else {
        streams
    }
}

/// What is to be decoded, in the order of the streams' names.
pub open spec fn draws(streams: Map<VoiceStreamId, StreamModel>, ids: Seq<VoiceStreamId>) -> Seq<
    (VoiceStreamId, Option<Seq<u8>>),
>
    decreases ids.len(),
{
    if ids.len() == 0 {
        Seq::empty()
    } else {
        let before = draws(streams, ids.drop_last());
        match streams[ids.last()].turn() {
            Turn::Plays { packet, rest } => before.push((ids.last(), packet)),
            _ => before,
        }
    }
}

/// What draws say.
pub open spec fn drawn(list: Seq<Draw>) -> Seq<(VoiceStreamId, Option<Seq<u8>>)> {
    list.map_values(
        |draw: Draw|
            (
                draw.stream,
                match draw.packet {
                    Some(packet) => Some(packet@),
                    None => None,
                },
            ),
    )
}

impl RemoteStream {
    fn new() -> (stream: Self)
        ensures
            stream@ == fresh_stream(),
    {
        let stream: RemoteStream = RemoteStream {
            packets: SortedMap::new(),
            next_sequence: None,
            missed_frames: 0,
            startup_ticks: 0,
        };
        assert(stream@ =~= fresh_stream());
        stream
    }

    fn queue_length(&self) -> (length: usize)
        ensures
            self@.packets.dom().finite(),
            length == self@.packets.dom().len(),
    {
        let length: usize = self.packets.len();
        proof {
            same_size(self.packets@);
        }
        length
    }

    fn receive(&mut self, sequence: u64, packet: Vec<u8>)
        requires
            old(self)@.well_formed(),
        ensures
            final(self)@ == old(self)@.received(sequence, packet@),
            final(self)@.well_formed(),
    {
        let late: bool = match self.next_sequence {
            Some(next) => sequence < next,
            None => false,
        };
        let full: bool = self.queue_length() == MAX_STREAM_QUEUE;
        if late || full {
            return ;
        }
        let ghost before = *self;
        if !self.packets.contains_key(Sequence(sequence)) {
            self.packets.insert(Sequence(sequence), packet);
            assert(self@.packets =~= before@.packets.insert(sequence, packet@));
        }
        self.startup_ticks = 0;
    }

    fn first_sequence(&self) -> (sequence: u64)
        requires
            self@.packets.dom().len() > 0,
        ensures
            sequence == lowest(self@.packets),
            self@.packets.dom().contains(sequence),
    {
        let _length: usize = self.packets.len();
        proof {
            same_size(self.packets@);
        }
        let first: Sequence = self.packets.key_at(0);
        proof {
            let keys = self.packets.keys();
            assert(self.packets@.dom().contains(keys[0]));
            assert(first == Sequence(first.0));
            assert forall|other: u64| #[trigger] self@.packets.dom().contains(
                other,
            ) implies first.0 <= other by {
                assert(self.packets@.dom().contains(Sequence(other)));
                let i = keys.index_of(Sequence(other));
                assert(keys[i] == Sequence(other));
                be64_spells(first.0);
                be64_spells(other);
                if i > 0 {
                    assert(rank(keys[0]) < rank(keys[i]));
                }
            }
            assert(is_lowest(self@.packets, first.0));
            let chosen = lowest(self@.packets);
            assert(is_lowest(self@.packets, chosen));
            assert(self@.packets.dom().contains(chosen));
        }
        first.0
    }
}

/// What comes of a stream's turn.
enum Outcome {
    Kept(RemoteStream, Option<Option<Vec<u8>>>),
    Over,
}

fn take_turn(stream: RemoteStream) -> (outcome: Outcome)
    requires
        stream@.well_formed(),
    ensures
        match (outcome, stream@.turn()) {
            (Outcome::Kept(kept, None), Turn::Waits(rest)) => kept@ == rest && rest.well_formed(),
            (Outcome::Kept(kept, Some(None)), Turn::Plays { packet: None, rest }) => kept@ == rest
                && rest.well_formed(),
            (
                Outcome::Kept(kept, Some(Some(bytes))),
                Turn::Plays { packet: Some(packet), rest },
            ) => kept@ == rest && bytes@ == packet && rest.well_formed(),
            (Outcome::Over, Turn::Expires) => true,
            _ => false,
        },
{
    let mut stream: RemoteStream = stream;
    let ghost before = stream@;
    let sequence: u64 = match stream.next_sequence {
        Some(sequence) => sequence,
        None => {
            if stream.queue_length() < JITTER_FRAMES {
                if stream.startup_ticks + 1 > MAX_MISSED_FRAMES {
                    return Outcome::Over;
                }
                stream.startup_ticks = stream.startup_ticks + 1;
                return Outcome::Kept(stream, None);
            }
            stream.first_sequence()
        },
    };
    let ghost held = stream.packets@;
    let packet: Option<Vec<u8>> = stream.packets.remove(Sequence(sequence));
    stream.next_sequence = Some(sequence);
    proof {
        assert(stream@.packets =~= before.packets.remove(sequence));
        assert(before.packets == waiting(held));
    }
    Outcome::Kept(stream, Some(packet))
}

impl VoicePlayout {
    /// Nothing came in.
    pub fn new() -> (playout: Self)
        ensures
            playout@ == Map::<VoiceStreamId, StreamModel>::empty(),
            bounded(playout@),
    {
        let playout: VoicePlayout = VoicePlayout { streams: SortedMap::new() };
        assert(playout@ =~= Map::<VoiceStreamId, StreamModel>::empty());
        playout
    }

    fn stream_count(&self) -> (count: usize)
        ensures
            self@.dom().finite(),
            count == self@.dom().len(),
    {
        let count: usize = self.streams.len();
        assert(self@.dom() =~= self.streams@.dom());
        count
    }

    /// Whether a packet of this length is taken, and whether its stream is new.
    pub fn admits(&self, id: VoiceStreamId, length: usize) -> (is_new: Result<bool, AudioError>)
        ensures
            match is_new {
                Ok(is_new) => refusal(self@, id, length as int) is None && is_new
                    == !self@.dom().contains(id),
                Err(error) => refusal(self@, id, length as int) == Some(error.0@),
            },
    {
        if length == 0 || length > MAX_PACKET_BYTES {
            return Err(AudioError::message("invalid Opus packet size"));
        }
        let known: bool = self.streams.contains_key(id);
        if !known && self.stream_count() == MAX_REMOTE_STREAMS {
            return Err(AudioError::message("voice playout already has three remote streams"));
        }
        Ok(!known)
    }

    /// Takes a packet.
    pub fn push(&mut self, id: VoiceStreamId, sequence: u64, packet: Vec<u8>) -> (verdict: Result<
        (),
        AudioError,
    >)
        requires
            bounded(old(self)@),
        ensures
            bounded(final(self)@),
            match verdict {
                Ok(()) => refusal(old(self)@, id, packet@.len() as int) is None && final(self)@
                    == pushed(old(self)@, id, sequence, packet@),
                Err(error) => refusal(old(self)@, id, packet@.len() as int) == Some(error.0@)
                    && final(self)@ == old(self)@,
            },
    {
        match self.admits(id, packet.len()) {
            Ok(_) => {},
            Err(error) => {
                return Err(error);
            },
        }
        let ghost before = self@;
        let ghost bytes = packet@;
        let mut stream: RemoteStream = match self.streams.remove(id) {
            Some(stream) => stream,
            None => RemoteStream::new(),
        };
        assert(stream@ == if before.dom().contains(id) {
            before[id]
        } else {
            fresh_stream()
        });
        stream.receive(sequence, packet);
        self.streams.insert(id, stream);
        proof {
            let after = pushed(before, id, sequence, bytes);
            assert(self@ =~= after);
            assert(after.dom() =~= before.dom().insert(id));
        }
        Ok(())
    }

    /// Gives every stream its turn for the next frame, and tells what is to be decoded.
    pub fn draw(&mut self) -> (list: Vec<Draw>)
        requires
            bounded(old(self)@),
        ensures
            bounded(final(self)@),
            final(self)@ == after_turns(old(self)@),
            drawn(list@) == draws(old(self)@, sorted_keys(old(self)@)),
    {
        let ghost before = self@;
        let ids: Vec<VoiceStreamId> = self.streams.to_keys();
        proof {
            assert(self@.dom() =~= self.streams@.dom());
            sorted_keys_are(self@, ids@);
        }
        let mut list: Vec<Draw> = Vec::new();
        let mut i: usize = 0;
        assert(ids@.take(0) =~= Seq::<VoiceStreamId>::empty());
        assert(drawn(list@) =~= Seq::<(VoiceStreamId, Option<Seq<u8>>)>::empty());
        while i < ids.len()
            invariant
                i <= ids@.len(),
                bounded(before),
                ids@ == sorted_keys(before),
                ascending(ids@),
                forall|id: VoiceStreamId| ids@.contains(id) <==> #[trigger] before.dom().contains(id),
                drawn(list@) == draws(before, ids@.take(i as int)),
                forall|id: VoiceStreamId| #[trigger]
                    self@.dom().contains(id) <==> if ids@.take(i as int).contains(id) {
                        after_turns(before).dom().contains(id)
                    } else {
                        before.dom().contains(id)
                    },
                forall|id: VoiceStreamId| #[trigger]
                    self@.dom().contains(id) ==> self@[id] == (if ids@.take(i as int).contains(id) {
                        after_turns(before)[id]
                    } else {
                        before[id]
                    }),
                forall|id: VoiceStreamId| #[trigger]
                    self@.dom().contains(id) ==> self@[id].well_formed(),
            decreases ids@.len() - i,
        {
            let id: VoiceStreamId = ids[i];
            let ghost earlier = ids@.take(i as int);
            let ghost later = ids@.take(i + 1);
            let ghost previous = self@;
            proof {
                assert(ids@.contains(id));
                assert(before.dom().contains(id));
                assert(!earlier.contains(id)) by {
                    if earlier.contains(id) {
                        let k = earlier.index_of(id);
                        assert(rank(ids@[k]) < rank(ids@[i as int]));
                    }
                }
                assert(self@.dom().contains(id));
                assert(later.drop_last() =~= earlier);
                assert(later.last() == id);
                assert forall|other: VoiceStreamId|
                    later.contains(other) <==> #[trigger] earlier.contains(other) || other == id by {
                    if earlier.contains(other) {
                        let k = earlier.index_of(other);
                        assert(later[k] == other);
                    }
                    assert(later[i as int] == id);
                    if later.contains(other) && other != id {
                        let k = later.index_of(other);
                        assert(earlier[k] == other);
                    }
                }
            }
            match self.streams.remove(id) {
                Some(stream) => {
                    assert(stream@ == previous[id]);
                    match take_turn(stream) {
                        Outcome::Kept(kept, playing) => {
                            self.streams.insert(id, kept);
                            let ghost shown = drawn(list@);
                            match playing {
                                Some(packet) => {
                                    let draw: Draw = Draw { stream: id, packet };
                                    list.push(draw);
                                    assert(drawn(list@) =~= shown.push(drawn(list@).last()));
                                },
                                None => {},
                            }
                            assert(self@ =~= previous.insert(id, kept@));
                        },
                        Outcome::Over => {
                            assert(self@ =~= previous.remove(id));
                        },
                    }
                },
                None => {},
            }
            i += 1;
        }
        proof {
            assert(ids@.take(i as int) =~= ids@);
            assert(self@ =~= after_turns(before));
            assert(self@.dom().subset_of(before.dom()));
            vstd::set_lib::lemma_len_subset(self@.dom(), before.dom());
        }
        list
    }

    /// Takes note that a stream's frame was decoded, or was not.
    pub fn decoded(&mut self, id: VoiceStreamId, had_packet: bool, decoded: bool)
        requires
            bounded(old(self)@),
        ensures
            bounded(final(self)@),
            final(self)@ == after_decoding(old(self)@, id, had_packet, decoded),
    {
        let ghost before = self@;
        match self.streams.remove(id) {
            Some(stream) => {
                let mut stream: RemoteStream = stream;
                assert(before.dom().contains(id));
                assert(stream@ == before[id]);
                assert(stream@.well_formed());
                let over: bool = match stream.next_sequence {
                    Some(sequence) => {
                        let missed: usize = if had_packet {
                            0
                        } else {
                            stream.missed_frames + 1
                        };
                        stream.next_sequence = Some(sequence.saturating_add(1));
                        stream.missed_frames = missed;
                        !decoded || missed > MAX_MISSED_FRAMES
                    },
                    None => false,
                };
                if over {
                    assert(self@ =~= before.remove(id));
                } else {
                    self.streams.insert(id, stream);
                    assert(self@ =~= before.insert(id, stream@));
                    assert(before.insert(id, stream@).dom() =~= before.dom());
                }
            },
            None => {
                assert(self@ =~= before);
            },
        }
    }

    /// Whether a stream is played.
    pub fn has_stream(&self, id: VoiceStreamId) -> (has: bool)
        ensures
            has == self@.dom().contains(id),
    {
        self.streams.contains_key(id)
    }
}

/// In which order two packets of a stream come in makes no difference, while there is room for both.
pub proof fn packets_are_reordered(
    stream: StreamModel,
    a: u64,
    first: Seq<u8>,
    b: u64,
    second: Seq<u8>,
)
    requires
        stream.packets.dom().finite(),
        stream.packets.dom().len() + 2 <= MAX_STREAM_QUEUE,
        a != b,
    ensures
        stream.received(a, first).received(b, second) == stream.received(b, second).received(
            a,
            first,
        ),
{
    let x = stream.received(a, first).received(b, second);
    let y = stream.received(b, second).received(a, first);
    assert(x.packets =~= y.packets);
    assert(x =~= y);
}

/// A packet that comes after its frame was played changes nothing.
pub proof fn late_packets_are_dropped(stream: StreamModel, sequence: u64, packet: Seq<u8>)
    requires
        stream.next_sequence is Some,
        sequence < stream.next_sequence->0,
    ensures
        stream.received(sequence, packet) == stream,
{
}

/// A stream is played in the order of its packets' numbers: what is played next comes after what was
/// played, and every packet that waits still comes at or after it.
pub proof fn streams_play_forwards(stream: StreamModel, had_packet: bool)
    requires
        stream.well_formed(),
        stream.turn() is Plays,
        stream.next_sequence is Some ==> forall|n: u64| #[trigger]
            stream.packets.dom().contains(n) ==> n >= stream.next_sequence->0,
        stream.turn()->rest.next_sequence->0 < u64::MAX,
        stream.turn()->rest.decoded(had_packet, true) is Some,
    ensures
        ({
            let played = stream.turn()->rest.next_sequence->0;
            let next = stream.turn()->rest.decoded(had_packet, true)->0;
            &&& next.next_sequence == Some((played + 1) as u64)
            &&& forall|n: u64| #[trigger]
                next.packets.dom().contains(n) ==> n >= next.next_sequence->0
        }),
{
    if stream.next_sequence is None {
        assert(stream.packets.dom().len() > 0);
        assert(exists|n: u64| is_lowest(stream.packets, n)) by {
            lowest_exists(stream.packets);
        }
    }
}

/// A packet that is not late and finds room waits with its bytes, whether the stream has started or not.
/// The packets that wait stay as they are, and the stream goes on where it was. One that came before under
/// the same number is kept instead.
pub proof fn packets_that_are_not_late_wait(stream: StreamModel, sequence: u64, packet: Seq<u8>)
    requires
        stream.next_sequence matches Some(next) ==> next <= sequence,
        stream.packets.dom().len() < 50,
    ensures
        ({
            let after = stream.received(sequence, packet);
            &&& after.packets.dom().contains(sequence)
            &&& after.packets[sequence] == (if stream.packets.dom().contains(sequence) {
                stream.packets[sequence]
            } else {
                packet
            })
            &&& forall|other: u64|
                other != sequence ==> (#[trigger] after.packets.dom().contains(other)
                    <==> stream.packets.dom().contains(other)) && (stream.packets.dom().contains(
                    other,
                ) ==> after.packets[other] == stream.packets[other])
            &&& after.next_sequence == stream.next_sequence
            &&& after.missed_frames == stream.missed_frames
            &&& after.startup_ticks == 0
        }),
{
}

/// A full stream takes nothing more.
pub proof fn full_streams_take_nothing(stream: StreamModel, sequence: u64, packet: Seq<u8>)
    requires
        stream.packets.dom().len() == 50,
    ensures
        stream.received(sequence, packet) == stream,
{
}

/// When a number's turn comes, exactly the packet with that number is played, and every other packet goes
/// on waiting; where there is none, a gap is played and nothing is lost.
pub proof fn the_turn_plays_its_packet(stream: StreamModel, next: u64)
    requires
        stream.next_sequence == Some(next),
    ensures
        ({
            let packet = stream.turn()->packet;
            let rest = stream.turn()->rest;
            &&& stream.turn() is Plays
            &&& stream.packets.dom().contains(next) ==> packet == Some(stream.packets[next])
            &&& !stream.packets.dom().contains(next) ==> packet is None
            &&& !rest.packets.dom().contains(next)
            &&& forall|other: u64|
                other != next ==> (#[trigger] rest.packets.dom().contains(other)
                    <==> stream.packets.dom().contains(other)) && (stream.packets.dom().contains(
                    other,
                ) ==> rest.packets[other] == stream.packets[other])
            &&& rest.next_sequence == Some(next)
            &&& rest.missed_frames == stream.missed_frames
        }),
{
}

/// A stream starts once three packets wait, with the one of the lowest number; until then it waits and
/// keeps what it has, and after ten frames without a packet it is over.
pub proof fn streams_start_with_the_lowest(stream: StreamModel)
    requires
        stream.packets.dom().finite(),
        stream.next_sequence is None,
    ensures
        stream.packets.dom().len() >= 3 ==> {
            let rest = stream.turn()->rest;
            let first = rest.next_sequence->0;
            &&& stream.turn() is Plays
            &&& rest.next_sequence is Some
            &&& stream.packets.dom().contains(first)
            &&& stream.turn()->packet == Some(stream.packets[first])
            &&& forall|other: u64| #[trigger]
                stream.packets.dom().contains(other) ==> first <= other
            &&& rest.packets == stream.packets.remove(first)
        },
        stream.packets.dom().len() < 3 && stream.startup_ticks < 10 ==> {
            &&& stream.turn() matches Turn::Waits(rest)
            &&& rest.packets == stream.packets
            &&& rest.next_sequence is None
            &&& rest.startup_ticks == stream.startup_ticks + 1
        },
        stream.packets.dom().len() < 3 && stream.startup_ticks >= 10 ==> stream.turn() is Expires,
{
    if stream.packets.dom().len() >= 3 {
        lowest_exists(stream.packets);
        let first = lowest(stream.packets);
        assert(is_lowest(stream.packets, first));
    }
}

/// Once a frame was decoded its number has passed and the next one's turn comes. A frame with a packet ends
/// a run of gaps, one without makes it longer; the stream is over where a frame could not be decoded, or
/// after eleven gaps in a row. What waits is not touched.
pub proof fn frames_follow_each_other(stream: StreamModel, next: u64, had_packet: bool)
    requires
        stream.next_sequence == Some(next),
        next < u64::MAX,
    ensures
        stream.decoded(had_packet, false) is None,
        stream.decoded(true, true) matches Some(after) && after.missed_frames == 0,
        stream.missed_frames < 10 ==> (stream.decoded(false, true) matches Some(after)
            && after.missed_frames == stream.missed_frames + 1),
        stream.missed_frames >= 10 ==> stream.decoded(false, true) is None,
        stream.decoded(had_packet, true) matches Some(after) ==> after.next_sequence == Some(
            (next + 1) as u64,
        ) && after.packets == stream.packets,
{
}

/// What a stream plays in its next turns, where every frame is decoded.
pub open spec fn plays(stream: StreamModel, turns: nat) -> Seq<Option<Seq<u8>>>
    decreases turns,
{
    if turns == 0 {
        Seq::empty()
    } else {
        match stream.turn() {
            Turn::Plays { packet, rest } => match rest.decoded(packet is Some, true) {
                Some(after) => seq![packet] + plays(after, (turns - 1) as nat),
                None => seq![packet],
            },
            _ => Seq::empty(),
        }
    }
}

/// A stream whose packets wait without a gap is played without a gap: one packet after the other, in the
/// order of their numbers, each with its bytes.
pub proof fn streams_play_what_waits(stream: StreamModel, next: u64, turns: nat)
    requires
        stream.next_sequence == Some(next),
        next + turns <= u64::MAX,
        forall|n: u64| next <= n < next + turns ==> #[trigger] stream.packets.dom().contains(n),
    ensures
        plays(stream, turns).len() == turns,
        forall|i: int|
            0 <= i < turns ==> #[trigger] plays(stream, turns)[i] == Some(
                stream.packets[(next + i) as u64],
            ),
    decreases turns,
{
    if turns > 0 {
        the_turn_plays_its_packet(stream, next);
        let rest = stream.turn()->rest;
        frames_follow_each_other(rest, next, true);
        let after = rest.decoded(true, true)->0;
        let later = (next + 1) as u64;
        assert forall|n: u64| later <= n < later + (turns - 1) implies #[trigger]
            after.packets.dom().contains(n) by {
            assert(stream.packets.dom().contains(n));
            assert(rest.packets.dom().contains(n));
        }
        streams_play_what_waits(after, later, (turns - 1) as nat);
        let list = plays(after, (turns - 1) as nat);
        assert forall|i: int| 0 <= i < turns implies #[trigger] plays(stream, turns)[i] == Some(
            stream.packets[(next + i) as u64],
        ) by {
            if i > 0 {
                assert(plays(stream, turns)[i] == list[i - 1]);
                let n = (next + i) as u64;
                assert((later + (i - 1)) as u64 == n);
                assert(stream.packets.dom().contains(n));
                assert(rest.packets.dom().contains(n));
            }
        }
    }
}

/// A packet that comes while its stream is played, before its own turn, is played in its turn.
pub proof fn packets_in_time_are_played(
    stream: StreamModel,
    next: u64,
    sequence: u64,
    packet: Seq<u8>,
)
    requires
        stream.next_sequence == Some(next),
        next <= sequence < u64::MAX,
        !stream.packets.dom().contains(sequence),
        stream.packets.dom().len() < 50,
        forall|n: u64| next <= n < sequence ==> #[trigger] stream.packets.dom().contains(n),
    ensures
        plays(stream.received(sequence, packet), (sequence - next + 1) as nat).last() == Some(
            packet,
        ),
{
    let after = stream.received(sequence, packet);
    packets_that_are_not_late_wait(stream, sequence, packet);
    let turns = (sequence - next + 1) as nat;
    assert forall|n: u64| next <= n < next + turns implies #[trigger]
        after.packets.dom().contains(n) by {
        if n != sequence {
            assert(stream.packets.dom().contains(n));
        }
    }
    streams_play_what_waits(after, next, turns);
    assert(plays(after, turns)[turns - 1] == Some(after.packets[(next + (turns - 1)) as u64]));
}

/// Packets of ordinary size are taken from every stream that is known, and from a new one while there are
/// fewer than three; the others are refused.
pub proof fn three_streams_are_heard(
    streams: Map<VoiceStreamId, StreamModel>,
    id: VoiceStreamId,
    length: int,
)
    requires
        streams.dom().len() <= 3,
        0 <= length,
    ensures
        refusal(streams, id, length) is None <==> 1 <= length <= 1024 && (
        streams.dom().contains(id) || streams.dom().len() < 3),
{
}

/// Streams do not disturb each other: a packet, a frame that was decoded or was not, and a turn change the
/// stream that they are of as if it were alone, and leave the others as they were.
pub proof fn streams_are_apart(
    streams: Map<VoiceStreamId, StreamModel>,
    id: VoiceStreamId,
    sequence: u64,
    packet: Seq<u8>,
    had_packet: bool,
    decoded: bool,
    other: VoiceStreamId,
)
    requires
        other != id,
    ensures
        ({
            let after = pushed(streams, id, sequence, packet);
            &&& after.dom().contains(id)
            &&& streams.dom().contains(id) ==> after[id] == streams[id].received(sequence, packet)
            &&& !streams.dom().contains(id) ==> after[id].packets == Map::<
                u64,
                Seq<u8>,
            >::empty().insert(sequence, packet) && after[id].next_sequence is None
                && after[id].missed_frames == 0
            &&& after.dom().contains(other) <==> streams.dom().contains(other)
            &&& streams.dom().contains(other) ==> after[other] == streams[other]
        }),
        ({
            let after = after_decoding(streams, id, had_packet, decoded);
            &&& after.dom().contains(id) <==> streams.dom().contains(id) && streams[id].decoded(
                had_packet,
                decoded,
            ) is Some
            &&& after.dom().contains(id) ==> Some(after[id]) == streams[id].decoded(
                had_packet,
                decoded,
            )
            &&& after.dom().contains(other) <==> streams.dom().contains(other)
            &&& streams.dom().contains(other) ==> after[other] == streams[other]
        }),
        ({
            let after = after_turns(streams);
            &&& after.dom().contains(id) <==> streams.dom().contains(id)
                && !(streams[id].turn() is Expires)
            &&& after.dom().contains(id) ==> match streams[id].turn() {
                Turn::Waits(rest) => after[id] == rest,
                Turn::Plays { packet, rest } => after[id] == rest,
                Turn::Expires => false,
            }
        }),
{
    assert(Map::<u64, Seq<u8>>::empty().dom().len() == 0) by {
        assert(Map::<u64, Seq<u8>>::empty().dom() =~= Set::<u64>::empty());
    }
}

proof fn drawn_are(
    streams: Map<VoiceStreamId, StreamModel>,
    ids: Seq<VoiceStreamId>,
    id: VoiceStreamId,
    packet: Option<Seq<u8>>,
)
    ensures
        draws(streams, ids).contains((id, packet)) <==> ids.contains(id) && (
        streams[id].turn() matches Turn::Plays { packet: played, rest } && played == packet),
        draws(streams, ids).len() <= ids.len(),
    decreases ids.len(),
{
    let all = draws(streams, ids);
    if ids.len() > 0 {
        let shorter = ids.drop_last();
        let before = draws(streams, shorter);
        drawn_are(streams, shorter, id, packet);
        let last = ids.last();
        assert(ids[ids.len() - 1] == last);
        assert(ids.contains(id) <==> shorter.contains(id) || id == last) by {
            if shorter.contains(id) {
                let k = shorter.index_of(id);
                assert(ids[k] == id);
            }
            if ids.contains(id) && id != last {
                let k = ids.index_of(id);
                assert(shorter[k] == id);
            }
        }
        if streams[last].turn() is Plays {
            let item = (last, streams[last].turn()->packet);
            assert(all == before.push(item));
            assert(all[before.len() as int] == item);
            if before.contains((id, packet)) {
                let k = before.index_of((id, packet));
                assert(all[k] == (id, packet));
            }
            if all.contains((id, packet)) && item != (id, packet) {
                let k = all.index_of((id, packet));
                assert(before[k] == (id, packet));
            }
        }
    }
}

/// A draw gives what the streams play in this turn: of every stream that plays its packet or its gap, and
/// nothing of a stream that waits or is over.
pub proof fn draws_give_what_is_played(
    streams: Map<VoiceStreamId, StreamModel>,
    id: VoiceStreamId,
    packet: Option<Seq<u8>>,
)
    requires
        streams.dom().finite(),
    ensures
        draws(streams, sorted_keys(streams)).contains((id, packet)) <==> streams.dom().contains(id)
            && (streams[id].turn() matches Turn::Plays { packet: played, rest } && played
            == packet),
        draws(streams, sorted_keys(streams)).len() <= streams.dom().len(),
{
    drawn_are(streams, sorted_keys(streams), id, packet);
    finite_maps_are_listed(streams);
    assert(sorted_keys(streams).contains(id) <==> streams.dom().contains(id));
}

proof fn lowest_exists(packets: Map<u64, Seq<u8>>)
    requires
        packets.dom().finite(),
        packets.dom().len() > 0,
    ensures
        exists|n: u64| is_lowest(packets, n),
    decreases packets.dom().len(),
{
    let some = packets.dom().choose();
    assert(packets.dom().contains(some));
    let rest = packets.remove(some);
    assert(rest.dom() =~= packets.dom().remove(some));
    if rest.dom().len() == 0 {
        assert forall|other: u64| #[trigger] packets.dom().contains(other) implies some
            <= other by {
            if other != some {
                assert(rest.dom().contains(other));
            }
        }
        assert(is_lowest(packets, some));
    } else {
        lowest_exists(rest);
        let n = choose|n: u64| is_lowest(rest, n);
        assert(rest.dom().contains(n));
        let least = if some < n { some } else { n };
        assert forall|other: u64| #[trigger] packets.dom().contains(other) implies least
            <= other by {
            if other != some {
                assert(rest.dom().contains(other));
            }
        }
        assert(is_lowest(packets, least));
    }
}

} // verus!
