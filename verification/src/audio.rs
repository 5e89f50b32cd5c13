//! Voice: devices, what is transmitted, and what is played of the streams that come in.

use vstd::prelude::*;

use crate::bytes::{be64, be64_injective, byte_order, to_be64, ByteOrder};
use crate::model::{
    voice_frame_error_text, voice_frame_objection, ChannelId, Command, VoiceFrame, VoiceFrameModel,
    VoicePresence, VoiceStreamId,
};
use crate::sorted::ByteKey;
use crate::text::{chars_of, decimal, push_decimal, push_text, same_text};

verus! {

/// Samples in a second.
pub const SAMPLE_RATE: u32 = 48_000;

/// Samples in a frame.
pub const FRAME_SAMPLES: usize = 960;

/// The largest packet that is played, in bytes.
pub const MAX_PACKET_BYTES: usize = 1024;

/// Frames that wait between a device and the session.
pub const QUEUED_FRAMES: usize = 8;

/// Packets that a stream gathers before it is played.
pub const JITTER_FRAMES: usize = 3;

/// Streams that are played at once.
pub const MAX_REMOTE_STREAMS: usize = 3;

/// Packets that a stream holds.
pub const MAX_STREAM_QUEUE: usize = 50;

/// Frames that a stream may miss.
pub const MAX_MISSED_FRAMES: usize = 10;

/// What went wrong with audio.
#[derive(Debug, PartialEq, Eq)]
pub struct AudioError(pub String);

impl AudioError {
    /// The error with this text.
    pub fn message(message: &str) -> (error: Self)
        ensures
            error.0@ == message@,
    {
        AudioError(message.to_owned())
    }

    /// What went wrong.
    pub fn text(&self) -> (text: &str)
        ensures
            text@ == self.0@,
    {
        self.0.as_str()
    }
}

impl Clone for AudioError {
    fn clone(&self) -> (copy: Self)
        ensures
            copy.0@ == self.0@,
    {
        AudioError(self.0.clone())
    }
}

/// The devices that a user chose; without a choice the default one is used.
#[derive(Debug, PartialEq, Eq)]
pub struct VoiceDeviceConfig {
    pub input_device: Option<String>,
    pub output_device: Option<String>,
}

impl Default for VoiceDeviceConfig {
    fn default() -> (config: Self)
        ensures
            config.input_device is None,
            config.output_device is None,
    {
        VoiceDeviceConfig { input_device: None, output_device: None }
    }
}

/// What an optional text says.
pub open spec fn said(text: Option<String>) -> Option<Seq<char>> {
    match text {
        Some(text) => Some(text@),
        None => None,
    }
}

/// A copy of an optional text.
pub fn copy_of(text: &Option<String>) -> (copy: Option<String>)
    ensures
        said(copy) == said(*text),
{
    match text {
        Some(text) => Some(text.clone()),
        None => None,
    }
}

impl Clone for VoiceDeviceConfig {
    fn clone(&self) -> (copy: Self)
        ensures
            said(copy.input_device) == said(self.input_device),
            said(copy.output_device) == said(self.output_device),
    {
        VoiceDeviceConfig {
            input_device: copy_of(&self.input_device),
            output_device: copy_of(&self.output_device),
        }
    }
}

/// The devices that there are.
#[derive(Clone, Debug, PartialEq, Eq)]
pub struct VoiceDeviceNames {
    pub input: Vec<String>,
    pub output: Vec<String>,
}

impl Default for VoiceDeviceNames {
    fn default() -> (names: Self)
        ensures
            names.input@.len() == 0,
            names.output@.len() == 0,
    {
        VoiceDeviceNames { input: Vec::new(), output: Vec::new() }
    }
}

/// What texts say.
pub open spec fn texts(list: Seq<String>) -> Seq<Seq<char>> {
    list.map_values(|text: String| text@)
}

/// Whether a text stands before another in the order of its characters.
pub open spec fn reads_before(a: Seq<char>, b: Seq<char>) -> bool
    decreases a.len(),
{
    if b.len() == 0 {
        false
    } else if a.len() == 0 {
        true
    } else {
        a[0] < b[0] || (a[0] == b[0] && reads_before(a.drop_first(), b.drop_first()))
    }
}

proof fn reads_before_orders(a: Seq<char>, b: Seq<char>, c: Seq<char>)
    ensures
        !reads_before(a, a),
        a != b ==> reads_before(a, b) || reads_before(b, a),
        reads_before(a, b) && reads_before(b, c) ==> reads_before(a, c),
    decreases a.len(),
{
    if a.len() > 0 {
        reads_before_orders(a.drop_first(), b.drop_first(), c.drop_first());
        if a != b && b.len() > 0 && a[0] == b[0] {
            if a.drop_first() == b.drop_first() {
                assert(a =~= seq![a[0]] + a.drop_first());
                assert(b =~= seq![b[0]] + b.drop_first());
            }
        }
    } else {
        assert(a != b ==> b.len() > 0) by {
            if b.len() == 0 {
                assert(a =~= b);
            }
        }
    }
}

fn stands_before(a: &str, b: &str) -> (before: bool)
    ensures
        before == reads_before(a@, b@),
{
    let x: Vec<char> = chars_of(a);
    let y: Vec<char> = chars_of(b);
    let mut i: usize = 0;
    assert(a@.skip(0) =~= a@);
    assert(b@.skip(0) =~= b@);
    while i < x.len() && i < y.len()
        invariant
            i <= x@.len(),
            i <= y@.len(),
            x@ == a@,
            y@ == b@,
            reads_before(a@, b@) == reads_before(a@.skip(i as int), b@.skip(i as int)),
        decreases x@.len() - i,
    {
        assert(a@.skip(i as int).drop_first() =~= a@.skip(i + 1));
        assert(b@.skip(i as int).drop_first() =~= b@.skip(i + 1));
        if x[i] != y[i] {
            return x[i] < y[i];
        }
        i += 1;
    }
    i < y.len()
}

/// Whether a list is in the order of its texts, each once.
pub open spec fn alphabetical(list: Seq<Seq<char>>) -> bool {
    forall|i: int, j: int| 0 <= i < j < list.len() ==> reads_before(list[i], list[j])
}

spec fn lists_also(before: Seq<Seq<char>>, after: Seq<Seq<char>>, name: Seq<char>) -> bool {
    forall|t: Seq<char>| after.contains(t) <==> #[trigger] before.contains(t) || t == name
}

fn list_name(list: &mut Vec<String>, name: &String)
    requires
        alphabetical(texts(old(list)@)),
    ensures
        alphabetical(texts(final(list)@)),
        lists_also(texts(old(list)@), texts(final(list)@), name@),
{
    let ghost before = texts(list@);
    let mut at: usize = 0;
    while at < list.len() && stands_before(list[at].as_str(), name.as_str())
        invariant
            at <= list@.len(),
            *list == *old(list),
            before == texts(list@),
            forall|j: int| 0 <= j < at ==> reads_before(#[trigger] before[j], name@),
        decreases list@.len() - at,
    {
        assert(before[at as int] == list@[at as int]@);
        at += 1;
    }
    assert(at < list@.len() ==> before[at as int] == list@[at as int]@);
    if at < list.len() && same_text(list[at].as_str(), name.as_str()) {
        assert(before[at as int] == name@);
        return ;
    }
    assert(before == texts(old(list)@));
    list.insert(at, name.clone());
    proof {
        let after = texts(list@);
        assert(after =~= before.insert(at as int, name@));
        if at < before.len() {
            reads_before_orders(name@, before[at as int], name@);
        }
        assert forall|i: int, j: int| 0 <= i < j < after.len() implies reads_before(
            after[i],
            after[j],
        ) by {
            let p = at as int;
            if j < p {
                assert(after[i] == before[i] && after[j] == before[j]);
            } else if i > p {
                assert(after[i] == before[i - 1] && after[j] == before[j - 1]);
            } else if i < p && j > p {
                assert(after[i] == before[i] && after[j] == before[j - 1]);
            } else if i == p {
                assert(after[j] == before[j - 1]);
                if j - 1 > p {
                    reads_before_orders(name@, before[p], before[j - 1]);
                }
            } else {
                assert(after[i] == before[i]);
            }
        }
        assert forall|t: Seq<char>|
            after.contains(t) <==> #[trigger] before.contains(t) || t == name@ by {
            if before.contains(t) {
                let k = before.index_of(t);
                assert(after[if k < at { k } else { k + 1 }] == t);
            }
            assert(after[at as int] == name@);
            if after.contains(t) && t != name@ {
                let k = after.index_of(t);
                assert(before[if k < at { k } else { k - 1 }] == t);
            }
        }
    }
}

/// The names in order, each once.
pub fn listed_names(names: &Vec<String>) -> (list: Vec<String>)
    ensures
        alphabetical(texts(list@)),
        forall|t: Seq<char>| texts(list@).contains(t) <==> #[trigger] texts(names@).contains(t),
{
    let mut list: Vec<String> = Vec::new();
    let ghost all = texts(names@);
    let mut i: usize = 0;
    assert(all.take(0) =~= Seq::<Seq<char>>::empty());
    while i < names.len()
        invariant
            i <= names@.len(),
            all == texts(names@),
            alphabetical(texts(list@)),
            forall|t: Seq<char>|
                texts(list@).contains(t) <==> #[trigger] all.take(i as int).contains(t),
        decreases names@.len() - i,
    {
        let ghost before = texts(list@);
        list_name(&mut list, &names[i]);
        assert(all[i as int] == names@[i as int]@);
        assert forall|t: Seq<char>|
            texts(list@).contains(t) <==> #[trigger] all.take(i + 1).contains(t) by {
            assert(before.contains(t) <==> all.take(i as int).contains(t));
            if all.take(i as int).contains(t) {
                let k = all.take(i as int).index_of(t);
                assert(all.take(i + 1)[k] == t);
            }
            assert(all.take(i + 1)[i as int] == names@[i as int]@);
            if all.take(i + 1).contains(t) && t != names@[i as int]@ {
                let k = all.take(i + 1).index_of(t);
                assert(all.take(i as int)[k] == t);
            }
        }
        i += 1;
    }
    assert(all.take(i as int) =~= all);
    list
}

/// The place of a name in a list: of the first text that is the name.
pub open spec fn place_of(names: Seq<Seq<char>>, name: Seq<char>) -> Option<int>
    decreases names.len(),
{
    if names.len() == 0 {
        None
    } else if names[0] == name {
        Some(0)
    } else {
        match place_of(names.drop_first(), name) {
            Some(place) => Some(place + 1),
            None => None,
        }
    }
}

/// The place of the chosen device among those that there are.
pub fn selected_device_index(
    configured: Option<&str>,
    names: &Vec<String>,
) -> (index: Option<usize>)
    ensures
        match (configured, index) {
            (Some(name), Some(index)) => index < names@.len() && place_of(texts(names@), name@)
                == Some(index as int),
            (Some(name), None) => place_of(texts(names@), name@) is None,
            (None, index) => index is None,
        },
{
    match configured {
        Some(name) => {
            let ghost all = texts(names@);
            let mut i: usize = 0;
            assert(all.skip(0) =~= all);
            while i < names.len()
                invariant
                    i <= names@.len(),
                    configured == Some(name),
                    all == texts(names@),
                    place_of(all, name@) == (match place_of(all.skip(i as int), name@) {
                        Some(place) => Some(place + i),
                        None => None,
                    }),
                decreases names@.len() - i,
            {
                assert(all[i as int] == names@[i as int]@);
                assert(all.skip(i as int)[0] == all[i as int]);
                assert(all.skip(i as int).drop_first() =~= all.skip(i + 1));
                if same_text(names[i].as_str(), name) {
                    assert(place_of(all.skip(i as int), name@) == Some(0int));
                    return Some(i);
                }
                i += 1;
            }
            None
        },
        None => None,
    }
}

/// Which device is used.
#[derive(Clone, Copy, Debug, PartialEq, Eq, Structural)]
pub enum DeviceChoice {
    Listed(usize),
    Default,
}

/// What is said where no device is left.
pub open spec fn no_device(configured: Option<Seq<char>>, kind: Seq<char>) -> Seq<char> {
    match configured {
        Some(name) => kind + " device '"@ + name + "' is unavailable and no default exists"@,
        None => "no default "@ + kind + " device"@,
    }
}

/// Chooses a device: the configured one where it is there and usable, or else the default one.
pub fn choose_device(
    listed: Option<usize>,
    usable: bool,
    has_default: bool,
    configured: Option<&str>,
    kind: &str,
) -> (choice: Result<DeviceChoice, AudioError>)
    ensures
        match choice {
            Ok(DeviceChoice::Listed(index)) => listed == Some(index) && usable,
            Ok(DeviceChoice::Default) => !(listed is Some && usable) && has_default,
            Err(error) => !(listed is Some && usable) && !has_default && error.0@ == no_device(
                match configured {
                    Some(name) => Some(name@),
                    None => None,
                },
                kind@,
            ),
        },
{
    match listed {
        Some(index) => if usable {
            return Ok(DeviceChoice::Listed(index));
        },
        None => {},
    }
    if has_default {
        return Ok(DeviceChoice::Default);
    }
    match configured {
        Some(name) => {
            let mut text: String = kind.to_owned();
            push_text(&mut text, " device '");
            push_text(&mut text, name);
            push_text(&mut text, "' is unavailable and no default exists");
            Err(AudioError(text))
        },
        None => {
            let mut text: String = "no default ".to_owned();
            push_text(&mut text, kind);
            push_text(&mut text, " device");
            Err(AudioError(text))
        },
    }
}

/// What is said where the default device is of no use.
pub fn unusable_default(kind: &str, error: &AudioError) -> (unusable: AudioError)
    ensures
        unusable.0@ == "no usable default "@ + kind@ + " device: "@ + error.0@,
{
    let mut text: String = "no usable default ".to_owned();
    push_text(&mut text, kind);
    push_text(&mut text, " device: ");
    push_text(&mut text, error.0.as_str());
    AudioError(text)
}

/// Accepts the length of a frame.
pub fn check_frame_length(length: usize) -> (verdict: Result<(), AudioError>)
    ensures
        match verdict {
            Ok(()) => length == FRAME_SAMPLES,
            Err(error) => length != FRAME_SAMPLES && error.0@ == "expected 960 samples, got "@
                + decimal(length as nat),
        },
{
    if length == FRAME_SAMPLES {
        Ok(())
    } else {
        let mut text: String = "expected 960 samples, got ".to_owned();
        push_decimal(&mut text, length as u64);
        Err(AudioError(text))
    }
}

/// What a speaker hears and says.
#[derive(Clone, Copy, Debug, PartialEq, Eq, Structural)]
pub struct VoiceState {
    pub muted: bool,
    pub deafened: bool,
}

impl Default for VoiceState {
    fn default() -> (state: Self)
        ensures
            !state.muted,
            !state.deafened,
    {
        VoiceState { muted: false, deafened: false }
    }
}

impl VoiceState {
    /// Mutes or unmutes.
    pub fn set_muted(&mut self, muted: bool)
        ensures
            *final(self) == (VoiceState { muted, ..*old(self) }),
    {
        self.muted = muted;
    }

    /// Whether nothing is transmitted.
    pub fn is_muted(&self) -> (muted: bool)
        ensures
            muted == self.muted,
    {
        self.muted
    }

    /// Deafens or undeafens.
    pub fn set_deafened(&mut self, deafened: bool)
        ensures
            *final(self) == (VoiceState { deafened, ..*old(self) }),
    {
        self.deafened = deafened;
    }

    /// Whether nothing is played.
    pub fn is_deafened(&self) -> (deafened: bool)
        ensures
            deafened == self.deafened,
    {
        self.deafened
    }
}

/// What is played of a frame.
pub fn suppress_playout<T>(deafened: bool, frame: Option<T>) -> (played: Option<T>)
    ensures
        played == (if deafened {
            None
        } else {
            frame
        }),
{
    if deafened {
        None
    } else {
        frame
    }
}

/// Whether a frame belongs to the channel.
pub fn is_joined_channel(frame: &VoiceFrame, channel_id: ChannelId) -> (joined: bool)
    ensures
        joined == (frame@.channel_id == channel_id),
{
    frame.channel_id() == channel_id
}

/// A speaker in a channel: the stream that it sends, and how far it is.
#[derive(Debug)]
pub struct Speaker {
    pub channel: ChannelId,
    pub stream_id: VoiceStreamId,
    pub sequence: u64,
    pub state: VoiceState,
}

impl Speaker {
    /// A speaker that has said nothing.
    pub fn new(channel: ChannelId, stream_id: VoiceStreamId) -> (speaker: Self)
        ensures
            speaker == (Speaker {
                channel,
                stream_id,
                sequence: 0,
                state: VoiceState { muted: false, deafened: false },
            }),
    {
        Speaker {
            channel,
            stream_id,
            sequence: 0,
            state: VoiceState { muted: false, deafened: false },
        }
    }

    /// What to send of an encoded packet: nothing while muted.
    pub fn speak(&self, packet: Vec<u8>) -> (command: Result<Option<Command>, AudioError>)
        ensures
            match command {
                Ok(None) => self.state.muted,
                Ok(Some(Command::SendVoice(frame))) => !self.state.muted && frame@ == (
                VoiceFrameModel {
                    stream_id: self.stream_id,
                    channel_id: self.channel,
                    sequence: self.sequence,
                    payload: packet@,
                }) && voice_frame_objection(packet@) is None,
                Ok(Some(_)) => false,
                Err(error) => !self.state.muted && voice_frame_objection(packet@) is Some
                    && error.0@ == voice_frame_error_text(voice_frame_objection(packet@)->0),
            },
    {
        if self.state.is_muted() {
            return Ok(None);
        }
        match VoiceFrame::in_channel(self.stream_id, self.channel, self.sequence, packet) {
            Ok(frame) => Ok(Some(Command::SendVoice(frame))),
            Err(error) => Err(AudioError::message(error.text())),
        }
    }

    /// The frame was sent: the next one has the next number.
    pub fn spoken(&mut self)
        requires
            old(self).sequence < u64::MAX,
        ensures
            *final(self) == (Speaker {
                sequence: (old(self).sequence + 1) as u64,
                ..*old(self)
            }),
    {
        self.sequence = self.sequence + 1;
    }

    /// How the speaker tells where it is.
    pub fn presence(&self, state: VoicePresence) -> (command: Command)
        ensures
            command == (Command::SetVoicePresence { channel: self.channel, state }),
    {
        Command::SetVoicePresence { channel: self.channel, state }
    }

    /// Whether what came in is for the channel that the speaker is in.
    pub fn hears(&self, frame: &VoiceFrame) -> (hears: bool)
        ensures
            hears == (frame@.channel_id == self.channel),
    {
        is_joined_channel(frame, self.channel)
    }
}

/// A packet's place in its stream, as a key.
#[derive(Clone, Copy, Debug, PartialEq, Eq, Structural)]
pub struct Sequence(pub u64);

impl ByteKey for Sequence {
    open spec fn key_bytes(self) -> Seq<u8> {
        be64(self.0)
    }

    open spec fn key_len() -> nat {
        8
    }

    proof fn key_facts(a: Self, b: Self) {
        if a.key_bytes() == b.key_bytes() {
            be64_injective(a.0, b.0);
        }
    }

    fn stands_before(&self, other: &Self) -> (before: bool) {
        let a: [u8; 8] = to_be64(self.0);
        let b: [u8; 8] = to_be64(other.0);
        matches!(byte_order(a.as_slice(), b.as_slice()), ByteOrder::Before)
    }
}

} // verus!
