//! What members say to each other: channels, texts, attachments, voice frames, and the commands
//! and events around them.

use vstd::prelude::*;
use vstd::utf8::{encode_utf8, is_ascii_chars, is_ascii_chars_encode_utf8};

use std::cmp::Ordering;

use crate::bytes::{
    append, be64, byte_order, byte_ordering, order_bytes, same_bytes, to_be64, to_vec, ByteOrder,
};
use crate::community::{
    legacy_community, Community, CommunityId, MemberId, MemberRole, MembershipChange,
};
use crate::fault::{invalid_fault, protocol_fault, Fault, FaultKind};
use crate::primitives::{
    ed25519_objection, ed25519_public, ed25519_public_key, ed25519_sign, ed25519_signature,
    ed25519_verify, random_32,
};
use crate::sorted::{ByteKey, SortedMap};
use crate::text::{
    byte_len, clean, is_clean, is_control_char, is_white_space, same_text, utf8_len,
};

verus! {

/// The longest text, in bytes.
pub const MAX_TEXT_BYTES: usize = 16384;

/// The longest voice frame, in bytes.
pub const MAX_VOICE_FRAME_BYTES: usize = 1024;

/// How many members a voice channel holds.
pub const MAX_VOICE_PARTICIPANTS: usize = 4;

/// The longest channel name, in bytes.
pub const MAX_CHANNEL_NAME_BYTES: usize = 64;

/// The largest attachment, in bytes.
pub const MAX_ATTACHMENT_BYTES: usize = 8388608;

/// The longest name of an attachment, in bytes.
pub const MAX_ATTACHMENT_NAME_BYTES: usize = 255;

/// The longest display name, in bytes.
pub const MAX_DISPLAY_NAME_BYTES: usize = 64;

/// A name that a member goes by.
#[derive(Debug, PartialEq, Eq)]
pub struct DisplayName {
    value: String,
}

/// Why a display name is refused.
#[derive(Clone, Copy, Debug, PartialEq, Eq, Structural)]
pub enum DisplayNameError {
    Empty,
    TooLong,
    Invalid,
}

/// What is wrong with a display name.
pub open spec fn display_name_objection(value: Seq<char>) -> Option<DisplayNameError> {
    if value.len() == 0 {
        Some(DisplayNameError::Empty)
    } else if utf8_len(value) > MAX_DISPLAY_NAME_BYTES {
        Some(DisplayNameError::TooLong)
    } else if !is_clean(value) {
        Some(DisplayNameError::Invalid)
    } else {
        None
    }
}

/// The text of each refusal.
pub open spec fn display_name_error_text(error: DisplayNameError) -> Seq<char> {
    match error {
        DisplayNameError::Empty => "display name is empty"@,
        DisplayNameError::TooLong => "display name exceeds 64 bytes"@,
        DisplayNameError::Invalid =>
            "display name has surrounding whitespace or control characters"@,
    }
}

impl DisplayNameError {
    /// The text of the refusal.
    pub fn text(self) -> (text: &'static str)
        ensures
            text@ == display_name_error_text(self),
    {
        match self {
            DisplayNameError::Empty => "display name is empty",
            DisplayNameError::TooLong => "display name exceeds 64 bytes",
            DisplayNameError::Invalid =>
                "display name has surrounding whitespace or control characters",
        }
    }

    /// The refusal as a fault.
    pub fn fault(self) -> (fault: Fault)
        ensures
            fault@ == invalid_fault(display_name_error_text(self)),
    {
        Fault::new(FaultKind::InvalidMessage, self.text())
    }
}

impl View for DisplayName {
    type V = Seq<char>;

    closed spec fn view(&self) -> Seq<char> {
        self.value@
    }
}

impl DisplayName {
    #[verifier::type_invariant]
    spec fn bounded_and_clean(&self) -> bool {
        display_name_objection(self@) is None
    }

    /// The name, where it is not empty, not too long and clean.
    pub fn new(value: &str) -> (name: Result<Self, DisplayNameError>)
        ensures
            match name {
                Ok(name) => name@ == value@ && display_name_objection(value@) is None,
                Err(error) => display_name_objection(value@) == Some(error),
            },
    {
        if value.is_empty() {
            return Err(DisplayNameError::Empty);
        }
        if byte_len(value) > MAX_DISPLAY_NAME_BYTES {
            return Err(DisplayNameError::TooLong);
        }
        if !clean(value) {
            return Err(DisplayNameError::Invalid);
        }
        Ok(DisplayName { value: value.to_owned() })
    }

    /// The name.
    pub fn as_str(&self) -> (value: &str)
        ensures
            value@ == self@,
            display_name_objection(self@) is None,
    {
        proof {
            use_type_invariant(self);
        }
        self.value.as_str()
    }
}

impl Clone for DisplayName {
    fn clone(&self) -> (copy: Self)
        ensures
            copy@ == self@,
    {
        proof {
            use_type_invariant(self);
        }
        DisplayName { value: self.value.clone() }
    }
}

/// Names a channel.
#[derive(Clone, Copy, Debug, Eq, Hash, Ord)]
pub struct ChannelId(pub [u8; 32]);

impl View for ChannelId {
    type V = Seq<u8>;

    open spec fn view(&self) -> Seq<u8> {
        self.0@
    }
}

impl PartialEq for ChannelId {
    fn eq(&self, other: &Self) -> (same: bool) {
        let same: bool = same_bytes(self.0.as_slice(), other.0.as_slice());
        assert(same ==> self.0 =~= other.0);
        same
    }
}

impl vstd::std_specs::cmp::PartialEqSpecImpl for ChannelId {
    open spec fn obeys_eq_spec() -> bool {
        true
    }

    open spec fn eq_spec(&self, other: &Self) -> bool {
        *self == *other
    }
}

impl PartialOrd for ChannelId {
    fn partial_cmp(&self, other: &Self) -> (ordering: Option<Ordering>) {
        Some(order_bytes(self.0.as_slice(), other.0.as_slice()))
    }
}

impl vstd::std_specs::cmp::PartialOrdSpecImpl for ChannelId {
    open spec fn obeys_partial_cmp_spec() -> bool {
        true
    }

    open spec fn partial_cmp_spec(&self, other: &Self) -> Option<Ordering> {
        Some(byte_ordering(self@, other@))
    }
}

impl ByteKey for ChannelId {
    open spec fn key_bytes(self) -> Seq<u8> {
        self@
    }

    open spec fn key_len() -> nat {
        32
    }

    proof fn key_facts(a: Self, b: Self) {
        assert(a@ == b@ ==> a.0 =~= b.0);
    }

    fn stands_before(&self, other: &Self) -> (before: bool) {
        matches!(byte_order(self.0.as_slice(), other.0.as_slice()), ByteOrder::Before)
    }
}

/// The text channel that every community has: 32 zero bytes.
pub open spec fn general_channel() -> ChannelId {
    ChannelId(
        [
            0, 0, 0, 0, 0, 0, 0, 0, 0, 0, 0, 0, 0, 0, 0, 0,
            0, 0, 0, 0, 0, 0, 0, 0, 0, 0, 0, 0, 0, 0, 0, 0,
        ],
    )
}

/// The voice channel that every community has: 32 bytes of one.
pub open spec fn voice_room_channel() -> ChannelId {
    ChannelId(
        [
            1, 1, 1, 1, 1, 1, 1, 1, 1, 1, 1, 1, 1, 1, 1, 1,
            1, 1, 1, 1, 1, 1, 1, 1, 1, 1, 1, 1, 1, 1, 1, 1,
        ],
    )
}

impl ChannelId {
    /// The text channel that every community has.
    pub fn general() -> (id: Self)
        ensures
            id == general_channel(),
    {
        let id: ChannelId = ChannelId([0u8; 32]);
        assert(id.0 =~= general_channel().0);
        id
    }

    /// The voice channel that every community has.
    pub fn voice_room() -> (id: Self)
        ensures
            id == voice_room_channel(),
    {
        let id: ChannelId = ChannelId([1u8; 32]);
        assert(id.0 =~= voice_room_channel().0);
        id
    }

    /// A name drawn at random.
    pub fn generate() -> (id: Self) {
        ChannelId(random_32())
    }

    /// The name with these bytes.
    pub fn from_bytes(bytes: [u8; 32]) -> (id: Self)
        ensures
            id == ChannelId(bytes),
    {
        ChannelId(bytes)
    }

    /// The bytes of the name.
    pub fn as_bytes(&self) -> (bytes: &[u8; 32])
        ensures
            *bytes == self.0,
            bytes@ == self@,
    {
        &self.0
    }
}

/// What a channel carries.
#[derive(Clone, Copy, Debug, PartialEq, Eq, Structural)]
pub enum ChannelKind {
    Text,
    Voice,
}

/// The number that stands for a kind in signed and stored bytes.
pub open spec fn kind_number(kind: ChannelKind) -> int {
    match kind {
        ChannelKind::Text => 0,
        ChannelKind::Voice => 1,
    }
}

impl ChannelKind {
    /// The number that stands for the kind.
    pub fn number(self) -> (number: u32)
        ensures
            number == kind_number(self),
    {
        match self {
            ChannelKind::Text => 0,
            ChannelKind::Voice => 1,
        }
    }

    /// The kind that a number stands for.
    pub fn from_number(value: i64) -> (kind: Option<Self>)
        ensures
            match kind {
                Some(kind) => kind_number(kind) == value,
                None => value != 0 && value != 1,
            },
    {
        if value == 0 {
            Some(ChannelKind::Text)
        } else if value == 1 {
            Some(ChannelKind::Voice)
        } else {
            None
        }
    }
}

/// A channel: its name and what it carries.
#[derive(Debug, PartialEq, Eq)]
pub struct Channel {
    id: ChannelId,
    name: String,
    kind: ChannelKind,
}

/// What a channel is.
pub struct ChannelModel {
    pub id: ChannelId,
    pub name: Seq<char>,
    pub kind: ChannelKind,
}

/// Why a channel is refused.
#[derive(Clone, Copy, Debug, PartialEq, Eq, Structural)]
pub enum ChannelError {
    EmptyName,
    NameTooLong,
    InvalidName,
}

/// What is wrong with a channel's name.
pub open spec fn channel_objection(name: Seq<char>) -> Option<ChannelError> {
    if name.len() == 0 {
        Some(ChannelError::EmptyName)
    } else if utf8_len(name) > MAX_CHANNEL_NAME_BYTES {
        Some(ChannelError::NameTooLong)
    } else if !is_clean(name) {
        Some(ChannelError::InvalidName)
    } else {
        None
    }
}

/// The text of each refusal.
pub open spec fn channel_error_text(error: ChannelError) -> Seq<char> {
    match error {
        ChannelError::EmptyName => "channel name is empty"@,
        ChannelError::NameTooLong => "channel name exceeds 64 bytes"@,
        ChannelError::InvalidName =>
            "channel name has surrounding whitespace or control characters"@,
    }
}

impl ChannelError {
    /// The text of the refusal.
    pub fn text(self) -> (text: &'static str)
        ensures
            text@ == channel_error_text(self),
    {
        match self {
            ChannelError::EmptyName => "channel name is empty",
            ChannelError::NameTooLong => "channel name exceeds 64 bytes",
            ChannelError::InvalidName =>
                "channel name has surrounding whitespace or control characters",
        }
    }

    /// The refusal as a fault.
    pub fn fault(self) -> (fault: Fault)
        ensures
            fault@ == invalid_fault(channel_error_text(self)),
    {
        Fault::new(FaultKind::InvalidMessage, self.text())
    }
}

impl View for Channel {
    type V = ChannelModel;

    closed spec fn view(&self) -> ChannelModel {
        ChannelModel { id: self.id, name: self.name@, kind: self.kind }
    }
}

impl Channel {
    #[verifier::type_invariant]
    spec fn bounded_and_clean(&self) -> bool {
        channel_objection(self@.name) is None
    }

    /// The channel, where its name is not empty, not too long and clean.
    pub fn new(
        id: ChannelId,
        name: &str,
        kind: ChannelKind,
    ) -> (channel: Result<Self, ChannelError>)
        ensures
            match channel {
                Ok(channel) => channel@ == (ChannelModel { id, name: name@, kind })
                    && channel_objection(name@) is None,
                Err(error) => channel_objection(name@) == Some(error),
            },
    {
        if name.is_empty() {
            return Err(ChannelError::EmptyName);
        }
        if byte_len(name) > MAX_CHANNEL_NAME_BYTES {
            return Err(ChannelError::NameTooLong);
        }
        if !clean(name) {
            return Err(ChannelError::InvalidName);
        }
        Ok(Channel { id, name: name.to_owned(), kind })
    }

    /// The channel's name in the protocol.
    pub fn id(&self) -> (id: ChannelId)
        ensures
            id == self@.id,
    {
        self.id
    }

    /// The channel's name for its members.
    pub fn name(&self) -> (name: &str)
        ensures
            name@ == self@.name,
            channel_objection(self@.name) is None,
    {
        proof {
            use_type_invariant(self);
        }
        self.name.as_str()
    }

    /// What the channel carries.
    pub fn kind(&self) -> (kind: ChannelKind)
        ensures
            kind == self@.kind,
    {
        self.kind
    }

    /// Whether two channels agree in everything.
    pub fn same(&self, other: &Channel) -> (same: bool)
        ensures
            same == (self@ == other@),
    {
        self.id == other.id && self.kind == other.kind && same_text(
            self.name.as_str(),
            other.name.as_str(),
        )
    }

    /// The channels that every community starts with.
    pub fn default_channels() -> (channels: [Self; 2])
        ensures
            channels[0]@ == (ChannelModel {
                id: general_channel(),
                name: "general"@,
                kind: ChannelKind::Text,
            }),
            channels[1]@ == (ChannelModel {
                id: voice_room_channel(),
                name: "Voice Room"@,
                kind: ChannelKind::Voice,
            }),
    {
        proof {
            reveal_strlit("general");
            reveal_strlit("Voice Room");
            assert(is_ascii_chars("general"@));
            is_ascii_chars_encode_utf8("general"@);
            assert(is_ascii_chars("Voice Room"@));
            is_ascii_chars_encode_utf8("Voice Room"@);
            assert(channel_objection("general"@) is None);
            assert(channel_objection("Voice Room"@) is None);
        }
        [
            Channel {
                id: ChannelId::general(),
                name: "general".to_owned(),
                kind: ChannelKind::Text,
            },
            Channel {
                id: ChannelId::voice_room(),
                name: "Voice Room".to_owned(),
                kind: ChannelKind::Voice,
            },
        ]
    }
}

impl Clone for Channel {
    fn clone(&self) -> (copy: Self)
        ensures
            copy@ == self@,
    {
        proof {
            use_type_invariant(self);
        }
        Channel { id: self.id, name: self.name.clone(), kind: self.kind }
    }
}

/// What signed bytes say of a channel.
pub open spec fn channel_bytes(channel: ChannelModel) -> Seq<u8> {
    channel.id@ + seq![kind_number(channel.kind) as u8] + be64(utf8_len(channel.name) as u64)
        + encode_utf8(channel.name)
}

/// The bytes that the owner signs for a channel.
pub open spec fn channel_message(community: CommunityId, channel: ChannelModel) -> Seq<u8> {
    encode_utf8("peer-community/channel/v2\0"@) + community@ + channel_bytes(channel)
}

/// The bytes that owners signed for a channel before communities had names.
pub open spec fn legacy_channel_message(channel: ChannelModel) -> Seq<u8> {
    encode_utf8("peer-community/channel/v1\0"@) + channel_bytes(channel)
}

/// What strict verification has against the signature of a channel.
pub open spec fn channel_signature_objection(
    owner: MemberId,
    community: CommunityId,
    channel: ChannelModel,
    signature: Seq<u8>,
) -> Option<Seq<char>> {
    let current = ed25519_objection(owner@, channel_message(community, channel), signature);
    if current is Some && community@ == legacy_community(owner) {
        ed25519_objection(owner@, legacy_channel_message(channel), signature)
    } else {
        current
    }
}

fn append_channel_bytes(bytes: &mut Vec<u8>, channel: &Channel)
    ensures
        final(bytes)@ == old(bytes)@ + channel_bytes(channel@),
{
    let ghost before = bytes@;
    let name: &[u8] = channel.name.as_str().as_bytes();
    append(bytes, channel.id.0.as_slice());
    bytes.push(channel.kind.number() as u8);
    append(bytes, to_be64(name.len() as u64).as_slice());
    append(bytes, name);
    assert(bytes@ =~= before + channel_bytes(channel@));
}

/// The bytes that the owner signs for a channel.
pub fn channel_signing_bytes(community_id: CommunityId, channel: &Channel) -> (bytes: Vec<u8>)
    ensures
        bytes@ == channel_message(community_id, channel@),
{
    let mut bytes: Vec<u8> = to_vec("peer-community/channel/v2\0".as_bytes());
    append(&mut bytes, community_id.0.as_slice());
    append_channel_bytes(&mut bytes, channel);
    bytes
}

/// The bytes that owners signed for a channel before communities had names.
pub fn legacy_channel_signing_bytes(channel: &Channel) -> (bytes: Vec<u8>)
    ensures
        bytes@ == legacy_channel_message(channel@),
{
    let mut bytes: Vec<u8> = to_vec("peer-community/channel/v1\0".as_bytes());
    append_channel_bytes(&mut bytes, channel);
    bytes
}

/// A channel with the owner's signature.
#[derive(Clone, Debug, PartialEq, Eq)]
pub struct SignedCreateChannel {
    pub channel: Channel,
    pub signature: [u8; 64],
}

impl SignedCreateChannel {
    /// The channel, signed with the owner's key.
    pub fn sign(signing_seed: &[u8; 32], community_id: CommunityId, channel: Channel) -> (signed:
        Self)
        ensures
            signed.channel@ == channel@,
            signed.signature@ == ed25519_signature(
                signing_seed@,
                channel_message(community_id, channel@),
            ),
    {
        let bytes: Vec<u8> = channel_signing_bytes(community_id, &channel);
        let signature: [u8; 64] = ed25519_sign(signing_seed, bytes.as_slice());
        SignedCreateChannel { channel, signature }
    }

    /// The channel with its signature, where the signature is the owner's.
    pub fn verified(
        owner: MemberId,
        community_id: CommunityId,
        channel: Channel,
        signature: [u8; 64],
    ) -> (signed: Result<Self, String>)
        ensures
            match signed {
                Ok(signed) => signed.channel@ == channel@ && signed.signature == signature
                    && channel_signature_objection(
                    owner,
                    community_id,
                    channel@,
                    signature@,
                ) is None,
                Err(text) => channel_signature_objection(owner, community_id, channel@, signature@)
                    == Some(text@),
            },
    {
        let bytes: Vec<u8> = channel_signing_bytes(community_id, &channel);
        let current: Result<(), String> = ed25519_verify(&owner.0, bytes.as_slice(), &signature);
        let verdict: Result<(), String> = match current {
            Ok(()) => Ok(()),
            Err(text) => {
                let legacy: CommunityId = CommunityId::legacy(owner);
                if same_bytes(community_id.0.as_slice(), legacy.0.as_slice()) {
                    let bytes: Vec<u8> = legacy_channel_signing_bytes(&channel);
                    ed25519_verify(&owner.0, bytes.as_slice(), &signature)
                } else {
                    Err(text)
                }
            },
        };
        match verdict {
            Ok(()) => Ok(SignedCreateChannel { channel, signature }),
            Err(text) => Err(text),
        }
    }

    /// The channel.
    pub fn channel(&self) -> (channel: &Channel)
        ensures
            *channel == self.channel,
    {
        &self.channel
    }

    /// The signature.
    pub fn signature(&self) -> (signature: &[u8; 64])
        ensures
            *signature == self.signature,
    {
        &self.signature
    }
}

/// Names a text or an attachment. Names begin with the time at which they were made.
#[derive(Clone, Copy, Debug, Eq, Hash, Ord)]
pub struct MessageId(pub [u8; 32]);

impl View for MessageId {
    type V = Seq<u8>;

    open spec fn view(&self) -> Seq<u8> {
        self.0@
    }
}

impl PartialEq for MessageId {
    fn eq(&self, other: &Self) -> (same: bool) {
        let same: bool = same_bytes(self.0.as_slice(), other.0.as_slice());
        assert(same ==> self.0 =~= other.0);
        same
    }
}

impl vstd::std_specs::cmp::PartialEqSpecImpl for MessageId {
    open spec fn obeys_eq_spec() -> bool {
        true
    }

    open spec fn eq_spec(&self, other: &Self) -> bool {
        *self == *other
    }
}

impl PartialOrd for MessageId {
    fn partial_cmp(&self, other: &Self) -> (ordering: Option<Ordering>) {
        Some(order_bytes(self.0.as_slice(), other.0.as_slice()))
    }
}

impl vstd::std_specs::cmp::PartialOrdSpecImpl for MessageId {
    open spec fn obeys_partial_cmp_spec() -> bool {
        true
    }

    open spec fn partial_cmp_spec(&self, other: &Self) -> Option<Ordering> {
        Some(byte_ordering(self@, other@))
    }
}

impl ByteKey for MessageId {
    open spec fn key_bytes(self) -> Seq<u8> {
        self@
    }

    open spec fn key_len() -> nat {
        32
    }

    proof fn key_facts(a: Self, b: Self) {
        assert(a.key_bytes() == a@);
        assert(b.key_bytes() == b@);
        assert(Self::key_len() == 32);
        assert(a@ == b@ ==> a.0 =~= b.0);
    }

    fn stands_before(&self, other: &Self) -> (before: bool) {
        matches!(byte_order(self.0.as_slice(), other.0.as_slice()), ByteOrder::Before)
    }
}

/// `SystemTime::elapsed` of the Unix epoch: whole seconds, and the nanoseconds of the second that
/// has begun, of which there are fewer than a thousand million; `None` where the clock stands
/// before the epoch. What time it is, nothing says.
#[verifier::external_body]
fn clock() -> (now: Option<(u64, u32)>)
    ensures
        now matches Some(pair) ==> pair.1 < 1_000_000_000,
{
    let now = std::time::UNIX_EPOCH.elapsed().ok();
    now.map(|now| (now.as_secs(), now.subsec_nanos()))
}

/// Milliseconds in this many seconds and nanoseconds, or as many as a `u64` holds; none where there
/// is no time.
pub open spec fn whole_millis(now: Option<(u64, u32)>) -> int {
    match now {
        Some((seconds, nanos)) => {
            let millis = seconds * 1000 + nanos as int / 1_000_000;
            if millis > u64::MAX {
                u64::MAX as int
            } else {
                millis
            }
        },
        None => 0,
    }
}

/// The milliseconds of a time in seconds and nanoseconds; a time before the epoch counts as the
/// epoch.
pub fn millis_of(now: Option<(u64, u32)>) -> (millis: u64)
    ensures
        millis == whole_millis(now),
{
    match now {
        Some((seconds, nanos)) => {
            let millis: u128 = seconds as u128 * 1000 + (nanos / 1_000_000) as u128;
            if millis > u64::MAX as u128 {
                u64::MAX
            } else {
                millis as u64
            }
        },
        None => 0,
    }
}

impl MessageId {
    /// A name for now: the time in milliseconds, then 24 random bytes.
    pub fn generate() -> (id: Self) {
        MessageId::stamped(millis_of(clock()), random_32())
    }

    /// The name that begins with this time and goes on as `random` does.
    pub fn stamped(millis: u64, random: [u8; 32]) -> (id: Self)
        ensures
            id@ == be64(millis) + random@.skip(8),
    {
        let stamp: [u8; 8] = to_be64(millis);
        let mut bytes: [u8; 32] = random;
        let mut i: usize = 0;
        while i < 8
            invariant
                i <= 8,
                stamp@ == be64(millis),
                forall|j: int| 0 <= j < i ==> bytes@[j] == stamp@[j],
                forall|j: int| i <= j < 32 ==> bytes@[j] == random@[j],
            decreases 8 - i,
        {
            bytes[i] = stamp[i];
            i += 1;
        }
        assert(bytes@ =~= be64(millis) + random@.skip(8));
        MessageId(bytes)
    }

    /// The name with these bytes.
    pub fn from_bytes(bytes: [u8; 32]) -> (id: Self)
        ensures
            id == MessageId(bytes),
    {
        MessageId(bytes)
    }

    /// The bytes of the name.
    pub fn as_bytes(&self) -> (bytes: &[u8; 32])
        ensures
            *bytes == self.0,
            bytes@ == self@,
    {
        &self.0
    }
}

/// A text in a channel.
#[derive(Debug, PartialEq, Eq)]
pub struct TextMessage {
    id: MessageId,
    channel_id: ChannelId,
    body: String,
}

/// What a text is.
pub struct TextModel {
    pub id: MessageId,
    pub channel_id: ChannelId,
    pub body: Seq<char>,
}

/// Why a text is refused.
#[derive(Clone, Copy, Debug, PartialEq, Eq, Structural)]
pub enum MessageError {
    Empty,
    TooLong,
}

/// What is wrong with a text.
pub open spec fn text_objection(body: Seq<char>) -> Option<MessageError> {
    if body.len() == 0 {
        Some(MessageError::Empty)
    } else if utf8_len(body) > MAX_TEXT_BYTES {
        Some(MessageError::TooLong)
    } else {
        None
    }
}

/// The text of each refusal.
pub open spec fn message_error_text(error: MessageError) -> Seq<char> {
    match error {
        MessageError::Empty => "message body is empty"@,
        MessageError::TooLong => "message body exceeds 16 KiB"@,
    }
}

impl MessageError {
    /// The text of the refusal.
    pub fn text(self) -> (text: &'static str)
        ensures
            text@ == message_error_text(self),
    {
        match self {
            MessageError::Empty => "message body is empty",
            MessageError::TooLong => "message body exceeds 16 KiB",
        }
    }

    /// The refusal as a fault.
    pub fn fault(self) -> (fault: Fault)
        ensures
            fault@ == invalid_fault(message_error_text(self)),
    {
        Fault::new(FaultKind::InvalidMessage, self.text())
    }
}

impl View for TextMessage {
    type V = TextModel;

    closed spec fn view(&self) -> TextModel {
        TextModel { id: self.id, channel_id: self.channel_id, body: self.body@ }
    }
}

impl TextMessage {
    #[verifier::type_invariant]
    spec fn bounded(&self) -> bool {
        text_objection(self@.body) is None
    }

    /// A text in the general channel.
    pub fn new(id: MessageId, body: &str) -> (message: Result<Self, MessageError>)
        ensures
            match message {
                Ok(message) => message@ == (TextModel {
                    id,
                    channel_id: general_channel(),
                    body: body@,
                }) && text_objection(body@) is None,
                Err(error) => text_objection(body@) == Some(error),
            },
    {
        TextMessage::in_channel(id, ChannelId::general(), body)
    }

    /// A text in a channel, where it is not empty and not too long.
    pub fn in_channel(id: MessageId, channel_id: ChannelId, body: &str) -> (message: Result<
        Self,
        MessageError,
    >)
        ensures
            match message {
                Ok(message) => message@ == (TextModel { id, channel_id, body: body@ })
                    && text_objection(body@) is None,
                Err(error) => text_objection(body@) == Some(error),
            },
    {
        if body.is_empty() {
            return Err(MessageError::Empty);
        }
        if byte_len(body) > MAX_TEXT_BYTES {
            return Err(MessageError::TooLong);
        }
        Ok(TextMessage { id, channel_id, body: body.to_owned() })
    }

    /// The text's name.
    pub fn id(&self) -> (id: MessageId)
        ensures
            id == self@.id,
    {
        self.id
    }

    /// The channel that the text is in.
    pub fn channel_id(&self) -> (id: ChannelId)
        ensures
            id == self@.channel_id,
    {
        self.channel_id
    }

    /// What the text says.
    pub fn body(&self) -> (body: &str)
        ensures
            body@ == self@.body,
            text_objection(self@.body) is None,
    {
        proof {
            use_type_invariant(self);
        }
        self.body.as_str()
    }
}

impl Clone for TextMessage {
    fn clone(&self) -> (copy: Self)
        ensures
            copy@ == self@,
    {
        proof {
            use_type_invariant(self);
        }
        TextMessage { id: self.id, channel_id: self.channel_id, body: self.body.clone() }
    }
}

/// A text and who wrote it.
#[derive(Debug, PartialEq, Eq)]
pub struct AuthoredText {
    pub author: MemberId,
    pub message: TextMessage,
}

impl AuthoredText {
    /// The text as the author's.
    pub fn new(author: MemberId, message: TextMessage) -> (authored: Self)
        ensures
            authored.author == author,
            authored.message == message,
    {
        AuthoredText { author, message }
    }

    /// Who wrote it.
    pub fn author(&self) -> (author: MemberId)
        ensures
            author == self.author,
    {
        self.author
    }

    /// The text.
    pub fn message(&self) -> (message: &TextMessage)
        ensures
            *message == self.message,
    {
        &self.message
    }
}

impl Clone for AuthoredText {
    fn clone(&self) -> (copy: Self)
        ensures
            copy.author == self.author,
            copy.message@ == self.message@,
    {
        AuthoredText { author: self.author, message: self.message.clone() }
    }
}

/// The bytes that an author signs for a text.
pub open spec fn text_message(text: TextModel) -> Seq<u8> {
    encode_utf8("peer-community/text/v2\0"@) + text.id@ + text.channel_id@ + be64(
        utf8_len(text.body) as u64,
    ) + encode_utf8(text.body)
}

/// The bytes that authors signed for a text before there were channels.
pub open spec fn legacy_text_message(text: TextModel) -> Seq<u8> {
    encode_utf8("peer-community/text/v1\0"@) + text.id@ + be64(utf8_len(text.body) as u64)
        + encode_utf8(text.body)
}

/// What strict verification has against the signature of a text: a signature of the earlier form
/// counts in the general channel only.
pub open spec fn text_signature_objection(
    author: MemberId,
    text: TextModel,
    signature: Seq<u8>,
) -> Option<Seq<char>> {
    let current = ed25519_objection(author@, text_message(text), signature);
    if current is Some && text.channel_id == general_channel() {
        ed25519_objection(author@, legacy_text_message(text), signature)
    } else {
        current
    }
}

/// The bytes that an author signs for a text.
pub fn text_signing_bytes(message: &TextMessage) -> (bytes: Vec<u8>)
    ensures
        bytes@ == text_message(message@),
{
    let mut bytes: Vec<u8> = to_vec("peer-community/text/v2\0".as_bytes());
    let body: &[u8] = message.body.as_str().as_bytes();
    append(&mut bytes, message.id.0.as_slice());
    append(&mut bytes, message.channel_id.0.as_slice());
    append(&mut bytes, to_be64(body.len() as u64).as_slice());
    append(&mut bytes, body);
    bytes
}

/// The bytes that authors signed for a text before there were channels.
pub fn legacy_text_signing_bytes(message: &TextMessage) -> (bytes: Vec<u8>)
    ensures
        bytes@ == legacy_text_message(message@),
{
    let mut bytes: Vec<u8> = to_vec("peer-community/text/v1\0".as_bytes());
    let body: &[u8] = message.body.as_str().as_bytes();
    append(&mut bytes, message.id.0.as_slice());
    append(&mut bytes, to_be64(body.len() as u64).as_slice());
    append(&mut bytes, body);
    bytes
}

/// A text in the clear with its author's signature, as it was stored before texts were encrypted.
#[derive(Debug, PartialEq, Eq)]
pub struct SignedText {
    pub authored: AuthoredText,
    pub signature: [u8; 64],
}

impl SignedText {
    /// The text, signed with its author's key.
    pub fn sign(signing_seed: &[u8; 32], message: TextMessage) -> (signed: Self)
        ensures
            signed.authored.author@ == ed25519_public_key(signing_seed@),
            signed.authored.message == message,
            signed.signature@ == ed25519_signature(signing_seed@, text_message(message@)),
    {
        let author: MemberId = MemberId(ed25519_public(signing_seed));
        let bytes: Vec<u8> = text_signing_bytes(&message);
        let signature: [u8; 64] = ed25519_sign(signing_seed, bytes.as_slice());
        SignedText { authored: AuthoredText::new(author, message), signature }
    }

    /// The text with its signature, where the signature is the author's.
    pub fn verified(authored: AuthoredText, signature: [u8; 64]) -> (signed: Result<Self, String>)
        ensures
            match signed {
                Ok(signed) => signed == (SignedText { authored, signature })
                    && text_signature_objection(
                    authored.author,
                    authored.message@,
                    signature@,
                ) is None,
                Err(text) => text_signature_objection(
                    authored.author,
                    authored.message@,
                    signature@,
                ) == Some(text@),
            },
    {
        let bytes: Vec<u8> = text_signing_bytes(&authored.message);
        let current: Result<(), String> = ed25519_verify(
            &authored.author.0,
            bytes.as_slice(),
            &signature,
        );
        let verdict: Result<(), String> = match current {
            Ok(()) => Ok(()),
            Err(text) => if authored.message.channel_id == ChannelId::general() {
                let bytes: Vec<u8> = legacy_text_signing_bytes(&authored.message);
                ed25519_verify(&authored.author.0, bytes.as_slice(), &signature)
            } else {
                Err(text)
            },
        };
        match verdict {
            Ok(()) => Ok(SignedText { authored, signature }),
            Err(text) => Err(text),
        }
    }

    /// The text and its author.
    pub fn authored(&self) -> (authored: &AuthoredText)
        ensures
            *authored == self.authored,
    {
        &self.authored
    }

    /// The signature.
    pub fn signature(&self) -> (signature: &[u8; 64])
        ensures
            *signature == self.signature,
    {
        &self.signature
    }
}

/// A file in a channel.
#[derive(Debug, PartialEq, Eq)]
pub struct Attachment {
    id: MessageId,
    channel_id: ChannelId,
    name: String,
    bytes: Vec<u8>,
}

/// What an attachment is.
pub struct AttachmentModel {
    pub id: MessageId,
    pub channel_id: ChannelId,
    pub name: Seq<char>,
    pub bytes: Seq<u8>,
}

/// Why an attachment is refused.
#[derive(Clone, Copy, Debug, PartialEq, Eq, Structural)]
pub enum AttachmentError {
    InvalidName,
    Empty,
    TooLarge,
}

/// Whether an attachment may have this name.
pub open spec fn attachment_name_allowed(name: Seq<char>) -> bool {
    name.len() > 0 && utf8_len(name) <= MAX_ATTACHMENT_NAME_BYTES && is_clean(name)
}

/// What is wrong with an attachment.
pub open spec fn attachment_objection(name: Seq<char>, bytes: Seq<u8>) -> Option<AttachmentError> {
    if !attachment_name_allowed(name) {
        Some(AttachmentError::InvalidName)
    } else if bytes.len() == 0 {
        Some(AttachmentError::Empty)
    } else if bytes.len() > MAX_ATTACHMENT_BYTES {
        Some(AttachmentError::TooLarge)
    } else {
        None
    }
}

/// The text of each refusal.
pub open spec fn attachment_error_text(error: AttachmentError) -> Seq<char> {
    match error {
        AttachmentError::InvalidName => "attachment name is invalid"@,
        AttachmentError::Empty => "attachment is empty"@,
        AttachmentError::TooLarge => "attachment exceeds 8 MiB"@,
    }
}

impl AttachmentError {
    /// The text of the refusal.
    pub fn text(self) -> (text: &'static str)
        ensures
            text@ == attachment_error_text(self),
    {
        match self {
            AttachmentError::InvalidName => "attachment name is invalid",
            AttachmentError::Empty => "attachment is empty",
            AttachmentError::TooLarge => "attachment exceeds 8 MiB",
        }
    }

    /// The refusal as a fault.
    pub fn fault(self) -> (fault: Fault)
        ensures
            fault@ == invalid_fault(attachment_error_text(self)),
    {
        Fault::new(FaultKind::InvalidMessage, self.text())
    }
}

impl View for Attachment {
    type V = AttachmentModel;

    closed spec fn view(&self) -> AttachmentModel {
        AttachmentModel {
            id: self.id,
            channel_id: self.channel_id,
            name: self.name@,
            bytes: self.bytes@,
        }
    }
}

impl Attachment {
    #[verifier::type_invariant]
    spec fn bounded_and_clean(&self) -> bool {
        attachment_objection(self@.name, self@.bytes) is None
    }

    /// The attachment, where its name and its size are allowed.
    pub fn new(id: MessageId, channel_id: ChannelId, name: &str, bytes: Vec<u8>) -> (attachment:
        Result<Self, AttachmentError>)
        ensures
            match attachment {
                Ok(attachment) => attachment@ == (AttachmentModel {
                    id,
                    channel_id,
                    name: name@,
                    bytes: bytes@,
                }) && attachment_objection(name@, bytes@) is None,
                Err(error) => attachment_objection(name@, bytes@) == Some(error),
            },
    {
        match Attachment::validate_name(name) {
            Ok(()) => {},
            Err(error) => {
                return Err(error);
            },
        }
        if bytes.is_empty() {
            return Err(AttachmentError::Empty);
        }
        if bytes.len() > MAX_ATTACHMENT_BYTES {
            return Err(AttachmentError::TooLarge);
        }
        Ok(Attachment { id, channel_id, name: name.to_owned(), bytes })
    }

    /// Accepts names that an attachment may have.
    pub fn validate_name(name: &str) -> (verdict: Result<(), AttachmentError>)
        ensures
            verdict == (if attachment_name_allowed(name@) {
                Ok::<(), AttachmentError>(())
            } else {
                Err::<(), AttachmentError>(AttachmentError::InvalidName)
            }),
    {
        if name.is_empty() || byte_len(name) > MAX_ATTACHMENT_NAME_BYTES || !clean(name) {
            return Err(AttachmentError::InvalidName);
        }
        Ok(())
    }

    /// The attachment's name in the protocol.
    pub fn id(&self) -> (id: MessageId)
        ensures
            id == self@.id,
    {
        self.id
    }

    /// The channel that the attachment is in.
    pub fn channel_id(&self) -> (id: ChannelId)
        ensures
            id == self@.channel_id,
    {
        self.channel_id
    }

    /// The attachment's file name.
    pub fn name(&self) -> (name: &str)
        ensures
            name@ == self@.name,
            attachment_objection(self@.name, self@.bytes) is None,
    {
        proof {
            use_type_invariant(self);
        }
        self.name.as_str()
    }

    /// The file.
    pub fn bytes(&self) -> (bytes: &[u8])
        ensures
            bytes@ == self@.bytes,
            attachment_objection(self@.name, self@.bytes) is None,
    {
        proof {
            use_type_invariant(self);
        }
        self.bytes.as_slice()
    }
}

impl Clone for Attachment {
    fn clone(&self) -> (copy: Self)
        ensures
            copy@ == self@,
    {
        proof {
            use_type_invariant(self);
        }
        Attachment {
            id: self.id,
            channel_id: self.channel_id,
            name: self.name.clone(),
            bytes: to_vec(self.bytes.as_slice()),
        }
    }
}

/// An attachment and who shared it.
#[derive(Debug, PartialEq, Eq)]
pub struct AuthoredAttachment {
    pub author: MemberId,
    pub attachment: Attachment,
}

impl AuthoredAttachment {
    /// The attachment as the author's.
    pub fn new(author: MemberId, attachment: Attachment) -> (authored: Self)
        ensures
            authored.author == author,
            authored.attachment == attachment,
    {
        AuthoredAttachment { author, attachment }
    }

    /// Who shared it.
    pub fn author(&self) -> (author: MemberId)
        ensures
            author == self.author,
    {
        self.author
    }

    /// The attachment.
    pub fn attachment(&self) -> (attachment: &Attachment)
        ensures
            *attachment == self.attachment,
    {
        &self.attachment
    }
}

impl Clone for AuthoredAttachment {
    fn clone(&self) -> (copy: Self)
        ensures
            copy.author == self.author,
            copy.attachment@ == self.attachment@,
    {
        AuthoredAttachment { author: self.author, attachment: self.attachment.clone() }
    }
}

/// Names a stream of voice frames.
#[derive(Clone, Copy, Debug, Eq, Hash, Ord)]
pub struct VoiceStreamId(pub [u8; 16]);

impl View for VoiceStreamId {
    type V = Seq<u8>;

    open spec fn view(&self) -> Seq<u8> {
        self.0@
    }
}

impl PartialEq for VoiceStreamId {
    fn eq(&self, other: &Self) -> (same: bool) {
        let same: bool = same_bytes(self.0.as_slice(), other.0.as_slice());
        assert(same ==> self.0 =~= other.0);
        same
    }
}

impl vstd::std_specs::cmp::PartialEqSpecImpl for VoiceStreamId {
    open spec fn obeys_eq_spec() -> bool {
        true
    }

    open spec fn eq_spec(&self, other: &Self) -> bool {
        *self == *other
    }
}

impl PartialOrd for VoiceStreamId {
    fn partial_cmp(&self, other: &Self) -> (ordering: Option<Ordering>) {
        Some(order_bytes(self.0.as_slice(), other.0.as_slice()))
    }
}

impl vstd::std_specs::cmp::PartialOrdSpecImpl for VoiceStreamId {
    open spec fn obeys_partial_cmp_spec() -> bool {
        true
    }

    open spec fn partial_cmp_spec(&self, other: &Self) -> Option<Ordering> {
        Some(byte_ordering(self@, other@))
    }
}

impl ByteKey for VoiceStreamId {
    open spec fn key_bytes(self) -> Seq<u8> {
        self@
    }

    open spec fn key_len() -> nat {
        16
    }

    proof fn key_facts(a: Self, b: Self) {
        assert(a@ == b@ ==> a.0 =~= b.0);
    }

    fn stands_before(&self, other: &Self) -> (before: bool) {
        matches!(byte_order(self.0.as_slice(), other.0.as_slice()), ByteOrder::Before)
    }
}

impl VoiceStreamId {
    /// The name with these bytes.
    pub fn from_bytes(bytes: [u8; 16]) -> (id: Self)
        ensures
            id == VoiceStreamId(bytes),
    {
        VoiceStreamId(bytes)
    }

    /// The bytes of the name.
    pub fn as_bytes(&self) -> (bytes: &[u8; 16])
        ensures
            *bytes == self.0,
            bytes@ == self@,
    {
        &self.0
    }
}

/// A piece of a voice stream.
#[derive(Debug, PartialEq, Eq)]
pub struct VoiceFrame {
    stream_id: VoiceStreamId,
    channel_id: ChannelId,
    sequence: u64,
    payload: Vec<u8>,
}

/// What a voice frame is.
pub struct VoiceFrameModel {
    pub stream_id: VoiceStreamId,
    pub channel_id: ChannelId,
    pub sequence: u64,
    pub payload: Seq<u8>,
}

/// Why a voice frame is refused.
#[derive(Clone, Copy, Debug, PartialEq, Eq, Structural)]
pub enum VoiceFrameError {
    Empty,
    TooLarge,
}

/// What is wrong with a voice frame.
pub open spec fn voice_frame_objection(payload: Seq<u8>) -> Option<VoiceFrameError> {
    if payload.len() == 0 {
        Some(VoiceFrameError::Empty)
    } else if payload.len() > MAX_VOICE_FRAME_BYTES {
        Some(VoiceFrameError::TooLarge)
    } else {
        None
    }
}

/// The text of each refusal.
pub open spec fn voice_frame_error_text(error: VoiceFrameError) -> Seq<char> {
    match error {
        VoiceFrameError::Empty => "voice frame payload is empty"@,
        VoiceFrameError::TooLarge => "voice frame payload exceeds 1 KiB"@,
    }
}

impl VoiceFrameError {
    /// The text of the refusal.
    pub fn text(self) -> (text: &'static str)
        ensures
            text@ == voice_frame_error_text(self),
    {
        match self {
            VoiceFrameError::Empty => "voice frame payload is empty",
            VoiceFrameError::TooLarge => "voice frame payload exceeds 1 KiB",
        }
    }

    /// The refusal as a fault.
    pub fn fault(self) -> (fault: Fault)
        ensures
            fault@ == protocol_fault(voice_frame_error_text(self)),
    {
        Fault::protocol(self.text())
    }
}

impl View for VoiceFrame {
    type V = VoiceFrameModel;

    closed spec fn view(&self) -> VoiceFrameModel {
        VoiceFrameModel {
            stream_id: self.stream_id,
            channel_id: self.channel_id,
            sequence: self.sequence,
            payload: self.payload@,
        }
    }
}

impl VoiceFrame {
    #[verifier::type_invariant]
    spec fn bounded(&self) -> bool {
        voice_frame_objection(self@.payload) is None
    }

    /// A frame in the voice room.
    pub fn new(stream_id: VoiceStreamId, sequence: u64, payload: Vec<u8>) -> (frame: Result<
        Self,
        VoiceFrameError,
    >)
        ensures
            match frame {
                Ok(frame) => frame@ == (VoiceFrameModel {
                    stream_id,
                    channel_id: voice_room_channel(),
                    sequence,
                    payload: payload@,
                }) && voice_frame_objection(payload@) is None,
                Err(error) => voice_frame_objection(payload@) == Some(error),
            },
    {
        VoiceFrame::in_channel(stream_id, ChannelId::voice_room(), sequence, payload)
    }

    /// A frame in a channel, where its payload is not empty and not too large.
    pub fn in_channel(
        stream_id: VoiceStreamId,
        channel_id: ChannelId,
        sequence: u64,
        payload: Vec<u8>,
    ) -> (frame: Result<Self, VoiceFrameError>)
        ensures
            match frame {
                Ok(frame) => frame@ == (VoiceFrameModel {
                    stream_id,
                    channel_id,
                    sequence,
                    payload: payload@,
                }) && voice_frame_objection(payload@) is None,
                Err(error) => voice_frame_objection(payload@) == Some(error),
            },
    {
        if payload.is_empty() {
            return Err(VoiceFrameError::Empty);
        }
        if payload.len() > MAX_VOICE_FRAME_BYTES {
            return Err(VoiceFrameError::TooLarge);
        }
        Ok(VoiceFrame { stream_id, channel_id, sequence, payload })
    }

    /// The stream that the frame belongs to.
    pub fn stream_id(&self) -> (id: VoiceStreamId)
        ensures
            id == self@.stream_id,
    {
        self.stream_id
    }

    /// The channel that the frame is sent in.
    pub fn channel_id(&self) -> (id: ChannelId)
        ensures
            id == self@.channel_id,
    {
        self.channel_id
    }

    /// The frame's place in its stream.
    pub fn sequence(&self) -> (sequence: u64)
        ensures
            sequence == self@.sequence,
    {
        self.sequence
    }

    /// What the frame carries.
    pub fn payload(&self) -> (payload: &[u8])
        ensures
            payload@ == self@.payload,
            voice_frame_objection(self@.payload) is None,
    {
        proof {
            use_type_invariant(self);
        }
        self.payload.as_slice()
    }
}

impl Clone for VoiceFrame {
    fn clone(&self) -> (copy: Self)
        ensures
            copy@ == self@,
    {
        proof {
            use_type_invariant(self);
        }
        VoiceFrame {
            stream_id: self.stream_id,
            channel_id: self.channel_id,
            sequence: self.sequence,
            payload: to_vec(self.payload.as_slice()),
        }
    }
}

/// A voice frame and who sent it.
#[derive(Clone, Debug, PartialEq, Eq)]
pub struct AuthoredVoice {
    pub author: MemberId,
    pub frame: VoiceFrame,
}

impl AuthoredVoice {
    /// The frame as the author's.
    pub fn new(author: MemberId, frame: VoiceFrame) -> (authored: Self)
        ensures
            authored.author == author,
            authored.frame == frame,
    {
        AuthoredVoice { author, frame }
    }

    /// Who sent it.
    pub fn author(&self) -> (author: MemberId)
        ensures
            author == self.author,
    {
        self.author
    }

    /// The frame.
    pub fn frame(&self) -> (frame: &VoiceFrame)
        ensures
            *frame == self.frame,
    {
        &self.frame
    }
}

/// What a member does in a voice channel.
#[derive(Clone, Copy, Debug, PartialEq, Eq, Structural)]
pub enum VoicePresence {
    Joined,
    Left,
    Muted(bool),
}

/// What a user asks of a node.
#[derive(Clone, Debug, PartialEq, Eq)]
pub enum Command {
    SetDisplayName(DisplayName),
    CreateChannel(Channel),
    PostText(TextMessage),
    ShareAttachment(Attachment),
    ForgetAttachment { author: MemberId, id: MessageId },
    SendVoice(VoiceFrame),
    SetVoicePresence { channel: ChannelId, state: VoicePresence },
    ChangeMembership(MembershipChange),
}

/// What a node tells its user.
#[derive(Clone, Debug, PartialEq, Eq)]
pub enum Event {
    PeerConnected(MemberId),
    DisplayNameChanged { member: MemberId, name: DisplayName },
    ChannelCreated(Channel),
    TextStored(AuthoredText),
    AttachmentStored(AuthoredAttachment),
    AttachmentForgotten { author: MemberId, id: MessageId },
    VoiceReceived(AuthoredVoice),
    VoicePresence { channel: ChannelId, member: MemberId, state: VoicePresence },
    MembershipChanged(Community),
    Fault(Fault),
}

/// Everything that a node holds in the clear.
#[derive(Debug, PartialEq, Eq)]
pub struct Snapshot {
    pub channels: Vec<Channel>,
    pub messages: Vec<AuthoredText>,
    pub attachments: Vec<AuthoredAttachment>,
    pub community: Community,
    pub members: Vec<MemberId>,
    pub display_names: SortedMap<MemberId, DisplayName>,
}

impl Snapshot {
    /// A snapshot with the community's members.
    pub fn new(
        channels: Vec<Channel>,
        messages: Vec<AuthoredText>,
        attachments: Vec<AuthoredAttachment>,
        community: Community,
        display_names: SortedMap<MemberId, DisplayName>,
    ) -> (snapshot: Self)
        ensures
            snapshot.channels == channels,
            snapshot.messages == messages,
            snapshot.attachments == attachments,
            snapshot.community == community,
            snapshot.members@ == community.member_list(),
            snapshot.display_names == display_names,
    {
        let members: Vec<MemberId> = community.members();
        Snapshot { channels, messages, attachments, community, members, display_names }
    }

    /// The channels.
    pub fn channels(&self) -> (channels: &Vec<Channel>)
        ensures
            *channels == self.channels,
    {
        &self.channels
    }

    /// The texts.
    pub fn messages(&self) -> (messages: &Vec<AuthoredText>)
        ensures
            *messages == self.messages,
    {
        &self.messages
    }

    /// The attachments.
    pub fn attachments(&self) -> (attachments: &Vec<AuthoredAttachment>)
        ensures
            *attachments == self.attachments,
    {
        &self.attachments
    }

    /// The owner of the community.
    pub fn owner(&self) -> (owner: MemberId)
        ensures
            owner == self.community@.owner,
    {
        self.community.owner()
    }

    /// The admitted members.
    pub fn members(&self) -> (members: &Vec<MemberId>)
        ensures
            *members == self.members,
    {
        &self.members
    }

    /// The role of `member`.
    pub fn role(&self, member: MemberId) -> (role: Option<MemberRole>)
        ensures
            role == self.community@.role(member),
    {
        self.community.role(member)
    }

    /// The names that members go by.
    pub fn display_names(&self) -> (names: &SortedMap<MemberId, DisplayName>)
        ensures
            *names == self.display_names,
    {
        &self.display_names
    }
}

/// What an author signs for a text tells its name, its channel and its body apart.
pub proof fn text_message_binds(a: TextModel, b: TextModel)
    requires
        text_message(a) == text_message(b),
    ensures
        a == b,
{
    let prefix = encode_utf8("peer-community/text/v2\0"@);
    let n = prefix.len() as int;
    let (x, y) = (text_message(a), text_message(b));
    assert(x.subrange(n, n + 32) =~= a.id@);
    assert(y.subrange(n, n + 32) =~= b.id@);
    MessageId::key_facts(a.id, b.id);
    assert(x.subrange(n + 32, n + 64) =~= a.channel_id@);
    assert(y.subrange(n + 32, n + 64) =~= b.channel_id@);
    ChannelId::key_facts(a.channel_id, b.channel_id);
    assert(x.subrange(n + 72, x.len() as int) =~= encode_utf8(a.body));
    assert(y.subrange(n + 72, y.len() as int) =~= encode_utf8(b.body));
    vstd::utf8::encode_utf8_decode_utf8(a.body);
    vstd::utf8::encode_utf8_decode_utf8(b.body);
}

/// What the owner signs for a channel tells the community and everything about the channel apart.
pub proof fn channel_message_binds(
    community: CommunityId,
    a: ChannelModel,
    other_community: CommunityId,
    b: ChannelModel,
)
    requires
        channel_message(community, a) == channel_message(other_community, b),
    ensures
        community == other_community,
        a == b,
{
    let prefix = encode_utf8("peer-community/channel/v2\0"@);
    let n = prefix.len() as int;
    let (x, y) = (channel_message(community, a), channel_message(other_community, b));
    assert(x.subrange(n, n + 32) =~= community@);
    assert(y.subrange(n, n + 32) =~= other_community@);
    assert(community.0 =~= other_community.0);
    assert(x.subrange(n + 32, n + 64) =~= a.id@);
    assert(y.subrange(n + 32, n + 64) =~= b.id@);
    ChannelId::key_facts(a.id, b.id);
    assert(x[n + 64] == kind_number(a.kind) as u8);
    assert(y[n + 64] == kind_number(b.kind) as u8);
    assert(x.subrange(n + 73, x.len() as int) =~= encode_utf8(a.name));
    assert(y.subrange(n + 73, y.len() as int) =~= encode_utf8(b.name));
    vstd::utf8::encode_utf8_decode_utf8(a.name);
    vstd::utf8::encode_utf8_decode_utf8(b.name);
}

/// A display name is in order where it is one to sixty-four bytes long, neither starts nor ends with
/// white space, and has no control characters. So is the name of a channel, and that of an attachment
/// with up to two hundred and fifty-five bytes.
pub proof fn names_in_order(name: Seq<char>)
    ensures
        ({
            let clean = name.len() > 0 && !is_white_space(name[0]) && !is_white_space(name.last())
                && forall|i: int| 0 <= i < name.len() ==> !is_control_char(#[trigger] name[i]);
            &&& display_name_objection(name) is None <==> clean && encode_utf8(name).len() <= 64
            &&& channel_objection(name) is None <==> clean && encode_utf8(name).len() <= 64
            &&& attachment_name_allowed(name) <==> clean && encode_utf8(name).len() <= 255
        }),
{
}

/// A text is in order where it has one byte to sixteen kibibytes, a frame with one byte to one
/// kibibyte, and an attachment where its name is and it has one byte to eight mebibytes.
pub proof fn content_in_order(body: Seq<char>, name: Seq<char>, bytes: Seq<u8>)
    ensures
        text_objection(body) is None <==> body.len() > 0 && encode_utf8(body).len() <= 16_384,
        voice_frame_objection(bytes) is None <==> 0 < bytes.len() <= 1_024,
        attachment_objection(name, bytes) is None <==> attachment_name_allowed(name) && 0
            < bytes.len() <= 8_388_608,
{
}

} // verus!
