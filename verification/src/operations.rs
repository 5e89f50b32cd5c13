//! Operations: how what peers exchange is written, and what is made of what a peer sends.

use vstd::prelude::*;

use crate::bytes::{to_array, to_vec};
use crate::community::{
    subject, MemberId, MembershipChange, MembershipUpdate, SignedMembership,
};
use crate::crypto::{
    ContentKeyEnvelope, ContentModel, EncryptedAttachment, EncryptedMemberProfile, EncryptedText,
    EncryptedVoicePresence, EnvelopeModel, KeyRegistration, PresenceModel, ProfileModel,
};
use crate::decoding::{decoding_text, explain, Shape};
use crate::fault::{invalid_fault, protocol_fault, Fault, FaultModel};
use crate::model::{
    channel_error_text, channel_objection, kind_number, Channel, ChannelId, ChannelKind,
    ChannelModel, MessageId, SignedCreateChannel, VoiceStreamId, MAX_ATTACHMENT_BYTES,
    MAX_ATTACHMENT_NAME_BYTES, MAX_DISPLAY_NAME_BYTES,
};
use crate::names::TextIdentity;
use crate::sorted::SortedMap;
use crate::text::push_hex;
use crate::wire::{self, Body, BodyModel};

verus! {

/// The greatest length of an operation on the wire.
pub const MAX_OPERATION_BYTES: usize = MAX_ATTACHMENT_BYTES + 2048;

/// The greatest length of an encrypted voice presence.
pub const MAX_VOICE_PRESENCE_CIPHERTEXT: usize = 128;

/// An encrypted text, as it is written.
pub open spec fn text_wire(value: ContentModel) -> wire::TextMessageModel {
    wire::TextMessageModel {
        id: value.id@,
        body: Seq::empty(),
        author: value.author@,
        signature: value.signature,
        channel_id: value.channel_id@,
        epoch: value.epoch,
        membership_head: value.head,
        nonce: value.nonce,
        ciphertext: value.ciphertext,
    }
}

/// What keeps a message from being an encrypted text.
pub open spec fn text_unreadable(message: wire::TextMessageModel) -> Option<FaultModel> {
    if message.id.len() != 32 {
        Some(protocol_fault("message id is not 32 bytes"@))
    } else if message.author.len() != 32 {
        Some(protocol_fault("message author id is not 32 bytes"@))
    } else if message.signature.len() != 64 {
        Some(protocol_fault("message signature is not 64 bytes"@))
    } else if message.channel_id.len() != 32 {
        Some(protocol_fault("message channel id is not 32 bytes"@))
    } else if message.body.len() != 0 {
        Some(protocol_fault("live plaintext text operations are unsupported"@))
    } else if message.membership_head.len() != 32 {
        Some(protocol_fault("membership head is not 32 bytes"@))
    } else if message.nonce.len() != 24 {
        Some(protocol_fault("text nonce is not 24 bytes"@))
    } else {
        None
    }
}

/// The operation that carries an encrypted text.
pub fn text_operation(value: &EncryptedText) -> (body: Body)
    ensures
        body@ == BodyModel::Text(text_wire(value@)),
{
    let message: wire::TextMessage = wire::TextMessage {
        id: to_vec(value.id.0.as_slice()),
        body: String::new(),
        author: to_vec(value.author.0.as_slice()),
        signature: to_vec(value.signature.as_slice()),
        channel_id: to_vec(value.channel_id.0.as_slice()),
        epoch: value.epoch,
        membership_head: to_vec(value.head.as_slice()),
        nonce: to_vec(value.nonce.as_slice()),
        ciphertext: to_vec(value.ciphertext.as_slice()),
    };
    Body::Text(message)
}

/// An encrypted text out of a message.
pub fn read_text(message: wire::TextMessage) -> (value: Result<EncryptedText, Fault>)
    ensures
        match value {
            Ok(value) => text_unreadable(message@) is None && message@ == text_wire(value@),
            Err(fault) => text_unreadable(message@) == Some(fault@),
        },
{
    let id: [u8; 32] = match to_array::<32>(message.id.as_slice()) {
        Some(array) => array,
        None => {
            return Err(Fault::protocol("message id is not 32 bytes"));
        },
    };
    let author: [u8; 32] = match to_array::<32>(message.author.as_slice()) {
        Some(array) => array,
        None => {
            return Err(Fault::protocol("message author id is not 32 bytes"));
        },
    };
    let signature: [u8; 64] = match to_array::<64>(message.signature.as_slice()) {
        Some(array) => array,
        None => {
            return Err(Fault::protocol("message signature is not 64 bytes"));
        },
    };
    let channel_id: [u8; 32] = match to_array::<32>(message.channel_id.as_slice()) {
        Some(array) => array,
        None => {
            return Err(Fault::protocol("message channel id is not 32 bytes"));
        },
    };
    if !message.body.as_str().is_empty() {
        return Err(Fault::protocol("live plaintext text operations are unsupported"));
    }
    assert(message.body@ =~= Seq::<char>::empty());
    let head: [u8; 32] = match to_array::<32>(message.membership_head.as_slice()) {
        Some(array) => array,
        None => {
            return Err(Fault::protocol("membership head is not 32 bytes"));
        },
    };
    let nonce: [u8; 24] = match to_array::<24>(message.nonce.as_slice()) {
        Some(array) => array,
        None => {
            return Err(Fault::protocol("text nonce is not 24 bytes"));
        },
    };
    Ok(
        EncryptedText {
            id: MessageId(id),
            author: MemberId(author),
            signature,
            channel_id: ChannelId(channel_id),
            epoch: message.epoch,
            head,
            nonce,
            ciphertext: message.ciphertext,
        },
    )
}

/// Whoever reads an encrypted text that was written reads what was written.
pub proof fn text_carried(written: EncryptedText, read: EncryptedText)
    requires
        text_wire(written@) == text_wire(read@),
    ensures
        written@ == read@,
{
    let (a, b) = (text_wire(written@), text_wire(read@));
    assert(a.id == b.id);
    assert(written.id.0 =~= read.id.0);
    assert(a.author == b.author);
    assert(written.author.0 =~= read.author.0);
    assert(a.signature == b.signature);
    assert(a.channel_id == b.channel_id);
    assert(written.channel_id.0 =~= read.channel_id.0);
    assert(a.membership_head == b.membership_head);
    assert(a.nonce == b.nonce);
    assert(a.ciphertext == b.ciphertext);
}

/// An encrypted attachment, as it is written.
pub open spec fn attachment_wire(value: ContentModel) -> wire::AttachmentModel {
    wire::AttachmentModel {
        id: value.id@,
        author: value.author@,
        channel_id: value.channel_id@,
        epoch: value.epoch,
        membership_head: value.head,
        nonce: value.nonce,
        ciphertext: value.ciphertext,
        signature: value.signature,
    }
}

/// What keeps a message from being an encrypted attachment.
pub open spec fn attachment_unreadable(message: wire::AttachmentModel) -> Option<FaultModel> {
    if message.id.len() != 32 {
        Some(protocol_fault("attachment id is not 32 bytes"@))
    } else if message.author.len() != 32 {
        Some(protocol_fault("attachment author is not 32 bytes"@))
    } else if message.channel_id.len() != 32 {
        Some(protocol_fault("attachment channel is not 32 bytes"@))
    } else if message.membership_head.len() != 32 {
        Some(protocol_fault("attachment membership head is not 32 bytes"@))
    } else if message.nonce.len() != 24 {
        Some(protocol_fault("attachment nonce is not 24 bytes"@))
    } else if message.signature.len() != 64 {
        Some(protocol_fault("attachment signature is not 64 bytes"@))
    } else if message.ciphertext.len() > MAX_ATTACHMENT_BYTES + MAX_ATTACHMENT_NAME_BYTES + 18 {
        Some(protocol_fault("attachment ciphertext exceeds the size limit"@))
    } else {
        None
    }
}

/// The operation that carries an encrypted attachment.
pub fn attachment_operation(value: &EncryptedAttachment) -> (body: Body)
    ensures
        body@ == BodyModel::Attachment(attachment_wire(value@)),
{
    let message: wire::Attachment = wire::Attachment {
        id: to_vec(value.id.0.as_slice()),
        author: to_vec(value.author.0.as_slice()),
        channel_id: to_vec(value.channel_id.0.as_slice()),
        epoch: value.epoch,
        membership_head: to_vec(value.head.as_slice()),
        nonce: to_vec(value.nonce.as_slice()),
        ciphertext: to_vec(value.ciphertext.as_slice()),
        signature: to_vec(value.signature.as_slice()),
    };
    Body::Attachment(message)
}

/// An encrypted attachment out of a message.
pub fn read_attachment(message: wire::Attachment) -> (value: Result<EncryptedAttachment, Fault>)
    ensures
        match value {
            Ok(value) => attachment_unreadable(message@) is None && message@ == attachment_wire(value@),
            Err(fault) => attachment_unreadable(message@) == Some(fault@),
        },
{
    let id: [u8; 32] = match to_array::<32>(message.id.as_slice()) {
        Some(array) => array,
        None => {
            return Err(Fault::protocol("attachment id is not 32 bytes"));
        },
    };
    let author: [u8; 32] = match to_array::<32>(message.author.as_slice()) {
        Some(array) => array,
        None => {
            return Err(Fault::protocol("attachment author is not 32 bytes"));
        },
    };
    let channel_id: [u8; 32] = match to_array::<32>(message.channel_id.as_slice()) {
        Some(array) => array,
        None => {
            return Err(Fault::protocol("attachment channel is not 32 bytes"));
        },
    };
    let head: [u8; 32] = match to_array::<32>(message.membership_head.as_slice()) {
        Some(array) => array,
        None => {
            return Err(Fault::protocol("attachment membership head is not 32 bytes"));
        },
    };
    let nonce: [u8; 24] = match to_array::<24>(message.nonce.as_slice()) {
        Some(array) => array,
        None => {
            return Err(Fault::protocol("attachment nonce is not 24 bytes"));
        },
    };
    let signature: [u8; 64] = match to_array::<64>(message.signature.as_slice()) {
        Some(array) => array,
        None => {
            return Err(Fault::protocol("attachment signature is not 64 bytes"));
        },
    };
    if message.ciphertext.len() > MAX_ATTACHMENT_BYTES + MAX_ATTACHMENT_NAME_BYTES + 18 {
        return Err(Fault::protocol("attachment ciphertext exceeds the size limit"));
    }
    Ok(
        EncryptedAttachment {
            id: MessageId(id),
            author: MemberId(author),
            channel_id: ChannelId(channel_id),
            epoch: message.epoch,
            head,
            nonce,
            ciphertext: message.ciphertext,
            signature,
        },
    )
}

/// Whoever reads an encrypted attachment that was written reads what was written.
pub proof fn attachment_carried(written: EncryptedAttachment, read: EncryptedAttachment)
    requires
        attachment_wire(written@) == attachment_wire(read@),
    ensures
        written@ == read@,
{
    let (a, b) = (attachment_wire(written@), attachment_wire(read@));
    assert(a.id == b.id);
    assert(written.id.0 =~= read.id.0);
    assert(a.author == b.author);
    assert(written.author.0 =~= read.author.0);
    assert(a.channel_id == b.channel_id);
    assert(written.channel_id.0 =~= read.channel_id.0);
    assert(a.membership_head == b.membership_head);
    assert(a.nonce == b.nonce);
    assert(a.ciphertext == b.ciphertext);
    assert(a.signature == b.signature);
}

/// An encrypted display name, as it is written.
pub open spec fn member_profile_wire(value: ProfileModel) -> wire::MemberProfileModel {
    wire::MemberProfileModel {
        member: value.member@,
        revision: value.revision,
        epoch: value.epoch,
        membership_head: value.head,
        nonce: value.nonce,
        ciphertext: value.ciphertext,
        signature: value.signature,
    }
}

/// What keeps a message from being an encrypted display name.
pub open spec fn member_profile_unreadable(
    message: wire::MemberProfileModel,
) -> Option<FaultModel> {
    if message.member.len() != 32 {
        Some(protocol_fault("member profile member is not 32 bytes"@))
    } else if message.membership_head.len() != 32 {
        Some(protocol_fault("member profile membership head is not 32 bytes"@))
    } else if message.nonce.len() != 24 {
        Some(protocol_fault("member profile nonce is not 24 bytes"@))
    } else if message.signature.len() != 64 {
        Some(protocol_fault("member profile signature is not 64 bytes"@))
    } else if message.revision == 0 {
        Some(protocol_fault("member profile revision is zero"@))
    } else if message.ciphertext.len() > MAX_DISPLAY_NAME_BYTES + 16 {
        Some(protocol_fault("member profile ciphertext exceeds the size limit"@))
    } else {
        None
    }
}

/// The operation that carries an encrypted display name.
pub fn member_profile_operation(value: &EncryptedMemberProfile) -> (body: Body)
    ensures
        body@ == BodyModel::MemberProfile(member_profile_wire(value@)),
{
    let message: wire::MemberProfile = wire::MemberProfile {
        member: to_vec(value.member.0.as_slice()),
        revision: value.revision,
        epoch: value.epoch,
        membership_head: to_vec(value.head.as_slice()),
        nonce: to_vec(value.nonce.as_slice()),
        ciphertext: to_vec(value.ciphertext.as_slice()),
        signature: to_vec(value.signature.as_slice()),
    };
    Body::MemberProfile(message)
}

/// An encrypted display name out of a message.
pub fn read_member_profile(
    message: wire::MemberProfile,
) -> (value: Result<EncryptedMemberProfile, Fault>)
    ensures
        match value {
            Ok(value) => member_profile_unreadable(message@) is None && message@ == member_profile_wire(value@),
            Err(fault) => member_profile_unreadable(message@) == Some(fault@),
        },
{
    let member: [u8; 32] = match to_array::<32>(message.member.as_slice()) {
        Some(array) => array,
        None => {
            return Err(Fault::protocol("member profile member is not 32 bytes"));
        },
    };
    let head: [u8; 32] = match to_array::<32>(message.membership_head.as_slice()) {
        Some(array) => array,
        None => {
            return Err(Fault::protocol("member profile membership head is not 32 bytes"));
        },
    };
    let nonce: [u8; 24] = match to_array::<24>(message.nonce.as_slice()) {
        Some(array) => array,
        None => {
            return Err(Fault::protocol("member profile nonce is not 24 bytes"));
        },
    };
    let signature: [u8; 64] = match to_array::<64>(message.signature.as_slice()) {
        Some(array) => array,
        None => {
            return Err(Fault::protocol("member profile signature is not 64 bytes"));
        },
    };
    if message.revision == 0 {
        return Err(Fault::protocol("member profile revision is zero"));
    }
    if message.ciphertext.len() > MAX_DISPLAY_NAME_BYTES + 16 {
        return Err(Fault::protocol("member profile ciphertext exceeds the size limit"));
    }
    Ok(
        EncryptedMemberProfile {
            member: MemberId(member),
            revision: message.revision,
            epoch: message.epoch,
            head,
            nonce,
            ciphertext: message.ciphertext,
            signature,
        },
    )
}

/// Whoever reads an encrypted display name that was written reads what was written.
pub proof fn member_profile_carried(written: EncryptedMemberProfile, read: EncryptedMemberProfile)
    requires
        member_profile_wire(written@) == member_profile_wire(read@),
    ensures
        written@ == read@,
{
    let (a, b) = (member_profile_wire(written@), member_profile_wire(read@));
    assert(a.member == b.member);
    assert(written.member.0 =~= read.member.0);
    assert(a.membership_head == b.membership_head);
    assert(a.nonce == b.nonce);
    assert(a.ciphertext == b.ciphertext);
    assert(a.signature == b.signature);
}

/// An encrypted voice presence, as it is written.
pub open spec fn voice_presence_wire(value: PresenceModel) -> wire::VoicePresenceModel {
    wire::VoicePresenceModel {
        epoch: value.epoch,
        membership_head: value.head,
        nonce: value.nonce,
        ciphertext: value.ciphertext,
    }
}

/// What keeps a message from being an encrypted voice presence.
pub open spec fn voice_presence_unreadable(
    message: wire::VoicePresenceModel,
) -> Option<FaultModel> {
    if message.membership_head.len() != 32 {
        Some(protocol_fault("voice presence head is not 32 bytes"@))
    } else if message.nonce.len() != 24 {
        Some(protocol_fault("voice presence nonce is not 24 bytes"@))
    } else if message.ciphertext.len() > MAX_VOICE_PRESENCE_CIPHERTEXT {
        Some(protocol_fault("voice presence ciphertext exceeds the size limit"@))
    } else {
        None
    }
}

/// The operation that carries an encrypted voice presence.
pub fn voice_presence_operation(value: &EncryptedVoicePresence) -> (body: Body)
    ensures
        body@ == BodyModel::VoicePresence(voice_presence_wire(value@)),
{
    let message: wire::VoicePresence = wire::VoicePresence {
        epoch: value.epoch,
        membership_head: to_vec(value.head.as_slice()),
        nonce: to_vec(value.nonce.as_slice()),
        ciphertext: to_vec(value.ciphertext.as_slice()),
    };
    Body::VoicePresence(message)
}

/// An encrypted voice presence out of a message.
pub fn read_voice_presence(
    message: wire::VoicePresence,
) -> (value: Result<EncryptedVoicePresence, Fault>)
    ensures
        match value {
            Ok(value) => voice_presence_unreadable(message@) is None && message@ == voice_presence_wire(value@),
            Err(fault) => voice_presence_unreadable(message@) == Some(fault@),
        },
{
    let head: [u8; 32] = match to_array::<32>(message.membership_head.as_slice()) {
        Some(array) => array,
        None => {
            return Err(Fault::protocol("voice presence head is not 32 bytes"));
        },
    };
    let nonce: [u8; 24] = match to_array::<24>(message.nonce.as_slice()) {
        Some(array) => array,
        None => {
            return Err(Fault::protocol("voice presence nonce is not 24 bytes"));
        },
    };
    if message.ciphertext.len() > MAX_VOICE_PRESENCE_CIPHERTEXT {
        return Err(Fault::protocol("voice presence ciphertext exceeds the size limit"));
    }
    Ok(
        EncryptedVoicePresence {
            epoch: message.epoch,
            head,
            nonce,
            ciphertext: message.ciphertext,
        },
    )
}

/// Whoever reads an encrypted voice presence that was written reads what was written.
pub proof fn voice_presence_carried(written: EncryptedVoicePresence, read: EncryptedVoicePresence)
    requires
        voice_presence_wire(written@) == voice_presence_wire(read@),
    ensures
        written@ == read@,
{
    let (a, b) = (voice_presence_wire(written@), voice_presence_wire(read@));
    assert(a.membership_head == b.membership_head);
    assert(a.nonce == b.nonce);
    assert(a.ciphertext == b.ciphertext);
}

/// An envelope, as it is written.
pub open spec fn envelope_wire(value: EnvelopeModel) -> wire::ContentKeyEnvelopeModel {
    wire::ContentKeyEnvelopeModel {
        epoch: value.epoch,
        membership_head: value.head,
        recipient: value.recipient@,
        encapsulated_key: value.encapsulated_key,
        ciphertext: value.ciphertext,
        signature: value.signature,
    }
}

/// What keeps a message from being an envelope.
pub open spec fn envelope_unreadable(message: wire::ContentKeyEnvelopeModel) -> Option<FaultModel> {
    if message.membership_head.len() != 32 {
        Some(protocol_fault("membership head is not 32 bytes"@))
    } else if message.recipient.len() != 32 {
        Some(protocol_fault("envelope recipient is not 32 bytes"@))
    } else if message.encapsulated_key.len() != 32 {
        Some(protocol_fault("encapsulated key is not 32 bytes"@))
    } else if message.signature.len() != 64 {
        Some(protocol_fault("envelope signature is not 64 bytes"@))
    } else {
        None
    }
}

/// The operation that carries an envelope.
pub fn envelope_operation(value: &ContentKeyEnvelope) -> (body: Body)
    ensures
        body@ == BodyModel::ContentKeyEnvelope(envelope_wire(value@)),
{
    let message: wire::ContentKeyEnvelope = wire::ContentKeyEnvelope {
        epoch: value.epoch,
        membership_head: to_vec(value.head.as_slice()),
        recipient: to_vec(value.recipient.0.as_slice()),
        encapsulated_key: to_vec(value.encapsulated_key.as_slice()),
        ciphertext: to_vec(value.ciphertext.as_slice()),
        signature: to_vec(value.signature.as_slice()),
    };
    Body::ContentKeyEnvelope(message)
}

/// An envelope out of a message.
pub fn read_envelope(
    message: wire::ContentKeyEnvelope,
) -> (value: Result<ContentKeyEnvelope, Fault>)
    ensures
        match value {
            Ok(value) => envelope_unreadable(message@) is None && message@ == envelope_wire(value@),
            Err(fault) => envelope_unreadable(message@) == Some(fault@),
        },
{
    let head: [u8; 32] = match to_array::<32>(message.membership_head.as_slice()) {
        Some(array) => array,
        None => {
            return Err(Fault::protocol("membership head is not 32 bytes"));
        },
    };
    let recipient: [u8; 32] = match to_array::<32>(message.recipient.as_slice()) {
        Some(array) => array,
        None => {
            return Err(Fault::protocol("envelope recipient is not 32 bytes"));
        },
    };
    let encapsulated_key: [u8; 32] = match to_array::<32>(message.encapsulated_key.as_slice()) {
        Some(array) => array,
        None => {
            return Err(Fault::protocol("encapsulated key is not 32 bytes"));
        },
    };
    let signature: [u8; 64] = match to_array::<64>(message.signature.as_slice()) {
        Some(array) => array,
        None => {
            return Err(Fault::protocol("envelope signature is not 64 bytes"));
        },
    };
    Ok(
        ContentKeyEnvelope {
            epoch: message.epoch,
            head,
            recipient: MemberId(recipient),
            encapsulated_key,
            ciphertext: message.ciphertext,
            signature,
        },
    )
}

/// Whoever reads an envelope that was written reads what was written.
pub proof fn envelope_carried(written: ContentKeyEnvelope, read: ContentKeyEnvelope)
    requires
        envelope_wire(written@) == envelope_wire(read@),
    ensures
        written@ == read@,
{
    let (a, b) = (envelope_wire(written@), envelope_wire(read@));
    assert(a.membership_head == b.membership_head);
    assert(a.recipient == b.recipient);
    assert(written.recipient.0 =~= read.recipient.0);
    assert(a.encapsulated_key == b.encapsulated_key);
    assert(a.ciphertext == b.ciphertext);
    assert(a.signature == b.signature);
}

/// A key registration, as it is written.
pub open spec fn registration_wire(value: KeyRegistration) -> wire::KeyRegistrationModel {
    wire::KeyRegistrationModel {
        member: value.member@,
        public_key: value.public_key@,
        signature: value.signature@,
    }
}

/// What keeps a message from being a key registration.
pub open spec fn registration_unreadable(
    message: wire::KeyRegistrationModel,
) -> Option<FaultModel> {
    if message.member.len() != 32 {
        Some(protocol_fault("key registration member is not 32 bytes"@))
    } else if message.public_key.len() != 32 {
        Some(protocol_fault("HPKE public key is not 32 bytes"@))
    } else if message.signature.len() != 64 {
        Some(protocol_fault("key registration signature is not 64 bytes"@))
    } else {
        None
    }
}

/// The operation that carries a key registration.
pub fn registration_operation(value: &KeyRegistration) -> (body: Body)
    ensures
        body@ == BodyModel::KeyRegistration(registration_wire(*value)),
{
    let message: wire::KeyRegistration = wire::KeyRegistration {
        member: to_vec(value.member.0.as_slice()),
        public_key: to_vec(value.public_key.as_slice()),
        signature: to_vec(value.signature.as_slice()),
    };
    Body::KeyRegistration(message)
}

/// A key registration out of a message.
pub fn read_registration(message: wire::KeyRegistration) -> (value: Result<KeyRegistration, Fault>)
    ensures
        match value {
            Ok(value) => registration_unreadable(message@) is None && message@ == registration_wire(value),
            Err(fault) => registration_unreadable(message@) == Some(fault@),
        },
{
    let member: [u8; 32] = match to_array::<32>(message.member.as_slice()) {
        Some(array) => array,
        None => {
            return Err(Fault::protocol("key registration member is not 32 bytes"));
        },
    };
    let public_key: [u8; 32] = match to_array::<32>(message.public_key.as_slice()) {
        Some(array) => array,
        None => {
            return Err(Fault::protocol("HPKE public key is not 32 bytes"));
        },
    };
    let signature: [u8; 64] = match to_array::<64>(message.signature.as_slice()) {
        Some(array) => array,
        None => {
            return Err(Fault::protocol("key registration signature is not 64 bytes"));
        },
    };
    Ok(
        KeyRegistration {
            member: MemberId(member),
            public_key,
            signature,
        },
    )
}

/// Whoever reads a key registration that was written reads what was written.
pub proof fn registration_carried(written: KeyRegistration, read: KeyRegistration)
    requires
        registration_wire(written) == registration_wire(read),
    ensures
        written == read,
{
    let (a, b) = (registration_wire(written), registration_wire(read));
    assert(a.member == b.member);
    assert(written.member.0 =~= read.member.0);
    assert(a.public_key == b.public_key);
    assert(written.public_key =~= read.public_key);
    assert(a.signature == b.signature);
    assert(written.signature =~= read.signature);
}

/// A channel with its signature, as it is written.
pub open spec fn channel_wire(
    channel: ChannelModel,
    signature: Seq<u8>,
) -> wire::CreateChannelModel {
    wire::CreateChannelModel {
        id: channel.id@,
        name: channel.name,
        kind: kind_number(channel.kind) as u32,
        signature,
    }
}

/// What keeps a message from being a channel.
pub open spec fn channel_unreadable(message: wire::CreateChannelModel) -> Option<FaultModel> {
    if message.id.len() != 32 {
        Some(protocol_fault("channel id is not 32 bytes"@))
    } else if message.kind > 1 {
        Some(protocol_fault("channel kind is invalid"@))
    } else if message.signature.len() != 64 {
        Some(protocol_fault("channel signature is not 64 bytes"@))
    } else {
        match channel_objection(message.name) {
            Some(error) => Some(invalid_fault(channel_error_text(error))),
            None => None,
        }
    }
}

/// The operation that carries a channel.
pub fn channel_operation(signed: &SignedCreateChannel) -> (body: Body)
    ensures
        body@ == BodyModel::CreateChannel(channel_wire(signed.channel@, signed.signature@)),
{
    let message: wire::CreateChannel = wire::CreateChannel {
        id: to_vec(signed.channel.id().0.as_slice()),
        name: signed.channel.name().to_owned(),
        kind: signed.channel.kind().number(),
        signature: to_vec(signed.signature.as_slice()),
    };
    Body::CreateChannel(message)
}

/// A channel and its signature out of a message.
pub fn read_channel(message: wire::CreateChannel) -> (read: Result<(Channel, [u8; 64]), Fault>)
    ensures
        match read {
            Ok((channel, signature)) => channel_unreadable(message@) is None && message@
                == channel_wire(channel@, signature@),
            Err(fault) => channel_unreadable(message@) == Some(fault@),
        },
{
    let id: [u8; 32] = match to_array::<32>(message.id.as_slice()) {
        Some(array) => array,
        None => {
            return Err(Fault::protocol("channel id is not 32 bytes"));
        },
    };
    let kind: ChannelKind = match ChannelKind::from_number(message.kind as i64) {
        Some(kind) => kind,
        None => {
            return Err(Fault::protocol("channel kind is invalid"));
        },
    };
    let signature: [u8; 64] = match to_array::<64>(message.signature.as_slice()) {
        Some(array) => array,
        None => {
            return Err(Fault::protocol("channel signature is not 64 bytes"));
        },
    };
    match Channel::new(ChannelId(id), message.name.as_str(), kind) {
        Ok(channel) => Ok((channel, signature)),
        Err(error) => Err(error.fault()),
    }
}

/// A signed change of the membership, as it is written.
pub open spec fn membership_wire(signed: SignedMembership) -> wire::MembershipChangeModel {
    wire::MembershipChangeModel {
        revision: signed.update.revision,
        member: subject(signed.update.change)@,
        admitted: !(signed.update.change is Remove),
        signature: signed.signature@,
        availability: signed.update.change is AdmitAvailability,
    }
}

/// What keeps a message from being a change of the membership.
pub open spec fn membership_unreadable(message: wire::MembershipChangeModel) -> Option<FaultModel> {
    if message.member.len() != 32 {
        Some(protocol_fault("membership member id is not 32 bytes"@))
    } else if message.signature.len() != 64 {
        Some(protocol_fault("membership signature is not 64 bytes"@))
    } else if message.availability && !message.admitted {
        Some(protocol_fault("removed membership cannot have an availability role"@))
    } else {
        None
    }
}

/// The operation that carries a change of the membership.
pub fn membership_operation(signed: &SignedMembership) -> (body: Body)
    ensures
        body@ == BodyModel::Membership(membership_wire(*signed)),
{
    let change: MembershipChange = signed.update.change;
    let message: wire::MembershipChange = wire::MembershipChange {
        revision: signed.update.revision,
        member: to_vec(change.member().0.as_slice()),
        admitted: change.is_admission(),
        signature: to_vec(signed.signature.as_slice()),
        availability: change.is_availability(),
    };
    Body::Membership(message)
}

/// A change of the membership and its signature out of a message; nobody has checked the
/// signature.
pub fn read_membership(message: wire::MembershipChange) -> (read: Result<SignedMembership, Fault>)
    ensures
        match read {
            Ok(signed) => membership_unreadable(message@) is None && message@ == membership_wire(
                signed,
            ),
            Err(fault) => membership_unreadable(message@) == Some(fault@),
        },
{
    let member: [u8; 32] = match to_array::<32>(message.member.as_slice()) {
        Some(array) => array,
        None => {
            return Err(Fault::protocol("membership member id is not 32 bytes"));
        },
    };
    let signature: [u8; 64] = match to_array::<64>(message.signature.as_slice()) {
        Some(array) => array,
        None => {
            return Err(Fault::protocol("membership signature is not 64 bytes"));
        },
    };
    if message.availability && !message.admitted {
        return Err(Fault::protocol("removed membership cannot have an availability role"));
    }
    let change: MembershipChange = if message.availability {
        MembershipChange::AdmitAvailability(MemberId(member))
    } else if message.admitted {
        MembershipChange::Admit(MemberId(member))
    } else {
        MembershipChange::Remove(MemberId(member))
    };
    Ok(SignedMembership { update: MembershipUpdate { revision: message.revision, change }, signature })
}

/// Whoever reads a change of the membership that was written reads what was written.
pub proof fn membership_carried(written: SignedMembership, read: SignedMembership)
    requires
        membership_wire(written) == membership_wire(read),
    ensures
        written == read,
{
    let (a, b) = (membership_wire(written), membership_wire(read));
    assert(a.signature == b.signature);
    assert(written.signature =~= read.signature);
    assert(subject(written.update.change)@ == a.member);
    assert(subject(read.update.change)@ == b.member);
    assert(subject(written.update.change).0 =~= subject(read.update.change).0);
}

/// The parts of a voice frame's message that the transport adds to the frame.
pub struct VoiceParts {
    pub stream_id: VoiceStreamId,
    pub channel_id: ChannelId,
    pub head: [u8; 32],
    pub nonce: [u8; 24],
}

/// What keeps a message from being an encrypted voice frame.
pub open spec fn voice_unreadable(message: wire::VoiceFrameModel) -> Option<FaultModel> {
    if message.stream_id.len() != 16 {
        Some(protocol_fault("voice stream id is not 16 bytes"@))
    } else if message.channel_id.len() != 32 {
        Some(protocol_fault("voice channel id is not 32 bytes"@))
    } else if message.membership_head.len() != 32 {
        Some(protocol_fault("voice membership head is not 32 bytes"@))
    } else if message.nonce.len() != 24 {
        Some(protocol_fault("voice nonce is not 24 bytes"@))
    } else {
        None
    }
}

/// The names in an encrypted voice frame.
pub fn read_voice(message: &wire::VoiceFrame) -> (parts: Result<VoiceParts, Fault>)
    ensures
        match parts {
            Ok(parts) => voice_unreadable(message@) is None && parts.stream_id@
                == message@.stream_id && parts.channel_id@ == message@.channel_id && parts.head@
                == message@.membership_head && parts.nonce@ == message@.nonce,
            Err(fault) => voice_unreadable(message@) == Some(fault@),
        },
{
    let stream_id: [u8; 16] = match to_array::<16>(message.stream_id.as_slice()) {
        Some(array) => array,
        None => {
            return Err(Fault::protocol("voice stream id is not 16 bytes"));
        },
    };
    let channel_id: [u8; 32] = match to_array::<32>(message.channel_id.as_slice()) {
        Some(array) => array,
        None => {
            return Err(Fault::protocol("voice channel id is not 32 bytes"));
        },
    };
    let head: [u8; 32] = match to_array::<32>(message.membership_head.as_slice()) {
        Some(array) => array,
        None => {
            return Err(Fault::protocol("voice membership head is not 32 bytes"));
        },
    };
    let nonce: [u8; 24] = match to_array::<24>(message.nonce.as_slice()) {
        Some(array) => array,
        None => {
            return Err(Fault::protocol("voice nonce is not 24 bytes"));
        },
    };
    Ok(
        VoiceParts {
            stream_id: VoiceStreamId(stream_id),
            channel_id: ChannelId(channel_id),
            head,
            nonce,
        },
    )
}

/// The name of a text in an inventory.
pub open spec fn identity_of(text: ContentModel) -> TextIdentity {
    TextIdentity { author: text.author, id: text.id }
}

/// Which texts these are.
pub fn text_inventory(messages: &Vec<EncryptedText>) -> (inventory: SortedMap<TextIdentity, ()>)
    ensures
        forall|name: TextIdentity| #[trigger]
            inventory@.dom().contains(name) <==> exists|i: int|
                0 <= i < messages@.len() && identity_of((#[trigger] messages@[i])@) == name,
{
    let mut inventory: SortedMap<TextIdentity, ()> = SortedMap::new();
    let mut i: usize = 0;
    while i < messages.len()
        invariant
            i <= messages@.len(),
            forall|name: TextIdentity| #[trigger]
                inventory@.dom().contains(name) <==> exists|j: int|
                    0 <= j < i && identity_of((#[trigger] messages@[j])@) == name,
        decreases messages@.len() - i,
    {
        let name: TextIdentity = TextIdentity { author: messages[i].author, id: messages[i].id };
        let ghost before = inventory@;
        inventory.insert(name, ());
        proof {
            assert(identity_of(messages@[i as int]@) == name);
            assert forall|other: TextIdentity| #[trigger]
                inventory@.dom().contains(other) <==> exists|j: int|
                    0 <= j < i + 1 && identity_of((#[trigger] messages@[j])@) == other by {
                if before.dom().contains(other) {
                    let j = choose|j: int|
                        0 <= j < i && identity_of((#[trigger] messages@[j])@) == other;
                    assert(identity_of(messages@[j]@) == other);
                }
                if exists|j: int|
                    0 <= j < i + 1 && identity_of((#[trigger] messages@[j])@) == other {
                    let j = choose|j: int|
                        0 <= j < i + 1 && identity_of((#[trigger] messages@[j])@) == other;
                    if j < i {
                        assert(before.dom().contains(other));
                    }
                }
            }
        }
        i += 1;
    }
    inventory
}

/// The name of a text, as it is written.
pub open spec fn identity_wire(name: TextIdentity) -> wire::EncryptedTextIdentityModel {
    wire::EncryptedTextIdentityModel { author: name.author@, id: name.id@ }
}

/// An inventory, as it is written.
pub open spec fn inventory_wire(names: Seq<TextIdentity>) -> wire::TextInventoryModel {
    wire::TextInventoryModel { messages: Seq::new(names.len(), |i: int| identity_wire(names[i])) }
}

/// The operation that carries an inventory.
pub fn text_inventory_operation(inventory: &SortedMap<TextIdentity, ()>) -> (body: Body)
    ensures
        body@ == BodyModel::TextInventory(inventory_wire(inventory.keys())),
{
    let length: usize = inventory.len();
    let mut messages: Vec<wire::EncryptedTextIdentity> = Vec::new();
    let mut i: usize = 0;
    while i < length
        invariant
            i <= length,
            length == inventory.keys().len(),
            messages@.len() == i,
            forall|j: int|
                0 <= j < i ==> (#[trigger] messages@[j])@ == identity_wire(inventory.keys()[j]),
        decreases length - i,
    {
        let name: TextIdentity = inventory.key_at(i);
        let message: wire::EncryptedTextIdentity = wire::EncryptedTextIdentity {
            author: to_vec(name.author.0.as_slice()),
            id: to_vec(name.id.0.as_slice()),
        };
        messages.push(message);
        i += 1;
    }
    let message: wire::TextInventory = wire::TextInventory { messages };
    assert(message@.messages =~= inventory_wire(inventory.keys()).messages);
    Body::TextInventory(message)
}

/// The bytes of an inventory; where they exceed what a peer takes, those of an empty one, so that
/// the peer sends everything.
pub open spec fn inventory_bytes(names: Seq<TextIdentity>) -> Seq<u8> {
    let whole = wire::operation_bytes(BodyModel::TextInventory(inventory_wire(names)));
    if whole.len() <= MAX_OPERATION_BYTES {
        whole
    } else {
        wire::operation_bytes(BodyModel::TextInventory(inventory_wire(Seq::empty())))
    }
}

/// The bytes of an inventory.
pub fn encode_text_inventory(inventory: &SortedMap<TextIdentity, ()>) -> (bytes: Vec<u8>)
    ensures
        bytes@ == inventory_bytes(inventory.keys()),
{
    let bytes: Vec<u8> = text_inventory_operation(inventory).encode();
    if bytes.len() <= MAX_OPERATION_BYTES {
        bytes
    } else {
        let nothing: SortedMap<TextIdentity, ()> = SortedMap::new();
        assert(nothing.keys() =~= Seq::<TextIdentity>::empty());
        text_inventory_operation(&nothing).encode()
    }
}

/// What keeps messages from being an inventory: the first name that is too short or too long.
pub open spec fn inventory_unreadable(messages: Seq<wire::EncryptedTextIdentityModel>) -> Option<
    FaultModel,
>
    decreases messages.len(),
{
    if messages.len() == 0 {
        None
    } else {
        match inventory_unreadable(messages.drop_last()) {
            Some(fault) => Some(fault),
            None => if messages.last().author.len() != 32 {
                Some(protocol_fault("text inventory author is not 32 bytes"@))
            } else if messages.last().id.len() != 32 {
                Some(protocol_fault("text inventory message id is not 32 bytes"@))
            } else {
                None
            },
        }
    }
}

proof fn unreadable_stays(messages: Seq<wire::EncryptedTextIdentityModel>, i: int)
    requires
        0 <= i <= messages.len(),
        inventory_unreadable(messages.take(i)) is Some,
    ensures
        inventory_unreadable(messages) == inventory_unreadable(messages.take(i)),
    decreases messages.len(),
{
    if i == messages.len() {
        assert(messages.take(i) =~= messages);
    } else {
        assert(messages.drop_last().take(i) =~= messages.take(i));
        unreadable_stays(messages.drop_last(), i);
    }
}

/// The inventory out of a message.
pub fn decode_text_inventory(message: &wire::TextInventory) -> (inventory: Result<
    SortedMap<TextIdentity, ()>,
    Fault,
>)
    ensures
        match inventory {
            Ok(inventory) => inventory_unreadable(message@.messages) is None && forall|
                name: TextIdentity,
            |
                #[trigger] inventory@.dom().contains(name) <==> exists|i: int|
                    0 <= i < message@.messages.len() && #[trigger] message@.messages[i]
                        == identity_wire(name),
            Err(fault) => inventory_unreadable(message@.messages) == Some(fault@),
        },
{
    let ghost all = message@.messages;
    let mut inventory: SortedMap<TextIdentity, ()> = SortedMap::new();
    let mut i: usize = 0;
    assert(all.take(0) =~= Seq::<wire::EncryptedTextIdentityModel>::empty());
    while i < message.messages.len()
        invariant
            i <= message.messages@.len(),
            all == message@.messages,
            all.len() == message.messages@.len(),
            inventory_unreadable(all.take(i as int)) is None,
            forall|name: TextIdentity| #[trigger]
                inventory@.dom().contains(name) <==> exists|j: int|
                    0 <= j < i && #[trigger] all[j] == identity_wire(name),
        decreases message.messages@.len() - i,
    {
        let identity: &wire::EncryptedTextIdentity = &message.messages[i];
        assert(all.take(i + 1).drop_last() =~= all.take(i as int));
        assert(all.take(i + 1).last() == identity@);
        let author: [u8; 32] = match to_array::<32>(identity.author.as_slice()) {
            Some(array) => array,
            None => {
                proof {
                    unreadable_stays(all, i + 1);
                }
                return Err(Fault::protocol("text inventory author is not 32 bytes"));
            },
        };
        let id: [u8; 32] = match to_array::<32>(identity.id.as_slice()) {
            Some(array) => array,
            None => {
                proof {
                    unreadable_stays(all, i + 1);
                }
                return Err(Fault::protocol("text inventory message id is not 32 bytes"));
            },
        };
        let name: TextIdentity = TextIdentity { author: MemberId(author), id: MessageId(id) };
        let ghost before = inventory@;
        inventory.insert(name, ());
        proof {
            assert(all[i as int] == identity_wire(name));
            assert forall|other: TextIdentity| #[trigger]
                inventory@.dom().contains(other) <==> exists|j: int|
                    0 <= j < i + 1 && #[trigger] all[j] == identity_wire(other) by {
                if before.dom().contains(other) {
                    let j = choose|j: int| 0 <= j < i && #[trigger] all[j] == identity_wire(other);
                    assert(all[j] == identity_wire(other));
                }
                if exists|j: int| 0 <= j < i + 1 && #[trigger] all[j] == identity_wire(other) {
                    let j = choose|j: int|
                        0 <= j < i + 1 && #[trigger] all[j] == identity_wire(other);
                    if j == i {
                        identity_carried(name, other);
                    } else {
                        assert(before.dom().contains(other));
                    }
                }
            }
        }
        i += 1;
    }
    assert(all.take(i as int) =~= all);
    Ok(inventory)
}

proof fn identity_carried(a: TextIdentity, b: TextIdentity)
    requires
        identity_wire(a) == identity_wire(b),
    ensures
        a == b,
{
    assert(identity_wire(a).author == identity_wire(b).author);
    assert(identity_wire(a).id == identity_wire(b).id);
    assert(a.author.0 =~= b.author.0);
    assert(a.id.0 =~= b.id.0);
}

/// Whether a peer with this inventory lacks a text.
pub open spec fn lacks(inventory: Set<TextIdentity>, text: EncryptedText) -> bool {
    !inventory.contains(identity_of(text@))
}

/// The texts that a peer with this inventory lacks, in the order in which they were given.
pub open spec fn missing_texts(inventory: Set<TextIdentity>, texts: Seq<EncryptedText>) -> Seq<
    EncryptedText,
> {
    texts.filter(|text: EncryptedText| lacks(inventory, text))
}

/// The texts that a peer with this inventory lacks, in the order in which they were given.
pub fn encrypted_messages_missing(
    messages: Vec<EncryptedText>,
    remote_inventory: &SortedMap<TextIdentity, ()>,
) -> (missing: Vec<EncryptedText>)
    ensures
        missing@ == missing_texts(remote_inventory@.dom(), messages@),
{
    let ghost all = messages@;
    let ghost wanted = |text: EncryptedText| lacks(remote_inventory@.dom(), text);
    let mut rest: Vec<EncryptedText> = messages;
    let mut reversed: Vec<EncryptedText> = Vec::new();
    while rest.len() > 0
        invariant
            rest@.len() <= all.len(),
            rest@ == all.take(rest@.len() as int),
            reversed@ == all.skip(rest@.len() as int).reverse(),
        decreases rest@.len(),
    {
        let ghost n = rest@.len() as int;
        match rest.pop() {
            Some(text) => {
                reversed.push(text);
            },
            None => {},
        }
        assert(rest@ =~= all.take(n - 1));
        assert(reversed@ =~= all.skip(n - 1).reverse());
    }
    let mut missing: Vec<EncryptedText> = Vec::new();
    assert(all.skip(0) =~= all);
    proof {
        reveal(Seq::filter);
        assert(all.take(0).len() == 0);
    }
    while reversed.len() > 0
        invariant
            reversed@.len() <= all.len(),
            wanted == (|text: EncryptedText| lacks(remote_inventory@.dom(), text)),
            reversed@ == all.skip(all.len() - reversed@.len()).reverse(),
            missing@ == all.take(all.len() - reversed@.len()).filter(wanted),
        decreases reversed@.len(),
    {
        let ghost n = all.len() - reversed@.len();
        proof {
            reveal(Seq::filter);
            assert(all.take(n + 1).drop_last() =~= all.take(n));
        }
        match reversed.pop() {
            Some(text) => {
                assert(text == all[n]);
                let name: TextIdentity = TextIdentity { author: text.author, id: text.id };
                if !remote_inventory.contains_key(name) {
                    missing.push(text);
                }
            },
            None => {},
        }
        assert(reversed@ =~= all.skip(n + 1).reverse());
    }
    assert(all.take(all.len() as int) =~= all);
    missing
}

/// After a peer got what it lacked, it lacks nothing.
pub proof fn nothing_stays_missing(
    inventory: Set<TextIdentity>,
    texts: Seq<EncryptedText>,
    received: Set<TextIdentity>,
)
    requires
        forall|i: int|
            0 <= i < missing_texts(inventory, texts).len() ==> received.contains(
                identity_of((#[trigger] missing_texts(inventory, texts)[i])@),
            ),
    ensures
        forall|i: int| 0 <= i < texts.len() ==> !lacks(inventory.union(received), #[trigger] texts[i]),
{
    let wanted = |text: EncryptedText| lacks(inventory, text);
    assert forall|i: int| 0 <= i < texts.len() implies !lacks(
        inventory.union(received),
        #[trigger] texts[i],
    ) by {
        if lacks(inventory, texts[i]) {
            broadcast use vstd::seq_lib::group_filter_ensures;

            assert(wanted(texts[i]));
            assert(texts.filter(wanted).contains(texts[i]));
            let k = texts.filter(wanted).index_of(texts[i]);
            assert(missing_texts(inventory, texts)[k] == texts[i]);
        }
    }
}

/// The first six bytes of a member's name, in hexadecimal.
pub fn short_member(member: MemberId) -> (text: String)
    ensures
        text@ == crate::text::hex(member@.take(6)),
{
    let start: Vec<u8> = crate::bytes::bytes_between(member.0.as_slice(), 0, 6);
    let mut text: String = String::new();
    push_hex(&mut text, start.as_slice());
    assert(member@.subrange(0, 6) =~= member@.take(6));
    assert(text@ =~= crate::text::hex(member@.take(6)));
    text
}

/// The member whose membership an operation changes, if it changes one.
pub fn transition_subject(body: &Body) -> (subject: Option<MemberId>)
    ensures
        match subject {
            Some(member) => body@ matches BodyModel::Membership(change) && change.member == member@,
            None => !(body@ matches BodyModel::Membership(change) && change.member.len() == 32),
        },
{
    match body {
        Body::Membership(change) => match to_array::<32>(change.member.as_slice()) {
            Some(array) => Some(MemberId(array)),
            None => None,
        },
        _ => None,
    }
}

/// Whether an operation is short enough to be sent.
pub fn check_length(length: usize) -> (verdict: Result<(), Fault>)
    ensures
        match verdict {
            Ok(()) => length <= MAX_OPERATION_BYTES,
            Err(fault) => length > MAX_OPERATION_BYTES && fault@ == protocol_fault(
                "operation exceeds transport limit"@,
            ),
        },
{
    if length > MAX_OPERATION_BYTES {
        return Err(Fault::protocol("operation exceeds transport limit"));
    }
    Ok(())
}

/// The byte that tells a peer that its operation was kept.
pub const KEPT: u8 = 1;

/// Whether a peer's answer says that it kept an operation.
pub fn check_acknowledgement(answer: &[u8]) -> (verdict: Result<(), Fault>)
    ensures
        match verdict {
            Ok(()) => answer@ == seq![KEPT],
            Err(fault) => answer@ != seq![KEPT] && fault@ == protocol_fault(
                "peer did not acknowledge persistence"@,
            ),
        },
{
    if answer.len() == 1 && answer[0] == KEPT {
        assert(answer@ =~= seq![KEPT]);
        return Ok(());
    }
    Err(Fault::protocol("peer did not acknowledge persistence"))
}

/// What keeps bytes from being a list of texts.
pub open spec fn listing_unreadable(bytes: Seq<u8>) -> Option<FaultModel> {
    match wire::operation_in(bytes) {
        None => Some(protocol_fault(decoding_text(Shape::Operation, bytes))),
        Some(Some(BodyModel::TextInventory(inventory))) => inventory_unreadable(inventory.messages),
        Some(_) => Some(protocol_fault("peer did not respond with a text inventory"@)),
    }
}

/// Whether bytes list a text.
pub open spec fn lists(bytes: Seq<u8>, name: TextIdentity) -> bool {
    wire::operation_in(bytes) matches Some(Some(BodyModel::TextInventory(inventory)))
        && inventory.messages.contains(identity_wire(name))
}

/// The texts that a peer lists in its answer.
pub fn read_inventory_answer(
    bytes: &[u8],
) -> (inventory: Result<SortedMap<TextIdentity, ()>, Fault>)
    ensures
        match inventory {
            Ok(inventory) => listing_unreadable(bytes@) is None && forall|name: TextIdentity| #[trigger]
                inventory@.dom().contains(name) <==> lists(bytes@, name),
            Err(fault) => listing_unreadable(bytes@) == Some(fault@),
        },
{
    match Body::decode(bytes) {
        None => Err(Fault::protocol(explain(Shape::Operation, bytes).as_str())),
        Some(Some(Body::TextInventory(inventory))) => {
            let ghost messages = inventory@.messages;
            match decode_text_inventory(&inventory) {
                Ok(found) => {
                    assert forall|name: TextIdentity| #[trigger]
                        found@.dom().contains(name) <==> lists(bytes@, name) by {
                        if lists(bytes@, name) {
                            let i = messages.index_of(identity_wire(name));
                            assert(messages[i] == identity_wire(name));
                        }
                    }
                    Ok(found)
                },
                Err(fault) => Err(fault),
            }
        },
        Some(_) => Err(Fault::protocol("peer did not respond with a text inventory")),
    }
}

} // verus!
