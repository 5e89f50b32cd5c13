//! Rows of the storage, and what is made of them.

use vstd::prelude::*;

use crate::bytes::{array_with, array_with_is, same_bytes, to_array};
use crate::community::{
    conflict_bytes, membership_objection, subject, CommunityId, MemberId, MembershipChange,
    MembershipUpdate, SignedMembership,
};
use crate::crypto::{
    registration_message, signature_fault, ContentEpoch, ContentKeyEnvelope, EncryptedAttachment,
    EncryptedMemberProfile, EncryptedText, KeyRegistration,
};
use crate::fault::{invalid_fault, protocol_fault, Fault, FaultModel};
use crate::model::{
    channel_error_text, channel_objection, channel_signature_objection, message_error_text,
    text_objection, text_signature_objection, AuthoredText, Channel, ChannelId, ChannelKind,
    ChannelModel, MessageId, SignedCreateChannel, SignedText, TextMessage, TextModel,
};
use crate::text::push_text;

verus! {

/// A member's name out of a row. `label` says what the row's value is.
pub fn member_from_row(bytes: &Vec<u8>, label: &str) -> (member: Result<MemberId, Fault>)
    ensures
        match member {
            Ok(member) => member@ == bytes@,
            Err(fault) => bytes@.len() != 32 && fault@ == protocol_fault(
                label@ + " is not 32 bytes"@,
            ),
        },
{
    match to_array::<32>(bytes.as_slice()) {
        Some(array) => Ok(MemberId(array)),
        None => {
            let mut message: String = String::new();
            push_text(&mut message, label);
            push_text(&mut message, " is not 32 bytes");
            assert(message@ =~= label@ + " is not 32 bytes"@);
            Err(Fault::protocol(message.as_str()))
        },
    }
}

/// An array out of a row, or a fault with this text.
fn array_from_row<const N: usize>(
    bytes: &Vec<u8>,
    objection: &str,
) -> (array: Result<[u8; N], Fault>)
    ensures
        match array {
            Ok(array) => array@ == bytes@ && array == array_with::<N>(bytes@),
            Err(fault) => bytes@.len() != N && fault@ == protocol_fault(objection@),
        },
{
    match to_array::<N>(bytes.as_slice()) {
        Some(array) => Ok(array),
        None => Err(Fault::protocol(objection)),
    }
}

/// The seed of an identity out of a row.
pub fn identity_seed_from_row(bytes: &Vec<u8>) -> (seed: Result<[u8; 32], Fault>)
    ensures
        match seed {
            Ok(seed) => seed@ == bytes@,
            Err(fault) => bytes@.len() != 32 && fault@ == protocol_fault(
                "stored identity seed is not 32 bytes"@,
            ),
        },
{
    array_from_row::<32>(bytes, "stored identity seed is not 32 bytes")
}

/// The seed of an encryption key out of a row.
pub fn hpke_seed_from_row(bytes: &Vec<u8>) -> (seed: Result<[u8; 32], Fault>)
    ensures
        match seed {
            Ok(seed) => seed@ == bytes@,
            Err(fault) => bytes@.len() != 32 && fault@ == protocol_fault(
                "stored HPKE seed is not 32 bytes"@,
            ),
        },
{
    array_from_row::<32>(bytes, "stored HPKE seed is not 32 bytes")
}

/// The name of a community out of a row.
pub fn community_id_from_row(bytes: &Vec<u8>) -> (id: Result<CommunityId, Fault>)
    ensures
        match id {
            Ok(id) => id@ == bytes@,
            Err(fault) => bytes@.len() != 32 && fault@ == protocol_fault(
                "stored community id is not 32 bytes"@,
            ),
        },
{
    match array_from_row::<32>(bytes, "stored community id is not 32 bytes") {
        Ok(array) => Ok(CommunityId(array)),
        Err(fault) => Err(fault),
    }
}

/// The name of a text out of a row.
pub fn message_id_from_row(bytes: &Vec<u8>) -> (id: Result<MessageId, Fault>)
    ensures
        match id {
            Ok(id) => id@ == bytes@,
            Err(fault) => bytes@.len() != 32 && fault@ == protocol_fault(
                "stored message id is not 32 bytes"@,
            ),
        },
{
    match array_from_row::<32>(bytes, "stored message id is not 32 bytes") {
        Ok(array) => Ok(MessageId(array)),
        Err(fault) => Err(fault),
    }
}

/// The name of an attachment out of a row.
pub fn attachment_id_from_row(bytes: &Vec<u8>) -> (id: Result<MessageId, Fault>)
    ensures
        match id {
            Ok(id) => id@ == bytes@,
            Err(fault) => bytes@.len() != 32 && fault@ == protocol_fault(
                "stored attachment id is not 32 bytes"@,
            ),
        },
{
    match array_from_row::<32>(bytes, "stored attachment id is not 32 bytes") {
        Ok(array) => Ok(MessageId(array)),
        Err(fault) => Err(fault),
    }
}

/// A cursor out of a row.
pub fn cursor_from_row(bytes: &Vec<u8>) -> (id: Result<MessageId, Fault>)
    ensures
        match id {
            Ok(id) => id@ == bytes@,
            Err(fault) => bytes@.len() != 32 && fault@ == protocol_fault(
                "stored read cursor is not 32 bytes"@,
            ),
        },
{
    match array_from_row::<32>(bytes, "stored read cursor is not 32 bytes") {
        Ok(array) => Ok(MessageId(array)),
        Err(fault) => Err(fault),
    }
}

/// The number of a kind of channel, as it is stored.
pub fn channel_kind(kind: ChannelKind) -> (number: i64)
    ensures
        number == crate::model::kind_number(kind),
{
    kind.number() as i64
}

/// What is wrong with a row that is meant to be a content key.
pub open spec fn epoch_row_fault(epoch: i64, head: Seq<u8>, key: Seq<u8>) -> Option<FaultModel> {
    if epoch < 0 {
        Some(protocol_fault("stored content epoch is invalid"@))
    } else if head.len() != 32 {
        Some(protocol_fault("stored membership head is not 32 bytes"@))
    } else if key.len() != 32 {
        Some(protocol_fault("stored content key is not 32 bytes"@))
    } else {
        None
    }
}

/// A content key out of a row.
pub fn epoch_from_row(
    epoch: i64,
    head: &Vec<u8>,
    key: &Vec<u8>,
) -> (value: Result<ContentEpoch, Fault>)
    ensures
        match value {
            Ok(value) => {
                &&& epoch_row_fault(epoch, head@, key@) is None
                &&& value.number == epoch
                &&& value.head@ == head@
                &&& value.key@ == key@
            },
            Err(fault) => epoch_row_fault(epoch, head@, key@) == Some(fault@),
        },
{
    if epoch < 0 {
        return Err(Fault::protocol("stored content epoch is invalid"));
    }
    let head_array: [u8; 32] = match array_from_row::<32>(
        head,
        "stored membership head is not 32 bytes",
    ) {
        Ok(array) => array,
        Err(fault) => {
            return Err(fault);
        },
    };
    let key_array: [u8; 32] = match array_from_row::<32>(
        key,
        "stored content key is not 32 bytes",
    ) {
        Ok(array) => array,
        Err(fault) => {
            return Err(fault);
        },
    };
    Ok(
        ContentEpoch {
            number: epoch as u64,
            head: head_array,
            key: key_array,
        },
    )
}

/// What is wrong with a row that is meant to be an envelope.
pub open spec fn envelope_row_fault(
    epoch: i64,
    head: Seq<u8>,
    recipient: Seq<u8>,
    encapsulated_key: Seq<u8>,
    signature: Seq<u8>,
) -> Option<FaultModel> {
    if epoch < 0 {
        Some(protocol_fault("stored content epoch is invalid"@))
    } else if head.len() != 32 {
        Some(protocol_fault("stored membership head is not 32 bytes"@))
    } else if recipient.len() != 32 {
        Some(protocol_fault("stored envelope recipient is not 32 bytes"@))
    } else if encapsulated_key.len() != 32 {
        Some(protocol_fault("stored HPKE encapsulated key is not 32 bytes"@))
    } else if signature.len() != 64 {
        Some(protocol_fault("stored envelope signature is not 64 bytes"@))
    } else {
        None
    }
}

/// An envelope out of a row.
pub fn envelope_from_row(
    epoch: i64,
    head: &Vec<u8>,
    recipient: &Vec<u8>,
    encapsulated_key: &Vec<u8>,
    ciphertext: Vec<u8>,
    signature: &Vec<u8>,
) -> (value: Result<ContentKeyEnvelope, Fault>)
    ensures
        match value {
            Ok(value) => {
                &&& envelope_row_fault(epoch, head@, recipient@, encapsulated_key@, signature@) is None
                &&& value.epoch == epoch
                &&& value.head@ == head@
                &&& value.recipient@ == recipient@
                &&& value.encapsulated_key@ == encapsulated_key@
                &&& value.ciphertext@ == ciphertext@
                &&& value.signature@ == signature@
            },
            Err(fault) => envelope_row_fault(
                epoch,
                head@,
                recipient@,
                encapsulated_key@,
                signature@,
            ) == Some(fault@),
        },
{
    if epoch < 0 {
        return Err(Fault::protocol("stored content epoch is invalid"));
    }
    let head_array: [u8; 32] = match array_from_row::<32>(
        head,
        "stored membership head is not 32 bytes",
    ) {
        Ok(array) => array,
        Err(fault) => {
            return Err(fault);
        },
    };
    let recipient_array: [u8; 32] = match array_from_row::<32>(
        recipient,
        "stored envelope recipient is not 32 bytes",
    ) {
        Ok(array) => array,
        Err(fault) => {
            return Err(fault);
        },
    };
    let encapsulated_key_array: [u8; 32] = match array_from_row::<32>(
        encapsulated_key,
        "stored HPKE encapsulated key is not 32 bytes",
    ) {
        Ok(array) => array,
        Err(fault) => {
            return Err(fault);
        },
    };
    let signature_array: [u8; 64] = match array_from_row::<64>(
        signature,
        "stored envelope signature is not 64 bytes",
    ) {
        Ok(array) => array,
        Err(fault) => {
            return Err(fault);
        },
    };
    Ok(
        ContentKeyEnvelope {
            epoch: epoch as u64,
            head: head_array,
            recipient: MemberId(recipient_array),
            encapsulated_key: encapsulated_key_array,
            ciphertext: ciphertext,
            signature: signature_array,
        },
    )
}

/// What is wrong with a row that is meant to be an encrypted text.
pub open spec fn encrypted_row_fault(
    channel: Seq<u8>,
    author: Seq<u8>,
    epoch: i64,
    head: Seq<u8>,
    nonce: Seq<u8>,
    signature: Seq<u8>,
) -> Option<FaultModel> {
    if channel.len() != 32 {
        Some(protocol_fault("stored channel id is not 32 bytes"@))
    } else if author.len() != 32 {
        Some(protocol_fault("stored encrypted message author is not 32 bytes"@))
    } else if epoch < 0 {
        Some(protocol_fault("stored content epoch is invalid"@))
    } else if head.len() != 32 {
        Some(protocol_fault("stored membership head is not 32 bytes"@))
    } else if nonce.len() != 24 {
        Some(protocol_fault("stored text nonce is not 24 bytes"@))
    } else if signature.len() != 64 {
        Some(protocol_fault("stored text signature is not 64 bytes"@))
    } else {
        None
    }
}

/// An encrypted text out of a row.
pub fn encrypted_from_row(
    id: MessageId,
    channel: &Vec<u8>,
    author: &Vec<u8>,
    epoch: i64,
    head: &Vec<u8>,
    nonce: &Vec<u8>,
    ciphertext: Vec<u8>,
    signature: &Vec<u8>,
) -> (value: Result<EncryptedText, Fault>)
    ensures
        match value {
            Ok(value) => {
                &&& encrypted_row_fault(channel@, author@, epoch, head@, nonce@, signature@) is None
                &&& value.id == id
                &&& value.channel_id@ == channel@
                &&& value.author@ == author@
                &&& value.epoch == epoch
                &&& value.head@ == head@
                &&& value.nonce@ == nonce@
                &&& value.ciphertext@ == ciphertext@
                &&& value.signature@ == signature@
            },
            Err(fault) => encrypted_row_fault(
                channel@,
                author@,
                epoch,
                head@,
                nonce@,
                signature@,
            ) == Some(fault@),
        },
{
    let channel_array: [u8; 32] = match array_from_row::<32>(
        channel,
        "stored channel id is not 32 bytes",
    ) {
        Ok(array) => array,
        Err(fault) => {
            return Err(fault);
        },
    };
    let author_array: [u8; 32] = match array_from_row::<32>(
        author,
        "stored encrypted message author is not 32 bytes",
    ) {
        Ok(array) => array,
        Err(fault) => {
            return Err(fault);
        },
    };
    if epoch < 0 {
        return Err(Fault::protocol("stored content epoch is invalid"));
    }
    let head_array: [u8; 32] = match array_from_row::<32>(
        head,
        "stored membership head is not 32 bytes",
    ) {
        Ok(array) => array,
        Err(fault) => {
            return Err(fault);
        },
    };
    let nonce_array: [u8; 24] = match array_from_row::<24>(
        nonce,
        "stored text nonce is not 24 bytes",
    ) {
        Ok(array) => array,
        Err(fault) => {
            return Err(fault);
        },
    };
    let signature_array: [u8; 64] = match array_from_row::<64>(
        signature,
        "stored text signature is not 64 bytes",
    ) {
        Ok(array) => array,
        Err(fault) => {
            return Err(fault);
        },
    };
    Ok(
        EncryptedText {
            id,
            channel_id: ChannelId(channel_array),
            author: MemberId(author_array),
            epoch: epoch as u64,
            head: head_array,
            nonce: nonce_array,
            ciphertext: ciphertext,
            signature: signature_array,
        },
    )
}

/// What is wrong with a row that is meant to be an encrypted display name.
pub open spec fn member_profile_row_fault(
    revision: i64,
    epoch: i64,
    head: Seq<u8>,
    nonce: Seq<u8>,
    signature: Seq<u8>,
) -> Option<FaultModel> {
    if revision < 0 {
        Some(protocol_fault("stored member profile revision is invalid"@))
    } else if epoch < 0 {
        Some(protocol_fault("stored member profile epoch is invalid"@))
    } else if head.len() != 32 {
        Some(protocol_fault("stored member profile membership head is not 32 bytes"@))
    } else if nonce.len() != 24 {
        Some(protocol_fault("stored member profile nonce is not 24 bytes"@))
    } else if signature.len() != 64 {
        Some(protocol_fault("stored member profile signature is not 64 bytes"@))
    } else {
        None
    }
}

/// An encrypted display name out of a row.
pub fn member_profile_from_row(
    member: MemberId,
    revision: i64,
    epoch: i64,
    head: &Vec<u8>,
    nonce: &Vec<u8>,
    ciphertext: Vec<u8>,
    signature: &Vec<u8>,
) -> (value: Result<EncryptedMemberProfile, Fault>)
    ensures
        match value {
            Ok(value) => {
                &&& member_profile_row_fault(revision, epoch, head@, nonce@, signature@) is None
                &&& value.member == member
                &&& value.revision == revision
                &&& value.epoch == epoch
                &&& value.head@ == head@
                &&& value.nonce@ == nonce@
                &&& value.ciphertext@ == ciphertext@
                &&& value.signature@ == signature@
            },
            Err(fault) => member_profile_row_fault(
                revision,
                epoch,
                head@,
                nonce@,
                signature@,
            ) == Some(fault@),
        },
{
    if revision < 0 {
        return Err(Fault::protocol("stored member profile revision is invalid"));
    }
    if epoch < 0 {
        return Err(Fault::protocol("stored member profile epoch is invalid"));
    }
    let head_array: [u8; 32] = match array_from_row::<32>(
        head,
        "stored member profile membership head is not 32 bytes",
    ) {
        Ok(array) => array,
        Err(fault) => {
            return Err(fault);
        },
    };
    let nonce_array: [u8; 24] = match array_from_row::<24>(
        nonce,
        "stored member profile nonce is not 24 bytes",
    ) {
        Ok(array) => array,
        Err(fault) => {
            return Err(fault);
        },
    };
    let signature_array: [u8; 64] = match array_from_row::<64>(
        signature,
        "stored member profile signature is not 64 bytes",
    ) {
        Ok(array) => array,
        Err(fault) => {
            return Err(fault);
        },
    };
    Ok(
        EncryptedMemberProfile {
            member,
            revision: revision as u64,
            epoch: epoch as u64,
            head: head_array,
            nonce: nonce_array,
            ciphertext: ciphertext,
            signature: signature_array,
        },
    )
}

/// What is wrong with a row that is meant to be an encrypted attachment.
pub open spec fn encrypted_attachment_row_fault(
    channel: Seq<u8>,
    author: Seq<u8>,
    epoch: i64,
    head: Seq<u8>,
    nonce: Seq<u8>,
    signature: Seq<u8>,
) -> Option<FaultModel> {
    if channel.len() != 32 {
        Some(protocol_fault("stored attachment channel id is not 32 bytes"@))
    } else if author.len() != 32 {
        Some(protocol_fault("stored attachment author is not 32 bytes"@))
    } else if epoch < 0 {
        Some(protocol_fault("stored attachment epoch is invalid"@))
    } else if head.len() != 32 {
        Some(protocol_fault("stored attachment membership head is not 32 bytes"@))
    } else if nonce.len() != 24 {
        Some(protocol_fault("stored attachment nonce is not 24 bytes"@))
    } else if signature.len() != 64 {
        Some(protocol_fault("stored attachment signature is not 64 bytes"@))
    } else {
        None
    }
}

/// An encrypted attachment out of a row.
pub fn encrypted_attachment_from_row(
    id: MessageId,
    channel: &Vec<u8>,
    author: &Vec<u8>,
    epoch: i64,
    head: &Vec<u8>,
    nonce: &Vec<u8>,
    ciphertext: Vec<u8>,
    signature: &Vec<u8>,
) -> (value: Result<EncryptedAttachment, Fault>)
    ensures
        match value {
            Ok(value) => {
                &&& encrypted_attachment_row_fault(channel@, author@, epoch, head@, nonce@, signature@) is None
                &&& value.id == id
                &&& value.channel_id@ == channel@
                &&& value.author@ == author@
                &&& value.epoch == epoch
                &&& value.head@ == head@
                &&& value.nonce@ == nonce@
                &&& value.ciphertext@ == ciphertext@
                &&& value.signature@ == signature@
            },
            Err(fault) => encrypted_attachment_row_fault(
                channel@,
                author@,
                epoch,
                head@,
                nonce@,
                signature@,
            ) == Some(fault@),
        },
{
    let channel_array: [u8; 32] = match array_from_row::<32>(
        channel,
        "stored attachment channel id is not 32 bytes",
    ) {
        Ok(array) => array,
        Err(fault) => {
            return Err(fault);
        },
    };
    let author_array: [u8; 32] = match array_from_row::<32>(
        author,
        "stored attachment author is not 32 bytes",
    ) {
        Ok(array) => array,
        Err(fault) => {
            return Err(fault);
        },
    };
    if epoch < 0 {
        return Err(Fault::protocol("stored attachment epoch is invalid"));
    }
    let head_array: [u8; 32] = match array_from_row::<32>(
        head,
        "stored attachment membership head is not 32 bytes",
    ) {
        Ok(array) => array,
        Err(fault) => {
            return Err(fault);
        },
    };
    let nonce_array: [u8; 24] = match array_from_row::<24>(
        nonce,
        "stored attachment nonce is not 24 bytes",
    ) {
        Ok(array) => array,
        Err(fault) => {
            return Err(fault);
        },
    };
    let signature_array: [u8; 64] = match array_from_row::<64>(
        signature,
        "stored attachment signature is not 64 bytes",
    ) {
        Ok(array) => array,
        Err(fault) => {
            return Err(fault);
        },
    };
    Ok(
        EncryptedAttachment {
            id,
            channel_id: ChannelId(channel_array),
            author: MemberId(author_array),
            epoch: epoch as u64,
            head: head_array,
            nonce: nonce_array,
            ciphertext: ciphertext,
            signature: signature_array,
        },
    )
}

/// What is wrong with a row that is meant to be a channel.
pub open spec fn channel_row_fault(name: Seq<char>, kind: i64) -> Option<FaultModel> {
    if kind != 0 && kind != 1 {
        Some(protocol_fault("stored channel kind is invalid"@))
    } else {
        match channel_objection(name) {
            Some(error) => Some(invalid_fault(channel_error_text(error))),
            None => None,
        }
    }
}

/// A channel out of a row.
pub fn channel_from_row(id: ChannelId, name: &str, kind: i64) -> (channel: Result<Channel, Fault>)
    ensures
        match channel {
            Ok(channel) => channel_row_fault(name@, kind) is None && channel@.id == id
                && channel@.name == name@ && crate::model::kind_number(channel@.kind) == kind,
            Err(fault) => channel_row_fault(name@, kind) == Some(fault@),
        },
{
    let kind: ChannelKind = match ChannelKind::from_number(kind) {
        Some(kind) => kind,
        None => {
            return Err(Fault::protocol("stored channel kind is invalid"));
        },
    };
    match Channel::new(id, name, kind) {
        Ok(channel) => Ok(channel),
        Err(error) => Err(error.fault()),
    }
}

/// The channel that a row names.
pub open spec fn channel_in_row(id: Seq<u8>, name: Seq<char>, kind: i64) -> ChannelModel {
    ChannelModel {
        id: ChannelId(array_with::<32>(id)),
        name,
        kind: if kind == 0 {
            ChannelKind::Text
        } else {
            ChannelKind::Voice
        },
    }
}

/// What is wrong with a row that is meant to be a channel with the owner's signature.
pub open spec fn signed_channel_row_fault(
    owner: MemberId,
    community: CommunityId,
    id: Seq<u8>,
    name: Seq<char>,
    kind: i64,
    signature: Seq<u8>,
) -> Option<FaultModel> {
    if id.len() != 32 {
        Some(protocol_fault("stored channel id is not 32 bytes"@))
    } else if channel_row_fault(name, kind) is Some {
        channel_row_fault(name, kind)
    } else if signature.len() != 64 {
        Some(protocol_fault("stored channel signature is not 64 bytes"@))
    } else {
        match channel_signature_objection(
            owner,
            community,
            channel_in_row(id, name, kind),
            signature,
        ) {
            Some(text) => Some(protocol_fault(text)),
            None => None,
        }
    }
}

/// A channel with the owner's signature out of a row.
pub fn signed_channel_from_row(
    owner: MemberId,
    community_id: CommunityId,
    id: &Vec<u8>,
    name: &str,
    kind: i64,
    signature: &Vec<u8>,
) -> (signed: Result<SignedCreateChannel, Fault>)
    ensures
        match signed {
            Ok(signed) => signed_channel_row_fault(
                owner,
                community_id,
                id@,
                name@,
                kind,
                signature@,
            ) is None && signed.channel@ == channel_in_row(id@, name@, kind) && signed.signature@
                == signature@,
            Err(fault) => signed_channel_row_fault(
                owner,
                community_id,
                id@,
                name@,
                kind,
                signature@,
            ) == Some(fault@),
        },
{
    let id: [u8; 32] = match array_from_row::<32>(id, "stored channel id is not 32 bytes") {
        Ok(array) => array,
        Err(fault) => {
            return Err(fault);
        },
    };
    let channel: Channel = match channel_from_row(ChannelId(id), name, kind) {
        Ok(channel) => channel,
        Err(fault) => {
            return Err(fault);
        },
    };
    let signature: [u8; 64] = match array_from_row::<64>(
        signature,
        "stored channel signature is not 64 bytes",
    ) {
        Ok(array) => array,
        Err(fault) => {
            return Err(fault);
        },
    };
    match SignedCreateChannel::verified(owner, community_id, channel, signature) {
        Ok(signed) => Ok(signed),
        Err(text) => Err(Fault::protocol(text.as_str())),
    }
}

/// What is wrong with a row that is meant to be a registration.
pub open spec fn registration_row_fault(
    community: CommunityId,
    member: MemberId,
    public_key: Seq<u8>,
    signature: Seq<u8>,
) -> Option<FaultModel> {
    if public_key.len() != 32 {
        Some(protocol_fault("stored HPKE public key is not 32 bytes"@))
    } else if signature.len() != 64 {
        Some(protocol_fault("stored key registration signature is not 64 bytes"@))
    } else {
        signature_fault(member@, registration_message(community, member, public_key), signature)
    }
}

/// A registration out of a row.
pub fn registration_from_row(
    community_id: CommunityId,
    member: MemberId,
    public_key: &Vec<u8>,
    signature: &Vec<u8>,
) -> (registration: Result<KeyRegistration, Fault>)
    ensures
        match registration {
            Ok(registration) => registration_row_fault(
                community_id,
                member,
                public_key@,
                signature@,
            ) is None && registration.member == member && registration.public_key@ == public_key@
                && registration.signature@ == signature@,
            Err(fault) => registration_row_fault(community_id, member, public_key@, signature@)
                == Some(fault@),
        },
{
    let public_key: [u8; 32] = match array_from_row::<32>(
        public_key,
        "stored HPKE public key is not 32 bytes",
    ) {
        Ok(array) => array,
        Err(fault) => {
            return Err(fault);
        },
    };
    let signature: [u8; 64] = match array_from_row::<64>(
        signature,
        "stored key registration signature is not 64 bytes",
    ) {
        Ok(array) => array,
        Err(fault) => {
            return Err(fault);
        },
    };
    KeyRegistration::verified(community_id, member, public_key, signature)
}

/// A row of the history.
#[derive(Debug)]
pub struct MembershipRow {
    pub revision: i64,
    pub member: Vec<u8>,
    pub admitted: i64,
    pub availability: i64,
    pub signature: Vec<u8>,
    pub conflict_key: Vec<u8>,
}

/// The change that a row names.
pub open spec fn membership_in_row(row: MembershipRow) -> SignedMembership {
    let member = MemberId(array_with::<32>(row.member@));
    SignedMembership {
        update: MembershipUpdate {
            revision: row.revision as u64,
            change: if row.admitted == 1 && row.availability == 1 {
                MembershipChange::AdmitAvailability(member)
            } else if row.admitted == 1 {
                MembershipChange::Admit(member)
            } else {
                MembershipChange::Remove(member)
            },
        },
        signature: array_with::<64>(row.signature@),
    }
}

/// Whether a row says what becomes of the member: a participant, an availability peer, or nobody.
pub open spec fn role_in_row(row: MembershipRow) -> bool {
    (row.admitted == 1 && (row.availability == 1 || row.availability == 0)) || (row.admitted == 0
        && row.availability == 0)
}

/// What is wrong with a row that is meant to be a change of the membership.
pub open spec fn membership_row_fault(
    owner: MemberId,
    community: CommunityId,
    row: MembershipRow,
) -> Option<FaultModel> {
    let signed = membership_in_row(row);
    if row.member@.len() != 32 {
        Some(protocol_fault("stored membership member"@ + " is not 32 bytes"@))
    } else if row.signature@.len() != 64 {
        Some(protocol_fault("stored membership signature is not 64 bytes"@))
    } else if !role_in_row(row) {
        Some(protocol_fault("stored membership role is invalid"@))
    } else if row.revision < 0 {
        Some(protocol_fault("stored membership revision is invalid"@))
    } else {
        match membership_objection(owner, community, signed.update, row.signature@) {
            Some(text) => Some(protocol_fault(text)),
            None => if row.conflict_key@ != conflict_bytes(signed) {
                Some(protocol_fault("stored membership conflict key is invalid"@))
            } else {
                None
            },
        }
    }
}

/// A change of the membership out of a row.
pub fn membership_from_row(owner: MemberId, community_id: CommunityId, row: &MembershipRow) -> (
signed: Result<SignedMembership, Fault>)
    ensures
        match signed {
            Ok(signed) => membership_row_fault(owner, community_id, *row) is None && signed
                == membership_in_row(*row),
            Err(fault) => membership_row_fault(owner, community_id, *row) == Some(fault@),
        },
{
    let member: MemberId = match member_from_row(&row.member, "stored membership member") {
        Ok(member) => member,
        Err(fault) => {
            return Err(fault);
        },
    };
    proof {
        crate::bytes::array_with_is(member.0);
    }
    let signature: [u8; 64] = match array_from_row::<64>(
        &row.signature,
        "stored membership signature is not 64 bytes",
    ) {
        Ok(array) => array,
        Err(fault) => {
            return Err(fault);
        },
    };
    let change: MembershipChange = if row.admitted == 1 && row.availability == 1 {
        MembershipChange::AdmitAvailability(member)
    } else if row.admitted == 1 && row.availability == 0 {
        MembershipChange::Admit(member)
    } else if row.admitted == 0 && row.availability == 0 {
        MembershipChange::Remove(member)
    } else {
        return Err(Fault::protocol("stored membership role is invalid"));
    };
    if row.revision < 0 {
        return Err(Fault::protocol("stored membership revision is invalid"));
    }
    let update: MembershipUpdate = MembershipUpdate::new(row.revision as u64, change);
    let signed: SignedMembership = match SignedMembership::verified(
        owner,
        community_id,
        update,
        signature,
    ) {
        Ok(signed) => signed,
        Err(text) => {
            return Err(Fault::protocol(text.as_str()));
        },
    };
    assert(signed == membership_in_row(*row));
    let conflict_key: Vec<u8> = signed.conflict_key();
    if !same_bytes(row.conflict_key.as_slice(), conflict_key.as_slice()) {
        return Err(Fault::protocol("stored membership conflict key is invalid"));
    }
    Ok(signed)
}

/// A row of a text that was stored in the clear.
#[derive(Debug)]
pub struct TextRow {
    pub id: Vec<u8>,
    pub body: String,
    pub author: Vec<u8>,
    pub signature: Vec<u8>,
    pub channel_id: Vec<u8>,
}

/// The text that a row holds.
pub open spec fn text_in_row(row: TextRow) -> TextModel {
    TextModel {
        id: MessageId(array_with::<32>(row.id@)),
        channel_id: ChannelId(array_with::<32>(row.channel_id@)),
        body: row.body@,
    }
}

/// What is wrong with a row that is meant to be a text in the clear.
pub open spec fn text_row_fault(row: TextRow) -> Option<FaultModel> {
    if row.id@.len() != 32 {
        Some(protocol_fault("stored message id is not 32 bytes"@))
    } else if row.author@.len() != 32 {
        Some(protocol_fault("stored author id is not 32 bytes"@))
    } else if row.channel_id@.len() != 32 {
        Some(protocol_fault("stored channel id is not 32 bytes"@))
    } else {
        match text_objection(row.body@) {
            Some(error) => Some(invalid_fault(message_error_text(error))),
            None => if row.signature@.len() != 64 {
                Some(protocol_fault("stored signature is not 64 bytes"@))
            } else {
                match text_signature_objection(
                    MemberId(array_with::<32>(row.author@)),
                    text_in_row(row),
                    row.signature@,
                ) {
                    Some(text) => Some(protocol_fault(text)),
                    None => None,
                }
            },
        }
    }
}

/// A text in the clear out of a row.
pub fn signed_text_from_row(row: &TextRow) -> (signed: Result<SignedText, Fault>)
    ensures
        match signed {
            Ok(signed) => text_row_fault(*row) is None && signed.authored.author@ == row.author@
                && signed.authored.message@ == text_in_row(*row) && signed.signature@
                == row.signature@,
            Err(fault) => text_row_fault(*row) == Some(fault@),
        },
{
    let id: [u8; 32] = match array_from_row::<32>(&row.id, "stored message id is not 32 bytes") {
        Ok(array) => array,
        Err(fault) => {
            return Err(fault);
        },
    };
    let author: [u8; 32] = match array_from_row::<32>(
        &row.author,
        "stored author id is not 32 bytes",
    ) {
        Ok(array) => array,
        Err(fault) => {
            return Err(fault);
        },
    };
    let channel_id: [u8; 32] = match array_from_row::<32>(
        &row.channel_id,
        "stored channel id is not 32 bytes",
    ) {
        Ok(array) => array,
        Err(fault) => {
            return Err(fault);
        },
    };
    let message: TextMessage = match TextMessage::in_channel(
        MessageId(id),
        ChannelId(channel_id),
        row.body.as_str(),
    ) {
        Ok(message) => message,
        Err(error) => {
            return Err(error.fault());
        },
    };
    let signature: [u8; 64] = match array_from_row::<64>(
        &row.signature,
        "stored signature is not 64 bytes",
    ) {
        Ok(array) => array,
        Err(fault) => {
            return Err(fault);
        },
    };
    match SignedText::verified(AuthoredText::new(MemberId(author), message), signature) {
        Ok(signed) => Ok(signed),
        Err(text) => Err(Fault::protocol(text.as_str())),
    }
}

/// What is stored of a content key, an envelope or encrypted content is read where every part has
/// its length and no number is negative, and otherwise it is refused.
pub proof fn rows_are_read_where_their_parts_fit(
    revision: i64,
    epoch: i64,
    channel: Seq<u8>,
    author: Seq<u8>,
    head: Seq<u8>,
    nonce: Seq<u8>,
    key: Seq<u8>,
    signature: Seq<u8>,
)
    ensures
        epoch_row_fault(epoch, head, key) is None <==> epoch >= 0 && head.len() == 32 && key.len()
            == 32,
        envelope_row_fault(epoch, head, author, key, signature) is None <==> epoch >= 0
            && head.len() == 32 && author.len() == 32 && key.len() == 32 && signature.len() == 64,
        encrypted_row_fault(channel, author, epoch, head, nonce, signature) is None <==> epoch >= 0
            && channel.len() == 32 && author.len() == 32 && head.len() == 32 && nonce.len() == 24
            && signature.len() == 64,
        encrypted_attachment_row_fault(channel, author, epoch, head, nonce, signature) is None
            <==> epoch >= 0 && channel.len() == 32 && author.len() == 32 && head.len() == 32
            && nonce.len() == 24 && signature.len() == 64,
        member_profile_row_fault(revision, epoch, head, nonce, signature) is None <==> revision >= 0
            && epoch >= 0 && head.len() == 32 && nonce.len() == 24 && signature.len() == 64,
{
}

/// A change of the membership that is stored as it is reads back as it is, where the owner's
/// signature passes.
pub proof fn stored_memberships_read_back(
    owner: MemberId,
    community: CommunityId,
    signed: SignedMembership,
    row: MembershipRow,
)
    requires
        signed.update.revision <= i64::MAX,
        row.revision == signed.update.revision,
        row.member@ == subject(signed.update.change)@,
        row.admitted == (if signed.update.change is Remove {
            0int
        } else {
            1
        }),
        row.availability == (if signed.update.change is AdmitAvailability {
            1int
        } else {
            0
        }),
        row.signature@ == signed.signature@,
        row.conflict_key@ == conflict_bytes(signed),
        membership_objection(owner, community, signed.update, signed.signature@) is None,
    ensures
        membership_row_fault(owner, community, row) is None,
        membership_in_row(row) == signed,
{
    array_with_is::<32>(subject(signed.update.change).0);
    array_with_is::<64>(signed.signature);
}

/// A change that is stored with a role that there is none, or with the signature or the conflict key
/// of another one, is refused.
pub proof fn forged_memberships_are_refused(
    owner: MemberId,
    community: CommunityId,
    row: MembershipRow,
)
    ensures
        membership_row_fault(owner, community, row) is None ==> {
            &&& row.admitted == 0 || row.admitted == 1
            &&& row.availability == 0 || (row.availability == 1 && row.admitted == 1)
            &&& row.revision >= 0
            &&& membership_objection(
                owner,
                community,
                membership_in_row(row).update,
                row.signature@,
            ) is None
            &&& row.conflict_key@ == conflict_bytes(membership_in_row(row))
        },
{
}

} // verus!
