//! How content is kept from everyone but the community's participants: encryption keys that
//! members register, content keys that the owner seals for them, and texts, names, attachments
//! and voice under those keys.

use vstd::prelude::*;
use vstd::utf8::{
    decode_utf8, encode_utf8, encode_utf8_decode_utf8, encode_utf8_valid_utf8, is_ascii_chars,
    is_ascii_chars_encode_utf8, valid_utf8,
};

use crate::bytes::{append, be64, be64_injective, bytes_between, to_array, to_be64, to_vec};
use crate::community::{CommunityId, MemberId};
use crate::decoding::{decoding_text, explain, Shape};
use crate::fault::{invalid_fault, protocol_fault, Fault, FaultModel};
use crate::model::{
    attachment_error_text, attachment_objection, display_name_error_text, display_name_objection,
    message_error_text, text_objection, Attachment, AttachmentModel, AuthoredAttachment,
    AuthoredText, ChannelId, DisplayName, MessageId, TextMessage, TextModel, VoiceFrame,
    VoiceFrameModel, VoicePresence,
};
use crate::primitives::{
    blake3_digest, blake3_hash, ed25519_objection, ed25519_public, ed25519_public_key,
    ed25519_sign, ed25519_signature, ed25519_verify, hpke_derive_public, hpke_key_objection,
    hpke_open, hpke_opened, hpke_public_key, hpke_seal, random_24, xchacha_decrypt, xchacha_encrypt,
    xchacha_opened, xchacha_sealed, MAX_CIPHER_BYTES,
};
use crate::text::{text_of_utf8, utf8_objection};
use crate::wire::{
    encoded, voice_presence_payload_fields, voice_presence_payload_in,
    voice_presence_payload_reads_back, PresenceState, VoicePresencePayload,
    VoicePresencePayloadModel,
};

verus! {

/// The member whose signing key has this seed.
pub fn member_of(signing_seed: &[u8; 32]) -> (member: MemberId)
    ensures
        member@ == ed25519_public_key(signing_seed@),
{
    MemberId(ed25519_public(signing_seed))
}

/// What comes of opening a ciphertext.
pub open spec fn box_opened(
    key: Seq<u8>,
    nonce: Seq<u8>,
    aad: Seq<u8>,
    ciphertext: Seq<u8>,
) -> Result<Seq<u8>, FaultModel> {
    if ciphertext.len() > MAX_CIPHER_BYTES + 16 {
        Err(protocol_fault("aead::Error"@))
    } else {
        match xchacha_opened(key, nonce, aad, ciphertext) {
            Some(message) => Ok(message),
            None => Err(protocol_fault("aead::Error"@)),
        }
    }
}

fn open_box(key: &[u8; 32], nonce: &[u8; 24], aad: &[u8], ciphertext: &[u8]) -> (opened: Result<
    Vec<u8>,
    Fault,
>)
    ensures
        match opened {
            Ok(message) => box_opened(key@, nonce@, aad@, ciphertext@) == Ok::<
                Seq<u8>,
                FaultModel,
            >(message@),
            Err(fault) => box_opened(key@, nonce@, aad@, ciphertext@) == Err::<
                Seq<u8>,
                FaultModel,
            >(fault@),
        },
{
    if ciphertext.len() as u64 > MAX_CIPHER_BYTES + 16 {
        return Err(Fault::protocol("aead::Error"));
    }
    match xchacha_decrypt(key, nonce, aad, ciphertext) {
        Some(message) => Ok(message),
        None => Err(Fault::protocol("aead::Error")),
    }
}

fn seal_box(key: &[u8; 32], nonce: &[u8; 24], aad: &[u8], message: &[u8]) -> (sealed: Vec<u8>)
    requires
        message@.len() <= MAX_CIPHER_BYTES,
    ensures
        sealed@ == xchacha_sealed(key@, nonce@, aad@, message@),
        sealed@.len() == message@.len() + 16,
        box_opened(key@, nonce@, aad@, sealed@) == Ok::<Seq<u8>, FaultModel>(message@),
{
    match xchacha_encrypt(key, nonce, aad, message) {
        Some(sealed) => sealed,
        None => Vec::new(),
    }
}

/// What a signature check has against a signature, as a fault.
pub open spec fn signature_fault(key: Seq<u8>, message: Seq<u8>, signature: Seq<u8>) -> Option<
    FaultModel,
> {
    match ed25519_objection(key, message, signature) {
        Some(text) => Some(protocol_fault(text)),
        None => None,
    }
}

fn check_signature(key: &[u8; 32], message: &[u8], signature: &[u8; 64]) -> (verdict: Result<
    (),
    Fault,
>)
    ensures
        match verdict {
            Ok(()) => signature_fault(key@, message@, signature@) is None,
            Err(fault) => signature_fault(key@, message@, signature@) == Some(fault@),
        },
{
    match ed25519_verify(key, message, signature) {
        Ok(()) => Ok(()),
        Err(text) => Err(Fault::protocol(text.as_str())),
    }
}

/// The bytes that a member signs to register an encryption key.
pub open spec fn registration_message(
    community: CommunityId,
    member: MemberId,
    public_key: Seq<u8>,
) -> Seq<u8> {
    encode_utf8("peer-community/key-registration/v1\0"@) + community@ + member@ + public_key
}

/// A member's encryption key with the member's signature.
#[derive(Clone, Copy, Debug, PartialEq, Eq)]
pub struct KeyRegistration {
    pub member: MemberId,
    pub public_key: [u8; 32],
    pub signature: [u8; 64],
}

fn registration_bytes(id: CommunityId, member: MemberId, public_key: &[u8; 32]) -> (bytes: Vec<u8>)
    ensures
        bytes@ == registration_message(id, member, public_key@),
{
    let mut bytes: Vec<u8> = to_vec("peer-community/key-registration/v1\0".as_bytes());
    append(&mut bytes, id.0.as_slice());
    append(&mut bytes, member.0.as_slice());
    append(&mut bytes, public_key.as_slice());
    bytes
}

impl KeyRegistration {
    /// The registration of a key, signed with the member's key.
    pub fn sign(signing_seed: &[u8; 32], community_id: CommunityId, public_key: [u8; 32]) -> (
    registration: Self)
        ensures
            registration.member@ == ed25519_public_key(signing_seed@),
            registration.public_key == public_key,
            registration.signature@ == ed25519_signature(
                signing_seed@,
                registration_message(community_id, registration.member, public_key@),
            ),
    {
        let member: MemberId = member_of(signing_seed);
        let bytes: Vec<u8> = registration_bytes(community_id, member, &public_key);
        let signature: [u8; 64] = ed25519_sign(signing_seed, bytes.as_slice());
        KeyRegistration { member, public_key, signature }
    }

    /// The registration, where the signature is the member's.
    pub fn verified(
        community_id: CommunityId,
        member: MemberId,
        public_key: [u8; 32],
        signature: [u8; 64],
    ) -> (registration: Result<Self, Fault>)
        ensures
            match registration {
                Ok(registration) => registration == (KeyRegistration {
                    member,
                    public_key,
                    signature,
                }) && signature_fault(
                    member@,
                    registration_message(community_id, member, public_key@),
                    signature@,
                ) is None,
                Err(fault) => signature_fault(
                    member@,
                    registration_message(community_id, member, public_key@),
                    signature@,
                ) == Some(fault@),
            },
    {
        let bytes: Vec<u8> = registration_bytes(community_id, member, &public_key);
        match check_signature(&member.0, bytes.as_slice(), &signature) {
            Ok(()) => Ok(KeyRegistration { member, public_key, signature }),
            Err(fault) => Err(fault),
        }
    }

    /// The member.
    pub fn member(&self) -> (member: MemberId)
        ensures
            member == self.member,
    {
        self.member
    }

    /// The key.
    pub fn public_key(&self) -> (key: &[u8; 32])
        ensures
            *key == self.public_key,
    {
        &self.public_key
    }

    /// The signature.
    pub fn signature(&self) -> (signature: &[u8; 64])
        ensures
            *signature == self.signature,
    {
        &self.signature
    }
}

/// A content key and the membership that it belongs to.
#[derive(Clone, Copy, Debug, PartialEq, Eq)]
pub struct ContentEpoch {
    pub number: u64,
    pub head: [u8; 32],
    pub key: [u8; 32],
}

/// A content key, sealed for one member and signed by the owner.
#[derive(Debug)]
pub struct ContentKeyEnvelope {
    pub epoch: u64,
    pub head: [u8; 32],
    pub recipient: MemberId,
    pub encapsulated_key: [u8; 32],
    pub ciphertext: Vec<u8>,
    pub signature: [u8; 64],
}

/// What an envelope is.
pub struct EnvelopeModel {
    pub epoch: u64,
    pub head: Seq<u8>,
    pub recipient: MemberId,
    pub encapsulated_key: Seq<u8>,
    pub ciphertext: Seq<u8>,
    pub signature: Seq<u8>,
}

impl View for ContentKeyEnvelope {
    type V = EnvelopeModel;

    open spec fn view(&self) -> EnvelopeModel {
        EnvelopeModel {
            epoch: self.epoch,
            head: self.head@,
            recipient: self.recipient,
            encapsulated_key: self.encapsulated_key@,
            ciphertext: self.ciphertext@,
            signature: self.signature@,
        }
    }
}

/// What an envelope is bound to: community, epoch, membership and recipient.
pub open spec fn envelope_context(
    community: CommunityId,
    epoch: u64,
    head: Seq<u8>,
    recipient: MemberId,
) -> Seq<u8> {
    encode_utf8("peer-community/content-key-envelope/v1\0"@) + community@ + be64(epoch) + head
        + recipient@
}

/// The bytes that the owner signs for an envelope.
pub open spec fn envelope_message(community: CommunityId, envelope: EnvelopeModel) -> Seq<u8> {
    envelope_context(community, envelope.epoch, envelope.head, envelope.recipient)
        + envelope.encapsulated_key + be64(envelope.ciphertext.len() as u64) + envelope.ciphertext
}

/// What the recipient finds in an envelope.
pub open spec fn envelope_opened(
    community: CommunityId,
    envelope: EnvelopeModel,
    seed: Seq<u8>,
) -> Result<Seq<u8>, FaultModel> {
    let info = envelope_context(community, envelope.epoch, envelope.head, envelope.recipient);
    if envelope.ciphertext.len() > MAX_CIPHER_BYTES + 16 {
        Err(protocol_fault("Failed to open ciphertext"@))
    } else {
        match hpke_opened(seed, envelope.encapsulated_key, info, envelope.ciphertext) {
            Ok(key) => if key.len() == 32 {
                Ok(key)
            } else {
                Err(protocol_fault("content key is not 32 bytes"@))
            },
            Err(text) => Err(protocol_fault(text)),
        }
    }
}

/// Whether everyone who holds a seed of `public_key` finds `key` in an envelope.
pub open spec fn opens_with_key(
    community: CommunityId,
    envelope: EnvelopeModel,
    public_key: Seq<u8>,
    key: Seq<u8>,
) -> bool {
    forall|seed: Seq<u8>|
        seed.len() == 32 && #[trigger] hpke_public_key(seed) == public_key ==> envelope_opened(
            community,
            envelope,
            seed,
        ) == Ok::<Seq<u8>, FaultModel>(key)
}

fn envelope_info(id: CommunityId, epoch: u64, head: &[u8; 32], recipient: MemberId) -> (info: Vec<
    u8,
>)
    ensures
        info@ == envelope_context(id, epoch, head@, recipient),
{
    let mut bytes: Vec<u8> = to_vec("peer-community/content-key-envelope/v1\0".as_bytes());
    append(&mut bytes, id.0.as_slice());
    append(&mut bytes, to_be64(epoch).as_slice());
    append(&mut bytes, head.as_slice());
    append(&mut bytes, recipient.0.as_slice());
    bytes
}

impl ContentKeyEnvelope {
    /// Seals the key of `epoch` for the member of `registration`. Whoever holds the seed of the
    /// registered key opens the envelope to the key.
    pub fn seal(
        owner_seed: &[u8; 32],
        community_id: CommunityId,
        epoch: ContentEpoch,
        registration: &KeyRegistration,
    ) -> (envelope: Result<Self, Fault>)
        ensures
            match envelope {
                Ok(envelope) => {
                    &&& hpke_key_objection(registration.public_key@) is None
                    &&& envelope.epoch == epoch.number
                    &&& envelope.head == epoch.head
                    &&& envelope.recipient == registration.member
                    &&& envelope.signature@ == ed25519_signature(
                        owner_seed@,
                        envelope_message(community_id, envelope@),
                    )
                    &&& opens_with_key(
                        community_id,
                        envelope@,
                        registration.public_key@,
                        epoch.key@,
                    )
                },
                Err(fault) => hpke_key_objection(registration.public_key@) matches Some(text)
                    && fault@ == protocol_fault(text),
            },
    {
        let info: Vec<u8> = envelope_info(
            community_id,
            epoch.number,
            &epoch.head,
            registration.member,
        );
        match hpke_seal(&registration.public_key, info.as_slice(), &epoch.key) {
            Ok((encapsulated_key, ciphertext)) => Ok(
                ContentKeyEnvelope::around(
                    owner_seed,
                    community_id,
                    epoch.number,
                    epoch.head,
                    registration.member,
                    encapsulated_key,
                    ciphertext,
                ),
            ),
            Err(text) => Err(Fault::protocol(text.as_str())),
        }
    }

    /// The envelope around a sealed key, signed with the owner's key.
    pub fn around(
        owner_seed: &[u8; 32],
        community_id: CommunityId,
        epoch: u64,
        head: [u8; 32],
        recipient: MemberId,
        encapsulated_key: [u8; 32],
        ciphertext: Vec<u8>,
    ) -> (envelope: Self)
        ensures
            envelope.epoch == epoch,
            envelope.head == head,
            envelope.recipient == recipient,
            envelope.encapsulated_key == encapsulated_key,
            envelope.ciphertext == ciphertext,
            envelope.signature@ == ed25519_signature(
                owner_seed@,
                envelope_message(community_id, envelope@),
            ),
    {
        let mut envelope: ContentKeyEnvelope = ContentKeyEnvelope {
            epoch,
            head,
            recipient,
            encapsulated_key,
            ciphertext,
            signature: [0u8; 64],
        };
        let bytes: Vec<u8> = envelope.signing_bytes(community_id);
        envelope.signature = ed25519_sign(owner_seed, bytes.as_slice());
        envelope
    }

    /// Accepts an envelope that the owner signed.
    pub fn verify(&self, owner: MemberId, id: CommunityId) -> (verdict: Result<(), Fault>)
        ensures
            match verdict {
                Ok(()) => signature_fault(
                    owner@,
                    envelope_message(id, self@),
                    self.signature@,
                ) is None,
                Err(fault) => signature_fault(
                    owner@,
                    envelope_message(id, self@),
                    self.signature@,
                ) == Some(fault@),
            },
    {
        let bytes: Vec<u8> = self.signing_bytes(id);
        check_signature(&owner.0, bytes.as_slice(), &self.signature)
    }

    /// Opens the envelope with the recipient's seed.
    pub fn open(
        &self,
        id: CommunityId,
        hpke_seed: &[u8; 32],
    ) -> (epoch: Result<ContentEpoch, Fault>)
        ensures
            match epoch {
                Ok(epoch) => epoch.number == self.epoch && epoch.head == self.head
                    && envelope_opened(id, self@, hpke_seed@) == Ok::<Seq<u8>, FaultModel>(
                    epoch.key@,
                ),
                Err(fault) => envelope_opened(id, self@, hpke_seed@) == Err::<Seq<u8>, FaultModel>(
                    fault@,
                ),
            },
    {
        if self.ciphertext.len() as u64 > MAX_CIPHER_BYTES + 16 {
            return Err(Fault::protocol("Failed to open ciphertext"));
        }
        let info: Vec<u8> = envelope_info(id, self.epoch, &self.head, self.recipient);
        match hpke_open(
            hpke_seed,
            &self.encapsulated_key,
            info.as_slice(),
            self.ciphertext.as_slice(),
        ) {
            Ok(plaintext) => match to_array::<32>(plaintext.as_slice()) {
                Some(key) => Ok(ContentEpoch { number: self.epoch, head: self.head, key }),
                None => Err(Fault::protocol("content key is not 32 bytes")),
            },
            Err(text) => Err(Fault::protocol(text.as_str())),
        }
    }

    fn signing_bytes(&self, id: CommunityId) -> (bytes: Vec<u8>)
        ensures
            bytes@ == envelope_message(id, self@),
    {
        let mut bytes: Vec<u8> = envelope_info(id, self.epoch, &self.head, self.recipient);
        append(&mut bytes, self.encapsulated_key.as_slice());
        append(&mut bytes, to_be64(self.ciphertext.len() as u64).as_slice());
        append(&mut bytes, self.ciphertext.as_slice());
        bytes
    }

    /// Whether two envelopes seal alike: encapsulated key, ciphertext and signature.
    pub fn seals_alike(&self, other: &ContentKeyEnvelope) -> (same: bool)
        ensures
            same == (self.encapsulated_key@ == other.encapsulated_key@ && self.ciphertext@
                == other.ciphertext@ && self.signature@ == other.signature@),
    {
        crate::bytes::same_bytes(
            self.encapsulated_key.as_slice(),
            other.encapsulated_key.as_slice(),
        ) && crate::bytes::same_bytes(self.ciphertext.as_slice(), other.ciphertext.as_slice())
            && crate::bytes::same_bytes(self.signature.as_slice(), other.signature.as_slice())
    }
}

impl Clone for ContentKeyEnvelope {
    fn clone(&self) -> (copy: Self)
        ensures
            copy@ == self@,
    {
        ContentKeyEnvelope {
            epoch: self.epoch,
            head: self.head,
            recipient: self.recipient,
            encapsulated_key: self.encapsulated_key,
            ciphertext: to_vec(self.ciphertext.as_slice()),
            signature: self.signature,
        }
    }
}

/// The public key of the key pair that is derived from `seed`.
pub fn hpke_public(seed: &[u8; 32]) -> (key: [u8; 32])
    ensures
        key@ == hpke_public_key(seed@),
        hpke_key_objection(key@) is None,
{
    hpke_derive_public(seed)
}

/// What stands for the membership before the first change.
pub open spec fn genesis(community: CommunityId, owner: MemberId) -> Seq<u8> {
    blake3_digest(
        encode_utf8("peer-community/membership-genesis/v1\0"@) + community@ + owner@,
    )
}

/// What stands for the membership before the first change.
pub fn genesis_head(id: CommunityId, owner: MemberId) -> (head: [u8; 32])
    ensures
        head@ == genesis(id, owner),
{
    let mut bytes: Vec<u8> = to_vec("peer-community/membership-genesis/v1\0".as_bytes());
    append(&mut bytes, id.0.as_slice());
    append(&mut bytes, owner.0.as_slice());
    blake3_hash(bytes.as_slice())
}

/// What a piece of content is bound to, behind a prefix: community, epoch, membership, author,
/// name and channel.
pub open spec fn content_context(
    prefix: Seq<char>,
    community: CommunityId,
    epoch: u64,
    head: Seq<u8>,
    author: MemberId,
    id: MessageId,
    channel: ChannelId,
) -> Seq<u8> {
    encode_utf8(prefix) + community@ + be64(epoch) + head + author@ + id@ + channel@
}

fn content_bytes(
    prefix: &str,
    community: CommunityId,
    epoch: u64,
    head: &[u8; 32],
    author: MemberId,
    id: MessageId,
    channel: ChannelId,
) -> (bytes: Vec<u8>)
    ensures
        bytes@ == content_context(prefix@, community, epoch, head@, author, id, channel),
{
    let mut bytes: Vec<u8> = to_vec(prefix.as_bytes());
    append(&mut bytes, community.0.as_slice());
    append(&mut bytes, to_be64(epoch).as_slice());
    append(&mut bytes, head.as_slice());
    append(&mut bytes, author.0.as_slice());
    append(&mut bytes, id.0.as_slice());
    append(&mut bytes, channel.0.as_slice());
    bytes
}

/// A piece of encrypted content: a text or an attachment.
pub struct ContentModel {
    pub id: MessageId,
    pub channel_id: ChannelId,
    pub author: MemberId,
    pub epoch: u64,
    pub head: Seq<u8>,
    pub nonce: Seq<u8>,
    pub ciphertext: Seq<u8>,
    pub signature: Seq<u8>,
}

/// The associated data of an encrypted text.
pub open spec fn text_aad(community: CommunityId, text: ContentModel) -> Seq<u8> {
    content_context(
        "peer-community/text-aead/v1\0"@,
        community,
        text.epoch,
        text.head,
        text.author,
        text.id,
        text.channel_id,
    )
}

/// The bytes that the author signs for an encrypted text.
pub open spec fn encrypted_text_message(community: CommunityId, text: ContentModel) -> Seq<u8> {
    content_context(
        "peer-community/text-sign/v1\0"@,
        community,
        text.epoch,
        text.head,
        text.author,
        text.id,
        text.channel_id,
    ) + text.nonce + be64(text.ciphertext.len() as u64) + text.ciphertext
}

/// What is wrong with the signature of an encrypted text.
pub open spec fn encrypted_text_fault(community: CommunityId, text: ContentModel) -> Option<
    FaultModel,
> {
    signature_fault(text.author@, encrypted_text_message(community, text), text.signature)
}

/// The text in an encrypted text, or what is wrong with it.
pub open spec fn text_found(community: CommunityId, text: ContentModel, key: Seq<u8>) -> Result<
    TextModel,
    FaultModel,
> {
    match encrypted_text_fault(community, text) {
        Some(fault) => Err(fault),
        None => match box_opened(key, text.nonce, text_aad(community, text), text.ciphertext) {
            Err(fault) => Err(fault),
            Ok(bytes) => if !valid_utf8(bytes) {
                Err(protocol_fault(utf8_objection(bytes)))
            } else {
                match text_objection(decode_utf8(bytes)) {
                    Some(error) => Err(invalid_fault(message_error_text(error))),
                    None => Ok(
                        TextModel {
                            id: text.id,
                            channel_id: text.channel_id,
                            body: decode_utf8(bytes),
                        },
                    ),
                }
            },
        },
    }
}

/// Whether an encrypted text is what the author makes of `message` with the nonce in it.
pub open spec fn seals_text(
    signing_seed: Seq<u8>,
    community: CommunityId,
    epoch: ContentEpoch,
    message: TextModel,
    sealed: ContentModel,
) -> bool {
    &&& sealed.id == message.id
    &&& sealed.channel_id == message.channel_id
    &&& sealed.author@ == ed25519_public_key(signing_seed)
    &&& sealed.epoch == epoch.number
    &&& sealed.head == epoch.head@
    &&& sealed.ciphertext == xchacha_sealed(
        epoch.key@,
        sealed.nonce,
        text_aad(community, sealed),
        encode_utf8(message.body),
    )
    &&& box_opened(epoch.key@, sealed.nonce, text_aad(community, sealed), sealed.ciphertext) == Ok::<
        Seq<u8>,
        FaultModel,
    >(encode_utf8(message.body))
    &&& sealed.signature == ed25519_signature(
        signing_seed,
        encrypted_text_message(community, sealed),
    )
}

/// An encrypted text.
#[derive(Debug)]
pub struct EncryptedText {
    pub id: MessageId,
    pub channel_id: ChannelId,
    pub author: MemberId,
    pub epoch: u64,
    pub head: [u8; 32],
    pub nonce: [u8; 24],
    pub ciphertext: Vec<u8>,
    pub signature: [u8; 64],
}

impl View for EncryptedText {
    type V = ContentModel;

    open spec fn view(&self) -> ContentModel {
        ContentModel {
            id: self.id,
            channel_id: self.channel_id,
            author: self.author,
            epoch: self.epoch,
            head: self.head@,
            nonce: self.nonce@,
            ciphertext: self.ciphertext@,
            signature: self.signature@,
        }
    }
}

impl Clone for EncryptedText {
    fn clone(&self) -> (copy: Self)
        ensures
            copy@ == self@,
    {
        EncryptedText {
            id: self.id,
            channel_id: self.channel_id,
            author: self.author,
            epoch: self.epoch,
            head: self.head,
            nonce: self.nonce,
            ciphertext: to_vec(self.ciphertext.as_slice()),
            signature: self.signature,
        }
    }
}

impl EncryptedText {
    /// Encrypts and signs a text, with a nonce drawn at random.
    pub fn encrypt(
        signing_seed: &[u8; 32],
        id: CommunityId,
        epoch: ContentEpoch,
        message: &TextMessage,
    ) -> (sealed: Self)
        ensures
            seals_text(signing_seed@, id, epoch, message@, sealed@),
    {
        EncryptedText::encrypt_with(signing_seed, id, epoch, message, random_24())
    }

    /// Encrypts and signs a text with this nonce.
    pub fn encrypt_with(
        signing_seed: &[u8; 32],
        id: CommunityId,
        epoch: ContentEpoch,
        message: &TextMessage,
        nonce: [u8; 24],
    ) -> (sealed: Self)
        ensures
            seals_text(signing_seed@, id, epoch, message@, sealed@),
            sealed.nonce == nonce,
    {
        let author: MemberId = member_of(signing_seed);
        let aad: Vec<u8> = content_bytes(
            "peer-community/text-aead/v1\0",
            id,
            epoch.number,
            &epoch.head,
            author,
            message.id(),
            message.channel_id(),
        );
        let body: &str = message.body();
        let ciphertext: Vec<u8> = seal_box(&epoch.key, &nonce, aad.as_slice(), body.as_bytes());
        let mut sealed: EncryptedText = EncryptedText {
            id: message.id(),
            channel_id: message.channel_id(),
            author,
            epoch: epoch.number,
            head: epoch.head,
            nonce,
            ciphertext,
            signature: [0u8; 64],
        };
        let bytes: Vec<u8> = sealed.signing_bytes(id);
        sealed.signature = ed25519_sign(signing_seed, bytes.as_slice());
        sealed
    }

    fn signing_bytes(&self, id: CommunityId) -> (bytes: Vec<u8>)
        ensures
            bytes@ == encrypted_text_message(id, self@),
    {
        let mut bytes: Vec<u8> = content_bytes(
            "peer-community/text-sign/v1\0",
            id,
            self.epoch,
            &self.head,
            self.author,
            self.id,
            self.channel_id,
        );
        append(&mut bytes, self.nonce.as_slice());
        append(&mut bytes, to_be64(self.ciphertext.len() as u64).as_slice());
        append(&mut bytes, self.ciphertext.as_slice());
        bytes
    }

    /// The text and its author, where the signature is the author's and the key opens it.
    pub fn decrypt(
        &self,
        id: CommunityId,
        key: &[u8; 32],
    ) -> (authored: Result<AuthoredText, Fault>)
        ensures
            match authored {
                Ok(authored) => authored.author == self.author && text_found(id, self@, key@)
                    == Ok::<TextModel, FaultModel>(authored.message@),
                Err(fault) => text_found(id, self@, key@) == Err::<TextModel, FaultModel>(fault@),
            },
    {
        match self.verify(id) {
            Ok(()) => {},
            Err(fault) => {
                return Err(fault);
            },
        }
        let aad: Vec<u8> = content_bytes(
            "peer-community/text-aead/v1\0",
            id,
            self.epoch,
            &self.head,
            self.author,
            self.id,
            self.channel_id,
        );
        let bytes: Vec<u8> = match open_box(
            key,
            &self.nonce,
            aad.as_slice(),
            self.ciphertext.as_slice(),
        ) {
            Ok(bytes) => bytes,
            Err(fault) => {
                return Err(fault);
            },
        };
        let body: String = match text_of_utf8(bytes) {
            Ok(body) => body,
            Err(text) => {
                return Err(Fault::protocol(text.as_str()));
            },
        };
        match TextMessage::in_channel(self.id, self.channel_id, body.as_str()) {
            Ok(message) => Ok(AuthoredText::new(self.author, message)),
            Err(error) => Err(error.fault()),
        }
    }

    /// Accepts a text that its author signed.
    pub fn verify(&self, id: CommunityId) -> (verdict: Result<(), Fault>)
        ensures
            match verdict {
                Ok(()) => encrypted_text_fault(id, self@) is None,
                Err(fault) => encrypted_text_fault(id, self@) == Some(fault@),
            },
    {
        let bytes: Vec<u8> = self.signing_bytes(id);
        check_signature(&self.author.0, bytes.as_slice(), &self.signature)
    }

    /// Whether two texts agree in everything.
    pub fn same(&self, other: &EncryptedText) -> (same: bool)
        ensures
            same == (self@ == other@),
    {
        self.id == other.id && self.channel_id == other.channel_id && self.author == other.author
            && self.epoch == other.epoch && crate::bytes::same_bytes(
            self.head.as_slice(),
            other.head.as_slice(),
        ) && crate::bytes::same_bytes(self.nonce.as_slice(), other.nonce.as_slice())
            && crate::bytes::same_bytes(self.ciphertext.as_slice(), other.ciphertext.as_slice())
            && crate::bytes::same_bytes(self.signature.as_slice(), other.signature.as_slice())
    }
}

/// What an author encrypts, everyone with the content key reads: the same text, where the
/// signature that was made passes strict verification.
pub proof fn text_reads_back(
    signing_seed: Seq<u8>,
    community: CommunityId,
    epoch: ContentEpoch,
    message: TextModel,
    sealed: ContentModel,
)
    requires
        text_objection(message.body) is None,
        seals_text(signing_seed, community, epoch, message, sealed),
        encrypted_text_fault(community, sealed) is None,
    ensures
        text_found(community, sealed, epoch.key@) == Ok::<TextModel, FaultModel>(message),
{
    encode_utf8_valid_utf8(message.body);
    encode_utf8_decode_utf8(message.body);
}

/// What an author signs for an encrypted text tells the community and everything but the
/// signature apart.
pub proof fn encrypted_text_message_binds(
    community: CommunityId,
    a: ContentModel,
    other_community: CommunityId,
    b: ContentModel,
)
    requires
        a.head.len() == 32,
        b.head.len() == 32,
        a.nonce.len() == 24,
        b.nonce.len() == 24,
        encrypted_text_message(community, a) == encrypted_text_message(other_community, b),
    ensures
        community == other_community,
        a == (ContentModel { signature: a.signature, ..b }),
{
    let n = encode_utf8("peer-community/text-sign/v1\0"@).len() as int;
    let (x, y) = (encrypted_text_message(community, a), encrypted_text_message(other_community, b));
    assert(x.subrange(n, n + 32) =~= community@);
    assert(y.subrange(n, n + 32) =~= other_community@);
    assert(community.0 =~= other_community.0);
    assert(x.subrange(n + 32, n + 40) =~= be64(a.epoch));
    assert(y.subrange(n + 32, n + 40) =~= be64(b.epoch));
    be64_injective(a.epoch, b.epoch);
    assert(x.subrange(n + 40, n + 72) =~= a.head);
    assert(y.subrange(n + 40, n + 72) =~= b.head);
    assert(x.subrange(n + 72, n + 104) =~= a.author@);
    assert(y.subrange(n + 72, n + 104) =~= b.author@);
    assert(a.author.0 =~= b.author.0);
    assert(x.subrange(n + 104, n + 136) =~= a.id@);
    assert(y.subrange(n + 104, n + 136) =~= b.id@);
    assert(a.id.0 =~= b.id.0);
    assert(x.subrange(n + 136, n + 168) =~= a.channel_id@);
    assert(y.subrange(n + 136, n + 168) =~= b.channel_id@);
    assert(a.channel_id.0 =~= b.channel_id.0);
    assert(x.subrange(n + 168, n + 192) =~= a.nonce);
    assert(y.subrange(n + 168, n + 192) =~= b.nonce);
    assert(x.subrange(n + 200, x.len() as int) =~= a.ciphertext);
    assert(y.subrange(n + 200, y.len() as int) =~= b.ciphertext);
}

/// What an encrypted display name is.
pub struct ProfileModel {
    pub member: MemberId,
    pub revision: u64,
    pub epoch: u64,
    pub head: Seq<u8>,
    pub nonce: Seq<u8>,
    pub ciphertext: Seq<u8>,
    pub signature: Seq<u8>,
}

/// The associated data of an encrypted display name.
pub open spec fn profile_aad(community: CommunityId, profile: ProfileModel) -> Seq<u8> {
    encode_utf8("peer-community/member-profile-aead/v1\0"@) + community@ + profile.member@ + be64(
        profile.revision,
    ) + be64(profile.epoch) + profile.head
}

/// The bytes that the member signs for a display name.
pub open spec fn profile_message(community: CommunityId, profile: ProfileModel) -> Seq<u8> {
    profile_aad(community, profile) + profile.nonce + be64(profile.ciphertext.len() as u64)
        + profile.ciphertext
}

/// What is wrong with the signature of a display name.
pub open spec fn profile_fault(
    community: CommunityId,
    profile: ProfileModel,
) -> Option<FaultModel> {
    signature_fault(profile.member@, profile_message(community, profile), profile.signature)
}

/// The name in an encrypted display name, or what is wrong with it.
pub open spec fn name_found(community: CommunityId, profile: ProfileModel, key: Seq<u8>) -> Result<
    Seq<char>,
    FaultModel,
> {
    match profile_fault(community, profile) {
        Some(fault) => Err(fault),
        None => match box_opened(
            key,
            profile.nonce,
            profile_aad(community, profile),
            profile.ciphertext,
        ) {
            Err(fault) => Err(fault),
            Ok(bytes) => if !valid_utf8(bytes) {
                Err(protocol_fault(utf8_objection(bytes)))
            } else {
                match display_name_objection(decode_utf8(bytes)) {
                    Some(error) => Err(invalid_fault(display_name_error_text(error))),
                    None => Ok(decode_utf8(bytes)),
                }
            },
        },
    }
}

/// Whether an encrypted display name is what the member makes of `name` with the nonce in it.
pub open spec fn seals_name(
    signing_seed: Seq<u8>,
    community: CommunityId,
    epoch: ContentEpoch,
    revision: u64,
    name: Seq<char>,
    sealed: ProfileModel,
) -> bool {
    &&& sealed.member@ == ed25519_public_key(signing_seed)
    &&& sealed.revision == revision
    &&& sealed.epoch == epoch.number
    &&& sealed.head == epoch.head@
    &&& sealed.ciphertext == xchacha_sealed(
        epoch.key@,
        sealed.nonce,
        profile_aad(community, sealed),
        encode_utf8(name),
    )
    &&& box_opened(
        epoch.key@,
        sealed.nonce,
        profile_aad(community, sealed),
        sealed.ciphertext,
    ) == Ok::<Seq<u8>, FaultModel>(encode_utf8(name))
    &&& sealed.ciphertext.len() == encode_utf8(name).len() + 16
    &&& sealed.signature == ed25519_signature(signing_seed, profile_message(community, sealed))
}

/// An encrypted display name.
#[derive(Debug)]
pub struct EncryptedMemberProfile {
    pub member: MemberId,
    pub revision: u64,
    pub epoch: u64,
    pub head: [u8; 32],
    pub nonce: [u8; 24],
    pub ciphertext: Vec<u8>,
    pub signature: [u8; 64],
}

impl View for EncryptedMemberProfile {
    type V = ProfileModel;

    open spec fn view(&self) -> ProfileModel {
        ProfileModel {
            member: self.member,
            revision: self.revision,
            epoch: self.epoch,
            head: self.head@,
            nonce: self.nonce@,
            ciphertext: self.ciphertext@,
            signature: self.signature@,
        }
    }
}

impl Clone for EncryptedMemberProfile {
    fn clone(&self) -> (copy: Self)
        ensures
            copy@ == self@,
    {
        EncryptedMemberProfile {
            member: self.member,
            revision: self.revision,
            epoch: self.epoch,
            head: self.head,
            nonce: self.nonce,
            ciphertext: to_vec(self.ciphertext.as_slice()),
            signature: self.signature,
        }
    }
}

impl EncryptedMemberProfile {
    /// Encrypts and signs a display name, with a nonce drawn at random.
    pub fn encrypt(
        signing_seed: &[u8; 32],
        id: CommunityId,
        epoch: ContentEpoch,
        revision: u64,
        name: &DisplayName,
    ) -> (sealed: Self)
        ensures
            seals_name(signing_seed@, id, epoch, revision, name@, sealed@),
    {
        EncryptedMemberProfile::encrypt_with(signing_seed, id, epoch, revision, name, random_24())
    }

    /// Encrypts and signs a display name with this nonce.
    pub fn encrypt_with(
        signing_seed: &[u8; 32],
        id: CommunityId,
        epoch: ContentEpoch,
        revision: u64,
        name: &DisplayName,
        nonce: [u8; 24],
    ) -> (sealed: Self)
        ensures
            seals_name(signing_seed@, id, epoch, revision, name@, sealed@),
            sealed.nonce == nonce,
    {
        let member: MemberId = member_of(signing_seed);
        let mut sealed: EncryptedMemberProfile = EncryptedMemberProfile {
            member,
            revision,
            epoch: epoch.number,
            head: epoch.head,
            nonce,
            ciphertext: Vec::new(),
            signature: [0u8; 64],
        };
        let aad: Vec<u8> = sealed.aad(id);
        let text: &str = name.as_str();
        sealed.ciphertext = seal_box(&epoch.key, &nonce, aad.as_slice(), text.as_bytes());
        let bytes: Vec<u8> = sealed.signing_bytes(id);
        sealed.signature = ed25519_sign(signing_seed, bytes.as_slice());
        sealed
    }

    fn aad(&self, id: CommunityId) -> (bytes: Vec<u8>)
        ensures
            bytes@ == profile_aad(id, self@),
    {
        let mut bytes: Vec<u8> = to_vec("peer-community/member-profile-aead/v1\0".as_bytes());
        append(&mut bytes, id.0.as_slice());
        append(&mut bytes, self.member.0.as_slice());
        append(&mut bytes, to_be64(self.revision).as_slice());
        append(&mut bytes, to_be64(self.epoch).as_slice());
        append(&mut bytes, self.head.as_slice());
        bytes
    }

    fn signing_bytes(&self, id: CommunityId) -> (bytes: Vec<u8>)
        ensures
            bytes@ == profile_message(id, self@),
    {
        let mut bytes: Vec<u8> = self.aad(id);
        append(&mut bytes, self.nonce.as_slice());
        append(&mut bytes, to_be64(self.ciphertext.len() as u64).as_slice());
        append(&mut bytes, self.ciphertext.as_slice());
        bytes
    }

    /// Accepts a display name that the member signed.
    pub fn verify(&self, id: CommunityId) -> (verdict: Result<(), Fault>)
        ensures
            match verdict {
                Ok(()) => profile_fault(id, self@) is None,
                Err(fault) => profile_fault(id, self@) == Some(fault@),
            },
    {
        let bytes: Vec<u8> = self.signing_bytes(id);
        check_signature(&self.member.0, bytes.as_slice(), &self.signature)
    }

    /// The name, where the signature is the member's and the key opens it.
    pub fn decrypt(&self, id: CommunityId, key: &[u8; 32]) -> (name: Result<DisplayName, Fault>)
        ensures
            match name {
                Ok(name) => name_found(id, self@, key@) == Ok::<Seq<char>, FaultModel>(name@),
                Err(fault) => name_found(id, self@, key@) == Err::<Seq<char>, FaultModel>(fault@),
            },
    {
        match self.verify(id) {
            Ok(()) => {},
            Err(fault) => {
                return Err(fault);
            },
        }
        let aad: Vec<u8> = self.aad(id);
        let bytes: Vec<u8> = match open_box(
            key,
            &self.nonce,
            aad.as_slice(),
            self.ciphertext.as_slice(),
        ) {
            Ok(bytes) => bytes,
            Err(fault) => {
                return Err(fault);
            },
        };
        let text: String = match text_of_utf8(bytes) {
            Ok(text) => text,
            Err(text) => {
                return Err(Fault::protocol(text.as_str()));
            },
        };
        match DisplayName::new(text.as_str()) {
            Ok(name) => Ok(name),
            Err(error) => Err(error.fault()),
        }
    }

    /// Whether two display names agree in everything.
    pub fn same(&self, other: &EncryptedMemberProfile) -> (same: bool)
        ensures
            same == (self@ == other@),
    {
        self.member == other.member && self.revision == other.revision && self.epoch == other.epoch
            && crate::bytes::same_bytes(self.head.as_slice(), other.head.as_slice())
            && crate::bytes::same_bytes(self.nonce.as_slice(), other.nonce.as_slice())
            && crate::bytes::same_bytes(self.ciphertext.as_slice(), other.ciphertext.as_slice())
            && crate::bytes::same_bytes(self.signature.as_slice(), other.signature.as_slice())
    }
}

/// What a member encrypts as its name, everyone with the content key reads: the same name, where
/// the signature that was made passes strict verification.
pub proof fn name_reads_back(
    signing_seed: Seq<u8>,
    community: CommunityId,
    epoch: ContentEpoch,
    revision: u64,
    name: Seq<char>,
    sealed: ProfileModel,
)
    requires
        display_name_objection(name) is None,
        seals_name(signing_seed, community, epoch, revision, name, sealed),
        profile_fault(community, sealed) is None,
    ensures
        name_found(community, sealed, epoch.key@) == Ok::<Seq<char>, FaultModel>(name),
{
    encode_utf8_valid_utf8(name);
    encode_utf8_decode_utf8(name);
}

/// The associated data of an encrypted attachment.
pub open spec fn attachment_aad(community: CommunityId, attachment: ContentModel) -> Seq<u8> {
    content_context(
        "peer-community/attachment-aead/v1\0"@,
        community,
        attachment.epoch,
        attachment.head,
        attachment.author,
        attachment.id,
        attachment.channel_id,
    )
}

/// The bytes that the author signs for an encrypted attachment: its digest stands for the
/// ciphertext.
pub open spec fn attachment_message(community: CommunityId, attachment: ContentModel) -> Seq<u8> {
    content_context(
        "peer-community/attachment-sign/v1\0"@,
        community,
        attachment.epoch,
        attachment.head,
        attachment.author,
        attachment.id,
        attachment.channel_id,
    ) + attachment.nonce + blake3_digest(attachment.ciphertext)
}

/// What is wrong with the signature of an encrypted attachment.
pub open spec fn encrypted_attachment_fault(
    community: CommunityId,
    attachment: ContentModel,
) -> Option<FaultModel> {
    signature_fault(
        attachment.author@,
        attachment_message(community, attachment),
        attachment.signature,
    )
}

/// What is encrypted of an attachment: the length of its name in two bytes, its name and the file.
pub open spec fn attachment_plaintext(name: Seq<char>, bytes: Seq<u8>) -> Seq<u8> {
    let encoded_name = encode_utf8(name);
    seq![(encoded_name.len() / 256) as u8, (encoded_name.len() % 256) as u8] + encoded_name + bytes
}

/// The attachment in a plaintext, or what is wrong with it.
pub open spec fn attachment_of(id: MessageId, channel_id: ChannelId, plaintext: Seq<u8>) -> Result<
    AttachmentModel,
    FaultModel,
> {
    if plaintext.len() < 2 {
        Err(protocol_fault("attachment plaintext is truncated"@))
    } else {
        let end = 2 + plaintext[0] * 256 + plaintext[1];
        if end > plaintext.len() {
            Err(protocol_fault("attachment name is truncated"@))
        } else {
            let encoded_name = plaintext.subrange(2, end);
            if !valid_utf8(encoded_name) {
                Err(protocol_fault(utf8_objection(encoded_name)))
            } else {
                let name = decode_utf8(encoded_name);
                let bytes = plaintext.skip(end);
                match attachment_objection(name, bytes) {
                    Some(error) => Err(invalid_fault(attachment_error_text(error))),
                    None => Ok(AttachmentModel { id, channel_id, name, bytes }),
                }
            }
        }
    }
}

/// The attachment in an encrypted attachment, or what is wrong with it.
pub open spec fn attachment_found(
    community: CommunityId,
    attachment: ContentModel,
    key: Seq<u8>,
) -> Result<AttachmentModel, FaultModel> {
    match encrypted_attachment_fault(community, attachment) {
        Some(fault) => Err(fault),
        None => match box_opened(
            key,
            attachment.nonce,
            attachment_aad(community, attachment),
            attachment.ciphertext,
        ) {
            Err(fault) => Err(fault),
            Ok(plaintext) => attachment_of(attachment.id, attachment.channel_id, plaintext),
        },
    }
}

/// Whether an encrypted attachment is what the author makes of an attachment with the nonce in it.
pub open spec fn seals_attachment(
    signing_seed: Seq<u8>,
    community: CommunityId,
    epoch: ContentEpoch,
    attachment: AttachmentModel,
    sealed: ContentModel,
) -> bool {
    &&& sealed.id == attachment.id
    &&& sealed.channel_id == attachment.channel_id
    &&& sealed.author@ == ed25519_public_key(signing_seed)
    &&& sealed.epoch == epoch.number
    &&& sealed.head == epoch.head@
    &&& sealed.ciphertext == xchacha_sealed(
        epoch.key@,
        sealed.nonce,
        attachment_aad(community, sealed),
        attachment_plaintext(attachment.name, attachment.bytes),
    )
    &&& box_opened(
        epoch.key@,
        sealed.nonce,
        attachment_aad(community, sealed),
        sealed.ciphertext,
    ) == Ok::<Seq<u8>, FaultModel>(attachment_plaintext(attachment.name, attachment.bytes))
    &&& sealed.ciphertext.len() == attachment_plaintext(attachment.name, attachment.bytes).len() + 16
    &&& sealed.signature == ed25519_signature(signing_seed, attachment_message(community, sealed))
}

/// An encrypted attachment.
#[derive(Debug)]
pub struct EncryptedAttachment {
    pub id: MessageId,
    pub channel_id: ChannelId,
    pub author: MemberId,
    pub epoch: u64,
    pub head: [u8; 32],
    pub nonce: [u8; 24],
    pub ciphertext: Vec<u8>,
    pub signature: [u8; 64],
}

impl View for EncryptedAttachment {
    type V = ContentModel;

    open spec fn view(&self) -> ContentModel {
        ContentModel {
            id: self.id,
            channel_id: self.channel_id,
            author: self.author,
            epoch: self.epoch,
            head: self.head@,
            nonce: self.nonce@,
            ciphertext: self.ciphertext@,
            signature: self.signature@,
        }
    }
}

impl Clone for EncryptedAttachment {
    fn clone(&self) -> (copy: Self)
        ensures
            copy@ == self@,
    {
        EncryptedAttachment {
            id: self.id,
            channel_id: self.channel_id,
            author: self.author,
            epoch: self.epoch,
            head: self.head,
            nonce: self.nonce,
            ciphertext: to_vec(self.ciphertext.as_slice()),
            signature: self.signature,
        }
    }
}

impl EncryptedAttachment {
    /// Encrypts and signs an attachment, with a nonce drawn at random.
    pub fn encrypt(
        signing_seed: &[u8; 32],
        community_id: CommunityId,
        epoch: ContentEpoch,
        attachment: &Attachment,
    ) -> (sealed: Self)
        ensures
            seals_attachment(signing_seed@, community_id, epoch, attachment@, sealed@),
    {
        EncryptedAttachment::encrypt_with(
            signing_seed,
            community_id,
            epoch,
            attachment,
            random_24(),
        )
    }

    /// Encrypts and signs an attachment with this nonce.
    pub fn encrypt_with(
        signing_seed: &[u8; 32],
        community_id: CommunityId,
        epoch: ContentEpoch,
        attachment: &Attachment,
        nonce: [u8; 24],
    ) -> (sealed: Self)
        ensures
            seals_attachment(signing_seed@, community_id, epoch, attachment@, sealed@),
            sealed.nonce == nonce,
    {
        let author: MemberId = member_of(signing_seed);
        let name: &[u8] = attachment.name().as_bytes();
        let mut plaintext: Vec<u8> = Vec::new();
        plaintext.push((name.len() / 256) as u8);
        plaintext.push((name.len() % 256) as u8);
        append(&mut plaintext, name);
        append(&mut plaintext, attachment.bytes());
        assert(plaintext@ =~= attachment_plaintext(attachment@.name, attachment@.bytes));
        let aad: Vec<u8> = content_bytes(
            "peer-community/attachment-aead/v1\0",
            community_id,
            epoch.number,
            &epoch.head,
            author,
            attachment.id(),
            attachment.channel_id(),
        );
        let ciphertext: Vec<u8> = seal_box(
            &epoch.key,
            &nonce,
            aad.as_slice(),
            plaintext.as_slice(),
        );
        let mut sealed: EncryptedAttachment = EncryptedAttachment {
            id: attachment.id(),
            channel_id: attachment.channel_id(),
            author,
            epoch: epoch.number,
            head: epoch.head,
            nonce,
            ciphertext,
            signature: [0u8; 64],
        };
        let bytes: Vec<u8> = sealed.signing_bytes(community_id);
        sealed.signature = ed25519_sign(signing_seed, bytes.as_slice());
        sealed
    }

    fn signing_bytes(&self, community_id: CommunityId) -> (bytes: Vec<u8>)
        ensures
            bytes@ == attachment_message(community_id, self@),
    {
        let mut bytes: Vec<u8> = content_bytes(
            "peer-community/attachment-sign/v1\0",
            community_id,
            self.epoch,
            &self.head,
            self.author,
            self.id,
            self.channel_id,
        );
        append(&mut bytes, self.nonce.as_slice());
        append(&mut bytes, blake3_hash(self.ciphertext.as_slice()).as_slice());
        bytes
    }

    /// Accepts an attachment that its author signed.
    pub fn verify(&self, community_id: CommunityId) -> (verdict: Result<(), Fault>)
        ensures
            match verdict {
                Ok(()) => encrypted_attachment_fault(community_id, self@) is None,
                Err(fault) => encrypted_attachment_fault(community_id, self@) == Some(fault@),
            },
    {
        let bytes: Vec<u8> = self.signing_bytes(community_id);
        check_signature(&self.author.0, bytes.as_slice(), &self.signature)
    }

    /// The attachment and its author, where the signature is the author's and the key opens it.
    pub fn decrypt(&self, community_id: CommunityId, key: &[u8; 32]) -> (authored: Result<
        AuthoredAttachment,
        Fault,
    >)
        ensures
            match authored {
                Ok(authored) => authored.author == self.author && attachment_found(
                    community_id,
                    self@,
                    key@,
                ) == Ok::<AttachmentModel, FaultModel>(authored.attachment@),
                Err(fault) => attachment_found(community_id, self@, key@) == Err::<
                    AttachmentModel,
                    FaultModel,
                >(fault@),
            },
    {
        match self.verify(community_id) {
            Ok(()) => {},
            Err(fault) => {
                return Err(fault);
            },
        }
        let aad: Vec<u8> = content_bytes(
            "peer-community/attachment-aead/v1\0",
            community_id,
            self.epoch,
            &self.head,
            self.author,
            self.id,
            self.channel_id,
        );
        let plaintext: Vec<u8> = match open_box(
            key,
            &self.nonce,
            aad.as_slice(),
            self.ciphertext.as_slice(),
        ) {
            Ok(plaintext) => plaintext,
            Err(fault) => {
                return Err(fault);
            },
        };
        match read_attachment(self.id, self.channel_id, plaintext.as_slice()) {
            Ok(attachment) => Ok(AuthoredAttachment::new(self.author, attachment)),
            Err(fault) => Err(fault),
        }
    }

    /// Whether two attachments agree in everything.
    pub fn same(&self, other: &EncryptedAttachment) -> (same: bool)
        ensures
            same == (self@ == other@),
    {
        self.id == other.id && self.channel_id == other.channel_id && self.author == other.author
            && self.epoch == other.epoch && crate::bytes::same_bytes(
            self.head.as_slice(),
            other.head.as_slice(),
        ) && crate::bytes::same_bytes(self.nonce.as_slice(), other.nonce.as_slice())
            && crate::bytes::same_bytes(self.ciphertext.as_slice(), other.ciphertext.as_slice())
            && crate::bytes::same_bytes(self.signature.as_slice(), other.signature.as_slice())
    }
}

/// The attachment in a plaintext.
pub fn read_attachment(id: MessageId, channel_id: ChannelId, plaintext: &[u8]) -> (attachment:
    Result<Attachment, Fault>)
    ensures
        match attachment {
            Ok(attachment) => attachment_of(id, channel_id, plaintext@) == Ok::<
                AttachmentModel,
                FaultModel,
            >(attachment@),
            Err(fault) => attachment_of(id, channel_id, plaintext@) == Err::<
                AttachmentModel,
                FaultModel,
            >(fault@),
        },
{
    if plaintext.len() < 2 {
        return Err(Fault::protocol("attachment plaintext is truncated"));
    }
    let end: usize = 2 + plaintext[0] as usize * 256 + plaintext[1] as usize;
    if end > plaintext.len() {
        return Err(Fault::protocol("attachment name is truncated"));
    }
    let encoded_name: Vec<u8> = bytes_between(plaintext, 2, end);
    let name: String = match text_of_utf8(encoded_name) {
        Ok(name) => name,
        Err(text) => {
            return Err(Fault::protocol(text.as_str()));
        },
    };
    let bytes: Vec<u8> = bytes_between(plaintext, end, plaintext.len());
    assert(bytes@ =~= plaintext@.skip(end as int));
    match Attachment::new(id, channel_id, name.as_str(), bytes) {
        Ok(attachment) => Ok(attachment),
        Err(error) => Err(error.fault()),
    }
}

/// What an author encrypts as an attachment, everyone with the content key reads: the same name
/// and the same file, where the signature that was made passes strict verification.
pub proof fn attachment_reads_back(
    signing_seed: Seq<u8>,
    community: CommunityId,
    epoch: ContentEpoch,
    attachment: AttachmentModel,
    sealed: ContentModel,
)
    requires
        attachment_objection(attachment.name, attachment.bytes) is None,
        seals_attachment(signing_seed, community, epoch, attachment, sealed),
        encrypted_attachment_fault(community, sealed) is None,
    ensures
        attachment_found(community, sealed, epoch.key@) == Ok::<AttachmentModel, FaultModel>(
            attachment,
        ),
{
    let name = encode_utf8(attachment.name);
    let plaintext = attachment_plaintext(attachment.name, attachment.bytes);
    encode_utf8_valid_utf8(attachment.name);
    encode_utf8_decode_utf8(attachment.name);
    assert(plaintext[0] == 0 && plaintext[1] == name.len());
    assert(plaintext.subrange(2, 2 + name.len() as int) =~= name);
    assert(plaintext.skip(2 + name.len() as int) =~= attachment.bytes);
}

/// The associated data of an encrypted voice frame.
pub open spec fn voice_aad(
    community: CommunityId,
    epoch: u64,
    head: Seq<u8>,
    author: MemberId,
    frame: VoiceFrameModel,
) -> Seq<u8> {
    encode_utf8("peer-community/voice-aead/v1\0"@) + community@ + be64(epoch) + head + author@
        + frame.stream_id@ + frame.channel_id@ + be64(frame.sequence)
}

fn voice_context(
    id: CommunityId,
    epoch: u64,
    head: &[u8; 32],
    author: MemberId,
    frame: &VoiceFrame,
) -> (bytes: Vec<u8>)
    ensures
        bytes@ == voice_aad(id, epoch, head@, author, frame@),
{
    let mut bytes: Vec<u8> = to_vec("peer-community/voice-aead/v1\0".as_bytes());
    append(&mut bytes, id.0.as_slice());
    append(&mut bytes, to_be64(epoch).as_slice());
    append(&mut bytes, head.as_slice());
    append(&mut bytes, author.0.as_slice());
    append(&mut bytes, frame.stream_id().0.as_slice());
    append(&mut bytes, frame.channel_id().0.as_slice());
    append(&mut bytes, to_be64(frame.sequence()).as_slice());
    bytes
}

/// Encrypts what a voice frame carries, with a nonce drawn at random.
pub fn encrypt_voice(
    id: CommunityId,
    epoch: ContentEpoch,
    author: MemberId,
    frame: &VoiceFrame,
) -> (
sealed: ([u8; 24], Vec<u8>))
    ensures
        sealed.1@ == xchacha_sealed(
            epoch.key@,
            sealed.0@,
            voice_aad(id, epoch.number, epoch.head@, author, frame@),
            frame@.payload,
        ),
        sealed.1@.len() == frame@.payload.len() + 16,
        box_opened(
            epoch.key@,
            sealed.0@,
            voice_aad(id, epoch.number, epoch.head@, author, frame@),
            sealed.1@,
        ) == Ok::<Seq<u8>, FaultModel>(frame@.payload),
{
    let nonce: [u8; 24] = random_24();
    let aad: Vec<u8> = voice_context(id, epoch.number, &epoch.head, author, frame);
    let payload: &[u8] = frame.payload();
    let ciphertext: Vec<u8> = seal_box(&epoch.key, &nonce, aad.as_slice(), payload);
    (nonce, ciphertext)
}

/// What a voice frame carries, where `frame` carries the ciphertext.
pub fn decrypt_voice(
    id: CommunityId,
    epoch: ContentEpoch,
    author: MemberId,
    frame: &VoiceFrame,
    nonce: &[u8; 24],
) -> (payload: Result<Vec<u8>, Fault>)
    ensures
        match payload {
            Ok(payload) => box_opened(
                epoch.key@,
                nonce@,
                voice_aad(id, epoch.number, epoch.head@, author, frame@),
                frame@.payload,
            ) == Ok::<Seq<u8>, FaultModel>(payload@),
            Err(fault) => box_opened(
                epoch.key@,
                nonce@,
                voice_aad(id, epoch.number, epoch.head@, author, frame@),
                frame@.payload,
            ) == Err::<Seq<u8>, FaultModel>(fault@),
        },
{
    let aad: Vec<u8> = voice_context(id, epoch.number, &epoch.head, author, frame);
    open_box(&epoch.key, nonce, aad.as_slice(), frame.payload())
}

/// What an encrypted statement about a voice channel is.
pub struct PresenceModel {
    pub epoch: u64,
    pub head: Seq<u8>,
    pub nonce: Seq<u8>,
    pub ciphertext: Seq<u8>,
}

/// The associated data of an encrypted statement about a voice channel. The author is the peer at
/// the other end of the connection.
pub open spec fn presence_aad(
    community: CommunityId,
    epoch: u64,
    head: Seq<u8>,
    author: MemberId,
) -> Seq<u8> {
    encode_utf8("peer-community/voice-presence/v1\0"@) + community@ + be64(epoch) + head + author@
}

/// What is encrypted of a statement about a voice channel.
pub open spec fn presence_payload(channel: ChannelId, state: VoicePresence) -> Seq<u8> {
    encoded(
        voice_presence_payload_fields(
            VoicePresencePayloadModel {
                channel_id: channel@,
                state: Some(
                    match state {
                        VoicePresence::Joined => PresenceState::Joined(true),
                        VoicePresence::Left => PresenceState::Left(true),
                        VoicePresence::Muted(muted) => PresenceState::Muted(muted),
                    },
                ),
            },
        ),
    )
}

/// The channel and the state in a plaintext, or what is wrong with it.
pub open spec fn presence_of(plaintext: Seq<u8>) -> Result<(Seq<u8>, VoicePresence), FaultModel> {
    match voice_presence_payload_in(plaintext) {
        None => Err(protocol_fault(decoding_text(Shape::VoicePresencePayload, plaintext))),
        Some(payload) => if payload.channel_id.len() != 32 {
            Err(protocol_fault("voice presence channel is not 32 bytes"@))
        } else {
            match payload.state {
                None => Err(protocol_fault("voice presence has no state"@)),
                Some(PresenceState::Joined(true)) => Ok((payload.channel_id, VoicePresence::Joined)),
                Some(PresenceState::Left(true)) => Ok((payload.channel_id, VoicePresence::Left)),
                Some(PresenceState::Muted(muted)) => Ok(
                    (payload.channel_id, VoicePresence::Muted(muted)),
                ),
                _ => Err(protocol_fault("voice presence state is invalid"@)),
            }
        },
    }
}

/// The channel and the state in an encrypted statement, or what is wrong with it.
pub open spec fn presence_found(
    community: CommunityId,
    author: MemberId,
    presence: PresenceModel,
    key: Seq<u8>,
) -> Result<(Seq<u8>, VoicePresence), FaultModel> {
    match box_opened(
        key,
        presence.nonce,
        presence_aad(community, presence.epoch, presence.head, author),
        presence.ciphertext,
    ) {
        Err(fault) => Err(fault),
        Ok(plaintext) => presence_of(plaintext),
    }
}

/// An encrypted statement about a voice channel.
#[derive(Debug)]
pub struct EncryptedVoicePresence {
    pub epoch: u64,
    pub head: [u8; 32],
    pub nonce: [u8; 24],
    pub ciphertext: Vec<u8>,
}

impl View for EncryptedVoicePresence {
    type V = PresenceModel;

    open spec fn view(&self) -> PresenceModel {
        PresenceModel {
            epoch: self.epoch,
            head: self.head@,
            nonce: self.nonce@,
            ciphertext: self.ciphertext@,
        }
    }
}

/// Whether an encrypted statement is what the author makes of a channel and a state with the nonce
/// in it.
pub open spec fn seals_presence(
    community: CommunityId,
    epoch: ContentEpoch,
    author: MemberId,
    channel: ChannelId,
    state: VoicePresence,
    sealed: PresenceModel,
) -> bool {
    let aad = presence_aad(community, epoch.number, epoch.head@, author);
    &&& sealed.epoch == epoch.number
    &&& sealed.head == epoch.head@
    &&& sealed.ciphertext == xchacha_sealed(
        epoch.key@,
        sealed.nonce,
        aad,
        presence_payload(channel, state),
    )
    &&& box_opened(epoch.key@, sealed.nonce, aad, sealed.ciphertext) == Ok::<Seq<u8>, FaultModel>(
        presence_payload(channel, state),
    )
}

fn presence_context(id: CommunityId, epoch: u64, head: &[u8; 32], author: MemberId) -> (bytes: Vec<
    u8,
>)
    ensures
        bytes@ == presence_aad(id, epoch, head@, author),
{
    let mut bytes: Vec<u8> = to_vec("peer-community/voice-presence/v1\0".as_bytes());
    append(&mut bytes, id.0.as_slice());
    append(&mut bytes, to_be64(epoch).as_slice());
    append(&mut bytes, head.as_slice());
    append(&mut bytes, author.0.as_slice());
    bytes
}

/// The channel and the state in a plaintext.
pub fn read_presence(plaintext: &[u8]) -> (found: Result<(ChannelId, VoicePresence), Fault>)
    ensures
        match found {
            Ok(pair) => presence_of(plaintext@) == Ok::<(Seq<u8>, VoicePresence), FaultModel>(
                (pair.0@, pair.1),
            ),
            Err(fault) => presence_of(plaintext@) == Err::<(Seq<u8>, VoicePresence), FaultModel>(
                fault@,
            ),
        },
{
    let payload: VoicePresencePayload = match VoicePresencePayload::decode(plaintext) {
        Some(payload) => payload,
        None => {
            return Err(
                Fault::protocol(explain(Shape::VoicePresencePayload, plaintext).as_str()),
            );
        },
    };
    let channel: ChannelId = match to_array::<32>(payload.channel_id.as_slice()) {
        Some(bytes) => ChannelId(bytes),
        None => {
            return Err(Fault::protocol("voice presence channel is not 32 bytes"));
        },
    };
    match payload.state {
        None => Err(Fault::protocol("voice presence has no state")),
        Some(PresenceState::Joined(true)) => Ok((channel, VoicePresence::Joined)),
        Some(PresenceState::Left(true)) => Ok((channel, VoicePresence::Left)),
        Some(PresenceState::Muted(muted)) => Ok((channel, VoicePresence::Muted(muted))),
        _ => Err(Fault::protocol("voice presence state is invalid")),
    }
}

impl EncryptedVoicePresence {
    /// Encrypts a statement about a voice channel, with a nonce drawn at random.
    pub fn encrypt(
        id: CommunityId,
        epoch: ContentEpoch,
        author: MemberId,
        channel: ChannelId,
        state: VoicePresence,
    ) -> (sealed: Self)
        ensures
            seals_presence(id, epoch, author, channel, state, sealed@),
    {
        let payload: VoicePresencePayload = VoicePresencePayload {
            channel_id: to_vec(channel.0.as_slice()),
            state: Some(
                match state {
                    VoicePresence::Joined => PresenceState::Joined(true),
                    VoicePresence::Left => PresenceState::Left(true),
                    VoicePresence::Muted(muted) => PresenceState::Muted(muted),
                },
            ),
        };
        let plaintext: Vec<u8> = payload.encode();
        let nonce: [u8; 24] = random_24();
        let aad: Vec<u8> = presence_context(id, epoch.number, &epoch.head, author);
        proof {
            presence_payload_is_short(channel, state);
        }
        let ciphertext: Vec<u8> = seal_box(
            &epoch.key,
            &nonce,
            aad.as_slice(),
            plaintext.as_slice(),
        );
        EncryptedVoicePresence { epoch: epoch.number, head: epoch.head, nonce, ciphertext }
    }

    /// The channel and the state, where the key opens the statement as `author`'s.
    pub fn decrypt(&self, id: CommunityId, author: MemberId, key: &[u8; 32]) -> (found: Result<
        (ChannelId, VoicePresence),
        Fault,
    >)
        ensures
            match found {
                Ok(pair) => presence_found(id, author, self@, key@) == Ok::<
                    (Seq<u8>, VoicePresence),
                    FaultModel,
                >((pair.0@, pair.1)),
                Err(fault) => presence_found(id, author, self@, key@) == Err::<
                    (Seq<u8>, VoicePresence),
                    FaultModel,
                >(fault@),
            },
    {
        let aad: Vec<u8> = presence_context(id, self.epoch, &self.head, author);
        match open_box(key, &self.nonce, aad.as_slice(), self.ciphertext.as_slice()) {
            Ok(plaintext) => read_presence(plaintext.as_slice()),
            Err(fault) => Err(fault),
        }
    }
}

proof fn presence_payload_is_short(channel: ChannelId, state: VoicePresence)
    ensures
        presence_payload(channel, state).len() <= 64,
{
    let named = crate::wire::put_bytes(Seq::<crate::wire::FieldModel>::empty(), 1, channel@);
    let message = VoicePresencePayloadModel {
        channel_id: channel@,
        state: Some(
            match state {
                VoicePresence::Joined => PresenceState::Joined(true),
                VoicePresence::Left => PresenceState::Left(true),
                VoicePresence::Muted(muted) => PresenceState::Muted(muted),
            },
        ),
    };
    let fields = voice_presence_payload_fields(message);
    assert(fields.drop_last() =~= named);
    assert(named.drop_last() =~= Seq::<crate::wire::FieldModel>::empty());
    assert(encoded(named.drop_last()).len() == 0);
    assert(named.last() == (crate::wire::FieldModel::Bytes { tag: 1, bytes: channel@ }));
    assert(crate::wire::field_bytes(named.last()).len() == 34);
    assert(fields.last() == crate::wire::state_field(message.state->0));
    assert(crate::wire::field_bytes(fields.last()).len() == 2);
    assert(encoded(named).len() == 34);
}

/// What a member says about a voice channel, every participant reads: the same channel and the
/// same state.
pub proof fn presence_reads_back(
    community: CommunityId,
    epoch: ContentEpoch,
    author: MemberId,
    channel: ChannelId,
    state: VoicePresence,
    sealed: PresenceModel,
)
    requires
        seals_presence(community, epoch, author, channel, state, sealed),
    ensures
        presence_found(community, author, sealed, epoch.key@) == Ok::<
            (Seq<u8>, VoicePresence),
            FaultModel,
        >((channel@, state)),
{
    voice_presence_payload_reads_back(
        VoicePresencePayloadModel {
            channel_id: channel@,
            state: Some(
                match state {
                    VoicePresence::Joined => PresenceState::Joined(true),
                    VoicePresence::Left => PresenceState::Left(true),
                    VoicePresence::Muted(muted) => PresenceState::Muted(muted),
                },
            ),
        },
    );
}

/// What an author signs for an encrypted attachment tells the community, everything about the
/// attachment and the digest of its ciphertext apart.
pub proof fn attachment_message_binds(
    community: CommunityId,
    a: ContentModel,
    other_community: CommunityId,
    b: ContentModel,
)
    requires
        a.head.len() == 32,
        b.head.len() == 32,
        a.nonce.len() == 24,
        b.nonce.len() == 24,
        attachment_message(community, a) == attachment_message(other_community, b),
    ensures
        community == other_community,
        a.epoch == b.epoch,
        a.head == b.head,
        a.author == b.author,
        a.id == b.id,
        a.channel_id == b.channel_id,
        a.nonce == b.nonce,
        blake3_digest(a.ciphertext) == blake3_digest(b.ciphertext),
{
    let n = encode_utf8("peer-community/attachment-sign/v1\0"@).len() as int;
    let (x, y) = (attachment_message(community, a), attachment_message(other_community, b));
    assert(x.subrange(n, n + 32) =~= community@);
    assert(y.subrange(n, n + 32) =~= other_community@);
    assert(community.0 =~= other_community.0);
    assert(x.subrange(n + 32, n + 40) =~= be64(a.epoch));
    assert(y.subrange(n + 32, n + 40) =~= be64(b.epoch));
    be64_injective(a.epoch, b.epoch);
    assert(x.subrange(n + 40, n + 72) =~= a.head);
    assert(y.subrange(n + 40, n + 72) =~= b.head);
    assert(x.subrange(n + 72, n + 104) =~= a.author@);
    assert(y.subrange(n + 72, n + 104) =~= b.author@);
    assert(a.author.0 =~= b.author.0);
    assert(x.subrange(n + 104, n + 136) =~= a.id@);
    assert(y.subrange(n + 104, n + 136) =~= b.id@);
    assert(a.id.0 =~= b.id.0);
    assert(x.subrange(n + 136, n + 168) =~= a.channel_id@);
    assert(y.subrange(n + 136, n + 168) =~= b.channel_id@);
    assert(a.channel_id.0 =~= b.channel_id.0);
    assert(x.subrange(n + 168, n + 192) =~= a.nonce);
    assert(y.subrange(n + 168, n + 192) =~= b.nonce);
    assert(x.subrange(n + 192, x.len() as int) =~= blake3_digest(a.ciphertext));
    assert(y.subrange(n + 192, y.len() as int) =~= blake3_digest(b.ciphertext));
}

/// What the ciphertext of a text is bound to tells the community, the epoch, the membership, the author, the
/// name and the channel apart.
pub proof fn text_aad_binds(
    community: CommunityId,
    a: ContentModel,
    other_community: CommunityId,
    b: ContentModel,
)
    requires
        a.head.len() == 32,
        b.head.len() == 32,
        text_aad(community, a) == text_aad(other_community, b),
    ensures
        community == other_community,
        a.epoch == b.epoch,
        a.head == b.head,
        a.author == b.author,
        a.id == b.id,
        a.channel_id == b.channel_id,
{
    let n = encode_utf8("peer-community/text-aead/v1\0"@).len() as int;
    let (x, y) = (text_aad(community, a), text_aad(other_community, b));
    assert(x.subrange(n, n + 32) =~= community@);
    assert(y.subrange(n, n + 32) =~= other_community@);
    assert(community.0 =~= other_community.0);
    assert(x.subrange(n + 32, n + 40) =~= be64(a.epoch));
    assert(y.subrange(n + 32, n + 40) =~= be64(b.epoch));
    be64_injective(a.epoch, b.epoch);
    assert(x.subrange(n + 40, n + 72) =~= a.head);
    assert(y.subrange(n + 40, n + 72) =~= b.head);
    assert(x.subrange(n + 72, n + 104) =~= a.author@);
    assert(y.subrange(n + 72, n + 104) =~= b.author@);
    assert(a.author.0 =~= b.author.0);
    assert(x.subrange(n + 104, n + 136) =~= a.id@);
    assert(y.subrange(n + 104, n + 136) =~= b.id@);
    assert(a.id.0 =~= b.id.0);
    assert(x.subrange(n + 136, n + 168) =~= a.channel_id@);
    assert(y.subrange(n + 136, n + 168) =~= b.channel_id@);
    assert(a.channel_id.0 =~= b.channel_id.0);
}

/// What the ciphertext of an attachment is bound to tells the community, the epoch, the membership, the author, the
/// name and the channel apart.
pub proof fn attachment_aad_binds(
    community: CommunityId,
    a: ContentModel,
    other_community: CommunityId,
    b: ContentModel,
)
    requires
        a.head.len() == 32,
        b.head.len() == 32,
        attachment_aad(community, a) == attachment_aad(other_community, b),
    ensures
        community == other_community,
        a.epoch == b.epoch,
        a.head == b.head,
        a.author == b.author,
        a.id == b.id,
        a.channel_id == b.channel_id,
{
    let n = encode_utf8("peer-community/attachment-aead/v1\0"@).len() as int;
    let (x, y) = (attachment_aad(community, a), attachment_aad(other_community, b));
    assert(x.subrange(n, n + 32) =~= community@);
    assert(y.subrange(n, n + 32) =~= other_community@);
    assert(community.0 =~= other_community.0);
    assert(x.subrange(n + 32, n + 40) =~= be64(a.epoch));
    assert(y.subrange(n + 32, n + 40) =~= be64(b.epoch));
    be64_injective(a.epoch, b.epoch);
    assert(x.subrange(n + 40, n + 72) =~= a.head);
    assert(y.subrange(n + 40, n + 72) =~= b.head);
    assert(x.subrange(n + 72, n + 104) =~= a.author@);
    assert(y.subrange(n + 72, n + 104) =~= b.author@);
    assert(a.author.0 =~= b.author.0);
    assert(x.subrange(n + 104, n + 136) =~= a.id@);
    assert(y.subrange(n + 104, n + 136) =~= b.id@);
    assert(a.id.0 =~= b.id.0);
    assert(x.subrange(n + 136, n + 168) =~= a.channel_id@);
    assert(y.subrange(n + 136, n + 168) =~= b.channel_id@);
    assert(a.channel_id.0 =~= b.channel_id.0);
}

/// What the ciphertext of a display name is bound to tells the community, the member, the revision,
/// the epoch and the membership apart.
pub proof fn profile_aad_binds(
    community: CommunityId,
    a: ProfileModel,
    other_community: CommunityId,
    b: ProfileModel,
)
    requires
        a.head.len() == 32,
        b.head.len() == 32,
        profile_aad(community, a) == profile_aad(other_community, b),
    ensures
        community == other_community,
        a.member == b.member,
        a.revision == b.revision,
        a.epoch == b.epoch,
        a.head == b.head,
{
    let n = encode_utf8("peer-community/member-profile-aead/v1\0"@).len() as int;
    let (x, y) = (profile_aad(community, a), profile_aad(other_community, b));
    assert(x.subrange(n, n + 32) =~= community@);
    assert(y.subrange(n, n + 32) =~= other_community@);
    assert(community.0 =~= other_community.0);
    assert(x.subrange(n + 32, n + 64) =~= a.member@);
    assert(y.subrange(n + 32, n + 64) =~= b.member@);
    assert(a.member.0 =~= b.member.0);
    assert(x.subrange(n + 64, n + 72) =~= be64(a.revision));
    assert(y.subrange(n + 64, n + 72) =~= be64(b.revision));
    be64_injective(a.revision, b.revision);
    assert(x.subrange(n + 72, n + 80) =~= be64(a.epoch));
    assert(y.subrange(n + 72, n + 80) =~= be64(b.epoch));
    be64_injective(a.epoch, b.epoch);
    assert(x.subrange(n + 80, n + 112) =~= a.head);
    assert(y.subrange(n + 80, n + 112) =~= b.head);
}

/// What a member signs for a display name tells the community and everything but the signature
/// apart.
pub proof fn profile_message_binds(
    community: CommunityId,
    a: ProfileModel,
    other_community: CommunityId,
    b: ProfileModel,
)
    requires
        a.head.len() == 32,
        b.head.len() == 32,
        a.nonce.len() == 24,
        b.nonce.len() == 24,
        profile_message(community, a) == profile_message(other_community, b),
    ensures
        community == other_community,
        a == (ProfileModel { signature: a.signature, ..b }),
{
    let n = encode_utf8("peer-community/member-profile-aead/v1\0"@).len() as int;
    let (x, y) = (profile_message(community, a), profile_message(other_community, b));
    assert(x.subrange(n, n + 32) =~= community@);
    assert(y.subrange(n, n + 32) =~= other_community@);
    assert(community.0 =~= other_community.0);
    assert(x.subrange(n + 32, n + 64) =~= a.member@);
    assert(y.subrange(n + 32, n + 64) =~= b.member@);
    assert(a.member.0 =~= b.member.0);
    assert(x.subrange(n + 64, n + 72) =~= be64(a.revision));
    assert(y.subrange(n + 64, n + 72) =~= be64(b.revision));
    be64_injective(a.revision, b.revision);
    assert(x.subrange(n + 72, n + 80) =~= be64(a.epoch));
    assert(y.subrange(n + 72, n + 80) =~= be64(b.epoch));
    be64_injective(a.epoch, b.epoch);
    assert(x.subrange(n + 80, n + 112) =~= a.head);
    assert(y.subrange(n + 80, n + 112) =~= b.head);
    assert(x.subrange(n + 112, n + 136) =~= a.nonce);
    assert(y.subrange(n + 112, n + 136) =~= b.nonce);
    assert(x.subrange(n + 144, x.len() as int) =~= a.ciphertext);
    assert(y.subrange(n + 144, y.len() as int) =~= b.ciphertext);
}

/// What a member signs for its encryption key tells the community, the member and the key apart.
pub proof fn registration_message_binds(
    community: CommunityId,
    member: MemberId,
    key: Seq<u8>,
    other_community: CommunityId,
    other: MemberId,
    other_key: Seq<u8>,
)
    requires
        registration_message(community, member, key) == registration_message(
            other_community,
            other,
            other_key,
        ),
    ensures
        community == other_community,
        member == other,
        key == other_key,
{
    let n = encode_utf8("peer-community/key-registration/v1\0"@).len() as int;
    let (x, y) = (registration_message(community, member, key), registration_message(other_community, other, other_key));
    assert(x.subrange(n, n + 32) =~= community@);
    assert(y.subrange(n, n + 32) =~= other_community@);
    assert(community.0 =~= other_community.0);
    assert(x.subrange(n + 32, n + 64) =~= member@);
    assert(y.subrange(n + 32, n + 64) =~= other@);
    assert(member.0 =~= other.0);
    assert(x.subrange(n + 64, x.len() as int) =~= key);
    assert(y.subrange(n + 64, y.len() as int) =~= other_key);
}

/// What the owner signs for an envelope tells the community and everything but the signature apart.
pub proof fn envelope_message_binds(
    community: CommunityId,
    a: EnvelopeModel,
    other_community: CommunityId,
    b: EnvelopeModel,
)
    requires
        a.head.len() == 32,
        b.head.len() == 32,
        a.encapsulated_key.len() == 32,
        b.encapsulated_key.len() == 32,
        envelope_message(community, a) == envelope_message(other_community, b),
    ensures
        community == other_community,
        a == (EnvelopeModel { signature: a.signature, ..b }),
{
    let n = encode_utf8("peer-community/content-key-envelope/v1\0"@).len() as int;
    let (x, y) = (envelope_message(community, a), envelope_message(other_community, b));
    assert(x.subrange(n, n + 32) =~= community@);
    assert(y.subrange(n, n + 32) =~= other_community@);
    assert(community.0 =~= other_community.0);
    assert(x.subrange(n + 32, n + 40) =~= be64(a.epoch));
    assert(y.subrange(n + 32, n + 40) =~= be64(b.epoch));
    be64_injective(a.epoch, b.epoch);
    assert(x.subrange(n + 40, n + 72) =~= a.head);
    assert(y.subrange(n + 40, n + 72) =~= b.head);
    assert(x.subrange(n + 72, n + 104) =~= a.recipient@);
    assert(y.subrange(n + 72, n + 104) =~= b.recipient@);
    assert(a.recipient.0 =~= b.recipient.0);
    assert(x.subrange(n + 104, n + 136) =~= a.encapsulated_key);
    assert(y.subrange(n + 104, n + 136) =~= b.encapsulated_key);
    assert(x.subrange(n + 144, x.len() as int) =~= a.ciphertext);
    assert(y.subrange(n + 144, y.len() as int) =~= b.ciphertext);
}

/// What the key in an envelope is sealed to tells the community, the epoch, the membership and the
/// recipient apart.
pub proof fn envelope_context_binds(
    community: CommunityId,
    a: EnvelopeModel,
    other_community: CommunityId,
    b: EnvelopeModel,
)
    requires
        a.head.len() == 32,
        b.head.len() == 32,
        envelope_context(community, a.epoch, a.head, a.recipient) == envelope_context(
            other_community,
            b.epoch,
            b.head,
            b.recipient,
        ),
    ensures
        community == other_community,
        a.epoch == b.epoch,
        a.head == b.head,
        a.recipient == b.recipient,
{
    let n = encode_utf8("peer-community/content-key-envelope/v1\0"@).len() as int;
    let (x, y) = (envelope_context(community, a.epoch, a.head, a.recipient), envelope_context(other_community, b.epoch, b.head, b.recipient));
    assert(x.subrange(n, n + 32) =~= community@);
    assert(y.subrange(n, n + 32) =~= other_community@);
    assert(community.0 =~= other_community.0);
    assert(x.subrange(n + 32, n + 40) =~= be64(a.epoch));
    assert(y.subrange(n + 32, n + 40) =~= be64(b.epoch));
    be64_injective(a.epoch, b.epoch);
    assert(x.subrange(n + 40, n + 72) =~= a.head);
    assert(y.subrange(n + 40, n + 72) =~= b.head);
    assert(x.subrange(n + 72, n + 104) =~= a.recipient@);
    assert(y.subrange(n + 72, n + 104) =~= b.recipient@);
    assert(a.recipient.0 =~= b.recipient.0);
}

/// What a frame is bound to tells the community, the epoch, the membership, the speaker, the stream,
/// the channel and the number of the frame apart.
pub proof fn voice_aad_binds(
    community: CommunityId,
    epoch: u64,
    head: Seq<u8>,
    author: MemberId,
    a: VoiceFrameModel,
    other_community: CommunityId,
    other_epoch: u64,
    other_head: Seq<u8>,
    other: MemberId,
    b: VoiceFrameModel,
)
    requires
        head.len() == 32,
        other_head.len() == 32,
        voice_aad(community, epoch, head, author, a) == voice_aad(
            other_community,
            other_epoch,
            other_head,
            other,
            b,
        ),
    ensures
        community == other_community,
        epoch == other_epoch,
        head == other_head,
        author == other,
        a.stream_id == b.stream_id,
        a.channel_id == b.channel_id,
        a.sequence == b.sequence,
{
    let n = encode_utf8("peer-community/voice-aead/v1\0"@).len() as int;
    let (x, y) = (voice_aad(community, epoch, head, author, a), voice_aad(other_community, other_epoch, other_head, other, b));
    assert(x.subrange(n, n + 32) =~= community@);
    assert(y.subrange(n, n + 32) =~= other_community@);
    assert(community.0 =~= other_community.0);
    assert(x.subrange(n + 32, n + 40) =~= be64(epoch));
    assert(y.subrange(n + 32, n + 40) =~= be64(other_epoch));
    be64_injective(epoch, other_epoch);
    assert(x.subrange(n + 40, n + 72) =~= head);
    assert(y.subrange(n + 40, n + 72) =~= other_head);
    assert(x.subrange(n + 72, n + 104) =~= author@);
    assert(y.subrange(n + 72, n + 104) =~= other@);
    assert(author.0 =~= other.0);
    assert(x.subrange(n + 104, n + 120) =~= a.stream_id@);
    assert(y.subrange(n + 104, n + 120) =~= b.stream_id@);
    assert(a.stream_id.0 =~= b.stream_id.0);
    assert(x.subrange(n + 120, n + 152) =~= a.channel_id@);
    assert(y.subrange(n + 120, n + 152) =~= b.channel_id@);
    assert(a.channel_id.0 =~= b.channel_id.0);
    assert(x.subrange(n + 152, n + 160) =~= be64(a.sequence));
    assert(y.subrange(n + 152, n + 160) =~= be64(b.sequence));
    be64_injective(a.sequence, b.sequence);
}

/// What a statement about a voice channel is bound to tells the community, the epoch, the membership
/// and the author apart.
pub proof fn presence_aad_binds(
    community: CommunityId,
    epoch: u64,
    head: Seq<u8>,
    author: MemberId,
    other_community: CommunityId,
    other_epoch: u64,
    other_head: Seq<u8>,
    other: MemberId,
)
    requires
        head.len() == 32,
        other_head.len() == 32,
        presence_aad(community, epoch, head, author) == presence_aad(
            other_community,
            other_epoch,
            other_head,
            other,
        ),
    ensures
        community == other_community,
        epoch == other_epoch,
        head == other_head,
        author == other,
{
    let n = encode_utf8("peer-community/voice-presence/v1\0"@).len() as int;
    let (x, y) = (presence_aad(community, epoch, head, author), presence_aad(other_community, other_epoch, other_head, other));
    assert(x.subrange(n, n + 32) =~= community@);
    assert(y.subrange(n, n + 32) =~= other_community@);
    assert(community.0 =~= other_community.0);
    assert(x.subrange(n + 32, n + 40) =~= be64(epoch));
    assert(y.subrange(n + 32, n + 40) =~= be64(other_epoch));
    be64_injective(epoch, other_epoch);
    assert(x.subrange(n + 40, n + 72) =~= head);
    assert(y.subrange(n + 40, n + 72) =~= other_head);
    assert(x.subrange(n + 72, n + 104) =~= author@);
    assert(y.subrange(n + 72, n + 104) =~= other@);
    assert(author.0 =~= other.0);
}

proof fn label_byte(label: Seq<char>, i: int)
    requires
        is_ascii_chars(label),
        0 <= i < label.len(),
    ensures
        encode_utf8(label).len() == label.len(),
        encode_utf8(label)[i] == label[i] as u8,
{
    is_ascii_chars_encode_utf8(label);
}

/// What is signed for one purpose is signed for no other: no text passes as an attachment, a display
/// name or a registration, nor any of these as another.
pub proof fn signatures_serve_one_purpose(
    community: CommunityId,
    text: ContentModel,
    attachment: ContentModel,
    profile: ProfileModel,
    member: MemberId,
    key: Seq<u8>,
)
    ensures
        encrypted_text_message(community, text) != attachment_message(community, attachment),
        encrypted_text_message(community, text) != profile_message(community, profile),
        encrypted_text_message(community, text) != registration_message(community, member, key),
        attachment_message(community, attachment) != profile_message(community, profile),
        attachment_message(community, attachment) != registration_message(community, member, key),
        profile_message(community, profile) != registration_message(community, member, key),
{
    reveal_strlit("peer-community/text-sign/v1\0");
    reveal_strlit("peer-community/attachment-sign/v1\0");
    reveal_strlit("peer-community/member-profile-aead/v1\0");
    reveal_strlit("peer-community/key-registration/v1\0");
    label_byte("peer-community/text-sign/v1\0"@, 15);
    label_byte("peer-community/attachment-sign/v1\0"@, 15);
    label_byte("peer-community/member-profile-aead/v1\0"@, 15);
    label_byte("peer-community/key-registration/v1\0"@, 15);
    assert(encrypted_text_message(community, text)[15] == 't' as u8);
    assert(attachment_message(community, attachment)[15] == 'a' as u8);
    assert(profile_message(community, profile)[15] == 'm' as u8);
    assert(registration_message(community, member, key)[15] == 'k' as u8);
}

/// What is encrypted for one purpose opens for no other: the contexts of texts, attachments, display
/// names, frames and statements are all different.
pub proof fn ciphertexts_serve_one_purpose(
    community: CommunityId,
    text: ContentModel,
    attachment: ContentModel,
    profile: ProfileModel,
    epoch: u64,
    head: Seq<u8>,
    author: MemberId,
    frame: VoiceFrameModel,
)
    requires
        head.len() == 32,
    ensures
        ({
            let list = seq![
                text_aad(community, text),
                attachment_aad(community, attachment),
                profile_aad(community, profile),
                voice_aad(community, epoch, head, author, frame),
                presence_aad(community, epoch, head, author),
            ];
            forall|i: int, j: int|
                0 <= i < j < list.len() ==> #[trigger] list[i] != #[trigger] list[j]
        }),
{
    reveal_strlit("peer-community/text-aead/v1\0");
    reveal_strlit("peer-community/attachment-aead/v1\0");
    reveal_strlit("peer-community/member-profile-aead/v1\0");
    reveal_strlit("peer-community/voice-aead/v1\0");
    reveal_strlit("peer-community/voice-presence/v1\0");
    label_byte("peer-community/text-aead/v1\0"@, 15);
    label_byte("peer-community/attachment-aead/v1\0"@, 15);
    label_byte("peer-community/member-profile-aead/v1\0"@, 15);
    label_byte("peer-community/voice-aead/v1\0"@, 15);
    label_byte("peer-community/voice-presence/v1\0"@, 15);
    label_byte("peer-community/voice-aead/v1\0"@, 21);
    label_byte("peer-community/voice-presence/v1\0"@, 21);
    assert(text_aad(community, text)[15] == 't' as u8);
    assert(attachment_aad(community, attachment)[15] == 'a' as u8);
    assert(profile_aad(community, profile)[15] == 'm' as u8);
    assert(voice_aad(community, epoch, head, author, frame)[15] == 'v' as u8);
    assert(presence_aad(community, epoch, head, author)[15] == 'v' as u8);
    assert(voice_aad(community, epoch, head, author, frame)[21] == 'a' as u8);
    assert(presence_aad(community, epoch, head, author)[21] == 'p' as u8);
}

} // verus!
