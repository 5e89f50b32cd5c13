//! The cryptographic functions that the library calls, each behind a contract.
//!
//! Signatures, digests, ciphers and key derivation are functions of their arguments: each result
//! has a name, and the contracts of the library speak of these names.

use vstd::prelude::*;

use argon2::{Algorithm, Argon2, Params, Version};
use chacha20poly1305::aead::{Aead, KeyInit, Payload};
use chacha20poly1305::XChaCha20Poly1305;
use ed25519_dalek::{Signature, Signer, SigningKey, VerifyingKey};
use hpke::aead::ChaCha20Poly1305;
use hpke::kdf::HkdfSha256;
use hpke::kem::X25519HkdfSha256;
use hpke::{Deserializable, Kem, OpModeR, OpModeS, Serializable};
use rand::rngs::StdRng;
use rand::SeedableRng;
use zeroize::Zeroize;

verus! {

/// The public key of the Ed25519 signing key with this seed.
pub uninterp spec fn ed25519_public_key(seed: Seq<u8>) -> Seq<u8>;

/// The Ed25519 signature that the signing key with this seed makes of a message.
pub uninterp spec fn ed25519_signature(seed: Seq<u8>, message: Seq<u8>) -> Seq<u8>;

/// What strict verification of an Ed25519 signature has against it; `None` where it holds.
pub uninterp spec fn ed25519_objection(
    key: Seq<u8>,
    message: Seq<u8>,
    signature: Seq<u8>,
) -> Option<Seq<char>>;

/// The BLAKE3 digest of a byte string.
pub uninterp spec fn blake3_digest(input: Seq<u8>) -> Seq<u8>;

/// What XChaCha20-Poly1305 makes of a message.
pub uninterp spec fn xchacha_sealed(
    key: Seq<u8>,
    nonce: Seq<u8>,
    aad: Seq<u8>,
    message: Seq<u8>,
) -> Seq<u8>;

/// The message that XChaCha20-Poly1305 finds in a ciphertext; `None` where it is not authentic.
pub uninterp spec fn xchacha_opened(
    key: Seq<u8>,
    nonce: Seq<u8>,
    aad: Seq<u8>,
    ciphertext: Seq<u8>,
) -> Option<Seq<u8>>;

/// The X25519 public key of the HPKE key pair that is derived from this seed.
pub uninterp spec fn hpke_public_key(seed: Seq<u8>) -> Seq<u8>;

/// What keeps keys from being sealed for an X25519 public key: the text of the error; `None` where
/// they can be sealed.
pub uninterp spec fn hpke_key_objection(public_key: Seq<u8>) -> Option<Seq<char>>;

/// What the holder of the seed's HPKE key pair finds in a ciphertext, or the error's text.
pub uninterp spec fn hpke_opened(
    seed: Seq<u8>,
    encapsulated_key: Seq<u8>,
    info: Seq<u8>,
    ciphertext: Seq<u8>,
) -> Result<Seq<u8>, Seq<char>>;

/// The 32 bytes that Argon2id (version 0x13) derives, or the error's text.
pub uninterp spec fn argon2id_output(
    password: Seq<u8>,
    salt: Seq<u8>,
    memory: u32,
    passes: u32,
    lanes: u32,
) -> Result<Seq<u8>, Seq<char>>;

/// What a fallible function on bytes returned.
pub open spec fn bytes_or_text(result: Result<Vec<u8>, String>) -> Result<Seq<u8>, Seq<char>> {
    match result {
        Ok(bytes) => Ok(bytes@),
        Err(text) => Err(text@),
    }
}

/// What a fallible function that makes a key returned.
pub open spec fn key_or_text(result: Result<[u8; 32], String>) -> Result<Seq<u8>, Seq<char>> {
    match result {
        Ok(bytes) => Ok(bytes@),
        Err(text) => Err(text@),
    }
}

/// Whether every seed of `public_key` opens the ciphertext to `plaintext`.
pub open spec fn opens_for_recipient(
    public_key: Seq<u8>,
    info: Seq<u8>,
    plaintext: Seq<u8>,
    encapsulated_key: Seq<u8>,
    ciphertext: Seq<u8>,
) -> bool {
    forall|seed: Seq<u8>|
        seed.len() == 32 && #[trigger] hpke_public_key(seed) == public_key ==> hpke_opened(
            seed,
            encapsulated_key,
            info,
            ciphertext,
        ) == Ok::<Seq<u8>, Seq<char>>(plaintext)
}

/// The longest message that the cipher takes: its 32-bit block counter covers no more.
pub const MAX_CIPHER_BYTES: u64 = 0x3f_ffff_ff80;

/// `SigningKey::from_bytes` and `verifying_key` of ed25519-dalek: the public key is a function of
/// the seed.
#[verifier::external_body]
pub(crate) fn ed25519_public(seed: &[u8; 32]) -> (key: [u8; 32])
    ensures
        key@ == ed25519_public_key(seed@),
{
    SigningKey::from_bytes(seed).verifying_key().to_bytes()
}

/// `SigningKey::sign` of ed25519-dalek: signatures are deterministic, a function of the seed and
/// the message. That strict verification accepts them is left unsaid: it rejects a signature
/// whose point `R` has small order, and nothing in `sign` rules that out.
#[verifier::external_body]
pub(crate) fn ed25519_sign(seed: &[u8; 32], message: &[u8]) -> (signature: [u8; 64])
    ensures
        signature@ == ed25519_signature(seed@, message@),
{
    SigningKey::from_bytes(seed).sign(message).to_bytes()
}

/// `VerifyingKey::from_bytes` and `verify_strict` of ed25519-dalek: whether the signature holds,
/// and the text of the error where it does not, are functions of the arguments.
#[verifier::external_body]
pub(crate) fn ed25519_verify(key: &[u8; 32], message: &[u8], signature: &[u8; 64]) -> (verdict:
    Result<(), String>)
    ensures
        match verdict {
            Ok(()) => ed25519_objection(key@, message@, signature@) is None,
            Err(text) => ed25519_objection(key@, message@, signature@) == Some(text@),
        },
{
    VerifyingKey::from_bytes(key)
        .and_then(|key| key.verify_strict(message, &Signature::from_bytes(signature)))
        .map_err(|error| error.to_string())
}

/// `blake3::hash`: the digest is a function of the input.
#[verifier::external_body]
pub(crate) fn blake3_hash(input: &[u8]) -> (digest: [u8; 32])
    ensures
        digest@ == blake3_digest(input@),
{
    *blake3::hash(input).as_bytes()
}

/// `Aead::encrypt` of `XChaCha20Poly1305`: the ciphertext is a function of the arguments, 16
/// bytes longer than the message, and decryption under the same key, nonce and associated data
/// gives the message back. Encryption fails on messages beyond the cipher's block counter alone,
/// which the bound on the message leaves out.
#[verifier::external_body]
pub(crate) fn xchacha_encrypt(key: &[u8; 32], nonce: &[u8; 24], aad: &[u8], message: &[u8]) -> (
sealed: Option<Vec<u8>>)
    requires
        message@.len() <= MAX_CIPHER_BYTES,
    ensures
        sealed is Some,
        sealed->0@ == xchacha_sealed(key@, nonce@, aad@, message@),
        sealed->0@.len() == message@.len() + 16,
        xchacha_opened(key@, nonce@, aad@, sealed->0@) == Some(message@),
{
    XChaCha20Poly1305::new(key.into()).encrypt(nonce.into(), Payload { msg: message, aad }).ok()
}

/// `Aead::decrypt` of `XChaCha20Poly1305`: what it returns is a function of the arguments, and a
/// message is 16 bytes shorter than its ciphertext. Its error carries nothing.
#[verifier::external_body]
pub(crate) fn xchacha_decrypt(key: &[u8; 32], nonce: &[u8; 24], aad: &[u8], ciphertext: &[u8]) -> (
opened: Option<Vec<u8>>)
    requires
        ciphertext@.len() <= MAX_CIPHER_BYTES + 16,
    ensures
        match opened {
            Some(message) => xchacha_opened(key@, nonce@, aad@, ciphertext@) == Some(message@)
                && message@.len() + 16 == ciphertext@.len(),
            None => xchacha_opened(key@, nonce@, aad@, ciphertext@) is None,
        },
{
    XChaCha20Poly1305::new(key.into()).decrypt(nonce.into(), Payload { msg: ciphertext, aad }).ok()
}

/// `Kem::derive_keypair` of hpke for DHKEM(X25519, HKDF-SHA256): the public key is a function of
/// the seed. It is a multiple of the base point by a clamped scalar, which is never zero in the
/// base point's group, so nothing speaks against sealing for it.
#[verifier::external_body]
pub(crate) fn hpke_derive_public(seed: &[u8; 32]) -> (key: [u8; 32])
    ensures
        key@ == hpke_public_key(seed@),
        hpke_key_objection(key@) is None,
{
    let (_, public) = X25519HkdfSha256::derive_keypair(seed);
    public.to_bytes().into()
}

/// `single_shot_seal` of hpke (`setup_sender`, and then `AeadCtxS::seal`) in base mode, with `info`
/// as the associated data too: whatever ephemeral key is drawn, whoever holds a seed of the public
/// key finds the plaintext in the ciphertext, which is 16 bytes longer. It fails where the product
/// of the ephemeral scalar and the public key is all zero. The scalar is clamped: a multiple of
/// eight, and of no large prime in the order of the curve or of its twist. So the product is zero
/// for the public keys of small order, whatever is drawn, and for no other: whether sealing fails,
/// and the text of the error, is a function of the public key.
#[verifier::external_body]
pub(crate) fn hpke_seal(public_key: &[u8; 32], info: &[u8], plaintext: &[u8; 32]) -> (sealed:
    Result<([u8; 32], Vec<u8>), String>)
    ensures
        match sealed {
            Ok(pair) => hpke_key_objection(public_key@) is None && pair.1@.len() == 48
                && opens_for_recipient(public_key@, info@, plaintext@, pair.0@, pair.1@),
            Err(text) => hpke_key_objection(public_key@) == Some(text@),
        },
{
    let mut rng = StdRng::from_os_rng();
    <X25519HkdfSha256 as Kem>::PublicKey::from_bytes(public_key)
        .and_then(|key| hpke::single_shot_seal::<ChaCha20Poly1305, HkdfSha256, X25519HkdfSha256, _>(
            &OpModeS::Base, &key, info, plaintext, info, &mut rng,
        ))
        .map(|(encapsulated_key, ciphertext)| (encapsulated_key.to_bytes().into(), ciphertext))
        .map_err(|error| error.to_string())
}

/// `single_shot_open` of hpke (`setup_receiver`, and then `AeadCtxR::open`) in base mode, with `info`
/// as the associated data too: what it returns is a function of the arguments.
#[verifier::external_body]
pub(crate) fn hpke_open(
    seed: &[u8; 32],
    encapsulated_key: &[u8; 32],
    info: &[u8],
    ciphertext: &[u8],
) -> (opened: Result<Vec<u8>, String>)
    requires
        ciphertext@.len() <= MAX_CIPHER_BYTES + 16,
    ensures
        bytes_or_text(opened) == hpke_opened(seed@, encapsulated_key@, info@, ciphertext@),
{
    let (private_key, _) = X25519HkdfSha256::derive_keypair(seed);
    <X25519HkdfSha256 as Kem>::EncappedKey::from_bytes(encapsulated_key)
        .and_then(|key| hpke::single_shot_open::<ChaCha20Poly1305, HkdfSha256, X25519HkdfSha256>(
            &OpModeR::Base, &private_key, &key, info, ciphertext, info,
        ))
        .map_err(|error| error.to_string())
}

/// `Argon2::hash_password_into` with Argon2id, version 0x13 and an output of 32 bytes: the output
/// is a function of the arguments. `memory` counts KiB.
#[verifier::external_body]
pub(crate) fn argon2id(password: &[u8], salt: &[u8; 16], memory: u32, passes: u32, lanes: u32) -> (
derived: Result<[u8; 32], String>)
    requires
        memory <= 0x10000,
        lanes <= 0xff_ffff,
    ensures
        key_or_text(derived) == argon2id_output(password@, salt@, memory, passes, lanes),
{
    let mut key = [0u8; 32];
    Params::new(memory, passes, lanes, Some(32))
        .and_then(|params| Argon2::new(Algorithm::Argon2id, Version::V0x13, params)
            .hash_password_into(password, salt, &mut key))
        .map(|()| key)
        .map_err(|error| error.to_string())
}

/// `rand::random`: 32 bytes from the thread's generator. Nothing is promised of them.
#[verifier::external_body]
pub(crate) fn random_32() -> (bytes: [u8; 32]) {
    rand::random()
}

/// `rand::random`: 24 bytes from the thread's generator. Nothing is promised of them.
#[verifier::external_body]
pub(crate) fn random_24() -> (bytes: [u8; 24]) {
    rand::random()
}

/// `rand::random`: 16 bytes from the thread's generator. Nothing is promised of them.
#[verifier::external_body]
pub(crate) fn random_16() -> (bytes: [u8; 16]) {
    rand::random()
}

/// `Zeroize::zeroize` on an array: every byte becomes zero, without a panic.
#[verifier::external_body]
pub(crate) fn wipe_key(key: &mut [u8; 32])
    ensures
        final(key)@ == Seq::new(32, |i: int| 0u8),
    opens_invariants none
    no_unwind
{
    key.zeroize();
}

/// `Zeroize::zeroize` on a vector: its bytes are cleared, and it is empty.
#[verifier::external_body]
pub(crate) fn wipe_bytes(bytes: &mut Vec<u8>)
    ensures
        final(bytes)@ == Seq::<u8>::empty(),
{
    bytes.zeroize();
}

} // verus!
