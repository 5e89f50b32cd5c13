//! Backups of an identity: everything that a member needs to come back on another device,
//! encrypted under a passphrase.

use vstd::prelude::*;
use vstd::utf8::encode_utf8;

use crate::bytes::{
    append, array_at, be64, bytes_between, from_be64, of_be64, same_bytes, to_be64, to_vec,
};
use crate::community::{CommunityId, MemberId};
use crate::crypto::ContentEpoch;
use crate::fault::{protocol_fault, Fault, FaultModel};
use crate::primitives::{
    argon2id, argon2id_output, random_16, random_24, wipe_bytes, wipe_key, xchacha_decrypt,
    xchacha_encrypt, xchacha_opened, xchacha_sealed,
};

verus! {

/// How many bytes a backup has: 27 that mark it, 16 of salt, 24 of nonce, 201 of material and 16
/// that authenticate it.
pub const BACKUP_BYTES: usize = 284;

/// What an identity consists of. Its secrets are cleared when it goes out of use.
#[derive(Debug, PartialEq, Eq)]
pub struct IdentityMaterial {
    pub identity_seed: [u8; 32],
    pub hpke_seed: [u8; 32],
    pub community_id: CommunityId,
    pub owner: MemberId,
    pub active_epoch: Option<ContentEpoch>,
}

/// What every backup starts with.
pub open spec fn backup_mark() -> Seq<u8> {
    seq![
        112,
        101,
        101,
        114,
        45,
        99,
        111,
        109,
        109,
        117,
        110,
        105,
        116,
        121,
        45,
        105,
        100,
        101,
        110,
        116,
        105,
        116,
        121,
        47,
        118,
        49,
        0,
    ]
}

proof fn mark_is_text()
    ensures
        backup_mark() == encode_utf8("peer-community-identity/v1\0"@),
        backup_mark().len() == 27,
{
    reveal_strlit("peer-community-identity/v1\0");
    let text = "peer-community-identity/v1\0"@;
    assert(vstd::utf8::is_ascii_chars(text));
    vstd::utf8::is_ascii_chars_encode_utf8(text);
    assert(encode_utf8(text) =~= backup_mark());
}

/// The 201 bytes of an identity: the two seeds, the community and its owner, then whether there is
/// a content key, and the key's epoch, membership and bytes, or zeros.
pub open spec fn material_bytes(material: IdentityMaterial) -> Seq<u8> {
    material.identity_seed@ + material.hpke_seed@ + material.community_id@ + material.owner@ + (
    match material.active_epoch {
        Some(epoch) => seq![1u8] + be64(epoch.number) + epoch.head@ + epoch.key@,
        None => Seq::new(73, |i: int| 0u8),
    })
}

/// Whether 201 bytes say what `material` holds.
pub open spec fn holds_material(bytes: Seq<u8>, material: IdentityMaterial) -> bool {
    &&& material.identity_seed@ == bytes.subrange(0, 32)
    &&& material.hpke_seed@ == bytes.subrange(32, 64)
    &&& material.community_id@ == bytes.subrange(64, 96)
    &&& material.owner@ == bytes.subrange(96, 128)
    &&& match material.active_epoch {
        None => bytes[128] == 0,
        Some(epoch) => bytes[128] == 1 && epoch.number == of_be64(bytes.subrange(129, 137))
            && epoch.head@ == bytes.subrange(137, 169) && epoch.key@ == bytes.subrange(169, 201),
    }
}

/// What the key of a backup is derived from a passphrase and a salt.
pub open spec fn backup_key(passphrase: Seq<char>, salt: Seq<u8>) -> Result<Seq<u8>, Seq<char>> {
    argon2id_output(encode_utf8(passphrase), salt, 65536, 3, 1)
}

/// Whether a passphrase is long enough.
pub open spec fn passphrase_allowed(passphrase: Seq<char>) -> bool {
    passphrase.len() >= 12
}

/// The fault that a short passphrase gives.
pub open spec fn passphrase_fault() -> FaultModel {
    protocol_fault("identity backup passphrase must be at least 12 characters"@)
}

/// What a backup of `material` with this salt and this nonce is.
pub open spec fn backup_made(
    passphrase: Seq<char>,
    material: IdentityMaterial,
    salt: Seq<u8>,
    nonce: Seq<u8>,
) -> Result<Seq<u8>, FaultModel> {
    if !passphrase_allowed(passphrase) {
        Err(passphrase_fault())
    } else {
        match backup_key(passphrase, salt) {
            Err(text) => Err(protocol_fault(text)),
            Ok(key) => Ok(
                backup_mark() + salt + nonce + xchacha_sealed(
                    key,
                    nonce,
                    backup_mark() + salt,
                    material_bytes(material),
                ),
            ),
        }
    }
}

/// What is wrong with a backup; `None` where it opens to 201 bytes that say an identity.
pub open spec fn backup_objection(passphrase: Seq<char>, backup: Seq<u8>) -> Option<FaultModel> {
    if !passphrase_allowed(passphrase) {
        Some(passphrase_fault())
    } else if backup.len() != BACKUP_BYTES || backup.subrange(0, 27) != backup_mark() {
        Some(protocol_fault("identity backup format is invalid"@))
    } else {
        match backup_key(passphrase, backup.subrange(27, 43)) {
            Err(text) => Some(protocol_fault(text)),
            Ok(key) => match backup_plaintext(key, backup) {
                None => Some(protocol_fault("identity backup could not be decrypted"@)),
                Some(bytes) => if bytes.len() != 201 {
                    Some(protocol_fault("identity backup payload has an invalid size"@))
                } else if bytes[128] > 1 {
                    Some(protocol_fault("identity backup epoch marker is invalid"@))
                } else {
                    None
                },
            },
        }
    }
}

/// What a backup opens to.
pub open spec fn backup_plaintext(key: Seq<u8>, backup: Seq<u8>) -> Option<Seq<u8>> {
    xchacha_opened(
        key,
        backup.subrange(43, 67),
        backup.subrange(0, 43),
        backup.subrange(67, BACKUP_BYTES as int),
    )
}

/// Accepts passphrases of at least twelve characters.
pub fn validate_passphrase(passphrase: &str) -> (verdict: Result<(), Fault>)
    ensures
        match verdict {
            Ok(()) => passphrase_allowed(passphrase@),
            Err(fault) => !passphrase_allowed(passphrase@) && fault@ == passphrase_fault(),
        },
{
    let chars: Vec<char> = crate::text::chars_of(passphrase);
    if chars.len() < 12 {
        Err(Fault::protocol("identity backup passphrase must be at least 12 characters"))
    } else {
        Ok(())
    }
}

/// The key that a passphrase and a salt give.
fn derive_key(passphrase: &str, salt: &[u8; 16]) -> (key: Result<[u8; 32], Fault>)
    ensures
        match key {
            Ok(key) => backup_key(passphrase@, salt@) == Ok::<Seq<u8>, Seq<char>>(key@),
            Err(fault) => backup_key(passphrase@, salt@) matches Err(text) && fault@
                == protocol_fault(text),
        },
{
    match argon2id(passphrase.as_bytes(), salt, 65536, 3, 1) {
        Ok(key) => Ok(key),
        Err(text) => Err(Fault::protocol(text.as_str())),
    }
}

/// Whether material is what is left of other material once its seeds and its content key are zero.
pub open spec fn is_wiped(before: IdentityMaterial, after: IdentityMaterial) -> bool {
    let zero = Seq::new(32, |i: int| 0u8);
    &&& after.identity_seed@ == zero
    &&& after.hpke_seed@ == zero
    &&& after.community_id == before.community_id
    &&& after.owner == before.owner
    &&& match before.active_epoch {
        Some(epoch) => after.active_epoch matches Some(wiped) && wiped.number == epoch.number
            && wiped.head == epoch.head && wiped.key@ == zero,
        None => after.active_epoch is None,
    }
}

impl IdentityMaterial {
    fn to_bytes(&self) -> (bytes: Vec<u8>)
        ensures
            bytes@ == material_bytes(*self),
            bytes@.len() == 201,
    {
        let mut bytes: Vec<u8> = Vec::with_capacity(201);
        append(&mut bytes, self.identity_seed.as_slice());
        append(&mut bytes, self.hpke_seed.as_slice());
        append(&mut bytes, self.community_id.0.as_slice());
        append(&mut bytes, self.owner.0.as_slice());
        match self.active_epoch {
            Some(epoch) => {
                bytes.push(1);
                append(&mut bytes, to_be64(epoch.number).as_slice());
                append(&mut bytes, epoch.head.as_slice());
                append(&mut bytes, epoch.key.as_slice());
                assert(bytes@ =~= material_bytes(*self));
            },
            None => {
                let zeros: [u8; 73] = [0u8; 73];
                append(&mut bytes, zeros.as_slice());
                assert(zeros@ =~= Seq::new(73, |i: int| 0u8));
                assert(bytes@ =~= material_bytes(*self));
            },
        }
        bytes
    }

    fn from_bytes(bytes: &[u8]) -> (material: Option<Self>)
        requires
            bytes@.len() == 201,
        ensures
            match material {
                Some(material) => holds_material(bytes@, material) && bytes@[128] <= 1,
                None => bytes@[128] > 1,
            },
    {
        let active_epoch: Option<ContentEpoch> = if bytes[128] == 0 {
            None
        } else if bytes[128] == 1 {
            Some(
                ContentEpoch {
                    number: from_be64(bytes, 129),
                    head: array_at::<32>(bytes, 137),
                    key: array_at::<32>(bytes, 169),
                },
            )
        } else {
            return None;
        };
        Some(
            IdentityMaterial {
                identity_seed: array_at::<32>(bytes, 0),
                hpke_seed: array_at::<32>(bytes, 32),
                community_id: CommunityId(array_at::<32>(bytes, 64)),
                owner: MemberId(array_at::<32>(bytes, 96)),
                active_epoch,
            },
        )
    }

    /// Clears the seeds and the content key, where they are kept.
    pub fn wipe(&mut self)
        ensures
            is_wiped(*old(self), *final(self)),
        opens_invariants none
        no_unwind
    {
        wipe_key(&mut self.identity_seed);
        wipe_key(&mut self.hpke_seed);
        if let Some(epoch) = &mut self.active_epoch {
            wipe_key(&mut epoch.key);
        }
    }
}

impl Clone for IdentityMaterial {
    fn clone(&self) -> (copy: Self)
        ensures
            copy == *self,
    {
        IdentityMaterial {
            identity_seed: self.identity_seed,
            hpke_seed: self.hpke_seed,
            community_id: self.community_id,
            owner: self.owner,
            active_epoch: self.active_epoch,
        }
    }
}

impl Drop for IdentityMaterial {
    fn drop(&mut self)
        ensures
            is_wiped(*old(self), *final(self)),
        opens_invariants none
        no_unwind
    {
        self.wipe();
    }
}

/// A backup of `material` under a passphrase, with a salt and a nonce drawn at random.
pub fn export(passphrase: &str, material: &IdentityMaterial) -> (backup: Result<Vec<u8>, Fault>)
    ensures
        exists|salt: Seq<u8>, nonce: Seq<u8>| #[trigger]
            made_as(passphrase@, *material, salt, nonce, backup),
{
    let salt: [u8; 16] = random_16();
    let nonce: [u8; 24] = random_24();
    let backup: Result<Vec<u8>, Fault> = export_with(passphrase, material, salt, nonce);
    assert(made_as(passphrase@, *material, salt@, nonce@, backup));
    backup
}

/// Whether a result is what a backup with this salt and this nonce is.
pub open spec fn made_as(
    passphrase: Seq<char>,
    material: IdentityMaterial,
    salt: Seq<u8>,
    nonce: Seq<u8>,
    backup: Result<Vec<u8>, Fault>,
) -> bool {
    &&& salt.len() == 16
    &&& nonce.len() == 24
    &&& match backup {
        Ok(backup) => backup_made(passphrase, material, salt, nonce) == Ok::<Seq<u8>, FaultModel>(
            backup@,
        ) && restores(passphrase, backup@, material),
        Err(fault) => backup_made(passphrase, material, salt, nonce) == Err::<Seq<u8>, FaultModel>(
            fault@,
        ),
    }
}

/// Whether a backup opens to `material` under a passphrase.
pub open spec fn restores(
    passphrase: Seq<char>,
    backup: Seq<u8>,
    material: IdentityMaterial,
) -> bool {
    &&& backup_objection(passphrase, backup) is None
    &&& backup_plaintext(backup_key(passphrase, backup.subrange(27, 43))->Ok_0, backup) == Some(
        material_bytes(material),
    )
}

/// A backup of `material` under a passphrase, with this salt and this nonce. It restores the same
/// material under the same passphrase.
pub fn export_with(
    passphrase: &str,
    material: &IdentityMaterial,
    salt: [u8; 16],
    nonce: [u8; 24],
) -> (backup: Result<Vec<u8>, Fault>)
    ensures
        made_as(passphrase@, *material, salt@, nonce@, backup),
{
    match validate_passphrase(passphrase) {
        Ok(()) => {},
        Err(fault) => {
            return Err(fault);
        },
    }
    let mut key: [u8; 32] = match derive_key(passphrase, &salt) {
        Ok(key) => key,
        Err(fault) => {
            return Err(fault);
        },
    };
    let ghost derived = key@;
    let mut plaintext: Vec<u8> = material.to_bytes();
    let ghost said = plaintext@;
    let mut backup: Vec<u8> = to_vec("peer-community-identity/v1\0".as_bytes());
    append(&mut backup, salt.as_slice());
    proof {
        mark_is_text();
    }
    let sealed: Option<Vec<u8>> = xchacha_encrypt(
        &key,
        &nonce,
        backup.as_slice(),
        plaintext.as_slice(),
    );
    wipe_key(&mut key);
    wipe_bytes(&mut plaintext);
    match sealed {
        Some(ciphertext) => {
            append(&mut backup, nonce.as_slice());
            append(&mut backup, ciphertext.as_slice());
            proof {
                let b = backup@;
                assert(b.subrange(0, 27) =~= backup_mark());
                assert(b.subrange(27, 43) =~= salt@);
                assert(b.subrange(43, 67) =~= nonce@);
                assert(b.subrange(0, 43) =~= backup_mark() + salt@);
                assert(b.subrange(67, 284) =~= ciphertext@);
                assert(said[128] <= 1);
            }
            Ok(backup)
        },
        None => Err(Fault::protocol("aead::Error")),
    }
}

/// The identity in a backup.
pub fn decrypt(passphrase: &str, backup: &[u8]) -> (material: Result<IdentityMaterial, Fault>)
    ensures
        match material {
            Ok(material) => backup_objection(passphrase@, backup@) is None && holds_material(
                backup_plaintext(
                    backup_key(passphrase@, backup@.subrange(27, 43))->Ok_0,
                    backup@,
                )->0,
                material,
            ),
            Err(fault) => backup_objection(passphrase@, backup@) == Some(fault@),
        },
{
    match validate_passphrase(passphrase) {
        Ok(()) => {},
        Err(fault) => {
            return Err(fault);
        },
    }
    if backup.len() != BACKUP_BYTES {
        return Err(Fault::protocol("identity backup format is invalid"));
    }
    let mark: Vec<u8> = bytes_between(backup, 0, 27);
    proof {
        mark_is_text();
    }
    if !same_bytes(mark.as_slice(), "peer-community-identity/v1\0".as_bytes()) {
        return Err(Fault::protocol("identity backup format is invalid"));
    }
    let salt: [u8; 16] = array_at::<16>(backup, 27);
    let nonce: [u8; 24] = array_at::<24>(backup, 43);
    let mut key: [u8; 32] = match derive_key(passphrase, &salt) {
        Ok(key) => key,
        Err(fault) => {
            return Err(fault);
        },
    };
    let aad: Vec<u8> = bytes_between(backup, 0, 43);
    let ciphertext: Vec<u8> = bytes_between(backup, 67, BACKUP_BYTES);
    let opened: Option<Vec<u8>> = xchacha_decrypt(
        &key,
        &nonce,
        aad.as_slice(),
        ciphertext.as_slice(),
    );
    wipe_key(&mut key);
    match opened {
        Some(bytes) => {
            let mut bytes: Vec<u8> = bytes;
            if bytes.len() != 201 {
                wipe_bytes(&mut bytes);
                return Err(Fault::protocol("identity backup payload has an invalid size"));
            }
            let material: Option<IdentityMaterial> = IdentityMaterial::from_bytes(bytes.as_slice());
            wipe_bytes(&mut bytes);
            match material {
                Some(material) => Ok(material),
                None => Err(Fault::protocol("identity backup epoch marker is invalid")),
            }
        },
        None => Err(Fault::protocol("identity backup could not be decrypted")),
    }
}

/// What a backup says is one identity: whatever 201 bytes of an identity are read as is that
/// identity.
pub proof fn material_reads_back(material: IdentityMaterial, read: IdentityMaterial)
    requires
        holds_material(material_bytes(material), read),
    ensures
        read == material,
{
    let bytes = material_bytes(material);
    assert(bytes.subrange(0, 32) =~= material.identity_seed@);
    assert(bytes.subrange(32, 64) =~= material.hpke_seed@);
    assert(bytes.subrange(64, 96) =~= material.community_id@);
    assert(bytes.subrange(96, 128) =~= material.owner@);
    assert(read.identity_seed =~= material.identity_seed);
    assert(read.hpke_seed =~= material.hpke_seed);
    assert(read.community_id.0 =~= material.community_id.0);
    assert(read.owner.0 =~= material.owner.0);
    if let Some(epoch) = material.active_epoch {
        assert(bytes[128] == 1);
        assert(bytes.subrange(129, 137) =~= be64(epoch.number));
        crate::bytes::be64_round_trip(epoch.number);
        assert(bytes.subrange(137, 169) =~= epoch.head@);
        assert(bytes.subrange(169, 201) =~= epoch.key@);
        let other = read.active_epoch->0;
        assert(other.head =~= epoch.head);
        assert(other.key =~= epoch.key);
    } else {
        assert(bytes[128] == 0);
    }
}

/// Whether a file is as long as a backup is.
pub fn check_backup_size(size: u64) -> (verdict: Result<(), Fault>)
    ensures
        match verdict {
            Ok(()) => size == BACKUP_BYTES,
            Err(fault) => size != BACKUP_BYTES && fault@ == protocol_fault(
                "identity backup has an invalid size"@,
            ),
        },
{
    if size != BACKUP_BYTES as u64 {
        return Err(Fault::protocol("identity backup has an invalid size"));
    }
    Ok(())
}

} // verus!
