//! What a data directory says of its identity and its community before anything else is read.

use vstd::prelude::*;

use crate::community::{legacy_community, CommunityId, MemberId};
use crate::crypto::member_of;
use crate::fault::{authorization_fault, protocol_fault, storage_fault, Fault, FaultModel};
use crate::identity::IdentityMaterial;
use crate::model::{ChannelId, MessageId};
use crate::names::ContentName;
use crate::primitives::{ed25519_public_key, random_32};
use crate::replica::{epoch_name, is_text_at, storable, Replica, ReplicaModel};
use crate::sorted::rank;

verus! {

/// The seeds of an identity. The second one came later.
#[derive(Clone, Copy, Debug, PartialEq, Eq)]
pub struct StoredIdentity {
    pub seed: [u8; 32],
    pub hpke_seed: Option<[u8; 32]>,
}

/// A community as it is stored. Communities had no name at first.
#[derive(Clone, Copy, Debug, PartialEq, Eq)]
pub struct StoredCommunity {
    pub owner: MemberId,
    pub id: Option<CommunityId>,
    pub recovered: bool,
}

/// The identity and the community that a data directory holds.
#[derive(Clone, Copy, Debug, PartialEq, Eq)]
pub struct Vault {
    pub identity: Option<StoredIdentity>,
    pub community: Option<StoredCommunity>,
}

/// The fault of a directory without a community.
pub open spec fn uninitialized() -> FaultModel {
    protocol_fault("community is not initialized"@)
}

/// Whether a name is the one that a community has, or gets from its owner where it has none.
pub open spec fn is_named(community: StoredCommunity, id: CommunityId) -> bool {
    match community.id {
        Some(stored) => id == stored,
        None => id@ == legacy_community(community.owner),
    }
}

/// What a directory lacks of a community that has to be there.
pub open spec fn missing_community(vault: Vault) -> Option<FaultModel> {
    match vault.community {
        None => Some(uninitialized()),
        Some(community) => match community.id {
            None => Some(storage_fault("community id is not stored"@)),
            Some(_) => None,
        },
    }
}

/// What keeps a node from being opened: a community that has to be there and is not, or a stored
/// community that is not the configured one.
pub open spec fn preparation_refusal(
    vault: Vault,
    configured: Option<(CommunityId, MemberId)>,
    require_existing: bool,
) -> Option<FaultModel> {
    if require_existing && missing_community(vault) is Some {
        missing_community(vault)
    } else {
        match (vault.community, configured) {
            (Some(stored), Some((id, owner))) => if owner == stored.owner && is_named(stored, id) {
                None
            } else {
                Some(
                    authorization_fault(
                        "configured identity does not match the stored community"@,
                    ),
                )
            },
            _ => None,
        }
    }
}

impl Vault {
    /// A directory that holds nothing.
    pub fn empty() -> (vault: Self)
        ensures
            vault.identity is None,
            vault.community is None,
    {
        Vault { identity: None, community: None }
    }

    /// The seed of the identity; a new one is drawn where there is none.
    pub fn identity_seed(&mut self) -> (seed: [u8; 32])
        ensures
            match old(self).identity {
                Some(identity) => seed == identity.seed && *final(self) == *old(self),
                None => final(self).identity == Some(StoredIdentity { seed, hpke_seed: None })
                    && final(self).community == old(self).community,
            },
    {
        match self.identity {
            Some(identity) => identity.seed,
            None => {
                let seed: [u8; 32] = random_32();
                self.identity = Some(StoredIdentity { seed, hpke_seed: None });
                seed
            },
        }
    }

    /// The seed of the encryption key; a new one is drawn where there is none.
    pub fn hpke_seed(&mut self) -> (seed: [u8; 32])
        ensures
            match old(self).identity {
                Some(identity) => match identity.hpke_seed {
                    Some(stored) => seed == stored && *final(self) == *old(self),
                    None => final(self).identity == Some(
                        StoredIdentity { hpke_seed: Some(seed), ..identity },
                    ) && final(self).community == old(self).community,
                },
                None => *final(self) == *old(self),
            },
    {
        match self.identity {
            Some(identity) => match identity.hpke_seed {
                Some(stored) => stored,
                None => {
                    let seed: [u8; 32] = random_32();
                    self.identity = Some(
                        StoredIdentity { seed: identity.seed, hpke_seed: Some(seed) },
                    );
                    seed
                },
            },
            None => random_32(),
        }
    }

    /// The name of the community.
    pub fn community_id(&self) -> (id: Result<CommunityId, Fault>)
        ensures
            match id {
                Ok(id) => self.community matches Some(community) && community.id == Some(id),
                Err(fault) => match self.community {
                    None => fault@ == uninitialized(),
                    Some(community) => community.id is None && fault@ == storage_fault(
                        "community id is not stored"@,
                    ),
                },
            },
    {
        match self.community {
            None => Err(Fault::protocol("community is not initialized")),
            Some(community) => match community.id {
                Some(id) => Ok(id),
                None => Err(Fault::storage("community id is not stored")),
            },
        }
    }

    /// The owner of the community.
    pub fn community_owner(&self) -> (owner: Result<MemberId, Fault>)
        ensures
            match owner {
                Ok(owner) => self.community matches Some(community) && community.owner == owner,
                Err(fault) => self.community is None && fault@ == uninitialized(),
            },
    {
        match self.community {
            None => Err(Fault::protocol("community is not initialized")),
            Some(community) => Ok(community.owner),
        }
    }

    /// Whether the identity was restored from a backup.
    pub fn is_recovered(&self) -> (recovered: Result<bool, Fault>)
        ensures
            match recovered {
                Ok(recovered) => self.community matches Some(community) && community.recovered
                    == recovered,
                Err(fault) => self.community is None && fault@ == uninitialized(),
            },
    {
        match self.community {
            None => Err(Fault::protocol("community is not initialized")),
            Some(community) => Ok(community.recovered),
        }
    }

    /// Finds the community, or founds it: the configured one, or the local member's own under a name
    /// drawn at random. A stored community must be the configured one.
    pub fn initialize_community(
        &mut self,
        configured: Option<(CommunityId, MemberId)>,
        local_member: MemberId,
    ) -> (owner: Result<MemberId, Fault>)
        ensures
            final(self).identity == old(self).identity,
            match old(self).community {
                Some(stored) => {
                    &&& final(self).community matches Some(community) && community.owner
                        == stored.owner && community.recovered == stored.recovered
                        && community.id is Some && is_named(stored, community.id->0)
                    &&& ({
                        let id = final(self).community->0.id->0;
                        if configured is None || configured == Some((id, stored.owner)) {
                            owner matches Ok(owner) && owner == stored.owner
                        } else {
                            owner matches Err(fault) && fault@ == authorization_fault(
                                "configured identity does not match the stored community"@,
                            )
                        }
                    })
                },
                None => {
                    &&& final(self).community matches Some(community) && !community.recovered
                        && community.id is Some && owner == Ok::<MemberId, Fault>(community.owner)
                        && (configured matches Some(pair) ==> community.id == Some(pair.0)
                        && community.owner == pair.1) && (configured is None ==> community.owner
                        == local_member)
                },
            },
    {
        match self.community {
            Some(stored) => {
                let id: CommunityId = match stored.id {
                    Some(id) => id,
                    None => CommunityId::legacy(stored.owner),
                };
                self.community = Some(
                    StoredCommunity {
                        owner: stored.owner,
                        id: Some(id),
                        recovered: stored.recovered,
                    },
                );
                match configured {
                    Some((wanted_id, wanted_owner)) => if wanted_id != id || wanted_owner
                        != stored.owner {
                        return Err(
                            Fault::authorization(
                                "configured identity does not match the stored community",
                            ),
                        );
                    },
                    None => {},
                }
                Ok(stored.owner)
            },
            None => {
                let (id, owner): (CommunityId, MemberId) = match configured {
                    Some(pair) => pair,
                    None => (CommunityId::generate(), local_member),
                };
                self.community = Some(StoredCommunity { owner, id: Some(id), recovered: false });
                Ok(owner)
            },
        }
    }

    /// Makes ready to open a node: finds or draws the seeds, and finds or founds the community. Where
    /// the community has to be there, nothing is made before it is found. Where a stored community is
    /// not the configured one, the identity and the community's name are kept all the same.
    pub fn prepare(
        &mut self,
        configured: Option<(CommunityId, MemberId)>,
        require_existing: bool,
    ) -> (opening: Result<Opening, Fault>)
        ensures
            match preparation_refusal(*old(self), configured, require_existing) {
                Some(fault) => opening matches Err(found) && found@ == fault,
                None => opening is Ok,
            },
            require_existing && missing_community(*old(self)) is Some ==> *final(self) == *old(self),
            !(require_existing && missing_community(*old(self)) is Some) && opening is Err ==> {
                &&& match old(self).identity {
                    Some(identity) => final(self).identity == Some(identity),
                    None => final(self).identity matches Some(identity) && identity.hpke_seed is None,
                }
                &&& old(self).community matches Some(stored) && final(self).community matches Some(
                    community,
                ) && community.owner == stored.owner && community.recovered == stored.recovered
                    && community.id is Some && is_named(stored, community.id->0)
            },
            opening matches Ok(opening) ==> {
                &&& final(self).identity == Some(
                    StoredIdentity {
                        seed: opening.identity_seed,
                        hpke_seed: Some(opening.hpke_seed),
                    },
                )
                &&& old(self).identity matches Some(identity) ==> identity.seed
                    == opening.identity_seed && (identity.hpke_seed matches Some(seed) ==> seed
                    == opening.hpke_seed)
                &&& final(self).community == Some(
                    StoredCommunity {
                        owner: opening.owner,
                        id: Some(opening.community_id),
                        recovered: opening.recovered,
                    },
                )
                &&& configured matches Some(pair) ==> pair == (opening.community_id, opening.owner)
                &&& match old(self).community {
                    Some(stored) => opening.owner == stored.owner && opening.recovered
                        == stored.recovered && is_named(stored, opening.community_id),
                    None => !opening.recovered && (configured is None ==> opening.owner@
                        == ed25519_public_key(opening.identity_seed@)),
                }
            },
    {
        if require_existing {
            match self.community_id() {
                Ok(_) => {},
                Err(fault) => {
                    return Err(fault);
                },
            }
        }
        let identity_seed: [u8; 32] = self.identity_seed();
        let local_member: MemberId = member_of(&identity_seed);
        let initialized: Result<MemberId, Fault> = self.initialize_community(
            configured,
            local_member,
        );
        proof {
            if let (Some(stored), Some((id, _))) = (old(self).community, configured) {
                let kept = self.community->0.id->0;
                if is_named(stored, id) {
                    assert(id.0 =~= kept.0);
                }
            }
        }
        let owner: MemberId = match initialized {
            Ok(owner) => owner,
            Err(fault) => {
                return Err(fault);
            },
        };
        let hpke_seed: [u8; 32] = self.hpke_seed();
        let community_id: CommunityId = match self.community_id() {
            Ok(id) => id,
            Err(fault) => {
                return Err(fault);
            },
        };
        let recovered: bool = match self.is_recovered() {
            Ok(recovered) => recovered,
            Err(fault) => {
                return Err(fault);
            },
        };
        Ok(Opening { identity_seed, hpke_seed, community_id, owner, recovered })
    }
}

/// What a node is opened with.
#[derive(Clone, Copy, Debug, PartialEq, Eq)]
pub struct Opening {
    pub identity_seed: [u8; 32],
    pub hpke_seed: [u8; 32],
    pub community_id: CommunityId,
    pub owner: MemberId,
    pub recovered: bool,
}

/// What keeps an identity from being restored.
pub open spec fn restore_refusal(
    stored_rows: u64,
    material: IdentityMaterial,
) -> Option<FaultModel> {
    if stored_rows != 0 {
        Some(authorization_fault("identity recovery requires an empty data directory"@))
    } else if material.active_epoch matches Some(epoch) && !storable(epoch.number) {
        Some(protocol_fault("backup content epoch exceeds storage range"@))
    } else {
        None
    }
}

/// The identity and the community that a backup restores.
pub open spec fn restored_vault(material: IdentityMaterial) -> Vault {
    Vault {
        identity: Some(
            StoredIdentity {
                seed: material.identity_seed,
                hpke_seed: Some(material.hpke_seed),
            },
        ),
        community: Some(
            StoredCommunity {
                owner: material.owner,
                id: Some(material.community_id),
                recovered: true,
            },
        ),
    }
}

/// What a backup restores of a community: nothing but a content key.
pub open spec fn restored_replica(material: IdentityMaterial) -> ReplicaModel {
    let founded = ReplicaModel::founded(material.community_id, material.owner, true);
    match material.active_epoch {
        Some(epoch) => ReplicaModel {
            content_keys: Map::empty().insert(epoch_name(epoch), epoch.key),
            ..founded
        },
        None => founded,
    }
}

/// Restores an identity into an empty data directory.
pub fn restore_identity(stored_rows: u64, material: &IdentityMaterial) -> (restored: Result<
    (Vault, Replica),
    Fault,
>)
    ensures
        match restored {
            Ok((vault, replica)) => restore_refusal(stored_rows, *material) is None && vault
                == restored_vault(*material) && replica@ == restored_replica(*material)
                && replica@.well_formed(),
            Err(fault) => restore_refusal(stored_rows, *material) == Some(fault@),
        },
{
    if stored_rows != 0 {
        return Err(Fault::authorization("identity recovery requires an empty data directory"));
    }
    let mut replica: Replica = Replica::new(material.community_id, material.owner, true);
    if let Some(epoch) = material.active_epoch {
        match replica.insert_content_key(epoch) {
            Ok(()) => {},
            Err(_) => {
                return Err(Fault::protocol("backup content epoch exceeds storage range"));
            },
        }
    }
    assert(replica@ =~= restored_replica(*material));
    let vault: Vault = Vault {
        identity: Some(
            StoredIdentity {
                seed: material.identity_seed,
                hpke_seed: Some(material.hpke_seed),
            },
        ),
        community: Some(
            StoredCommunity {
                owner: material.owner,
                id: Some(material.community_id),
                recovered: true,
            },
        ),
    };
    Ok((vault, replica))
}

/// An identity that is restored without a content key, or with one of a membership that came after
/// the founding, must synchronize before it administers.
pub proof fn restored_identity_waits(material: IdentityMaterial)
    requires
        restore_refusal(0, material) is None,
        material.active_epoch matches Some(epoch) ==> epoch.number != 0,
    ensures
        crate::egregore::recovery_refusal(restored_replica(material)) is Some,
{
}

/// Whether everything up to an item counts as read in a channel.
pub open spec fn read_up_to(
    cursors: Map<ChannelId, MessageId>,
    channel: ChannelId,
    id: MessageId,
) -> bool {
    cursors.dom().contains(channel) && rank(id) <= rank(cursors[channel])
}

/// Whether each cursor was there before, or stands at an item of its channel.
pub open spec fn stand_somewhere(
    before: ReplicaModel,
    cursors: Map<ChannelId, MessageId>,
) -> bool {
    forall|c: ChannelId| #[trigger]
        cursors.dom().contains(c) ==> before.has_item(c, cursors[c]) || (
        before.cursors.dom().contains(c) && before.cursors[c] == cursors[c])
}

/// Whether each cursor stands where it stood or further on.
pub open spec fn move_on(
    before: Map<ChannelId, MessageId>,
    after: Map<ChannelId, MessageId>,
) -> bool {
    forall|c: ChannelId| #[trigger]
        before.dom().contains(c) ==> read_up_to(after, c, before[c])
}

/// Whether a replica differs from another in its cursors only.
pub open spec fn differ_in_cursors(before: ReplicaModel, after: ReplicaModel) -> bool {
    after == ReplicaModel { cursors: after.cursors, ..before }
}

fn pass(
    replica: &mut Replica,
    Ghost(before): Ghost<ReplicaModel>,
    channel: ChannelId,
    id: MessageId,
)
    requires
        old(replica)@.well_formed(),
        differ_in_cursors(before, old(replica)@),
        stand_somewhere(before, old(replica)@.cursors),
        before.has_item(channel, id),
    ensures
        final(replica)@.well_formed(),
        differ_in_cursors(before, final(replica)@),
        stand_somewhere(before, final(replica)@.cursors),
        move_on(old(replica)@.cursors, final(replica)@.cursors),
        read_up_to(final(replica)@.cursors, channel, id),
{
    replica.restore_cursor(channel, id);
}

/// Counts everything as read that is there: the first time that reading is remembered, what is kept
/// from before is no news.
pub fn mark_history_read(replica: &mut Replica)
    requires
        old(replica)@.well_formed(),
    ensures
        final(replica)@.well_formed(),
        differ_in_cursors(old(replica)@, final(replica)@),
        forall|c: ChannelId, id: MessageId| #[trigger]
            old(replica)@.has_item(c, id) ==> read_up_to(final(replica)@.cursors, c, id),
        move_on(old(replica)@.cursors, final(replica)@.cursors),
        stand_somewhere(old(replica)@, final(replica)@.cursors),
{
    let ghost before = replica@;
    let mut i: usize = 0;
    while i < replica.signed_messages().len()
        invariant
            i <= before.legacy_texts.len(),
            replica@.well_formed(),
            differ_in_cursors(before, replica@),
            stand_somewhere(before, replica@.cursors),
            move_on(before.cursors, replica@.cursors),
            forall|k: int|
                0 <= k < i ==> read_up_to(
                    replica@.cursors,
                    (#[trigger] before.legacy_texts[k]).authored.message@.channel_id,
                    before.legacy_texts[k].authored.message@.id,
                ),
        decreases before.legacy_texts.len() - i,
    {
        let channel: ChannelId = replica.signed_messages()[i].authored.message.channel_id();
        let id: MessageId = replica.signed_messages()[i].authored.message.id();
        assert(is_text_at(before.legacy_texts[i as int], channel, id));
        pass(replica, Ghost(before), channel, id);
        i += 1;
    }
    let texts: Vec<ContentName> = replica.encrypted_messages().to_keys();
    let mut i: usize = 0;
    while i < texts.len()
        invariant
            i <= texts@.len(),
            forall|n: ContentName| texts@.contains(n) <==> #[trigger] before.texts.dom().contains(n),
            replica@.well_formed(),
            differ_in_cursors(before, replica@),
            stand_somewhere(before, replica@.cursors),
            move_on(before.cursors, replica@.cursors),
            forall|k: int|
                0 <= k < before.legacy_texts.len() ==> read_up_to(
                    replica@.cursors,
                    (#[trigger] before.legacy_texts[k]).authored.message@.channel_id,
                    before.legacy_texts[k].authored.message@.id,
                ),
            forall|k: int|
                0 <= k < i ==> read_up_to(
                    replica@.cursors,
                    before.texts[#[trigger] texts@[k]].channel_id,
                    texts@[k].id,
                ),
        decreases texts@.len() - i,
    {
        let name: ContentName = texts[i];
        assert(texts@.contains(name));
        assert(before.texts.dom().contains(name));
        if let Some(text) = replica.encrypted_messages().get(name) {
            let channel: ChannelId = text.channel_id;
            pass(replica, Ghost(before), channel, name.id);
        }
        i += 1;
    }
    let attachments: Vec<ContentName> = replica.encrypted_attachments().to_keys();
    let mut i: usize = 0;
    while i < attachments.len()
        invariant
            i <= attachments@.len(),
            forall|n: ContentName|
                attachments@.contains(n) <==> #[trigger] before.attachments.dom().contains(n),
            replica@.well_formed(),
            differ_in_cursors(before, replica@),
            stand_somewhere(before, replica@.cursors),
            move_on(before.cursors, replica@.cursors),
            forall|k: int|
                0 <= k < before.legacy_texts.len() ==> read_up_to(
                    replica@.cursors,
                    (#[trigger] before.legacy_texts[k]).authored.message@.channel_id,
                    before.legacy_texts[k].authored.message@.id,
                ),
            forall|k: int|
                0 <= k < texts@.len() ==> read_up_to(
                    replica@.cursors,
                    before.texts[#[trigger] texts@[k]].channel_id,
                    texts@[k].id,
                ),
            forall|k: int|
                0 <= k < i ==> read_up_to(
                    replica@.cursors,
                    before.attachments[#[trigger] attachments@[k]].channel_id,
                    attachments@[k].id,
                ),
        decreases attachments@.len() - i,
    {
        let name: ContentName = attachments[i];
        assert(attachments@.contains(name));
        assert(before.attachments.dom().contains(name));
        if let Some(attachment) = replica.encrypted_attachments().get(name) {
            let channel: ChannelId = attachment.channel_id;
            pass(replica, Ghost(before), channel, name.id);
        }
        i += 1;
    }
    assert forall|c: ChannelId, id: MessageId| #[trigger] before.has_item(c, id) implies read_up_to(
        replica@.cursors,
        c,
        id,
    ) by {
        if exists|n: ContentName| #[trigger]
            before.texts.dom().contains(n) && n.id == id && before.texts[n].channel_id == c {
            let n = choose|n: ContentName| #[trigger]
                before.texts.dom().contains(n) && n.id == id && before.texts[n].channel_id == c;
            let k = texts@.index_of(n);
            assert(texts@[k] == n);
        } else if exists|n: ContentName| #[trigger]
            before.attachments.dom().contains(n) && n.id == id && before.attachments[n].channel_id
                == c {
            let n = choose|n: ContentName| #[trigger]
                before.attachments.dom().contains(n) && n.id == id
                    && before.attachments[n].channel_id == c;
            let k = attachments@.index_of(n);
            assert(attachments@[k] == n);
        }
    }
}

} // verus!
