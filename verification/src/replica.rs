//! What a node keeps of its community: the history of the membership, the keys, the channels and
//! the encrypted content.

use vstd::prelude::*;

use crate::bytes::{array_with, array_with_is, same_bytes};
use crate::community::{
    community_error_text, membership_head, replay, replayed, Community, CommunityError,
    CommunityId, CommunityModel, MemberId, MembershipChange, SignedMembership,
};
use crate::crypto::{
    genesis, genesis_head, ContentEpoch, ContentKeyEnvelope, EncryptedAttachment,
    EncryptedMemberProfile, EncryptedText, KeyRegistration,
};
use crate::fault::{
    answers, authorization_fault, protocol_fault, storage_fault, Fault, FaultModel,
};
use crate::filing::{file, filed, slot, Filed, Placed};
use crate::model::{Channel, ChannelId, MessageId, SignedCreateChannel, SignedText};
use crate::names::{ContentName, EnvelopeName, EpochName, TextIdentity};
use crate::sorted::{rank, ByteKey, SortedMap};

verus! {

/// Everything that a node keeps.
#[derive(Debug)]
pub struct Replica {
    community_id: CommunityId,
    owner: MemberId,
    recovered: bool,
    history: Vec<SignedMembership>,
    registrations: SortedMap<MemberId, KeyRegistration>,
    envelopes: SortedMap<EnvelopeName, ContentKeyEnvelope>,
    content_keys: SortedMap<EpochName, [u8; 32]>,
    channels: SortedMap<ChannelId, SignedCreateChannel>,
    legacy_texts: Vec<SignedText>,
    texts: SortedMap<ContentName, EncryptedText>,
    attachments: SortedMap<ContentName, EncryptedAttachment>,
    forgotten: SortedMap<ContentName, ()>,
    profiles: SortedMap<MemberId, EncryptedMemberProfile>,
    cursors: SortedMap<ChannelId, MessageId>,
}

/// What a replica holds. `history` is in the order of the revisions.
#[verifier::ext_equal]
pub struct ReplicaModel {
    pub community_id: CommunityId,
    pub owner: MemberId,
    pub recovered: bool,
    pub history: Seq<SignedMembership>,
    pub registrations: Map<MemberId, KeyRegistration>,
    pub envelopes: Map<EnvelopeName, ContentKeyEnvelope>,
    pub content_keys: Map<EpochName, [u8; 32]>,
    pub channels: Map<ChannelId, SignedCreateChannel>,
    pub legacy_texts: Seq<SignedText>,
    pub texts: Map<ContentName, EncryptedText>,
    pub attachments: Map<ContentName, EncryptedAttachment>,
    pub forgotten: Set<ContentName>,
    pub profiles: Map<MemberId, EncryptedMemberProfile>,
    pub cursors: Map<ChannelId, MessageId>,
}

impl View for Replica {
    type V = ReplicaModel;

    closed spec fn view(&self) -> ReplicaModel {
        ReplicaModel {
            community_id: self.community_id,
            owner: self.owner,
            recovered: self.recovered,
            history: self.history@,
            registrations: self.registrations@,
            envelopes: self.envelopes@,
            content_keys: self.content_keys@,
            channels: self.channels@,
            legacy_texts: self.legacy_texts@,
            texts: self.texts@,
            attachments: self.attachments@,
            forgotten: self.forgotten@.dom(),
            profiles: self.profiles@,
            cursors: self.cursors@,
        }
    }
}

impl Placed for SignedMembership {
    open spec fn place(&self) -> nat {
        self.update.revision as nat
    }
}

impl Filed for SignedMembership {
    fn behind(&self, other: &Self) -> (behind: bool) {
        self.update.revision > other.update.revision
    }
}

impl Placed for SignedText {
    open spec fn place(&self) -> nat {
        rank(self.authored.message@.id)
    }
}

impl Filed for SignedText {
    fn behind(&self, other: &Self) -> (behind: bool) {
        other.authored.message.id().stands_before(&self.authored.message.id())
    }
}

/// Whether a number fits into storage, which keeps signed numbers.
pub open spec fn storable(number: u64) -> bool {
    number <= i64::MAX
}

fn fits_storage(number: u64) -> (fits: bool)
    ensures
        fits == storable(number),
{
    number <= 0x7fff_ffff_ffff_ffff
}

/// The refusal of a community, as a fault.
pub open spec fn refusal(error: CommunityError) -> FaultModel {
    authorization_fault(community_error_text(error))
}

/// The change at a revision.
pub open spec fn at_revision(history: Seq<SignedMembership>, revision: u64) -> Option<
    SignedMembership,
>
    decreases history.len(),
{
    if history.len() == 0 {
        None
    } else if history.last().update.revision == revision {
        Some(history.last())
    } else {
        at_revision(history.drop_last(), revision)
    }
}

/// How many changes lead up to a revision, that one counted; `None` where it is not there.
pub open spec fn steps_to(history: Seq<SignedMembership>, revision: u64) -> Option<int>
    decreases history.len(),
{
    if history.len() == 0 {
        None
    } else {
        match steps_to(history.drop_last(), revision) {
            Some(steps) => Some(steps),
            None => if history.last().update.revision == revision {
                Some(history.len() as int)
            } else {
                None
            },
        }
    }
}

/// The name of the epoch of a content key.
pub open spec fn epoch_name(epoch: ContentEpoch) -> EpochName {
    EpochName { number: epoch.number, head: epoch.head }
}

/// The name of an envelope.
pub open spec fn envelope_name(envelope: ContentKeyEnvelope) -> EnvelopeName {
    EnvelopeName { epoch: envelope.epoch, recipient: envelope.recipient, head: envelope.head }
}

impl ReplicaModel {
    /// The replica of a community of which nothing is known but its name and its owner.
    pub open spec fn founded(community_id: CommunityId, owner: MemberId, recovered: bool) -> Self {
        ReplicaModel {
            community_id,
            owner,
            recovered,
            history: Seq::empty(),
            registrations: Map::empty(),
            envelopes: Map::empty(),
            content_keys: Map::empty(),
            channels: Map::empty(),
            legacy_texts: Seq::empty(),
            texts: Map::empty(),
            attachments: Map::empty(),
            forgotten: Set::empty(),
            profiles: Map::empty(),
            cursors: Map::empty(),
        }
    }

    /// What always holds: revisions ascend from one on, every number fits into storage, everything
    /// is filed under its own name, and what was forgotten is gone.
    pub open spec fn well_formed(self) -> bool {
        &&& forall|i: int, j: int|
            0 <= i < j < self.history.len() ==> self.history[i].update.revision
                < self.history[j].update.revision
        &&& forall|i: int|
            0 <= i < self.history.len() ==> 1 <= (#[trigger] self.history[i]).update.revision
                && storable(self.history[i].update.revision)
        &&& forall|m: MemberId| #[trigger]
            self.registrations.dom().contains(m) ==> self.registrations[m].member == m
        &&& forall|n: EnvelopeName| #[trigger]
            self.envelopes.dom().contains(n) ==> storable(n.epoch) && envelope_name(
                self.envelopes[n],
            ) == n
        &&& forall|n: EpochName| #[trigger]
            self.content_keys.dom().contains(n) ==> storable(n.number)
        &&& forall|c: ChannelId| #[trigger]
            self.channels.dom().contains(c) ==> self.channels[c].channel@.id == c
        &&& forall|n: ContentName| #[trigger]
            self.texts.dom().contains(n) ==> self.texts[n].author == n.author && self.texts[n].id
                == n.id && storable(self.texts[n].epoch)
        &&& forall|n: ContentName| #[trigger]
            self.attachments.dom().contains(n) ==> self.attachments[n].author == n.author
                && self.attachments[n].id == n.id && storable(self.attachments[n].epoch)
                && !self.forgotten.contains(n)
        &&& forall|m: MemberId| #[trigger]
            self.profiles.dom().contains(m) ==> self.profiles[m].member == m && storable(
                self.profiles[m].revision,
            ) && storable(self.profiles[m].epoch)
    }

    /// The community that the history leads to.
    pub open spec fn community(self) -> Result<CommunityModel, FaultModel> {
        match replayed(self.owner, self.history) {
            Ok(community) => Ok(community),
            Err(error) => Err(refusal(error)),
        }
    }

    /// The revision of the next change.
    pub open spec fn next_revision(self) -> int {
        if self.history.len() == 0 {
            1
        } else {
            self.history.last().update.revision + 1
        }
    }

    /// The revision that is in force.
    pub open spec fn active_revision(self) -> u64 {
        if self.history.len() == 0 {
            0
        } else {
            self.history.last().update.revision
        }
    }

    /// The head of the membership that is in force.
    pub open spec fn active_head(self) -> Seq<u8> {
        if self.history.len() == 0 {
            genesis(self.community_id, self.owner)
        } else {
            membership_head(self.community_id, self.history.last())
        }
    }

    /// Whether an epoch belongs to the membership that is in force.
    pub open spec fn is_active(self, epoch: u64, head: Seq<u8>) -> bool {
        epoch == self.active_revision() && head == self.active_head()
    }

    /// The content key of the membership that is in force.
    pub open spec fn active_epoch(self) -> Option<ContentEpoch> {
        let name = EpochName { number: self.active_revision(), head: array_with::<32>(self.active_head()) };
        if self.content_keys.dom().contains(name) {
            Some(
                ContentEpoch { number: name.number, head: name.head, key: self.content_keys[name] },
            )
        } else {
            None
        }
    }

    /// What is answered to a change of the membership: whether it is new, or why it is refused.
    pub open spec fn membership_verdict(
        self,
        signed: SignedMembership,
    ) -> Result<bool, FaultModel> {
        match self.community() {
            Err(fault) => Err(fault),
            Ok(community) => match community.verdict(self.owner, signed.update.change) {
                Err(error) => Err(refusal(error)),
                Ok(_) => if !storable(signed.update.revision) {
                    Err(protocol_fault("membership revision exceeds storage range"@))
                } else if signed.update.revision == 0 {
                    Err(storage_fault("membership revision is not positive"@))
                } else {
                    match at_revision(self.history, signed.update.revision) {
                        None => Ok(true),
                        Some(stored) => if stored == signed {
                            Ok(false)
                        } else {
                            Err(protocol_fault("owner equivocated at a membership revision"@))
                        },
                    }
                },
            },
        }
    }

    /// The replica after a change of the membership came in.
    pub open spec fn membership_added(self, signed: SignedMembership) -> Self {
        if self.membership_verdict(signed) == Ok::<bool, FaultModel>(true) {
            ReplicaModel { history: filed(self.history, signed), ..self }
        } else {
            self
        }
    }

    /// Whether the author of content wrote under a membership that admitted it.
    pub open spec fn epoch_author_verdict(
        self,
        epoch: u64,
        head: Seq<u8>,
        author: MemberId,
    ) -> Result<
        (),
        FaultModel,
    > {
        if epoch == 0 {
            if head != genesis(self.community_id, self.owner) {
                Err(protocol_fault("content references an unknown genesis head"@))
            } else {
                participant_verdict(CommunityModel::founded(self.owner), author)
            }
        } else {
            match steps_to(self.history, epoch) {
                None => match self.community() {
                    Err(fault) => Err(fault),
                    Ok(_) => Err(protocol_fault("content references an unknown membership epoch"@)),
                },
                Some(steps) => match replayed(self.owner, self.history.take(steps)) {
                    Err(error) => Err(refusal(error)),
                    Ok(community) => if membership_head(
                        self.community_id,
                        self.history[steps - 1],
                    ) != head {
                        Err(protocol_fault("content references a non-canonical membership head"@))
                    } else {
                        participant_verdict(community, author)
                    },
                },
            }
        }
    }

    /// The content key of an epoch.
    pub open spec fn content_key(self, epoch: u64, head: [u8; 32]) -> Result<
        Option<[u8; 32]>,
        FaultModel,
    > {
        if !storable(epoch) {
            Err(protocol_fault("content epoch exceeds storage range"@))
        } else {
            Ok(self.held_key(epoch, head))
        }
    }

    /// The content key that is held for an epoch.
    pub open spec fn held_key(self, epoch: u64, head: [u8; 32]) -> Option<[u8; 32]> {
        let name = EpochName { number: epoch, head };
        if self.content_keys.dom().contains(name) {
            Some(self.content_keys[name])
        } else {
            None
        }
    }

    /// What is answered to a content key.
    pub open spec fn content_key_verdict(self, epoch: ContentEpoch) -> Result<(), FaultModel> {
        if !storable(epoch.number) {
            Err(protocol_fault("content epoch exceeds storage range"@))
        } else if self.content_keys.dom().contains(epoch_name(epoch)) && self.content_keys[epoch_name(
            epoch,
        )]@ != epoch.key@ {
            Err(protocol_fault("content epoch identifies a different key"@))
        } else {
            Ok(())
        }
    }

    /// The replica after a content key came in.
    pub open spec fn content_key_added(self, epoch: ContentEpoch) -> Self {
        if self.content_key_verdict(epoch) is Ok && !self.content_keys.dom().contains(
            epoch_name(epoch),
        ) {
            ReplicaModel {
                content_keys: self.content_keys.insert(epoch_name(epoch), epoch.key),
                ..self
            }
        } else {
            self
        }
    }

    /// The envelope of an epoch for a recipient.
    pub open spec fn envelope_for(self, epoch: u64, head: [u8; 32], recipient: MemberId) -> Result<
        Option<ContentKeyEnvelope>,
        FaultModel,
    > {
        let name = EnvelopeName { epoch, recipient, head };
        if !storable(epoch) {
            Err(protocol_fault("content epoch exceeds storage range"@))
        } else if self.envelopes.dom().contains(name) {
            Ok(Some(self.envelopes[name]))
        } else {
            Ok(None)
        }
    }

    /// What is answered to an envelope: whether it is new, or why it is refused.
    pub open spec fn envelope_verdict(self, envelope: ContentKeyEnvelope) -> Result<
        bool,
        FaultModel,
    > {
        let name = envelope_name(envelope);
        if !storable(envelope.epoch) {
            Err(protocol_fault("content epoch exceeds storage range"@))
        } else if !self.envelopes.dom().contains(name) {
            Ok(true)
        } else if self.envelopes[name]@ == envelope@ {
            Ok(false)
        } else {
            Err(protocol_fault("content epoch identifies a different recipient envelope"@))
        }
    }

    /// The replica after an envelope came in.
    pub open spec fn envelope_added(self, envelope: ContentKeyEnvelope) -> Self {
        if self.envelope_verdict(envelope) == Ok::<bool, FaultModel>(true) {
            ReplicaModel {
                envelopes: self.envelopes.insert(envelope_name(envelope), envelope),
                ..self
            }
        } else {
            self
        }
    }

    /// The registration of a member.
    pub open spec fn registration(self, member: MemberId) -> Option<KeyRegistration> {
        if self.registrations.dom().contains(member) {
            Some(self.registrations[member])
        } else {
            None
        }
    }

    /// What is answered to a registration: whether it is new, or why it is refused.
    pub open spec fn registration_verdict(self, registration: KeyRegistration) -> Result<
        bool,
        FaultModel,
    > {
        match self.registration(registration.member) {
            None => Ok(true),
            Some(stored) => if stored.public_key@ == registration.public_key@ && stored.signature@
                == registration.signature@ {
                Ok(false)
            } else {
                Err(protocol_fault("member already registered a different encryption key"@))
            },
        }
    }

    /// The replica after a registration came in.
    pub open spec fn registration_added(self, registration: KeyRegistration) -> Self {
        if self.registration_verdict(registration) == Ok::<bool, FaultModel>(true) {
            ReplicaModel {
                registrations: self.registrations.insert(registration.member, registration),
                ..self
            }
        } else {
            self
        }
    }

    /// What is answered to a channel: whether it is new, or why it is refused.
    pub open spec fn channel_verdict(
        self,
        signed: SignedCreateChannel,
    ) -> Result<bool, FaultModel> {
        let id = signed.channel@.id;
        if !self.channels.dom().contains(id) {
            Ok(true)
        } else if self.channels[id].channel@ == signed.channel@ {
            Ok(false)
        } else {
            Err(protocol_fault("channel id already exists"@))
        }
    }

    /// The replica after a channel came in.
    pub open spec fn channel_added(self, signed: SignedCreateChannel) -> Self {
        if self.channel_verdict(signed) == Ok::<bool, FaultModel>(true) {
            ReplicaModel { channels: self.channels.insert(signed.channel@.id, signed), ..self }
        } else {
            self
        }
    }

    /// What is answered to a text: whether it is new, or why it is refused.
    pub open spec fn text_verdict(self, text: EncryptedText) -> Result<bool, FaultModel> {
        let name = ContentName { author: text.author, id: text.id };
        if !storable(text.epoch) {
            Err(protocol_fault("content epoch exceeds storage range"@))
        } else if !self.texts.dom().contains(name) {
            Ok(true)
        } else if self.texts[name]@ == text@ {
            Ok(false)
        } else {
            Err(protocol_fault("message id already identifies a different encrypted operation"@))
        }
    }

    /// The replica after a text came in.
    pub open spec fn text_added(self, text: EncryptedText) -> Self {
        if self.text_verdict(text) == Ok::<bool, FaultModel>(true) {
            ReplicaModel {
                texts: self.texts.insert(ContentName { author: text.author, id: text.id }, text),
                ..self
            }
        } else {
            self
        }
    }

    /// What is answered to an attachment: whether it is new, or why it is refused. One that was
    /// forgotten is never new.
    pub open spec fn attachment_verdict(self, attachment: EncryptedAttachment) -> Result<
        bool,
        FaultModel,
    > {
        let name = ContentName { author: attachment.author, id: attachment.id };
        if self.forgotten.contains(name) {
            Ok(false)
        } else if !storable(attachment.epoch) {
            Err(protocol_fault("content epoch exceeds storage range"@))
        } else if !self.attachments.dom().contains(name) {
            Ok(true)
        } else if self.attachments[name]@ == attachment@ {
            Ok(false)
        } else {
            Err(protocol_fault("attachment id already identifies a different operation"@))
        }
    }

    /// The replica after an attachment came in.
    pub open spec fn attachment_added(self, attachment: EncryptedAttachment) -> Self {
        if self.attachment_verdict(attachment) == Ok::<bool, FaultModel>(true) {
            ReplicaModel {
                attachments: self.attachments.insert(
                    ContentName { author: attachment.author, id: attachment.id },
                    attachment,
                ),
                ..self
            }
        } else {
            self
        }
    }

    /// The replica after an attachment was forgotten.
    pub open spec fn attachment_forgotten(self, author: MemberId, id: MessageId) -> Self {
        let name = ContentName { author, id };
        ReplicaModel {
            attachments: self.attachments.remove(name),
            forgotten: self.forgotten.insert(name),
            ..self
        }
    }

    /// The revision of a member's next display name.
    pub open spec fn next_profile_revision(self, member: MemberId) -> int {
        if self.profiles.dom().contains(member) {
            self.profiles[member].revision + 1
        } else {
            1
        }
    }

    /// What is answered to a display name: whether it is newer than the one that is held, or why
    /// it is refused.
    pub open spec fn profile_verdict(self, profile: EncryptedMemberProfile) -> Result<
        bool,
        FaultModel,
    > {
        let held = self.profiles.dom().contains(profile.member);
        let stored = self.profiles[profile.member];
        if held && stored.revision > profile.revision {
            Ok(false)
        } else if held && stored.revision == profile.revision {
            if stored@ == profile@ {
                Ok(false)
            } else {
                Err(protocol_fault("member equivocated at a profile revision"@))
            }
        } else if !storable(profile.revision) {
            Err(protocol_fault("member profile revision exceeds storage range"@))
        } else if !storable(profile.epoch) {
            Err(protocol_fault("content epoch exceeds storage range"@))
        } else if profile.revision == 0 {
            Err(storage_fault("member profile revision is not positive"@))
        } else {
            Ok(true)
        }
    }

    /// The replica after a display name came in.
    pub open spec fn profile_added(self, profile: EncryptedMemberProfile) -> Self {
        if self.profile_verdict(profile) == Ok::<bool, FaultModel>(true) {
            ReplicaModel { profiles: self.profiles.insert(profile.member, profile), ..self }
        } else {
            self
        }
    }

    /// Whether a channel holds an item with this name.
    pub open spec fn has_item(self, channel: ChannelId, id: MessageId) -> bool {
        ||| exists|i: int|
            0 <= i < self.legacy_texts.len() && is_text_at(#[trigger] self.legacy_texts[i], channel, id)
        ||| exists|n: ContentName| #[trigger]
            self.texts.dom().contains(n) && n.id == id && self.texts[n].channel_id == channel
        ||| exists|n: ContentName| #[trigger]
            self.attachments.dom().contains(n) && n.id == id && self.attachments[n].channel_id
                == channel
    }

    /// The replica after a cursor was set: cursors only move forward.
    pub open spec fn cursor_set(self, channel: ChannelId, id: MessageId) -> Self {
        if self.cursors.dom().contains(channel) && rank(id) <= rank(self.cursors[channel]) {
            self
        } else {
            ReplicaModel { cursors: self.cursors.insert(channel, id), ..self }
        }
    }
}

/// An envelope as it is kept for the epoch with this number.
pub open spec fn kept_envelope(envelope: ContentKeyEnvelope, number: u64) -> ContentKeyEnvelope {
    ContentKeyEnvelope { epoch: number, ..envelope }
}

/// Whether envelopes for the epoch with this number cannot all be filed: one is there already, or
/// two have one recipient.
pub open spec fn envelopes_clash(
    held: Map<EnvelopeName, ContentKeyEnvelope>,
    number: u64,
    envelopes: Seq<ContentKeyEnvelope>,
) -> bool {
    ||| exists|i: int|
        0 <= i < envelopes.len() && held.dom().contains(
            envelope_name(kept_envelope(#[trigger] envelopes[i], number)),
        )
    ||| exists|i: int, j: int|
        0 <= i < j < envelopes.len() && envelope_name(kept_envelope(#[trigger] envelopes[i], number))
            == envelope_name(kept_envelope(#[trigger] envelopes[j], number))
}

/// The envelopes that are held after these were filed.
pub open spec fn envelopes_with(
    held: Map<EnvelopeName, ContentKeyEnvelope>,
    number: u64,
    envelopes: Seq<ContentKeyEnvelope>,
) -> Map<EnvelopeName, ContentKeyEnvelope>
    decreases envelopes.len(),
{
    if envelopes.len() == 0 {
        held
    } else {
        let kept = kept_envelope(envelopes.last(), number);
        envelopes_with(held.insert(envelope_name(kept), kept), number, envelopes.drop_last())
    }
}

impl ReplicaModel {
    /// What is answered to a change of the membership with the content key of its epoch and the
    /// envelopes around the key.
    pub open spec fn rotation_verdict(
        self,
        signed: SignedMembership,
        epoch: ContentEpoch,
        envelopes: Seq<ContentKeyEnvelope>,
    ) -> Result<(), FaultModel> {
        if !storable(signed.update.revision) {
            Err(protocol_fault("membership revision exceeds storage range"@))
        } else if !storable(epoch.number) {
            Err(protocol_fault("content epoch exceeds storage range"@))
        } else if epoch.number != signed.update.revision || epoch.head@ != membership_head(
            self.community_id,
            signed,
        ) {
            Err(protocol_fault("content epoch is not bound to the membership operation"@))
        } else if signed.update.revision == 0 {
            Err(storage_fault("membership revision is not positive"@))
        } else if at_revision(self.history, signed.update.revision) is Some {
            Err(protocol_fault("membership revision already exists"@))
        } else if self.content_keys.dom().contains(epoch_name(epoch)) {
            Err(storage_fault("content key already exists"@))
        } else if envelopes_clash(self.envelopes, epoch.number, envelopes) {
            Err(storage_fault("content key envelope already exists"@))
        } else {
            Ok(())
        }
    }

    /// The replica after a change of the membership with its content key and its envelopes: all of
    /// it, or nothing.
    pub open spec fn rotated(
        self,
        signed: SignedMembership,
        epoch: ContentEpoch,
        envelopes: Seq<ContentKeyEnvelope>,
    ) -> Self {
        if self.rotation_verdict(signed, epoch, envelopes) is Ok {
            ReplicaModel {
                history: filed(self.history, signed),
                content_keys: self.content_keys.insert(epoch_name(epoch), epoch.key),
                envelopes: envelopes_with(self.envelopes, epoch.number, envelopes),
                ..self
            }
        } else {
            self
        }
    }
}

/// Whether a text in the clear stands in this channel under this name.
pub open spec fn is_text_at(text: SignedText, channel: ChannelId, id: MessageId) -> bool {
    text.authored.message@.id == id && text.authored.message@.channel_id == channel
}

/// Whether a member participates, or the refusal.
pub open spec fn participant_verdict(community: CommunityModel, member: MemberId) -> Result<
    (),
    FaultModel,
> {
    if community.participates(member) {
        Ok(())
    } else {
        Err(refusal(CommunityError::MemberNotAdmitted))
    }
}

/// Whether two changes of the membership are one.
fn same_membership(a: &SignedMembership, b: &SignedMembership) -> (same: bool)
    ensures
        same == (*a == *b),
{
    let kinds: bool = match (a.update.change, b.update.change) {
        (MembershipChange::Admit(x), MembershipChange::Admit(y)) => x == y,
        (MembershipChange::AdmitAvailability(x), MembershipChange::AdmitAvailability(y)) => x == y,
        (MembershipChange::Remove(x), MembershipChange::Remove(y)) => x == y,
        _ => false,
    };
    assert(a.signature@ == b.signature@ ==> a.signature =~= b.signature);
    a.update.revision == b.update.revision && kinds && same_bytes(
        a.signature.as_slice(),
        b.signature.as_slice(),
    )
}

/// Accepts participants, as a fault says.
pub fn require_participant(community: &Community, member: MemberId) -> (verdict: Result<(), Fault>)
    ensures
        answers(verdict, participant_verdict(community@, member)),
{
    match community.authorize_participant(member) {
        Ok(()) => Ok(()),
        Err(error) => Err(Fault::refused(error)),
    }
}

proof fn filing_keeps_order(history: Seq<SignedMembership>, signed: SignedMembership)
    requires
        forall|i: int, j: int|
            0 <= i < j < history.len() ==> history[i].update.revision < history[j].update.revision,
        at_revision(history, signed.update.revision) is None,
    ensures
        ({
            let s = crate::filing::slot(history, signed);
            &&& 0 <= s <= history.len()
            &&& forall|i: int|
                0 <= i < s ==> (#[trigger] history[i]).update.revision < signed.update.revision
            &&& forall|i: int|
                s <= i < history.len() ==> (#[trigger] history[i]).update.revision
                    > signed.update.revision
        }),
    decreases history.len(),
{
    if history.len() > 0 {
        let rest = history.drop_last();
        assert forall|i: int, j: int| 0 <= i < j < rest.len() implies rest[i].update.revision
            < rest[j].update.revision by {
            assert(history[i].update.revision < history[j].update.revision);
        }
        if history.last().update.revision > signed.update.revision {
            filing_keeps_order(rest, signed);
            let s = crate::filing::slot(history, signed);
            assert forall|i: int| s <= i < history.len() implies (
            #[trigger] history[i]).update.revision > signed.update.revision by {
                if i < rest.len() {
                    assert(rest[i] == history[i]);
                }
            }
            assert forall|i: int| 0 <= i < s implies (#[trigger] history[i]).update.revision
                < signed.update.revision by {
                assert(rest[i] == history[i]);
            }
        } else {
            let n = history.len() - 1;
            assert forall|i: int| 0 <= i < history.len() implies (
            #[trigger] history[i]).update.revision < signed.update.revision by {
                if i < n {
                    assert(history[i].update.revision < history[n].update.revision);
                }
            }
        }
    }
}

proof fn steps_facts(history: Seq<SignedMembership>, revision: u64)
    ensures
        match steps_to(history, revision) {
            Some(steps) => 1 <= steps <= history.len() && history[steps - 1].update.revision
                == revision && forall|i: int|
                0 <= i < steps - 1 ==> (#[trigger] history[i]).update.revision != revision,
            None => forall|i: int|
                0 <= i < history.len() ==> (#[trigger] history[i]).update.revision != revision,
        },
    decreases history.len(),
{
    if history.len() > 0 {
        let rest = history.drop_last();
        steps_facts(rest, revision);
        assert forall|i: int| 0 <= i < rest.len() implies history[i] == #[trigger] rest[i] by {}
        match steps_to(rest, revision) {
            Some(steps) => {
                assert(rest[steps - 1] == history[steps - 1]);
                assert forall|i: int| 0 <= i < steps - 1 implies (
                #[trigger] history[i]).update.revision != revision by {
                    assert(rest[i] == history[i]);
                }
            },
            None => {
                assert forall|i: int| 0 <= i < rest.len() implies (
                #[trigger] history[i]).update.revision != revision by {
                    assert(rest[i] == history[i]);
                }
            },
        }
    }
}

proof fn filed_history_in_order(history: Seq<SignedMembership>, signed: SignedMembership)
    requires
        forall|i: int, j: int|
            0 <= i < j < history.len() ==> history[i].update.revision < history[j].update.revision,
        forall|i: int|
            0 <= i < history.len() ==> 1 <= (#[trigger] history[i]).update.revision && storable(
                history[i].update.revision,
            ),
        at_revision(history, signed.update.revision) is None,
        1 <= signed.update.revision,
        storable(signed.update.revision),
    ensures
        forall|i: int, j: int|
            0 <= i < j < filed(history, signed).len() ==> filed(history, signed)[i].update.revision
                < filed(history, signed)[j].update.revision,
        forall|i: int|
            0 <= i < filed(history, signed).len() ==> 1 <= (#[trigger] filed(
                history,
                signed,
            )[i]).update.revision && storable(filed(history, signed)[i].update.revision),
{
    filing_keeps_order(history, signed);
    let s = crate::filing::slot(history, signed);
    let after = filed(history, signed);
    assert forall|i: int, j: int| 0 <= i < j < after.len() implies after[i].update.revision
        < after[j].update.revision by {
        if i < s && j > s {
            assert(history[i].update.revision < history[j - 1].update.revision);
        }
    }
}

/// A change of the membership that is new keeps the history in order.
pub proof fn membership_keeps_form(replica: ReplicaModel, signed: SignedMembership)
    requires
        replica.well_formed(),
    ensures
        replica.membership_added(signed).well_formed(),
{
    if replica.membership_verdict(signed) == Ok::<bool, FaultModel>(true) {
        filed_history_in_order(replica.history, signed);
    }
}

impl Replica {
    /// The replica of a community of which nothing is known but its name and its owner.
    pub fn new(community_id: CommunityId, owner: MemberId, recovered: bool) -> (replica: Self)
        ensures
            replica@ == ReplicaModel::founded(community_id, owner, recovered),
            replica@.well_formed(),
    {
        let replica: Replica = Replica {
            community_id,
            owner,
            recovered,
            history: Vec::new(),
            registrations: SortedMap::new(),
            envelopes: SortedMap::new(),
            content_keys: SortedMap::new(),
            channels: SortedMap::new(),
            legacy_texts: Vec::new(),
            texts: SortedMap::new(),
            attachments: SortedMap::new(),
            forgotten: SortedMap::new(),
            profiles: SortedMap::new(),
            cursors: SortedMap::new(),
        };
        assert(replica@ =~= ReplicaModel::founded(community_id, owner, recovered));
        replica
    }

    /// The name of the community.
    pub fn community_id(&self) -> (id: CommunityId)
        ensures
            id == self@.community_id,
    {
        self.community_id
    }

    /// The owner of the community.
    pub fn community_owner(&self) -> (owner: MemberId)
        ensures
            owner == self@.owner,
    {
        self.owner
    }

    /// Whether the identity was restored from a backup.
    pub fn is_recovered(&self) -> (recovered: bool)
        ensures
            recovered == self@.recovered,
    {
        self.recovered
    }

    /// The community that the history leads to.
    pub fn community(&self) -> (community: Result<Community, Fault>)
        ensures
            match community {
                Ok(community) => self@.community() == Ok::<CommunityModel, FaultModel>(community@),
                Err(fault) => self@.community() == Err::<CommunityModel, FaultModel>(fault@),
            },
    {
        match replay(self.owner, &self.history) {
            Ok(community) => Ok(community),
            Err(error) => Err(Fault::refused(error)),
        }
    }

    /// The history of the membership.
    pub fn membership_history(&self) -> (history: &Vec<SignedMembership>)
        ensures
            history@ == self@.history,
    {
        &self.history
    }

    /// The revision of the next change.
    pub fn next_membership_revision(&self) -> (revision: u64)
        requires
            self@.well_formed(),
        ensures
            revision == self@.next_revision(),
    {
        if self.history.len() == 0 {
            1
        } else {
            self.history[self.history.len() - 1].update.revision + 1
        }
    }

    fn at_revision(&self, revision: u64) -> (found: Option<SignedMembership>)
        ensures
            found == at_revision(self@.history, revision),
    {
        let mut i: usize = self.history.len();
        assert(self.history@.take(i as int) =~= self.history@);
        while i > 0
            invariant
                i <= self.history@.len(),
                at_revision(self.history@, revision) == at_revision(
                    self.history@.take(i as int),
                    revision,
                ),
            decreases i,
        {
            assert(self.history@.take(i as int).drop_last() =~= self.history@.take(i - 1));
            if self.history[i - 1].update.revision == revision {
                return Some(self.history[i - 1]);
            }
            i -= 1;
        }
        None
    }

    /// Takes in a change of the membership. The answer says whether it is new.
    pub fn insert_membership(&mut self, signed: &SignedMembership) -> (verdict: Result<bool, Fault>)
        requires
            old(self)@.well_formed(),
        ensures
            answers(verdict, old(self)@.membership_verdict(*signed)),
            final(self)@ == old(self)@.membership_added(*signed),
            final(self)@.well_formed(),
    {
        let mut community: Community = match self.community() {
            Ok(community) => community,
            Err(fault) => {
                return Err(fault);
            },
        };
        proof {
            crate::community::replay_is_well_formed(self.owner, self.history@);
        }
        match community.change_membership(self.owner, signed.update.change) {
            Ok(_) => {},
            Err(error) => {
                return Err(Fault::refused(error));
            },
        }
        if !fits_storage(signed.update.revision) {
            return Err(Fault::protocol("membership revision exceeds storage range"));
        }
        if signed.update.revision == 0 {
            return Err(Fault::storage("membership revision is not positive"));
        }
        match self.at_revision(signed.update.revision) {
            Some(stored) => if same_membership(&stored, signed) {
                Ok(false)
            } else {
                Err(Fault::protocol("owner equivocated at a membership revision"))
            },
            None => {
                proof {
                    membership_keeps_form(self@, *signed);
                }
                file(&mut self.history, *signed);
                assert(self@ =~= old(self)@.membership_added(*signed));
                Ok(true)
            },
        }
    }

    fn would_clash(&self, number: u64, envelopes: &Vec<ContentKeyEnvelope>) -> (clash: bool)
        ensures
            clash == envelopes_clash(self@.envelopes, number, envelopes@),
    {
        let mut seen: SortedMap<EnvelopeName, ()> = SortedMap::new();
        let mut i: usize = 0;
        while i < envelopes.len()
            invariant
                i <= envelopes@.len(),
                forall|n: EnvelopeName| #[trigger]
                    seen@.dom().contains(n) <==> exists|j: int|
                        0 <= j < i && envelope_name(kept_envelope(#[trigger] envelopes@[j], number))
                            == n,
                forall|j: int|
                    0 <= j < i ==> !self@.envelopes.dom().contains(
                        envelope_name(kept_envelope(#[trigger] envelopes@[j], number)),
                    ),
                forall|j: int, k: int|
                    0 <= j < k < i ==> envelope_name(kept_envelope(#[trigger] envelopes@[j], number))
                        != envelope_name(kept_envelope(#[trigger] envelopes@[k], number)),
            decreases envelopes@.len() - i,
        {
            let envelope: &ContentKeyEnvelope = &envelopes[i];
            let name: EnvelopeName = EnvelopeName {
                epoch: number,
                recipient: envelope.recipient,
                head: envelope.head,
            };
            assert(name == envelope_name(kept_envelope(envelopes@[i as int], number)));
            if self.envelopes.contains_key(name) || seen.contains_key(name) {
                return true;
            }
            let ghost before = seen@;
            seen.insert(name, ());
            proof {
                assert forall|n: EnvelopeName| #[trigger]
                    seen@.dom().contains(n) <==> exists|j: int|
                        0 <= j < i + 1 && envelope_name(
                            kept_envelope(#[trigger] envelopes@[j], number),
                        ) == n by {
                    if before.dom().contains(n) {
                        let j = choose|j: int|
                            0 <= j < i && envelope_name(
                                kept_envelope(#[trigger] envelopes@[j], number),
                            ) == n;
                        assert(envelope_name(kept_envelope(envelopes@[j], number)) == n);
                    }
                    if exists|j: int|
                        0 <= j < i + 1 && envelope_name(
                            kept_envelope(#[trigger] envelopes@[j], number),
                        ) == n {
                        let j = choose|j: int|
                            0 <= j < i + 1 && envelope_name(
                                kept_envelope(#[trigger] envelopes@[j], number),
                            ) == n;
                        if j < i {
                            assert(before.dom().contains(n));
                        }
                    }
                }
            }
            i += 1;
        }
        false
    }

    /// Takes in a change of the membership with the content key of its epoch and the envelopes
    /// around the key: all of it, or nothing.
    pub fn persist_rotation(
        &mut self,
        signed: &SignedMembership,
        epoch: ContentEpoch,
        envelopes: Vec<ContentKeyEnvelope>,
    ) -> (verdict: Result<(), Fault>)
        requires
            old(self)@.well_formed(),
        ensures
            answers(verdict, old(self)@.rotation_verdict(*signed, epoch, envelopes@)),
            final(self)@ == old(self)@.rotated(*signed, epoch, envelopes@),
            final(self)@.well_formed(),
    {
        let revision: u64 = signed.update.revision;
        if !fits_storage(revision) {
            return Err(Fault::protocol("membership revision exceeds storage range"));
        }
        if !fits_storage(epoch.number) {
            return Err(Fault::protocol("content epoch exceeds storage range"));
        }
        let head: [u8; 32] = signed.head(self.community_id);
        if epoch.number != revision || !same_bytes(epoch.head.as_slice(), head.as_slice()) {
            return Err(Fault::protocol("content epoch is not bound to the membership operation"));
        }
        if revision == 0 {
            return Err(Fault::storage("membership revision is not positive"));
        }
        if self.at_revision(revision).is_some() {
            return Err(Fault::protocol("membership revision already exists"));
        }
        let name: EpochName = EpochName { number: epoch.number, head: epoch.head };
        if self.content_keys.contains_key(name) {
            return Err(Fault::storage("content key already exists"));
        }
        if self.would_clash(epoch.number, &envelopes) {
            return Err(Fault::storage("content key envelope already exists"));
        }
        proof {
            filed_history_in_order(self.history@, *signed);
        }
        file(&mut self.history, *signed);
        self.content_keys.insert(name, epoch.key);
        let ghost all = envelopes@;
        let ghost held = self.envelopes@;
        let mut rest: Vec<ContentKeyEnvelope> = envelopes;
        while rest.len() > 0
            invariant
                envelopes_with(held, epoch.number, all) == envelopes_with(
                    self.envelopes@,
                    epoch.number,
                    rest@,
                ),
                storable(epoch.number),
                self@.well_formed(),
                self@ == (ReplicaModel {
                    history: filed(old(self)@.history, *signed),
                    content_keys: old(self)@.content_keys.insert(epoch_name(epoch), epoch.key),
                    envelopes: self.envelopes@,
                    ..old(self)@
                }),
            decreases rest@.len(),
        {
            let ghost before = rest@;
            match rest.pop() {
                Some(envelope) => {
                    let kept: ContentKeyEnvelope = ContentKeyEnvelope {
                        epoch: epoch.number,
                        ..envelope
                    };
                    let name: EnvelopeName = EnvelopeName {
                        epoch: epoch.number,
                        recipient: kept.recipient,
                        head: kept.head,
                    };
                    assert(rest@ =~= before.drop_last());
                    let ghost previous = self@;
                    self.envelopes.insert(name, kept);
                    proof {
                        assert(self@ =~= (ReplicaModel {
                            envelopes: previous.envelopes.insert(name, kept),
                            ..previous
                        }));
                        assert(envelope_name(kept) == name);
                    }
                },
                None => {},
            }
        }
        assert(self@ =~= old(self)@.rotated(*signed, epoch, all));
        Ok(())
    }

    /// The revision that is in force, and the head of its membership.
    pub fn active_membership_head(&self) -> (active: (u64, [u8; 32]))
        ensures
            active.0 == self@.active_revision(),
            active.1@ == self@.active_head(),
            active.1 == array_with::<32>(self@.active_head()),
    {
        let (revision, head): (u64, [u8; 32]) = if self.history.len() == 0 {
            (0, genesis_head(self.community_id, self.owner))
        } else {
            let last: SignedMembership = self.history[self.history.len() - 1];
            (last.update.revision, last.head(self.community_id))
        };
        proof {
            array_with_is(head);
        }
        (revision, head)
    }

    /// Accepts content whose author was a participant under the membership that it names.
    pub fn authorize_epoch_author(&self, epoch: u64, head: &[u8; 32], author: MemberId) -> (verdict:
        Result<(), Fault>)
        ensures
            answers(verdict, self@.epoch_author_verdict(epoch, head@, author)),
    {
        if epoch == 0 {
            let genesis_head: [u8; 32] = genesis_head(self.community_id, self.owner);
            if !same_bytes(head.as_slice(), genesis_head.as_slice()) {
                return Err(Fault::protocol("content references an unknown genesis head"));
            }
            let founded: Community = Community::new(self.owner);
            return require_participant(&founded, author);
        }
        let mut prefix: Vec<SignedMembership> = Vec::new();
        let mut i: usize = 0;
        let mut found: bool = false;
        while i < self.history.len() && !found
            invariant
                i <= self.history@.len(),
                prefix@ == self.history@.take(i as int),
                forall|j: int|
                    0 <= j < (if found {
                        i - 1
                    } else {
                        i as int
                    }) ==> (#[trigger] self.history@[j]).update.revision != epoch,
                found ==> i > 0 && self.history@[i - 1].update.revision == epoch,
            decreases self.history@.len() - i + if found {
                0int
            } else {
                1int
            },
        {
            let signed: SignedMembership = self.history[i];
            prefix.push(signed);
            if signed.update.revision == epoch {
                found = true;
            }
            i += 1;
            assert(prefix@ =~= self.history@.take(i as int));
        }
        proof {
            steps_facts(self.history@, epoch);
            if !found {
                assert(prefix@ =~= self.history@);
            }
        }
        let community: Community = match replay(self.owner, &prefix) {
            Ok(community) => community,
            Err(error) => {
                return Err(Fault::refused(error));
            },
        };
        if !found {
            return Err(Fault::protocol("content references an unknown membership epoch"));
        }
        let named: [u8; 32] = self.history[i - 1].head(self.community_id);
        if !same_bytes(named.as_slice(), head.as_slice()) {
            return Err(Fault::protocol("content references a non-canonical membership head"));
        }
        require_participant(&community, author)
    }

    /// The content key of the membership that is in force.
    pub fn active_content_epoch(&self) -> (epoch: Option<ContentEpoch>)
        ensures
            epoch == self@.active_epoch(),
    {
        let (number, head): (u64, [u8; 32]) = self.active_membership_head();
        match self.content_keys.get(EpochName { number, head }) {
            Some(key) => Some(ContentEpoch { number, head, key: *key }),
            None => None,
        }
    }

    /// Whether any content key is held.
    pub fn has_content_keys(&self) -> (held: bool)
        ensures
            held == (self@.content_keys.dom().len() > 0),
            self@.content_keys.dom().finite(),
    {
        self.content_keys.len() > 0
    }

    /// The content key of an epoch.
    pub fn content_key(&self, epoch: u64, head: &[u8; 32]) -> (key: Result<
        Option<[u8; 32]>,
        Fault,
    >)
        ensures
            answers(key, self@.content_key(epoch, *head)),
    {
        if !fits_storage(epoch) {
            return Err(Fault::protocol("content epoch exceeds storage range"));
        }
        match self.content_keys.get(EpochName { number: epoch, head: *head }) {
            Some(key) => Ok(Some(*key)),
            None => Ok(None),
        }
    }

    /// Takes in a content key.
    pub fn insert_content_key(&mut self, epoch: ContentEpoch) -> (verdict: Result<(), Fault>)
        requires
            old(self)@.well_formed(),
        ensures
            answers(verdict, old(self)@.content_key_verdict(epoch)),
            final(self)@ == old(self)@.content_key_added(epoch),
            final(self)@.well_formed(),
    {
        if !fits_storage(epoch.number) {
            return Err(Fault::protocol("content epoch exceeds storage range"));
        }
        let name: EpochName = EpochName { number: epoch.number, head: epoch.head };
        if let Some(key) = self.content_keys.get(name) {
            return if same_bytes(key.as_slice(), epoch.key.as_slice()) {
                Ok(())
            } else {
                Err(Fault::protocol("content epoch identifies a different key"))
            };
        }
        self.content_keys.insert(name, epoch.key);
        assert(self@ =~= old(self)@.content_key_added(epoch));
        Ok(())
    }

    /// The envelope of an epoch for a recipient.
    pub fn content_key_envelope(&self, epoch: u64, head: &[u8; 32], recipient: MemberId) -> (
    envelope: Result<Option<&ContentKeyEnvelope>, Fault>)
        ensures
            match envelope {
                Ok(Some(envelope)) => self@.envelope_for(epoch, *head, recipient) == Ok::<
                    Option<ContentKeyEnvelope>,
                    FaultModel,
                >(Some(*envelope)),
                Ok(None) => self@.envelope_for(epoch, *head, recipient) == Ok::<
                    Option<ContentKeyEnvelope>,
                    FaultModel,
                >(None),
                Err(fault) => self@.envelope_for(epoch, *head, recipient) == Err::<
                    Option<ContentKeyEnvelope>,
                    FaultModel,
                >(fault@),
            },
    {
        if !fits_storage(epoch) {
            return Err(Fault::protocol("content epoch exceeds storage range"));
        }
        Ok(self.envelopes.get(EnvelopeName { epoch, recipient, head: *head }))
    }

    /// Takes in an envelope. The answer says whether it is new.
    pub fn insert_content_key_envelope(&mut self, envelope: ContentKeyEnvelope) -> (verdict: Result<
        bool,
        Fault,
    >)
        requires
            old(self)@.well_formed(),
        ensures
            answers(verdict, old(self)@.envelope_verdict(envelope)),
            final(self)@ == old(self)@.envelope_added(envelope),
            final(self)@.well_formed(),
    {
        if !fits_storage(envelope.epoch) {
            return Err(Fault::protocol("content epoch exceeds storage range"));
        }
        let name: EnvelopeName = EnvelopeName {
            epoch: envelope.epoch,
            recipient: envelope.recipient,
            head: envelope.head,
        };
        if let Some(stored) = self.envelopes.get(name) {
            proof {
                assert(self@.envelopes.dom().contains(name));
                assert(envelope_name(*stored) == name);
                assert(stored@ == envelope@ <==> stored.encapsulated_key@
                    == envelope.encapsulated_key@ && stored.ciphertext@ == envelope.ciphertext@
                    && stored.signature@ == envelope.signature@);
            }
            return if stored.seals_alike(&envelope) {
                Ok(false)
            } else {
                Err(Fault::protocol("content epoch identifies a different recipient envelope"))
            };
        }
        self.envelopes.insert(name, envelope);
        assert(self@ =~= old(self)@.envelope_added(envelope));
        Ok(true)
    }

    /// The registration of a member.
    pub fn key_registration(&self, member: MemberId) -> (registration: Option<KeyRegistration>)
        ensures
            registration == self@.registration(member),
    {
        match self.registrations.get(member) {
            Some(registration) => Some(*registration),
            None => None,
        }
    }

    /// Takes in a registration. The answer says whether it is new.
    pub fn insert_key_registration(&mut self, registration: &KeyRegistration) -> (verdict: Result<
        bool,
        Fault,
    >)
        requires
            old(self)@.well_formed(),
        ensures
            answers(verdict, old(self)@.registration_verdict(*registration)),
            final(self)@ == old(self)@.registration_added(*registration),
            final(self)@.well_formed(),
    {
        if let Some(stored) = self.registrations.get(registration.member) {
            return if same_bytes(stored.public_key.as_slice(), registration.public_key.as_slice())
                && same_bytes(stored.signature.as_slice(), registration.signature.as_slice()) {
                Ok(false)
            } else {
                Err(Fault::protocol("member already registered a different encryption key"))
            };
        }
        self.registrations.insert(registration.member, *registration);
        assert(self@ =~= old(self)@.registration_added(*registration));
        Ok(true)
    }

    /// The channel with this name.
    pub fn channel(&self, id: ChannelId) -> (channel: Option<&Channel>)
        ensures
            match channel {
                Some(channel) => self@.channels.dom().contains(id) && *channel
                    == self@.channels[id].channel,
                None => !self@.channels.dom().contains(id),
            },
    {
        match self.channels.get(id) {
            Some(signed) => Some(&signed.channel),
            None => None,
        }
    }

    /// Takes in a channel. The answer says whether it is new.
    pub fn insert_channel(&mut self, signed: SignedCreateChannel) -> (verdict: Result<bool, Fault>)
        requires
            old(self)@.well_formed(),
        ensures
            answers(verdict, old(self)@.channel_verdict(signed)),
            final(self)@ == old(self)@.channel_added(signed),
            final(self)@.well_formed(),
    {
        let id: ChannelId = signed.channel.id();
        if let Some(stored) = self.channel(id) {
            return if stored.same(&signed.channel) {
                Ok(false)
            } else {
                Err(Fault::protocol("channel id already exists"))
            };
        }
        self.channels.insert(id, signed);
        assert(self@ =~= old(self)@.channel_added(signed));
        Ok(true)
    }

    /// Files a text that was stored in the clear.
    pub fn insert_legacy_text(&mut self, signed: SignedText)
        requires
            old(self)@.well_formed(),
        ensures
            final(self)@ == (ReplicaModel {
                legacy_texts: filed(old(self)@.legacy_texts, signed),
                ..old(self)@
            }),
            final(self)@.well_formed(),
    {
        file(&mut self.legacy_texts, signed);
        assert(self@ =~= (ReplicaModel {
            legacy_texts: filed(old(self)@.legacy_texts, signed),
            ..old(self)@
        }));
    }

    /// Takes in a text. The answer says whether it is new.
    pub fn insert_encrypted(&mut self, text: EncryptedText) -> (verdict: Result<bool, Fault>)
        requires
            old(self)@.well_formed(),
        ensures
            answers(verdict, old(self)@.text_verdict(text)),
            final(self)@ == old(self)@.text_added(text),
            final(self)@.well_formed(),
    {
        if !fits_storage(text.epoch) {
            return Err(Fault::protocol("content epoch exceeds storage range"));
        }
        let name: ContentName = ContentName { author: text.author, id: text.id };
        if let Some(stored) = self.texts.get(name) {
            return if stored.same(&text) {
                Ok(false)
            } else {
                Err(
                    Fault::protocol(
                        "message id already identifies a different encrypted operation",
                    ),
                )
            };
        }
        self.texts.insert(name, text);
        assert(self@ =~= old(self)@.text_added(text));
        Ok(true)
    }

    /// Takes in an attachment. The answer says whether it is new.
    pub fn insert_encrypted_attachment(&mut self, attachment: EncryptedAttachment) -> (verdict:
        Result<bool, Fault>)
        requires
            old(self)@.well_formed(),
        ensures
            answers(verdict, old(self)@.attachment_verdict(attachment)),
            final(self)@ == old(self)@.attachment_added(attachment),
            final(self)@.well_formed(),
    {
        let name: ContentName = ContentName { author: attachment.author, id: attachment.id };
        if self.forgotten.contains_key(name) {
            return Ok(false);
        }
        if !fits_storage(attachment.epoch) {
            return Err(Fault::protocol("content epoch exceeds storage range"));
        }
        if let Some(stored) = self.attachments.get(name) {
            return if stored.same(&attachment) {
                Ok(false)
            } else {
                Err(Fault::protocol("attachment id already identifies a different operation"))
            };
        }
        self.attachments.insert(name, attachment);
        assert(self@ =~= old(self)@.attachment_added(attachment));
        Ok(true)
    }

    /// Forgets an attachment for good.
    pub fn forget_attachment(&mut self, author: MemberId, id: MessageId)
        requires
            old(self)@.well_formed(),
        ensures
            final(self)@ == old(self)@.attachment_forgotten(author, id),
            final(self)@.well_formed(),
    {
        let name: ContentName = ContentName { author, id };
        self.forgotten.insert(name, ());
        self.attachments.remove(name);
        assert(self@ =~= old(self)@.attachment_forgotten(author, id));
    }

    /// The encrypted display name of a member.
    pub fn member_profile(&self, member: MemberId) -> (profile: Option<&EncryptedMemberProfile>)
        ensures
            match profile {
                Some(profile) => self@.profiles.dom().contains(member) && *profile
                    == self@.profiles[member],
                None => !self@.profiles.dom().contains(member),
            },
    {
        self.profiles.get(member)
    }

    /// The revision of a member's next display name.
    pub fn next_member_profile_revision(&self, member: MemberId) -> (revision: u64)
        requires
            self@.well_formed(),
        ensures
            revision == self@.next_profile_revision(member),
    {
        match self.profiles.get(member) {
            Some(profile) => {
                assert(self@.profiles.dom().contains(member));
                profile.revision + 1
            },
            None => 1,
        }
    }

    /// Takes in a display name. The answer says whether it is newer than the one that was held.
    pub fn insert_member_profile(&mut self, profile: EncryptedMemberProfile) -> (verdict: Result<
        bool,
        Fault,
    >)
        requires
            old(self)@.well_formed(),
        ensures
            answers(verdict, old(self)@.profile_verdict(profile)),
            final(self)@ == old(self)@.profile_added(profile),
            final(self)@.well_formed(),
    {
        if let Some(stored) = self.profiles.get(profile.member) {
            if stored.revision > profile.revision {
                return Ok(false);
            }
            if stored.revision == profile.revision {
                return if stored.same(&profile) {
                    Ok(false)
                } else {
                    Err(Fault::protocol("member equivocated at a profile revision"))
                };
            }
        }
        if !fits_storage(profile.revision) {
            return Err(Fault::protocol("member profile revision exceeds storage range"));
        }
        if !fits_storage(profile.epoch) {
            return Err(Fault::protocol("content epoch exceeds storage range"));
        }
        if profile.revision == 0 {
            return Err(Fault::storage("member profile revision is not positive"));
        }
        let member: MemberId = profile.member;
        self.profiles.insert(member, profile);
        assert(self@ =~= old(self)@.profile_added(profile));
        Ok(true)
    }

    /// Up to where a channel was read.
    pub fn last_read(&self, channel: ChannelId) -> (cursor: Option<MessageId>)
        ensures
            cursor == (if self@.cursors.dom().contains(channel) {
                Some(self@.cursors[channel])
            } else {
                None
            }),
    {
        match self.cursors.get(channel) {
            Some(id) => Some(*id),
            None => None,
        }
    }

    fn has_item(&self, channel: ChannelId, id: MessageId) -> (has: bool)
        requires
            self@.well_formed(),
        ensures
            has == self@.has_item(channel, id),
    {
        let mut i: usize = 0;
        while i < self.legacy_texts.len()
            invariant
                i <= self.legacy_texts@.len(),
                forall|j: int|
                    0 <= j < i ==> !is_text_at(#[trigger] self.legacy_texts@[j], channel, id),
            decreases self.legacy_texts@.len() - i,
        {
            let text: &SignedText = &self.legacy_texts[i];
            if text.authored.message.id() == id && text.authored.message.channel_id() == channel {
                assert(is_text_at(self@.legacy_texts[i as int], channel, id));
                return true;
            }
            i += 1;
        }
        let texts: usize = self.texts.len();
        let mut k: usize = 0;
        while k < texts
            invariant
                k <= texts,
                texts == self.texts.keys().len(),
                self.texts.consistent(),
                forall|j: int|
                    0 <= j < k ==> !((#[trigger] self.texts.keys()[j]).id == id
                        && self.texts.values()[j].channel_id == channel),
            decreases texts - k,
        {
            let name: ContentName = self.texts.key_at(k);
            let text: &EncryptedText = self.texts.value_at(k);
            if name.id == id && text.channel_id == channel {
                assert(self@.texts.dom().contains(name));
                return true;
            }
            k += 1;
        }
        let attachments: usize = self.attachments.len();
        let mut k: usize = 0;
        while k < attachments
            invariant
                k <= attachments,
                attachments == self.attachments.keys().len(),
                self.attachments.consistent(),
                forall|j: int|
                    0 <= j < k ==> !((#[trigger] self.attachments.keys()[j]).id == id
                        && self.attachments.values()[j].channel_id == channel),
            decreases attachments - k,
        {
            let name: ContentName = self.attachments.key_at(k);
            let attachment: &EncryptedAttachment = self.attachments.value_at(k);
            if name.id == id && attachment.channel_id == channel {
                assert(self@.attachments.dom().contains(name));
                return true;
            }
            k += 1;
        }
        proof {
            if self@.has_item(channel, id) {
                if exists|n: ContentName| #[trigger]
                    self@.texts.dom().contains(n) && n.id == id && self@.texts[n].channel_id
                        == channel {
                    let n = choose|n: ContentName| #[trigger]
                        self@.texts.dom().contains(n) && n.id == id && self@.texts[n].channel_id
                            == channel;
                    let j = self.texts.keys().index_of(n);
                    assert(self.texts.keys()[j] == n);
                } else if exists|n: ContentName| #[trigger]
                    self@.attachments.dom().contains(n) && n.id == id
                        && self@.attachments[n].channel_id == channel {
                    let n = choose|n: ContentName| #[trigger]
                        self@.attachments.dom().contains(n) && n.id == id
                            && self@.attachments[n].channel_id == channel;
                    let j = self.attachments.keys().index_of(n);
                    assert(self.attachments.keys()[j] == n);
                }
            }
        }
        false
    }

    /// Remembers up to where a channel was read. A cursor names an item of the channel and only
    /// moves forward.
    pub fn set_last_read(&mut self, channel: ChannelId, message: MessageId) -> (verdict: Result<
        (),
        Fault,
    >)
        requires
            old(self)@.well_formed(),
        ensures
            match verdict {
                Ok(()) => old(self)@.has_item(channel, message) && final(self)@
                    == old(self)@.cursor_set(channel, message),
                Err(fault) => !old(self)@.has_item(channel, message) && final(self)@ == old(self)@
                    && fault@ == protocol_fault(
                    "read cursor does not identify a stored item in the channel"@,
                ),
            },
            final(self)@.well_formed(),
    {
        if !self.has_item(channel, message) {
            return Err(
                Fault::protocol("read cursor does not identify a stored item in the channel"),
            );
        }
        self.restore_cursor(channel, message);
        Ok(())
    }

    /// Takes in a cursor that was stored.
    pub fn restore_cursor(&mut self, channel: ChannelId, message: MessageId)
        requires
            old(self)@.well_formed(),
        ensures
            final(self)@ == old(self)@.cursor_set(channel, message),
            final(self)@.well_formed(),
    {
        if let Some(cursor) = self.cursors.get(channel) {
            if !cursor.stands_before(&message) {
                return ;
            }
        }
        self.cursors.insert(channel, message);
        assert(self@ =~= old(self)@.cursor_set(channel, message));
    }

    /// The registrations.
    pub fn key_registrations(&self) -> (registrations: &SortedMap<MemberId, KeyRegistration>)
        ensures
            registrations@ == self@.registrations,
    {
        &self.registrations
    }

    /// The envelopes.
    pub fn content_key_envelopes(&self) -> (envelopes: &SortedMap<
        EnvelopeName,
        ContentKeyEnvelope,
    >)
        ensures
            envelopes@ == self@.envelopes,
    {
        &self.envelopes
    }

    /// The content keys.
    pub fn content_keys(&self) -> (keys: &SortedMap<EpochName, [u8; 32]>)
        ensures
            keys@ == self@.content_keys,
    {
        &self.content_keys
    }

    /// The channels.
    pub fn signed_channels(&self) -> (channels: &SortedMap<ChannelId, SignedCreateChannel>)
        ensures
            channels@ == self@.channels,
    {
        &self.channels
    }

    /// The texts that were stored in the clear.
    pub fn signed_messages(&self) -> (texts: &Vec<SignedText>)
        ensures
            texts@ == self@.legacy_texts,
    {
        &self.legacy_texts
    }

    /// The texts.
    pub fn encrypted_messages(&self) -> (texts: &SortedMap<ContentName, EncryptedText>)
        ensures
            texts@ == self@.texts,
    {
        &self.texts
    }

    /// The attachments.
    pub fn encrypted_attachments(&self) -> (attachments: &SortedMap<
        ContentName,
        EncryptedAttachment,
    >)
        ensures
            attachments@ == self@.attachments,
    {
        &self.attachments
    }

    /// The names of the attachments that were forgotten.
    pub fn forgotten_attachments(&self) -> (names: &SortedMap<ContentName, ()>)
        ensures
            names@.dom() == self@.forgotten,
    {
        &self.forgotten
    }

    /// The encrypted display names.
    pub fn member_profiles(&self) -> (profiles: &SortedMap<MemberId, EncryptedMemberProfile>)
        ensures
            profiles@ == self@.profiles,
    {
        &self.profiles
    }

    /// Up to where channels were read.
    pub fn cursors(&self) -> (cursors: &SortedMap<ChannelId, MessageId>)
        ensures
            cursors@ == self@.cursors,
    {
        &self.cursors
    }

    /// Which texts are held.
    pub fn encrypted_text_inventory(&self) -> (inventory: SortedMap<TextIdentity, ()>)
        requires
            self@.well_formed(),
        ensures
            forall|name: TextIdentity| #[trigger]
                inventory@.dom().contains(name) <==> self@.texts.dom().contains(
                    ContentName { author: name.author, id: name.id },
                ),
    {
        let length: usize = self.texts.len();
        let mut inventory: SortedMap<TextIdentity, ()> = SortedMap::new();
        let mut i: usize = 0;
        while i < length
            invariant
                i <= length,
                length == self.texts.keys().len(),
                self.texts.consistent(),
                forall|name: TextIdentity| #[trigger]
                    inventory@.dom().contains(name) <==> self.texts.keys().take(i as int).contains(
                        ContentName { author: name.author, id: name.id },
                    ),
            decreases length - i,
        {
            let name: ContentName = self.texts.key_at(i);
            let ghost before = inventory@;
            inventory.insert(TextIdentity { author: name.author, id: name.id }, ());
            proof {
                let (now, earlier) = (
                    self.texts.keys().take(i + 1),
                    self.texts.keys().take(i as int),
                );
                assert(now =~= earlier.push(name));
                assert forall|other: TextIdentity| #[trigger]
                    inventory@.dom().contains(other) <==> now.contains(
                        ContentName { author: other.author, id: other.id },
                    ) by {
                    let wanted = ContentName { author: other.author, id: other.id };
                    if earlier.contains(wanted) {
                        let k = earlier.index_of(wanted);
                        assert(now[k] == wanted);
                    }
                    if wanted == name {
                        assert(now[i as int] == wanted);
                    }
                    if now.contains(wanted) && wanted != name {
                        let k = now.index_of(wanted);
                        assert(earlier[k] == wanted);
                    }
                }
            }
            i += 1;
        }
        assert(self.texts.keys().take(i as int) =~= self.texts.keys());
        inventory
    }
}

proof fn step_of(history: Seq<SignedMembership>, k: int)
    requires
        0 <= k < history.len(),
        forall|i: int, j: int|
            0 <= i < j < history.len() ==> history[i].update.revision < history[j].update.revision,
    ensures
        steps_to(history, history[k].update.revision) == Some(k + 1),
        at_revision(history, history[k].update.revision) == Some(history[k]),
    decreases history.len(),
{
    let before = history.drop_last();
    assert forall|i: int, j: int| 0 <= i < j < before.len() implies before[i].update.revision
        < before[j].update.revision by {
        assert(history[i].update.revision < history[j].update.revision);
    }
    if k < before.len() {
        step_of(before, k);
        assert(before[k] == history[k]);
        assert(history[k].update.revision < history[history.len() - 1].update.revision);
    } else {
        no_step_to(before, history[k].update.revision);
    }
}

proof fn no_step_to(history: Seq<SignedMembership>, revision: u64)
    requires
        forall|i: int| 0 <= i < history.len() ==> history[i].update.revision < revision,
    ensures
        steps_to(history, revision) is None,
        at_revision(history, revision) is None,
    decreases history.len(),
{
    if history.len() > 0 {
        let before = history.drop_last();
        assert forall|i: int| 0 <= i < before.len() implies before[i].update.revision
            < revision by {
            assert(history[i].update.revision < revision);
        }
        no_step_to(before, revision);
        assert(history[history.len() - 1].update.revision < revision);
    }
}

/// Content counts where its author participated under the membership that it names: at the
/// founding the owner alone, and after each change of the history whoever participated then.
pub proof fn authors_participated_at_the_time(
    replica: ReplicaModel,
    author: MemberId,
    head: Seq<u8>,
    k: int,
)
    requires
        replica.well_formed(),
    ensures
        replica.epoch_author_verdict(0, head, author) is Ok <==> head == genesis(
            replica.community_id,
            replica.owner,
        ) && author == replica.owner,
        0 <= k < replica.history.len() ==> (replica.epoch_author_verdict(
            replica.history[k].update.revision,
            head,
            author,
        ) is Ok <==> {
            &&& head == membership_head(replica.community_id, replica.history[k])
            &&& replayed(replica.owner, replica.history.take(k + 1)) matches Ok(community)
                && community.members.dom().contains(author)
                && community.members[author] is Participant
        }),
{
    if 0 <= k < replica.history.len() {
        assert(1 <= replica.history[k].update.revision);
        step_of(replica.history, k);
    }
}

/// The membership in force is the last of the history, or the founding where there is none, and its
/// content key is the one that is held under its number and its digest.
pub proof fn the_last_membership_is_in_force(replica: ReplicaModel, name: EpochName)
    requires
        replica.well_formed(),
    ensures
        replica.history.len() == 0 ==> replica.active_revision() == 0 && replica.active_head()
            == genesis(replica.community_id, replica.owner) && replica.next_revision() == 1,
        forall|k: int|
            0 <= k < replica.history.len() ==> (#[trigger] replica.history[k]).update.revision
                <= replica.active_revision() && replica.history[k].update.revision
                < replica.next_revision(),
        replica.history.len() > 0 ==> replica.active_revision()
            == replica.history.last().update.revision && replica.active_head() == membership_head(
            replica.community_id,
            replica.history.last(),
        ) && replica.next_revision() == replica.history.last().update.revision + 1,
        name.number == replica.active_revision() && name.head@ == replica.active_head() ==> match replica.active_epoch() {
            Some(epoch) => replica.content_keys.dom().contains(name) && epoch.number == name.number
                && epoch.head == name.head && epoch.key == replica.content_keys[name],
            None => !replica.content_keys.dom().contains(name),
        },
{
    array_with_is::<32>(name.head);
    assert forall|k: int| 0 <= k < replica.history.len() implies (
    #[trigger] replica.history[k]).update.revision <= replica.active_revision()
        && replica.history[k].update.revision < replica.next_revision() by {
        if k < replica.history.len() - 1 {
            assert(replica.history[k].update.revision < replica.history[replica.history.len()
                - 1].update.revision);
        }
    }
}

proof fn envelopes_are_held(
    held: Map<EnvelopeName, ContentKeyEnvelope>,
    number: u64,
    envelopes: Seq<ContentKeyEnvelope>,
)
    requires
        forall|i: int|
            0 <= i < envelopes.len() ==> !held.dom().contains(
                envelope_name(kept_envelope(#[trigger] envelopes[i], number)),
            ),
        forall|i: int, j: int|
            0 <= i < j < envelopes.len() ==> envelope_name(
                kept_envelope(#[trigger] envelopes[i], number),
            ) != envelope_name(kept_envelope(#[trigger] envelopes[j], number)),
    ensures
        forall|n: EnvelopeName| #[trigger]
            held.dom().contains(n) ==> envelopes_with(held, number, envelopes).dom().contains(n)
                && envelopes_with(held, number, envelopes)[n] == held[n],
        forall|i: int|
            0 <= i < envelopes.len() ==> {
                let kept = kept_envelope(#[trigger] envelopes[i], number);
                envelopes_with(held, number, envelopes).dom().contains(envelope_name(kept))
                    && envelopes_with(held, number, envelopes)[envelope_name(kept)] == kept
            },
    decreases envelopes.len(),
{
    if envelopes.len() > 0 {
        let last = kept_envelope(envelopes.last(), number);
        let before = envelopes.drop_last();
        let more = held.insert(envelope_name(last), last);
        assert(envelopes[envelopes.len() - 1] == envelopes.last());
        assert forall|i: int| 0 <= i < before.len() implies !more.dom().contains(
            envelope_name(kept_envelope(#[trigger] before[i], number)),
        ) by {
            assert(before[i] == envelopes[i]);
        }
        assert forall|i: int, j: int| 0 <= i < j < before.len() implies envelope_name(
            kept_envelope(#[trigger] before[i], number),
        ) != envelope_name(kept_envelope(#[trigger] before[j], number)) by {
            assert(before[i] == envelopes[i] && before[j] == envelopes[j]);
        }
        envelopes_are_held(more, number, before);
        let all = envelopes_with(held, number, envelopes);
        assert forall|n: EnvelopeName| #[trigger] held.dom().contains(n) implies all.dom().contains(
            n,
        ) && all[n] == held[n] by {
            assert(more.dom().contains(n));
        }
        assert forall|i: int| 0 <= i < envelopes.len() implies {
            let kept = kept_envelope(#[trigger] envelopes[i], number);
            all.dom().contains(envelope_name(kept)) && all[envelope_name(kept)] == kept
        } by {
            if i < before.len() {
                assert(before[i] == envelopes[i]);
            } else {
                assert(more.dom().contains(envelope_name(last)));
            }
        }
    }
}

/// A rotation that is accepted adds its change to the history, its content key and its envelopes,
/// loses nothing of what was held of these, and leaves everything else; one that is refused changes
/// nothing.
pub proof fn rotations_add_to_what_is_held(
    replica: ReplicaModel,
    signed: SignedMembership,
    epoch: ContentEpoch,
    envelopes: Seq<ContentKeyEnvelope>,
    i: int,
    name: EnvelopeName,
    other: EpochName,
)
    requires
        replica.rotation_verdict(signed, epoch, envelopes) is Ok,
    ensures
        ({
            let after = replica.rotated(signed, epoch, envelopes);
            &&& after.history.contains(signed)
            &&& after.history.len() == replica.history.len() + 1
            &&& after.content_keys[EpochName { number: epoch.number, head: epoch.head }]
                == epoch.key
            &&& after.content_keys.dom().contains(
                EpochName { number: epoch.number, head: epoch.head },
            )
            &&& replica.content_keys.dom().contains(other) ==> after.content_keys.dom().contains(
                other,
            ) && after.content_keys[other] == replica.content_keys[other]
            &&& replica.envelopes.dom().contains(name) ==> after.envelopes.dom().contains(name)
                && after.envelopes[name] == replica.envelopes[name]
            &&& 0 <= i < envelopes.len() ==> ({
                let own = EnvelopeName {
                    epoch: epoch.number,
                    recipient: envelopes[i].recipient,
                    head: envelopes[i].head,
                };
                after.envelopes.dom().contains(own) && after.envelopes[own].ciphertext
                    == envelopes[i].ciphertext && after.envelopes[own].encapsulated_key
                    == envelopes[i].encapsulated_key && after.envelopes[own].signature
                    == envelopes[i].signature
            })
            &&& after == (ReplicaModel {
                history: after.history,
                content_keys: after.content_keys,
                envelopes: after.envelopes,
                ..replica
            })
        }),
{
    let after = replica.rotated(signed, epoch, envelopes);
    slot_in(replica.history, signed);
    let s = slot(replica.history, signed);
    assert(after.history[s] == signed);
    envelopes_are_held(replica.envelopes, epoch.number, envelopes);
    if 0 <= i < envelopes.len() {
        let kept = kept_envelope(envelopes[i], epoch.number);
        assert(after.envelopes.dom().contains(envelope_name(kept)));
    }
}

proof fn slot_in(list: Seq<SignedMembership>, item: SignedMembership)
    ensures
        0 <= slot(list, item) <= list.len(),
    decreases list.len(),
{
    if list.len() > 0 {
        slot_in(list.drop_last(), item);
    }
}

/// Keys, envelopes, registrations and channels are kept the first time that they come, and a
/// different one under a name that is taken is refused and changes nothing.
pub proof fn what_came_first_is_kept(
    replica: ReplicaModel,
    epoch: ContentEpoch,
    envelope: ContentKeyEnvelope,
    registration: KeyRegistration,
    channel: SignedCreateChannel,
)
    requires
        epoch.number <= i64::MAX,
        envelope.epoch <= i64::MAX,
    ensures
        ({
            let name = EpochName { number: epoch.number, head: epoch.head };
            let held = replica.content_keys.dom().contains(name);
            &&& !held ==> replica.content_key_added(epoch).content_keys
                == replica.content_keys.insert(name, epoch.key)
            &&& held ==> replica.content_key_added(epoch) == replica
            &&& replica.content_key_verdict(epoch) is Ok <==> !held
                || replica.content_keys[name]@ == epoch.key@
        }),
        ({
            let name = EnvelopeName {
                epoch: envelope.epoch,
                recipient: envelope.recipient,
                head: envelope.head,
            };
            let held = replica.envelopes.dom().contains(name);
            &&& !held ==> replica.envelope_added(envelope).envelopes == replica.envelopes.insert(
                name,
                envelope,
            )
            &&& held ==> replica.envelope_added(envelope) == replica
            &&& replica.envelope_verdict(envelope) is Ok <==> !held || replica.envelopes[name]@
                == envelope@
        }),
        ({
            let held = replica.registrations.dom().contains(registration.member);
            &&& !held ==> replica.registration_added(registration).registrations
                == replica.registrations.insert(registration.member, registration)
            &&& held ==> replica.registration_added(registration) == replica
            &&& replica.registration_verdict(registration) is Ok <==> !held || (
            replica.registrations[registration.member].public_key@ == registration.public_key@
                && replica.registrations[registration.member].signature@ == registration.signature@)
        }),
        ({
            let id = channel.channel@.id;
            let held = replica.channels.dom().contains(id);
            &&& !held ==> replica.channel_added(channel).channels == replica.channels.insert(
                id,
                channel,
            )
            &&& held ==> replica.channel_added(channel) == replica
            &&& replica.channel_verdict(channel) is Ok <==> !held || replica.channels[id].channel@
                == channel.channel@
        }),
{
}

/// Texts and attachments are kept the first time that they come, and a different one under a name
/// that is taken is refused and changes nothing.
pub proof fn content_that_came_first_is_kept(
    replica: ReplicaModel,
    text: EncryptedText,
    attachment: EncryptedAttachment,
)
    requires
        text.epoch <= i64::MAX,
        attachment.epoch <= i64::MAX,
    ensures
        ({
            let name = ContentName { author: text.author, id: text.id };
            let held = replica.texts.dom().contains(name);
            &&& !held ==> replica.text_added(text).texts == replica.texts.insert(name, text)
            &&& held ==> replica.text_added(text) == replica
            &&& replica.text_verdict(text) is Ok <==> !held || replica.texts[name]@ == text@
        }),
        ({
            let name = ContentName { author: attachment.author, id: attachment.id };
            let held = replica.attachments.dom().contains(name);
            let forgotten = replica.forgotten.contains(name);
            let after = replica.attachment_added(attachment);
            &&& !held && !forgotten ==> after.attachments == replica.attachments.insert(
                name,
                attachment,
            )
            &&& held || forgotten ==> after == replica
            &&& replica.attachment_verdict(attachment) is Ok <==> forgotten || !held
                || replica.attachments[name]@ == attachment@
            &&& after == (ReplicaModel { attachments: after.attachments, ..replica })
        }),
{
}

} // verus!
