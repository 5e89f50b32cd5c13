//! Who belongs to a community: its owner, the members that the owner admits, and the signed
//! changes that carry the owner's decisions.

use vstd::prelude::*;
use vstd::utf8::encode_utf8;

use std::cmp::Ordering;

use crate::bytes::{
    append, be64, be64_injective, byte_order, byte_ordering, lexicographically_before, order_bytes,
    same_bytes, to_be64, to_vec, ByteOrder,
};
use crate::primitives::{
    blake3_digest, blake3_hash, ed25519_objection, ed25519_sign, ed25519_signature, ed25519_verify,
    random_32,
};
use crate::sorted::{ascending, ByteKey, SortedMap};

verus! {

/// Names a community.
#[derive(Clone, Copy, Debug, Eq, Hash, Ord)]
pub struct CommunityId(pub [u8; 32]);

impl View for CommunityId {
    type V = Seq<u8>;

    open spec fn view(&self) -> Seq<u8> {
        self.0@
    }
}

impl PartialEq for CommunityId {
    fn eq(&self, other: &Self) -> (same: bool) {
        let same: bool = same_bytes(self.0.as_slice(), other.0.as_slice());
        assert(same ==> self.0 =~= other.0);
        same
    }
}

impl vstd::std_specs::cmp::PartialEqSpecImpl for CommunityId {
    open spec fn obeys_eq_spec() -> bool {
        true
    }

    open spec fn eq_spec(&self, other: &Self) -> bool {
        *self == *other
    }
}

impl PartialOrd for CommunityId {
    fn partial_cmp(&self, other: &Self) -> (ordering: Option<Ordering>) {
        Some(order_bytes(self.0.as_slice(), other.0.as_slice()))
    }
}

impl vstd::std_specs::cmp::PartialOrdSpecImpl for CommunityId {
    open spec fn obeys_partial_cmp_spec() -> bool {
        true
    }

    open spec fn partial_cmp_spec(&self, other: &Self) -> Option<Ordering> {
        Some(byte_ordering(self@, other@))
    }
}

/// A community's name is its bytes: names with the same bytes are the same, and names are ordered as
/// their bytes are.
pub proof fn community_ids_are_their_bytes(a: [u8; 32], b: [u8; 32])
    ensures
        CommunityId(a)@ == a@,
        CommunityId(a) == CommunityId(b) <==> a@ == b@,
        vstd::std_specs::cmp::PartialOrdSpec::partial_cmp_spec(&CommunityId(a), &CommunityId(b))
            == Some(Ordering::Less) <==> lexicographically_before(a@, b@),
{
    if a@ == b@ {
        assert(a =~= b);
    }
    if lexicographically_before(a@, b@) {
        let i = choose|i: int|
            0 <= i < a@.len() && #[trigger] a@[i] < b@[i] && a@.take(i) == b@.take(i);
        assert(a@[i] != b@[i]);
    }
}

/// What the name of a community from before community names is derived from.
pub open spec fn legacy_community_input(owner: MemberId) -> Seq<u8> {
    encode_utf8("peer-community/legacy-community/v1\0"@) + owner@
}

/// The name of the community that `owner` founded before communities had names of their own.
pub open spec fn legacy_community(owner: MemberId) -> Seq<u8> {
    blake3_digest(legacy_community_input(owner))
}

impl CommunityId {
    /// A name drawn at random.
    pub fn generate() -> (id: Self) {
        CommunityId(random_32())
    }

    /// The name with these bytes.
    pub fn from_bytes(bytes: [u8; 32]) -> (id: Self)
        ensures
            id == CommunityId(bytes),
    {
        CommunityId(bytes)
    }

    /// The bytes of the name.
    pub fn as_bytes(&self) -> (bytes: &[u8; 32])
        ensures
            *bytes == self.0,
            bytes@ == self@,
    {
        &self.0
    }

    /// The name of the community that `owner` founded before communities had names of their own.
    pub fn legacy(owner: MemberId) -> (id: Self)
        ensures
            id@ == legacy_community(owner),
    {
        let mut input: Vec<u8> = to_vec("peer-community/legacy-community/v1\0".as_bytes());
        append(&mut input, owner.0.as_slice());
        CommunityId(blake3_hash(input.as_slice()))
    }
}

/// Names a member: the public key of the member's identity.
#[derive(Clone, Copy, Debug, Eq, Hash, Ord)]
pub struct MemberId(pub [u8; 32]);

impl View for MemberId {
    type V = Seq<u8>;

    open spec fn view(&self) -> Seq<u8> {
        self.0@
    }
}

impl PartialEq for MemberId {
    fn eq(&self, other: &Self) -> (same: bool) {
        let same: bool = same_bytes(self.0.as_slice(), other.0.as_slice());
        assert(same ==> self.0 =~= other.0);
        same
    }
}

impl vstd::std_specs::cmp::PartialEqSpecImpl for MemberId {
    open spec fn obeys_eq_spec() -> bool {
        true
    }

    open spec fn eq_spec(&self, other: &Self) -> bool {
        *self == *other
    }
}

impl PartialOrd for MemberId {
    fn partial_cmp(&self, other: &Self) -> (ordering: Option<Ordering>) {
        Some(order_bytes(self.0.as_slice(), other.0.as_slice()))
    }
}

impl vstd::std_specs::cmp::PartialOrdSpecImpl for MemberId {
    open spec fn obeys_partial_cmp_spec() -> bool {
        true
    }

    open spec fn partial_cmp_spec(&self, other: &Self) -> Option<Ordering> {
        Some(byte_ordering(self@, other@))
    }
}

impl ByteKey for MemberId {
    open spec fn key_bytes(self) -> Seq<u8> {
        self@
    }

    open spec fn key_len() -> nat {
        32
    }

    proof fn key_facts(a: Self, b: Self) {
        assert(a@ == b@ ==> a.0 =~= b.0);
    }

    fn stands_before(&self, other: &Self) -> (before: bool) {
        matches!(byte_order(self.0.as_slice(), other.0.as_slice()), ByteOrder::Before)
    }
}

impl MemberId {
    /// The name with these bytes.
    pub fn from_bytes(bytes: [u8; 32]) -> (id: Self)
        ensures
            id == MemberId(bytes),
    {
        MemberId(bytes)
    }

    /// The bytes of the name.
    pub fn as_bytes(&self) -> (bytes: &[u8; 32])
        ensures
            *bytes == self.0,
            bytes@ == self@,
    {
        &self.0
    }
}

/// What a member may do.
#[derive(Clone, Copy, Debug, PartialEq, Eq, Structural)]
pub enum MemberRole {
    /// Reads and writes the community's content.
    Participant,
    /// Keeps and hands on ciphertext, without keys.
    Availability,
}

/// A decision of the owner about one member.
#[derive(Clone, Copy, Debug, PartialEq, Eq)]
pub enum MembershipChange {
    Admit(MemberId),
    AdmitAvailability(MemberId),
    Remove(MemberId),
}

/// The member that a change is about.
pub open spec fn subject(change: MembershipChange) -> MemberId {
    match change {
        MembershipChange::Admit(member) => member,
        MembershipChange::AdmitAvailability(member) => member,
        MembershipChange::Remove(member) => member,
    }
}

/// The byte that stands for the kind of a change in signed and stored bytes.
pub open spec fn change_code(change: MembershipChange) -> u8 {
    match change {
        MembershipChange::Remove(_) => 0,
        MembershipChange::Admit(_) => 1,
        MembershipChange::AdmitAvailability(_) => 2,
    }
}

impl MembershipChange {
    /// The member that the change is about.
    pub fn member(self) -> (member: MemberId)
        ensures
            member == subject(self),
    {
        match self {
            MembershipChange::Admit(member) => member,
            MembershipChange::AdmitAvailability(member) => member,
            MembershipChange::Remove(member) => member,
        }
    }

    /// Whether the change admits its subject.
    pub fn is_admission(self) -> (admission: bool)
        ensures
            admission == !(self is Remove),
    {
        !matches!(self, MembershipChange::Remove(_))
    }

    /// Whether the change admits an availability peer.
    pub fn is_availability(self) -> (availability: bool)
        ensures
            availability == (self is AdmitAvailability),
    {
        matches!(self, MembershipChange::AdmitAvailability(_))
    }

    /// The byte that stands for the kind of the change.
    pub fn discriminator(self) -> (code: u8)
        ensures
            code == change_code(self),
    {
        match self {
            MembershipChange::Remove(_) => 0,
            MembershipChange::Admit(_) => 1,
            MembershipChange::AdmitAvailability(_) => 2,
        }
    }
}

/// A change at its place in the history.
#[derive(Clone, Copy, Debug, PartialEq, Eq)]
pub struct MembershipUpdate {
    pub revision: u64,
    pub change: MembershipChange,
}

impl MembershipUpdate {
    /// The change at this revision.
    pub fn new(revision: u64, change: MembershipChange) -> (update: Self)
        ensures
            update.revision == revision,
            update.change == change,
    {
        MembershipUpdate { revision, change }
    }

    /// The place in the history.
    pub fn revision(self) -> (revision: u64)
        ensures
            revision == self.revision,
    {
        self.revision
    }

    /// The change.
    pub fn change(self) -> (change: MembershipChange)
        ensures
            change == self.change,
    {
        self.change
    }
}

/// What signed and hashed bytes say of an update: revision, member and kind.
pub open spec fn update_bytes(update: MembershipUpdate) -> Seq<u8> {
    be64(update.revision) + subject(update.change)@ + seq![change_code(update.change)]
}

/// The bytes that the owner signs.
pub open spec fn membership_message(community: CommunityId, update: MembershipUpdate) -> Seq<u8> {
    encode_utf8("peer-community/membership/v2\0"@) + community@ + update_bytes(update)
}

/// The bytes that owners signed before communities had names.
pub open spec fn legacy_membership_message(update: MembershipUpdate) -> Seq<u8> {
    encode_utf8("peer-community/membership/v1\0"@) + update_bytes(update)
}

/// What strict verification has against a membership signature: a signature of the current form
/// counts for every community, one of the earlier form only for a community whose name is derived
/// from its owner.
pub open spec fn membership_objection(
    owner: MemberId,
    community: CommunityId,
    update: MembershipUpdate,
    signature: Seq<u8>,
) -> Option<Seq<char>> {
    let current = ed25519_objection(owner@, membership_message(community, update), signature);
    if current is Some && community@ == legacy_community(owner) {
        ed25519_objection(owner@, legacy_membership_message(update), signature)
    } else {
        current
    }
}

/// What the digest of a signed change is taken of.
pub open spec fn membership_head_input(
    community: CommunityId,
    signed: SignedMembership,
) -> Seq<u8> {
    encode_utf8("peer-community/membership-head/v1\0"@) + community@ + update_bytes(signed.update)
        + signed.signature@
}

/// The digest that content keys name as their membership.
pub open spec fn membership_head(community: CommunityId, signed: SignedMembership) -> Seq<u8> {
    blake3_digest(membership_head_input(community, signed))
}

/// What tells two changes at one revision apart: member, kind and signature.
pub open spec fn conflict_bytes(signed: SignedMembership) -> Seq<u8> {
    subject(signed.update.change)@ + seq![change_code(signed.update.change)] + signed.signature@
}

/// An update with the owner's signature.
#[derive(Clone, Copy, Debug, PartialEq, Eq)]
pub struct SignedMembership {
    pub update: MembershipUpdate,
    pub signature: [u8; 64],
}

fn push_update(bytes: &mut Vec<u8>, update: MembershipUpdate)
    ensures
        final(bytes)@ == old(bytes)@ + update_bytes(update),
{
    let ghost before = bytes@;
    append(bytes, to_be64(update.revision).as_slice());
    append(bytes, update.change.member().0.as_slice());
    bytes.push(update.change.discriminator());
    assert(bytes@ =~= before + update_bytes(update));
}

/// The bytes that the owner signs.
pub fn membership_signing_bytes(community_id: CommunityId, update: MembershipUpdate) -> (bytes: Vec<
    u8,
>)
    ensures
        bytes@ == membership_message(community_id, update),
{
    let mut bytes: Vec<u8> = to_vec("peer-community/membership/v2\0".as_bytes());
    append(&mut bytes, community_id.0.as_slice());
    push_update(&mut bytes, update);
    bytes
}

/// The bytes that owners signed before communities had names.
pub fn legacy_membership_signing_bytes(update: MembershipUpdate) -> (bytes: Vec<u8>)
    ensures
        bytes@ == legacy_membership_message(update),
{
    let mut bytes: Vec<u8> = to_vec("peer-community/membership/v1\0".as_bytes());
    push_update(&mut bytes, update);
    bytes
}

impl SignedMembership {
    /// The change at this revision, signed with the owner's key.
    pub fn sign(
        signing_seed: &[u8; 32],
        community_id: CommunityId,
        revision: u64,
        change: MembershipChange,
    ) -> (signed: Self)
        ensures
            signed.update == (MembershipUpdate { revision, change }),
            signed.signature@ == ed25519_signature(
                signing_seed@,
                membership_message(community_id, signed.update),
            ),
    {
        let update: MembershipUpdate = MembershipUpdate::new(revision, change);
        let bytes: Vec<u8> = membership_signing_bytes(community_id, update);
        SignedMembership { update, signature: ed25519_sign(signing_seed, bytes.as_slice()) }
    }

    /// The update with its signature, where the signature is the owner's.
    pub fn verified(
        owner: MemberId,
        community_id: CommunityId,
        update: MembershipUpdate,
        signature: [u8; 64],
    ) -> (signed: Result<Self, String>)
        ensures
            match signed {
                Ok(signed) => signed == (SignedMembership { update, signature })
                    && membership_objection(owner, community_id, update, signature@) is None,
                Err(text) => membership_objection(owner, community_id, update, signature@) == Some(
                    text@,
                ),
            },
    {
        let bytes: Vec<u8> = membership_signing_bytes(community_id, update);
        let current: Result<(), String> = ed25519_verify(&owner.0, bytes.as_slice(), &signature);
        let verdict: Result<(), String> = match current {
            Ok(()) => Ok(()),
            Err(text) => {
                let legacy: CommunityId = CommunityId::legacy(owner);
                if same_bytes(community_id.0.as_slice(), legacy.0.as_slice()) {
                    let bytes: Vec<u8> = legacy_membership_signing_bytes(update);
                    ed25519_verify(&owner.0, bytes.as_slice(), &signature)
                } else {
                    Err(text)
                }
            },
        };
        match verdict {
            Ok(()) => Ok(SignedMembership { update, signature }),
            Err(text) => Err(text),
        }
    }

    /// The update.
    pub fn update(&self) -> (update: MembershipUpdate)
        ensures
            update == self.update,
    {
        self.update
    }

    /// The signature.
    pub fn signature(&self) -> (signature: &[u8; 64])
        ensures
            *signature == self.signature,
    {
        &self.signature
    }

    /// What tells two changes at one revision apart: member, kind and signature, 97 bytes.
    pub fn conflict_key(&self) -> (key: Vec<u8>)
        ensures
            key@ == conflict_bytes(*self),
            key@.len() == 97,
    {
        let mut key: Vec<u8> = to_vec(self.update.change.member().0.as_slice());
        key.push(self.update.change.discriminator());
        append(&mut key, self.signature.as_slice());
        assert(key@ =~= conflict_bytes(*self));
        key
    }

    /// The digest that content keys name as their membership.
    pub fn head(&self, community_id: CommunityId) -> (head: [u8; 32])
        ensures
            head@ == membership_head(community_id, *self),
    {
        let mut bytes: Vec<u8> = to_vec("peer-community/membership-head/v1\0".as_bytes());
        append(&mut bytes, community_id.0.as_slice());
        push_update(&mut bytes, self.update);
        append(&mut bytes, self.signature.as_slice());
        blake3_hash(bytes.as_slice())
    }
}

proof fn update_bytes_injective(a: MembershipUpdate, b: MembershipUpdate)
    requires
        update_bytes(a) == update_bytes(b),
    ensures
        a == b,
{
    let (x, y) = (update_bytes(a), update_bytes(b));
    let (m, n) = (subject(a.change), subject(b.change));
    assert(x.take(8) =~= be64(a.revision));
    assert(y.take(8) =~= be64(b.revision));
    be64_injective(a.revision, b.revision);
    assert(x.subrange(8, 40) =~= m@);
    assert(y.subrange(8, 40) =~= n@);
    MemberId::key_facts(m, n);
    assert(x[40] == change_code(a.change));
    assert(y[40] == change_code(b.change));
}

/// The signed bytes tell everything apart that a signature is to bind: the community, the
/// revision, the member and the kind of the change.
pub proof fn membership_message_binds(
    community: CommunityId,
    update: MembershipUpdate,
    other_community: CommunityId,
    other_update: MembershipUpdate,
)
    requires
        membership_message(community, update) == membership_message(
            other_community,
            other_update,
        ),
    ensures
        community == other_community,
        update == other_update,
{
    let prefix = encode_utf8("peer-community/membership/v2\0"@);
    let n = prefix.len() as int;
    let (x, y) = (
        membership_message(community, update),
        membership_message(other_community, other_update),
    );
    assert(x.subrange(n, n + 32) =~= community@);
    assert(y.subrange(n, n + 32) =~= other_community@);
    assert(community.0 =~= other_community.0);
    assert(x.subrange(n + 32, x.len() as int) =~= update_bytes(update));
    assert(y.subrange(n + 32, y.len() as int) =~= update_bytes(other_update));
    update_bytes_injective(update, other_update);
}

/// Two signed changes at one revision with the same conflict key are the same.
pub proof fn conflict_key_decides(a: SignedMembership, b: SignedMembership)
    requires
        a.update.revision == b.update.revision,
        conflict_bytes(a) == conflict_bytes(b),
    ensures
        a == b,
{
    let (x, y) = (conflict_bytes(a), conflict_bytes(b));
    let (m, n) = (subject(a.update.change), subject(b.update.change));
    assert(x.take(32) =~= m@);
    assert(y.take(32) =~= n@);
    MemberId::key_facts(m, n);
    assert(x[32] == change_code(a.update.change));
    assert(y[32] == change_code(b.update.change));
    assert(x.subrange(33, 97) =~= a.signature@);
    assert(y.subrange(33, 97) =~= b.signature@);
    assert(a.signature =~= b.signature);
}

/// Why a change or an exchange is refused.
#[derive(Clone, Copy, Debug, PartialEq, Eq, Structural)]
pub enum CommunityError {
    OnlyOwnerMayChangeMembership,
    OwnerCannotBeRemoved,
    OwnerCannotBeAvailability,
    ParticipantCannotBecomeAvailability,
    MemberNotAdmitted,
}

/// The text of each refusal.
pub open spec fn community_error_text(error: CommunityError) -> Seq<char> {
    match error {
        CommunityError::OnlyOwnerMayChangeMembership =>
            "only the community owner may change membership"@,
        CommunityError::OwnerCannotBeRemoved => "the community owner cannot be removed"@,
        CommunityError::OwnerCannotBeAvailability =>
            "the community owner cannot be an availability peer"@,
        CommunityError::ParticipantCannotBecomeAvailability =>
            "an identity that held participant keys cannot become an availability peer"@,
        CommunityError::MemberNotAdmitted =>
            "communication requires admitted community members"@,
    }
}

impl CommunityError {
    /// The text of the refusal.
    pub fn text(self) -> (text: &'static str)
        ensures
            text@ == community_error_text(self),
    {
        match self {
            CommunityError::OnlyOwnerMayChangeMembership =>
                "only the community owner may change membership",
            CommunityError::OwnerCannotBeRemoved => "the community owner cannot be removed",
            CommunityError::OwnerCannotBeAvailability =>
                "the community owner cannot be an availability peer",
            CommunityError::ParticipantCannotBecomeAvailability =>
                "an identity that held participant keys cannot become an availability peer",
            CommunityError::MemberNotAdmitted =>
                "communication requires admitted community members",
        }
    }
}

/// What a community is: its owner, each member's role, and everyone who ever was a participant.
pub struct CommunityModel {
    pub owner: MemberId,
    pub members: Map<MemberId, MemberRole>,
    pub participants_ever: Set<MemberId>,
}

impl CommunityModel {
    /// The role of `member`.
    pub open spec fn role(self, member: MemberId) -> Option<MemberRole> {
        if self.members.dom().contains(member) {
            Some(self.members[member])
        } else {
            None
        }
    }

    /// What always holds: the owner participates, every participant is remembered as one, and
    /// nobody who ever participated is an availability peer.
    pub open spec fn well_formed(self) -> bool {
        &&& self.role(self.owner) == Some(MemberRole::Participant)
        &&& self.participants_ever.contains(self.owner)
        &&& forall|m: MemberId| #[trigger]
            self.members.dom().contains(m) ==> (self.members[m] is Participant
                <==> self.participants_ever.contains(m))
    }

    /// The community that `owner` founds.
    pub open spec fn founded(owner: MemberId) -> CommunityModel {
        CommunityModel {
            owner,
            members: Map::empty().insert(owner, MemberRole::Participant),
            participants_ever: Set::empty().insert(owner),
        }
    }

    /// What a request for a change is answered: whether it changes anything, or why it is refused.
    pub open spec fn verdict(self, actor: MemberId, change: MembershipChange) -> Result<
        bool,
        CommunityError,
    > {
        if actor != self.owner {
            Err(CommunityError::OnlyOwnerMayChangeMembership)
        } else {
            match change {
                MembershipChange::Admit(member) => Ok(
                    self.role(member) != Some(MemberRole::Participant),
                ),
                MembershipChange::AdmitAvailability(member) => if member == self.owner {
                    Err(CommunityError::OwnerCannotBeAvailability)
                } else if self.participants_ever.contains(member) {
                    Err(CommunityError::ParticipantCannotBecomeAvailability)
                } else {
                    Ok(self.role(member) != Some(MemberRole::Availability))
                },
                MembershipChange::Remove(member) => if member == self.owner {
                    Err(CommunityError::OwnerCannotBeRemoved)
                } else {
                    Ok(self.members.dom().contains(member))
                },
            }
        }
    }

    /// The community after a request for a change; a refused request leaves it as it is.
    pub open spec fn changed(self, actor: MemberId, change: MembershipChange) -> CommunityModel {
        if self.verdict(actor, change) is Err {
            self
        } else {
            match change {
                MembershipChange::Admit(member) => CommunityModel {
                    members: self.members.insert(member, MemberRole::Participant),
                    participants_ever: self.participants_ever.insert(member),
                    ..self
                },
                MembershipChange::AdmitAvailability(member) => CommunityModel {
                    members: self.members.insert(member, MemberRole::Availability),
                    ..self
                },
                MembershipChange::Remove(member) => CommunityModel {
                    members: self.members.remove(member),
                    ..self
                },
            }
        }
    }

    /// Whether `member` may read and write content.
    pub open spec fn participates(self, member: MemberId) -> bool {
        self.role(member) == Some(MemberRole::Participant)
    }

    /// Whether both are admitted.
    pub open spec fn may_exchange(self, sender: MemberId, recipient: MemberId) -> bool {
        self.members.dom().contains(sender) && self.members.dom().contains(recipient)
    }
}

/// A community and its members.
#[derive(Debug, PartialEq, Eq)]
pub struct Community {
    owner: MemberId,
    members: SortedMap<MemberId, MemberRole>,
    participant_history: SortedMap<MemberId, ()>,
}

impl View for Community {
    type V = CommunityModel;

    closed spec fn view(&self) -> CommunityModel {
        CommunityModel {
            owner: self.owner,
            members: self.members@,
            participants_ever: self.participant_history@.dom(),
        }
    }
}

impl Community {
    #[verifier::type_invariant]
    spec fn sound(&self) -> bool {
        self@.well_formed()
    }

    /// The members in the order of their names.
    pub closed spec fn member_list(&self) -> Seq<MemberId> {
        self.members.keys()
    }

    /// The community that `owner` founds.
    pub fn new(owner: MemberId) -> (community: Self)
        ensures
            community@ == CommunityModel::founded(owner),
            community@.well_formed(),
    {
        let mut members: SortedMap<MemberId, MemberRole> = SortedMap::new();
        members.insert(owner, MemberRole::Participant);
        let mut participant_history: SortedMap<MemberId, ()> = SortedMap::new();
        participant_history.insert(owner, ());
        proof {
            assert(participant_history@.dom() =~= Set::<MemberId>::empty().insert(owner));
        }
        Community { owner, members, participant_history }
    }

    /// The owner.
    pub fn owner(&self) -> (owner: MemberId)
        ensures
            owner == self@.owner,
            self@.well_formed(),
    {
        proof {
            use_type_invariant(self);
        }
        self.owner
    }

    /// Whether `member` is admitted.
    pub fn contains(&self, member: MemberId) -> (contains: bool)
        ensures
            contains == self@.members.dom().contains(member),
            self@.well_formed(),
    {
        proof {
            use_type_invariant(self);
        }
        self.members.contains_key(member)
    }

    /// How many members are admitted.
    pub fn member_count(&self) -> (count: usize)
        ensures
            self@.members.dom().finite(),
            count == self@.members.dom().len(),
            count == self.member_list().len(),
    {
        self.members.len()
    }

    /// The admitted members, each once, in the order of their names.
    pub fn members(&self) -> (members: Vec<MemberId>)
        ensures
            members@ == self.member_list(),
            ascending(members@),
            forall|m: MemberId|
                members@.contains(m) <==> #[trigger] self@.members.dom().contains(m),
    {
        self.members.to_keys()
    }

    /// The role of `member`.
    pub fn role(&self, member: MemberId) -> (role: Option<MemberRole>)
        ensures
            role == self@.role(member),
            self@.well_formed(),
    {
        proof {
            use_type_invariant(self);
        }
        match self.members.get(member) {
            Some(role) => Some(*role),
            None => None,
        }
    }

    /// Accepts participants only.
    pub fn authorize_participant(&self, member: MemberId) -> (verdict: Result<(), CommunityError>)
        ensures
            verdict == (if self@.participates(member) {
                Ok::<(), CommunityError>(())
            } else {
                Err::<(), CommunityError>(CommunityError::MemberNotAdmitted)
            }),
    {
        match self.role(member) {
            Some(MemberRole::Participant) => Ok(()),
            _ => Err(CommunityError::MemberNotAdmitted),
        }
    }

    /// Accepts an exchange between admitted members only.
    pub fn authorize_exchange(&self, sender: MemberId, recipient: MemberId) -> (verdict: Result<
        (),
        CommunityError,
    >)
        ensures
            verdict == (if self@.may_exchange(sender, recipient) {
                Ok::<(), CommunityError>(())
            } else {
                Err::<(), CommunityError>(CommunityError::MemberNotAdmitted)
            }),
    {
        if self.contains(sender) && self.contains(recipient) {
            Ok(())
        } else {
            Err(CommunityError::MemberNotAdmitted)
        }
    }

    /// Makes the change that `actor` asks for, or refuses it. The answer says whether anything
    /// changed.
    pub fn change_membership(&mut self, actor: MemberId, change: MembershipChange) -> (verdict:
        Result<bool, CommunityError>)
        ensures
            verdict == old(self)@.verdict(actor, change),
            final(self)@ == old(self)@.changed(actor, change),
            final(self)@.well_formed(),
    {
        proof {
            use_type_invariant(&*self);
        }
        if actor != self.owner {
            return Err(CommunityError::OnlyOwnerMayChangeMembership);
        }
        let owner: MemberId = self.owner;
        let mut members: SortedMap<MemberId, MemberRole> = self.members.clone();
        let mut participant_history: SortedMap<MemberId, ()> = self.participant_history.clone();
        match change {
            MembershipChange::Admit(member) => {
                participant_history.insert(member, ());
                let previous: Option<MemberRole> = members.insert(member, MemberRole::Participant);
                proof {
                    assert(participant_history@.dom() =~= self.participant_history@.dom().insert(
                        member,
                    ));
                }
                *self = Community { owner, members, participant_history };
                Ok(!matches!(previous, Some(MemberRole::Participant)))
            },
            MembershipChange::AdmitAvailability(member) => {
                if member == owner {
                    return Err(CommunityError::OwnerCannotBeAvailability);
                }
                if participant_history.contains_key(member) {
                    return Err(CommunityError::ParticipantCannotBecomeAvailability);
                }
                let previous: Option<MemberRole> = members.insert(member, MemberRole::Availability);
                *self = Community { owner, members, participant_history };
                Ok(!matches!(previous, Some(MemberRole::Availability)))
            },
            MembershipChange::Remove(member) => {
                if member == owner {
                    return Err(CommunityError::OwnerCannotBeRemoved);
                }
                let previous: Option<MemberRole> = members.remove(member);
                *self = Community { owner, members, participant_history };
                Ok(previous.is_some())
            },
        }
    }
}

impl Clone for Community {
    fn clone(&self) -> (copy: Self)
        ensures
            copy@ == self@,
            copy.member_list() == self.member_list(),
    {
        proof {
            use_type_invariant(self);
        }
        let members: SortedMap<MemberId, MemberRole> = self.members.clone();
        let participant_history: SortedMap<MemberId, ()> = self.participant_history.clone();
        Community { owner: self.owner, members, participant_history }
    }
}

/// Asking for the same change twice is asking for it once: the second time nothing changes, and
/// the answer says so.
pub proof fn repeated_change_is_idle(
    community: CommunityModel,
    actor: MemberId,
    change: MembershipChange,
)
    requires
        community.verdict(actor, change) is Ok,
    ensures
        community.changed(actor, change).verdict(actor, change) == Ok::<bool, CommunityError>(false),
        community.changed(actor, change).changed(actor, change) == community.changed(actor, change),
{
    let after = community.changed(actor, change);
    let again = after.changed(actor, change);
    assert(again.members =~= after.members);
    assert(again.participants_ever =~= after.participants_ever);
}

/// A change that the answer calls idle leaves the community as it was.
pub proof fn idle_change_keeps_roles(
    community: CommunityModel,
    actor: MemberId,
    change: MembershipChange,
)
    requires
        community.well_formed(),
        community.verdict(actor, change) == Ok::<bool, CommunityError>(false),
    ensures
        community.changed(actor, change) == community,
{
    let after = community.changed(actor, change);
    assert(after.members =~= community.members);
    assert(after.participants_ever =~= community.participants_ever);
}

/// Only the owner changes anything: whatever anyone else asks for is refused and leaves the
/// community as it is.
pub proof fn only_the_owner_changes(
    community: CommunityModel,
    actor: MemberId,
    change: MembershipChange,
)
    requires
        actor != community.owner,
    ensures
        community.verdict(actor, change) == Err::<bool, CommunityError>(
            CommunityError::OnlyOwnerMayChangeMembership,
        ),
        community.changed(actor, change) == community,
{
}

/// Whoever once participated never becomes an availability peer, however the owner goes on.
pub proof fn participants_keep_out_of_availability(
    community: CommunityModel,
    actor: MemberId,
    change: MembershipChange,
    member: MemberId,
)
    requires
        community.well_formed(),
        community.participants_ever.contains(member),
    ensures
        community.changed(actor, change).participants_ever.contains(member),
        community.changed(actor, change).well_formed(),
        community.changed(actor, change).role(member) != Some(MemberRole::Availability),
{
}

/// A change is about its subject alone: every other member keeps the role that it had.
pub proof fn changes_are_local(
    community: CommunityModel,
    actor: MemberId,
    change: MembershipChange,
    other: MemberId,
)
    requires
        other != subject(change),
    ensures
        community.changed(actor, change).role(other) == community.role(other),
{
}

/// An exchange is authorized in both directions or in neither.
pub proof fn exchange_is_symmetric(community: CommunityModel, a: MemberId, b: MemberId)
    ensures
        community.may_exchange(a, b) == community.may_exchange(b, a),
{
}

/// The community that a history of changes leads to, each made by the owner, or the
/// first refusal.
pub open spec fn replayed(owner: MemberId, history: Seq<SignedMembership>) -> Result<
    CommunityModel,
    CommunityError,
>
    decreases history.len(),
{
    if history.len() == 0 {
        Ok(CommunityModel::founded(owner))
    } else {
        match replayed(owner, history.drop_last()) {
            Ok(before) => match before.verdict(owner, history.last().update.change) {
                Ok(_) => Ok(before.changed(owner, history.last().update.change)),
                Err(error) => Err(error),
            },
            Err(error) => Err(error),
        }
    }
}

/// Replays a history of changes from the founding on.
pub fn replay(owner: MemberId, history: &Vec<SignedMembership>) -> (community: Result<
    Community,
    CommunityError,
>)
    ensures
        match community {
            Ok(community) => replayed(owner, history@) == Ok::<CommunityModel, CommunityError>(
                community@,
            ),
            Err(error) => replayed(owner, history@) == Err::<CommunityModel, CommunityError>(error),
        },
{
    let mut community: Community = Community::new(owner);
    let mut i: usize = 0;
    proof {
        assert(history@.take(0).len() == 0);
    }
    while i < history.len()
        invariant
            i <= history@.len(),
            replayed(owner, history@.take(i as int)) == Ok::<CommunityModel, CommunityError>(
                community@,
            ),
        decreases history@.len() - i,
    {
        let change: MembershipChange = history[i].update.change;
        proof {
            assert(history@.take(i + 1).drop_last() =~= history@.take(i as int));
            assert(history@.take(i + 1).last() == history@[i as int]);
        }
        match community.change_membership(owner, change) {
            Ok(_) => {},
            Err(error) => {
                proof {
                    replay_failure_stays(owner, history@, i + 1, error);
                }
                return Err(error);
            },
        }
        i += 1;
    }
    assert(history@.take(i as int) =~= history@);
    Ok(community)
}

proof fn replay_failure_stays(
    owner: MemberId,
    history: Seq<SignedMembership>,
    n: int,
    error: CommunityError,
)
    requires
        0 <= n <= history.len(),
        replayed(owner, history.take(n)) == Err::<CommunityModel, CommunityError>(error),
    ensures
        replayed(owner, history) == Err::<CommunityModel, CommunityError>(error),
    decreases history.len() - n,
{
    if n < history.len() {
        assert(history.take(n + 1).drop_last() =~= history.take(n));
        replay_failure_stays(owner, history, n + 1, error);
    } else {
        assert(history.take(n) =~= history);
    }
}

/// Every history that the owner's rules accept leads to a community in which the owner
/// participates and nobody who ever participated is an availability peer.
pub proof fn replay_is_well_formed(owner: MemberId, history: Seq<SignedMembership>)
    ensures
        replayed(owner, history) matches Ok(community) ==> community.well_formed()
            && community.owner == owner,
    decreases history.len(),
{
    if history.len() > 0 {
        replay_is_well_formed(owner, history.drop_last());
    }
}

/// Whom the owner admits participates or keeps what others write, as it asked; whom it removes is
/// no member, unless it is the owner itself; and the owner stays the owner.
pub proof fn changes_do_what_they_say(community: CommunityModel, member: MemberId)
    requires
        community.well_formed(),
    ensures
        ({
            let owner = community.owner;
            let admitted = community.changed(owner, MembershipChange::Admit(member));
            let kept = community.changed(owner, MembershipChange::AdmitAvailability(member));
            let removed = community.changed(owner, MembershipChange::Remove(member));
            let past = community.participants_ever.contains(member);
            &&& community.verdict(owner, MembershipChange::Admit(member)) is Ok
            &&& admitted.members.dom().contains(member) && admitted.members[member] is Participant
            &&& admitted.participants_ever.contains(member)
            &&& community.verdict(owner, MembershipChange::AdmitAvailability(member)) is Ok <==> !past
            &&& !past ==> kept.members.dom().contains(member)
                && kept.members[member] is Availability
            &&& past ==> kept == community
            &&& community.verdict(owner, MembershipChange::Remove(member)) is Ok <==> member
                != owner
            &&& member != owner ==> !removed.members.dom().contains(member)
            &&& member == owner ==> removed == community
            &&& removed.participants_ever == community.participants_ever
            &&& admitted.owner == owner && kept.owner == owner && removed.owner == owner
        }),
{
}

/// A change is worth something where the role of its subject is not what it asks for.
pub proof fn changes_are_news_where_roles_differ(community: CommunityModel, member: MemberId)
    requires
        community.well_formed(),
    ensures
        community.verdict(community.owner, MembershipChange::Admit(member)) == Ok::<
            bool,
            CommunityError,
        >(
            !(community.members.dom().contains(member)
                && community.members[member] is Participant),
        ),
        !community.participants_ever.contains(member) ==> community.verdict(
            community.owner,
            MembershipChange::AdmitAvailability(member),
        ) == Ok::<bool, CommunityError>(!community.members.dom().contains(member)),
        member != community.owner ==> community.verdict(
            community.owner,
            MembershipChange::Remove(member),
        ) == Ok::<bool, CommunityError>(community.members.dom().contains(member)),
        community.verdict(
            community.owner,
            MembershipChange::AdmitAvailability(community.owner),
        ) == Err::<bool, CommunityError>(CommunityError::OwnerCannotBeAvailability),
        community.verdict(community.owner, MembershipChange::Remove(community.owner)) == Err::<
            bool,
            CommunityError,
        >(CommunityError::OwnerCannotBeRemoved),
{
}

/// Members exchange with members, whatever their roles; content is for participants.
pub proof fn members_exchange_and_participants_read(
    community: CommunityModel,
    a: MemberId,
    b: MemberId,
)
    ensures
        community.may_exchange(a, b) <==> community.members.dom().contains(a)
            && community.members.dom().contains(b),
        community.participates(a) <==> community.members.dom().contains(a)
            && community.members[a] is Participant,
{
}

/// A history with one more change leads to where the history leads and then to where the change
/// does, and a change that is refused there makes the whole history void.
pub proof fn histories_go_step_by_step(
    owner: MemberId,
    history: Seq<SignedMembership>,
    signed: SignedMembership,
)
    ensures
        replayed(owner, Seq::empty()) == Ok::<CommunityModel, CommunityError>(
            CommunityModel::founded(owner),
        ),
        match replayed(owner, history) {
            Ok(before) => match before.verdict(owner, signed.update.change) {
                Ok(_) => replayed(owner, history.push(signed)) == Ok::<
                    CommunityModel,
                    CommunityError,
                >(before.changed(owner, signed.update.change)),
                Err(_) => replayed(owner, history.push(signed)) is Err,
            },
            Err(_) => replayed(owner, history.push(signed)) is Err,
        },
{
    assert(history.push(signed).drop_last() =~= history);
}

/// In a community that was just founded the owner participates, and nobody else is a member.
pub proof fn founders_are_alone(owner: MemberId, other: MemberId)
    ensures
        CommunityModel::founded(owner).owner == owner,
        CommunityModel::founded(owner).members.dom().contains(other) <==> other == owner,
        CommunityModel::founded(owner).members[owner] is Participant,
        CommunityModel::founded(owner).well_formed(),
{
}

} // verus!
