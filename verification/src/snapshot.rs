//! What a replica shows: everything in the clear, what a peer is sent, and what a backup keeps.

use vstd::prelude::*;

use crate::bytes::{byte_order, ByteOrder};
use crate::community::{Community, CommunityModel, MemberId, SignedMembership};
use crate::crypto::{
    attachment_found, name_found, text_found, ContentEpoch, ContentKeyEnvelope,
    EncryptedAttachment, EncryptedMemberProfile, EncryptedText, KeyRegistration,
};
use crate::fault::{Fault, FaultModel};
use crate::filing::{in_order, in_order_is_sorted, sort, Filed, Placed};
use crate::identity::IdentityMaterial;
use crate::model::{
    AttachmentModel, AuthoredAttachment, AuthoredText, Channel, ChannelId, DisplayName,
    SignedCreateChannel, SignedText, Snapshot, TextModel,
};
use crate::names::{ContentName, EnvelopeName, EpochName};
use crate::replica::{Replica, ReplicaModel};
use crate::sorted::{
    finite_maps_list_their_values, lists_are_sorted, rank, sorted_keys, sorted_values, ByteKey,
    SortedMap,
};

verus! {

impl Placed for AuthoredText {
    open spec fn place(&self) -> nat {
        rank(ContentName { author: self.author, id: self.message@.id })
    }
}

impl Filed for AuthoredText {
    fn behind(&self, other: &Self) -> (behind: bool) {
        ContentName::new(other.author, other.message.id()).stands_before(
            &ContentName::new(self.author, self.message.id()),
        )
    }
}

impl Placed for AuthoredAttachment {
    open spec fn place(&self) -> nat {
        rank(ContentName { author: self.author, id: self.attachment@.id })
    }
}

impl Filed for AuthoredAttachment {
    fn behind(&self, other: &Self) -> (behind: bool) {
        ContentName::new(other.author, other.attachment.id()).stands_before(
            &ContentName::new(self.author, self.attachment.id()),
        )
    }
}

/// A text that a reader sees, and who wrote it.
pub struct TextSeen {
    pub author: MemberId,
    pub text: TextModel,
}

/// An attachment that a reader sees, and who sent it.
pub struct AttachmentSeen {
    pub author: MemberId,
    pub attachment: AttachmentModel,
}

/// What is seen of texts.
pub open spec fn seen_texts(list: Seq<AuthoredText>) -> Seq<TextSeen> {
    Seq::new(
        list.len(),
        |i: int| TextSeen { author: list[i].author, text: list[i].message@ },
    )
}

/// What is seen of attachments.
pub open spec fn seen_attachments(list: Seq<AuthoredAttachment>) -> Seq<AttachmentSeen> {
    Seq::new(
        list.len(),
        |i: int| AttachmentSeen { author: list[i].author, attachment: list[i].attachment@ },
    )
}

/// What is seen of texts that were stored in the clear.
pub open spec fn clear_texts(list: Seq<SignedText>) -> Seq<TextSeen> {
    Seq::new(
        list.len(),
        |i: int| TextSeen { author: list[i].authored.author, text: list[i].authored.message@ },
    )
}

/// The encrypted texts that the held keys open, one after the other.
pub open spec fn opened_texts(replica: ReplicaModel, list: Seq<EncryptedText>) -> Seq<TextSeen>
    decreases list.len(),
{
    if list.len() == 0 {
        Seq::empty()
    } else {
        let before = opened_texts(replica, list.drop_last());
        let text = list.last();
        match replica.held_key(text.epoch, text.head) {
            None => before,
            Some(key) => match text_found(replica.community_id, text@, key@) {
                Ok(found) => before.push(TextSeen { author: text.author, text: found }),
                Err(_) => before,
            },
        }
    }
}

/// The encrypted attachments that the held keys open, one after the other.
pub open spec fn opened_attachments(replica: ReplicaModel, list: Seq<EncryptedAttachment>) -> Seq<
    AttachmentSeen,
>
    decreases list.len(),
{
    if list.len() == 0 {
        Seq::empty()
    } else {
        let before = opened_attachments(replica, list.drop_last());
        let attachment = list.last();
        match replica.held_key(attachment.epoch, attachment.head) {
            None => before,
            Some(key) => match attachment_found(replica.community_id, attachment@, key@) {
                Ok(found) => before.push(
                    AttachmentSeen { author: attachment.author, attachment: found },
                ),
                Err(_) => before,
            },
        }
    }
}

/// Whether a display name is shown: its member is admitted, and its key is held.
pub open spec fn name_shown(
    replica: ReplicaModel,
    community: CommunityModel,
    profile: EncryptedMemberProfile,
) -> bool {
    community.members.dom().contains(profile.member) && replica.held_key(
        profile.epoch,
        profile.head,
    ) is Some
}

/// What a display name that is shown says, or what is wrong with it.
pub open spec fn shown_name(replica: ReplicaModel, profile: EncryptedMemberProfile) -> Result<
    Seq<char>,
    FaultModel,
> {
    name_found(
        replica.community_id,
        profile@,
        replica.held_key(profile.epoch, profile.head)->0@,
    )
}

/// What is wrong with the first display name that cannot be shown.
pub open spec fn names_fault(
    replica: ReplicaModel,
    community: CommunityModel,
    list: Seq<EncryptedMemberProfile>,
) -> Option<FaultModel>
    decreases list.len(),
{
    if list.len() == 0 {
        None
    } else {
        match names_fault(replica, community, list.drop_last()) {
            Some(fault) => Some(fault),
            None => if name_shown(replica, community, list.last()) {
                match shown_name(replica, list.last()) {
                    Ok(_) => None,
                    Err(fault) => Some(fault),
                }
            } else {
                None
            },
        }
    }
}

/// What keeps a replica from being shown.
pub open spec fn snapshot_fault(replica: ReplicaModel) -> Option<FaultModel> {
    match replica.community() {
        Err(fault) => Some(fault),
        Ok(community) => names_fault(replica, community, sorted_values(replica.profiles)),
    }
}

/// Whether a snapshot shows a replica: its channels, every text and attachment that the held keys
/// open in the order of their names, its community, and the names that its members go by.
pub open spec fn shows(replica: ReplicaModel, snapshot: Snapshot) -> bool {
    &&& replica.community() == Ok::<CommunityModel, FaultModel>(snapshot.community@)
    &&& snapshot.members@ == snapshot.community.member_list()
    &&& snapshot.channels@.len() == sorted_values(replica.channels).len()
    &&& forall|i: int|
        0 <= i < snapshot.channels@.len() ==> (#[trigger] snapshot.channels@[i])@ == sorted_values(
            replica.channels,
        )[i].channel@
    &&& exists|texts: Seq<AuthoredText>|
        #![trigger in_order(texts)]
        seen_texts(texts) == clear_texts(replica.legacy_texts) + opened_texts(
            replica,
            sorted_values(replica.texts),
        ) && snapshot.messages@ == in_order(texts)
    &&& exists|attachments: Seq<AuthoredAttachment>|
        #![trigger in_order(attachments)]
        seen_attachments(attachments) == opened_attachments(
            replica,
            sorted_values(replica.attachments),
        ) && snapshot.attachments@ == in_order(attachments)
    &&& forall|m: MemberId| #[trigger]
        snapshot.display_names@.dom().contains(m) <==> replica.profiles.dom().contains(m)
            && name_shown(replica, snapshot.community@, replica.profiles[m])
    &&& forall|m: MemberId| #[trigger]
        snapshot.display_names@.dom().contains(m) ==> shown_name(replica, replica.profiles[m])
            == Ok::<Seq<char>, FaultModel>(snapshot.display_names@[m]@)
}

fn key_of(replica: &Replica, epoch: u64, head: &[u8; 32]) -> (key: Option<[u8; 32]>)
    ensures
        key == replica@.held_key(epoch, *head),
{
    match replica.content_keys().get(EpochName { number: epoch, head: *head }) {
        Some(key) => Some(*key),
        None => None,
    }
}

fn texts_of(replica: &Replica) -> (texts: Vec<AuthoredText>)
    ensures
        seen_texts(texts@) == clear_texts(replica@.legacy_texts) + opened_texts(
            replica@,
            sorted_values(replica@.texts),
        ),
{
    let clear: &Vec<SignedText> = replica.signed_messages();
    let mut texts: Vec<AuthoredText> = Vec::new();
    let mut i: usize = 0;
    while i < clear.len()
        invariant
            i <= clear@.len(),
            clear@ == replica@.legacy_texts,
            seen_texts(texts@) == clear_texts(clear@.take(i as int)),
        decreases clear@.len() - i,
    {
        let ghost before = texts@;
        texts.push(clear[i].authored.clone());
        i += 1;
        assert(seen_texts(texts@) =~= seen_texts(before).push(
            TextSeen {
                author: clear@[i - 1].authored.author,
                text: clear@[i - 1].authored.message@,
            },
        ));
        assert(clear_texts(clear@.take(i as int)) =~= clear_texts(clear@.take(i - 1)).push(
            TextSeen {
                author: clear@[i - 1].authored.author,
                text: clear@[i - 1].authored.message@,
            },
        ));
    }
    assert(clear@.take(i as int) =~= clear@);
    let encrypted: &SortedMap<ContentName, EncryptedText> = replica.encrypted_messages();
    let length: usize = encrypted.len();
    let ghost values = sorted_values(replica@.texts);
    proof {
        lists_are_sorted(*encrypted);
        assert(values.take(0) =~= Seq::<EncryptedText>::empty());
        assert(clear_texts(clear@) + opened_texts(replica@, values.take(0)) =~= clear_texts(clear@));
    }
    let mut k: usize = 0;
    while k < length
        invariant
            k <= length,
            length == encrypted.keys().len(),
            encrypted.consistent(),
            encrypted@ == replica@.texts,
            values == sorted_values(replica@.texts),
            encrypted.values() == values,
            values.len() == length,
            clear@ == replica@.legacy_texts,
            seen_texts(texts@) == clear_texts(clear@) + opened_texts(
                replica@,
                values.take(k as int),
            ),
        decreases length - k,
    {
        let text: &EncryptedText = encrypted.value_at(k);
        proof {
            assert(values.take(k + 1).drop_last() =~= values.take(k as int));
            assert(values.take(k + 1).last() == *text);
        }
        if let Some(key) = key_of(replica, text.epoch, &text.head) {
            if let Ok(authored) = text.decrypt(replica.community_id(), &key) {
                let ghost before = texts@;
                let ghost seen = TextSeen { author: authored.author, text: authored.message@ };
                texts.push(authored);
                proof {
                    assert(seen_texts(texts@) =~= seen_texts(before).push(seen));
                    assert(clear_texts(clear@) + opened_texts(replica@, values.take(k + 1))
                        =~= (clear_texts(clear@) + opened_texts(
                        replica@,
                        values.take(k as int),
                    )).push(seen));
                }
            }
        }
        k += 1;
    }
    assert(values.take(k as int) =~= values);
    texts
}

fn attachments_of(replica: &Replica) -> (attachments: Vec<AuthoredAttachment>)
    ensures
        seen_attachments(attachments@) == opened_attachments(
            replica@,
            sorted_values(replica@.attachments),
        ),
{
    let encrypted: &SortedMap<ContentName, EncryptedAttachment> = replica.encrypted_attachments();
    let length: usize = encrypted.len();
    let ghost values = sorted_values(replica@.attachments);
    let mut attachments: Vec<AuthoredAttachment> = Vec::new();
    proof {
        lists_are_sorted(*encrypted);
        assert(values.take(0) =~= Seq::<EncryptedAttachment>::empty());
        assert(seen_attachments(attachments@) =~= Seq::<AttachmentSeen>::empty());
    }
    let mut k: usize = 0;
    while k < length
        invariant
            k <= length,
            length == encrypted.keys().len(),
            encrypted.consistent(),
            encrypted@ == replica@.attachments,
            values == sorted_values(replica@.attachments),
            encrypted.values() == values,
            values.len() == length,
            seen_attachments(attachments@) == opened_attachments(replica@, values.take(k as int)),
        decreases length - k,
    {
        let attachment: &EncryptedAttachment = encrypted.value_at(k);
        proof {
            assert(values.take(k + 1).drop_last() =~= values.take(k as int));
            assert(values.take(k + 1).last() == *attachment);
        }
        if let Some(key) = key_of(replica, attachment.epoch, &attachment.head) {
            if let Ok(authored) = attachment.decrypt(replica.community_id(), &key) {
                let ghost before = attachments@;
                let ghost seen = AttachmentSeen {
                    author: authored.author,
                    attachment: authored.attachment@,
                };
                attachments.push(authored);
                assert(seen_attachments(attachments@) =~= seen_attachments(before).push(seen));
            }
        }
        k += 1;
    }
    assert(values.take(k as int) =~= values);
    attachments
}

fn channels_of(replica: &Replica) -> (channels: Vec<Channel>)
    ensures
        channels@.len() == sorted_values(replica@.channels).len(),
        forall|i: int|
            0 <= i < channels@.len() ==> (#[trigger] channels@[i])@ == sorted_values(
                replica@.channels,
            )[i].channel@,
{
    let signed: &SortedMap<ChannelId, SignedCreateChannel> = replica.signed_channels();
    let length: usize = signed.len();
    proof {
        lists_are_sorted(*signed);
    }
    let mut channels: Vec<Channel> = Vec::new();
    let mut i: usize = 0;
    while i < length
        invariant
            i <= length,
            length == signed.keys().len(),
            signed.values().len() == length,
            signed.values() == sorted_values(replica@.channels),
            channels@.len() == i,
            forall|j: int|
                0 <= j < i ==> (#[trigger] channels@[j])@ == signed.values()[j].channel@,
        decreases length - i,
    {
        channels.push(signed.value_at(i).channel.clone());
        i += 1;
    }
    channels
}

proof fn names_fault_stays(
    replica: ReplicaModel,
    community: CommunityModel,
    list: Seq<EncryptedMemberProfile>,
    i: int,
)
    requires
        0 <= i <= list.len(),
        names_fault(replica, community, list.take(i)) is Some,
    ensures
        names_fault(replica, community, list) == names_fault(replica, community, list.take(i)),
    decreases list.len(),
{
    if i == list.len() {
        assert(list.take(i) =~= list);
    } else {
        assert(list.drop_last().take(i) =~= list.take(i));
        names_fault_stays(replica, community, list.drop_last(), i);
    }
}

fn names_of(replica: &Replica, community: &Community) -> (names: Result<
    SortedMap<MemberId, DisplayName>,
    Fault,
>)
    requires
        replica@.well_formed(),
    ensures
        match names {
            Ok(names) => {
                &&& names_fault(replica@, community@, sorted_values(replica@.profiles)) is None
                &&& forall|m: MemberId| #[trigger]
                    names@.dom().contains(m) <==> replica@.profiles.dom().contains(m) && name_shown(
                        replica@,
                        community@,
                        replica@.profiles[m],
                    )
                &&& forall|m: MemberId| #[trigger]
                    names@.dom().contains(m) ==> shown_name(replica@, replica@.profiles[m]) == Ok::<
                        Seq<char>,
                        FaultModel,
                    >(names@[m]@)
            },
            Err(fault) => names_fault(replica@, community@, sorted_values(replica@.profiles))
                == Some(fault@),
        },
{
    let profiles: &SortedMap<MemberId, EncryptedMemberProfile> = replica.member_profiles();
    let length: usize = profiles.len();
    let ghost values = sorted_values(replica@.profiles);
    let mut names: SortedMap<MemberId, DisplayName> = SortedMap::new();
    proof {
        lists_are_sorted(*profiles);
        assert(values.take(0) =~= Seq::<EncryptedMemberProfile>::empty());
    }
    let mut i: usize = 0;
    while i < length
        invariant
            i <= length,
            replica@.well_formed(),
            length == profiles.keys().len(),
            profiles.consistent(),
            profiles@ == replica@.profiles,
            values == sorted_values(replica@.profiles),
            profiles.values() == values,
            values.len() == length,
            names_fault(replica@, community@, values.take(i as int)) is None,
            forall|m: MemberId| #[trigger]
                names@.dom().contains(m) ==> replica@.profiles.dom().contains(m) && name_shown(
                    replica@,
                    community@,
                    replica@.profiles[m],
                ) && shown_name(replica@, replica@.profiles[m]) == Ok::<Seq<char>, FaultModel>(
                    names@[m]@,
                ),
            forall|j: int|
                0 <= j < i && name_shown(
                    replica@,
                    community@,
                    replica@.profiles[#[trigger] profiles.keys()[j]],
                ) ==> names@.dom().contains(profiles.keys()[j]),
        decreases length - i,
    {
        let profile: &EncryptedMemberProfile = profiles.value_at(i);
        proof {
            assert(values.take(i + 1).drop_last() =~= values.take(i as int));
            assert(values.take(i + 1).last() == *profile);
            let m = profiles.keys()[i as int];
            assert(replica@.profiles.dom().contains(m));
            assert(replica@.profiles[m] == *profile);
            assert(profile.member == m);
        }
        if community.contains(profile.member) {
            if let Some(key) = key_of(replica, profile.epoch, &profile.head) {
                match profile.decrypt(replica.community_id(), &key) {
                    Ok(name) => {
                        names.insert(profile.member, name);
                    },
                    Err(fault) => {
                        proof {
                            names_fault_stays(replica@, community@, values, i + 1);
                        }
                        return Err(fault);
                    },
                }
            }
        }
        i += 1;
    }
    proof {
        assert(values.take(i as int) =~= values);
        assert forall|m: MemberId| #[trigger]
            names@.dom().contains(m) <==> replica@.profiles.dom().contains(m) && name_shown(
                replica@,
                community@,
                replica@.profiles[m],
            ) by {
            if replica@.profiles.dom().contains(m) {
                let j = profiles.keys().index_of(m);
                assert(profiles.keys()[j] == m);
            }
        }
    }
    Ok(names)
}

/// Everything that a replica holds in the clear.
pub fn snapshot(replica: &Replica) -> (snapshot: Result<Snapshot, Fault>)
    requires
        replica@.well_formed(),
    ensures
        match snapshot {
            Ok(snapshot) => snapshot_fault(replica@) is None && shows(replica@, snapshot),
            Err(fault) => snapshot_fault(replica@) == Some(fault@),
        },
{
    let community: Community = match replica.community() {
        Ok(community) => community,
        Err(fault) => {
            return Err(fault);
        },
    };
    let texts: Vec<AuthoredText> = texts_of(replica);
    let attachments: Vec<AuthoredAttachment> = attachments_of(replica);
    let channels: Vec<Channel> = channels_of(replica);
    let names: SortedMap<MemberId, DisplayName> = match names_of(replica, &community) {
        Ok(names) => names,
        Err(fault) => {
            return Err(fault);
        },
    };
    let ghost unsorted = (texts@, attachments@);
    let messages: Vec<AuthoredText> = sort(texts);
    let files: Vec<AuthoredAttachment> = sort(attachments);
    assert(messages@ == in_order(unsorted.0));
    assert(files@ == in_order(unsorted.1));
    Ok(Snapshot::new(channels, messages, files, community, names))
}

/// What a peer is sent that synchronizes.
#[derive(Debug)]
pub struct SyncState {
    pub memberships: Vec<SignedMembership>,
    pub registrations: Vec<KeyRegistration>,
    pub envelopes: Vec<ContentKeyEnvelope>,
    pub channels: Vec<SignedCreateChannel>,
    pub messages: Vec<EncryptedText>,
    pub attachments: Vec<EncryptedAttachment>,
    pub member_profiles: Vec<EncryptedMemberProfile>,
}

/// The display names that a peer is sent: those of admitted members under the membership that is in
/// force.
pub open spec fn current_profiles(
    replica: ReplicaModel,
    community: CommunityModel,
    list: Seq<EncryptedMemberProfile>,
) -> Seq<EncryptedMemberProfile>
    decreases list.len(),
{
    if list.len() == 0 {
        Seq::empty()
    } else {
        let before = current_profiles(replica, community, list.drop_last());
        let profile = list.last();
        if community.members.dom().contains(profile.member) && replica.is_active(
            profile.epoch,
            profile.head@,
        ) {
            before.push(profile)
        } else {
            before
        }
    }
}

/// Whether a peer is sent the replica's state, everything in the order of its names.
pub open spec fn syncs(replica: ReplicaModel, community: CommunityModel, state: SyncState) -> bool {
    &&& state.memberships@ == replica.history
    &&& state.registrations@ == sorted_values(replica.registrations)
    &&& state.envelopes@.len() == sorted_values(replica.envelopes).len()
    &&& forall|i: int|
        0 <= i < state.envelopes@.len() ==> (#[trigger] state.envelopes@[i])@ == sorted_values(
            replica.envelopes,
        )[i]@
    &&& state.channels@.len() == sorted_values(replica.channels).len()
    &&& forall|i: int|
        0 <= i < state.channels@.len() ==> (#[trigger] state.channels@[i]).channel@
            == sorted_values(replica.channels)[i].channel@ && state.channels@[i].signature
            == sorted_values(replica.channels)[i].signature
    &&& state.messages@.len() == sorted_values(replica.texts).len()
    &&& forall|i: int|
        0 <= i < state.messages@.len() ==> (#[trigger] state.messages@[i])@ == sorted_values(
            replica.texts,
        )[i]@
    &&& state.attachments@.len() == sorted_values(replica.attachments).len()
    &&& forall|i: int|
        0 <= i < state.attachments@.len() ==> (#[trigger] state.attachments@[i])@ == sorted_values(
            replica.attachments,
        )[i]@
    &&& ({
        let profiles = current_profiles(replica, community, sorted_values(replica.profiles));
        &&& state.member_profiles@.len() == profiles.len()
        &&& forall|i: int|
            0 <= i < profiles.len() ==> (#[trigger] state.member_profiles@[i])@ == profiles[i]@
    })
}

fn list_registrations(replica: &Replica) -> (list: Vec<KeyRegistration>)
    ensures
        list@ == sorted_values(replica@.registrations),
{
    let map: &SortedMap<MemberId, KeyRegistration> = replica.key_registrations();
    let length: usize = map.len();
    proof {
        lists_are_sorted(*map);
    }
    let mut list: Vec<KeyRegistration> = Vec::new();
    let mut i: usize = 0;
    while i < length
        invariant
            i <= length,
            length == map.keys().len(),
            map.values().len() == length,
            list@ == map.values().take(i as int),
        decreases length - i,
    {
        list.push(*map.value_at(i));
        i += 1;
        assert(list@ =~= map.values().take(i as int));
    }
    assert(list@ =~= map.values());
    list
}

fn list_envelopes(replica: &Replica) -> (list: Vec<ContentKeyEnvelope>)
    ensures
        list@.len() == sorted_values(replica@.envelopes).len(),
        forall|i: int|
            0 <= i < list@.len() ==> (#[trigger] list@[i])@ == sorted_values(
                replica@.envelopes,
            )[i]@,
{
    let map: &SortedMap<EnvelopeName, ContentKeyEnvelope> = replica.content_key_envelopes();
    let length: usize = map.len();
    proof {
        lists_are_sorted(*map);
    }
    let mut list: Vec<ContentKeyEnvelope> = Vec::new();
    let mut i: usize = 0;
    while i < length
        invariant
            i <= length,
            length == map.keys().len(),
            map.values().len() == length,
            list@.len() == i,
            forall|j: int| 0 <= j < i ==> (#[trigger] list@[j])@ == map.values()[j]@,
        decreases length - i,
    {
        list.push(map.value_at(i).clone());
        i += 1;
    }
    list
}

fn list_channels(replica: &Replica) -> (list: Vec<SignedCreateChannel>)
    ensures
        list@.len() == sorted_values(replica@.channels).len(),
        forall|i: int|
            0 <= i < list@.len() ==> (#[trigger] list@[i]).channel@ == sorted_values(
                replica@.channels,
            )[i].channel@ && list@[i].signature == sorted_values(replica@.channels)[i].signature,
{
    let map: &SortedMap<ChannelId, SignedCreateChannel> = replica.signed_channels();
    let length: usize = map.len();
    proof {
        lists_are_sorted(*map);
    }
    let mut list: Vec<SignedCreateChannel> = Vec::new();
    let mut i: usize = 0;
    while i < length
        invariant
            i <= length,
            length == map.keys().len(),
            map.values().len() == length,
            list@.len() == i,
            forall|j: int|
                0 <= j < i ==> (#[trigger] list@[j]).channel@ == map.values()[j].channel@
                    && list@[j].signature == map.values()[j].signature,
        decreases length - i,
    {
        let signed: &SignedCreateChannel = map.value_at(i);
        list.push(
            SignedCreateChannel { channel: signed.channel.clone(), signature: signed.signature },
        );
        i += 1;
    }
    list
}

fn list_texts(replica: &Replica) -> (list: Vec<EncryptedText>)
    ensures
        list@.len() == sorted_values(replica@.texts).len(),
        forall|i: int|
            0 <= i < list@.len() ==> (#[trigger] list@[i])@ == sorted_values(replica@.texts)[i]@,
{
    let map: &SortedMap<ContentName, EncryptedText> = replica.encrypted_messages();
    let length: usize = map.len();
    proof {
        lists_are_sorted(*map);
    }
    let mut list: Vec<EncryptedText> = Vec::new();
    let mut i: usize = 0;
    while i < length
        invariant
            i <= length,
            length == map.keys().len(),
            map.values().len() == length,
            list@.len() == i,
            forall|j: int| 0 <= j < i ==> (#[trigger] list@[j])@ == map.values()[j]@,
        decreases length - i,
    {
        list.push(map.value_at(i).clone());
        i += 1;
    }
    list
}

fn list_attachments(replica: &Replica) -> (list: Vec<EncryptedAttachment>)
    ensures
        list@.len() == sorted_values(replica@.attachments).len(),
        forall|i: int|
            0 <= i < list@.len() ==> (#[trigger] list@[i])@ == sorted_values(
                replica@.attachments,
            )[i]@,
{
    let map: &SortedMap<ContentName, EncryptedAttachment> = replica.encrypted_attachments();
    let length: usize = map.len();
    proof {
        lists_are_sorted(*map);
    }
    let mut list: Vec<EncryptedAttachment> = Vec::new();
    let mut i: usize = 0;
    while i < length
        invariant
            i <= length,
            length == map.keys().len(),
            map.values().len() == length,
            list@.len() == i,
            forall|j: int| 0 <= j < i ==> (#[trigger] list@[j])@ == map.values()[j]@,
        decreases length - i,
    {
        list.push(map.value_at(i).clone());
        i += 1;
    }
    list
}

fn list_profiles(replica: &Replica, community: &Community) -> (list: Vec<EncryptedMemberProfile>)
    ensures
        ({
            let profiles = current_profiles(
                replica@,
                community@,
                sorted_values(replica@.profiles),
            );
            &&& list@.len() == profiles.len()
            &&& forall|i: int| 0 <= i < profiles.len() ==> (#[trigger] list@[i])@ == profiles[i]@
        }),
{
    let map: &SortedMap<MemberId, EncryptedMemberProfile> = replica.member_profiles();
    let length: usize = map.len();
    let (epoch, head): (u64, [u8; 32]) = replica.active_membership_head();
    let ghost values = sorted_values(replica@.profiles);
    proof {
        lists_are_sorted(*map);
        assert(values.take(0) =~= Seq::<EncryptedMemberProfile>::empty());
    }
    let mut list: Vec<EncryptedMemberProfile> = Vec::new();
    let mut i: usize = 0;
    while i < length
        invariant
            i <= length,
            length == map.keys().len(),
            map.values() == values,
            values.len() == length,
            epoch == replica@.active_revision(),
            head@ == replica@.active_head(),
            list@.len() == current_profiles(replica@, community@, values.take(i as int)).len(),
            forall|j: int|
                0 <= j < list@.len() ==> (#[trigger] list@[j])@ == current_profiles(
                    replica@,
                    community@,
                    values.take(i as int),
                )[j]@,
        decreases length - i,
    {
        let profile: &EncryptedMemberProfile = map.value_at(i);
        proof {
            assert(values.take(i + 1).drop_last() =~= values.take(i as int));
            assert(values.take(i + 1).last() == *profile);
        }
        if community.contains(profile.member) && profile.epoch == epoch && crate::bytes::same_bytes(
            profile.head.as_slice(),
            head.as_slice(),
        ) {
            list.push(profile.clone());
        }
        i += 1;
    }
    assert(values.take(i as int) =~= values);
    list
}

fn list_memberships(replica: &Replica) -> (list: Vec<SignedMembership>)
    ensures
        list@ == replica@.history,
{
    let history: &Vec<SignedMembership> = replica.membership_history();
    let mut list: Vec<SignedMembership> = Vec::new();
    let mut i: usize = 0;
    while i < history.len()
        invariant
            i <= history@.len(),
            list@ == history@.take(i as int),
        decreases history@.len() - i,
    {
        list.push(history[i]);
        i += 1;
        assert(list@ =~= history@.take(i as int));
    }
    assert(list@ =~= history@);
    list
}

/// What a peer is sent that synchronizes.
pub fn sync_state(replica: &Replica) -> (state: Result<SyncState, Fault>)
    ensures
        match state {
            Ok(state) => replica@.community() matches Ok(community) && syncs(
                replica@,
                community,
                state,
            ),
            Err(fault) => replica@.community() == Err::<CommunityModel, FaultModel>(fault@),
        },
{
    let community: Community = match replica.community() {
        Ok(community) => community,
        Err(fault) => {
            return Err(fault);
        },
    };
    Ok(
        SyncState {
            memberships: list_memberships(replica),
            registrations: list_registrations(replica),
            envelopes: list_envelopes(replica),
            channels: list_channels(replica),
            messages: list_texts(replica),
            attachments: list_attachments(replica),
            member_profiles: list_profiles(replica, &community),
        },
    )
}

/// Whether an epoch is the latest: none has a higher number, and of those with its number it has
/// the lowest head.
pub open spec fn is_latest(keys: Map<EpochName, [u8; 32]>, name: EpochName) -> bool {
    &&& keys.dom().contains(name)
    &&& forall|n: EpochName| #[trigger]
        keys.dom().contains(n) ==> n.number < name.number || (n.number == name.number
            && crate::bytes::big_endian(name.head@) <= crate::bytes::big_endian(n.head@))
}

/// The latest content key.
pub fn latest_content_epoch(replica: &Replica) -> (epoch: Option<ContentEpoch>)
    ensures
        match epoch {
            Some(epoch) => is_latest(
                replica@.content_keys,
                EpochName { number: epoch.number, head: epoch.head },
            ) && epoch.key == replica@.content_keys[EpochName {
                number: epoch.number,
                head: epoch.head,
            }],
            None => forall|n: EpochName| !#[trigger] replica@.content_keys.dom().contains(n),
        },
{
    let keys: &SortedMap<EpochName, [u8; 32]> = replica.content_keys();
    let length: usize = keys.len();
    if length == 0 {
        proof {
            assert forall|n: EpochName| !#[trigger] replica@.content_keys.dom().contains(n) by {
                assert(keys@.dom().contains(n) <==> keys.keys().contains(n));
            }
        }
        return None;
    }
    let mut best: usize = 0;
    let mut i: usize = 1;
    while i < length
        invariant
            best < i <= length,
            length == keys.keys().len(),
            forall|j: int|
                0 <= j < i ==> latest_of(keys.keys()[best as int], #[trigger] keys.keys()[j]),
        decreases length - i,
    {
        let candidate: EpochName = keys.key_at(i);
        let current: EpochName = keys.key_at(best);
        let later: bool = candidate.number > current.number || (candidate.number == current.number
            && matches!(
            byte_order(candidate.head.as_slice(), current.head.as_slice()),
            ByteOrder::Before
        ));
        if later {
            best = i;
        }
        i += 1;
    }
    let name: EpochName = keys.key_at(best);
    let key: [u8; 32] = *keys.value_at(best);
    proof {
        assert forall|n: EpochName| #[trigger] replica@.content_keys.dom().contains(n) implies
            latest_of(name, n) by {
            let j = keys.keys().index_of(n);
            assert(keys.keys()[j] == n);
        }
    }
    Some(ContentEpoch { number: name.number, head: name.head, key })
}

spec fn latest_of(name: EpochName, n: EpochName) -> bool {
    n.number < name.number || (n.number == name.number && crate::bytes::big_endian(name.head@)
        <= crate::bytes::big_endian(n.head@))
}

/// What a backup keeps of an identity.
pub fn identity_material(replica: &Replica, identity_seed: [u8; 32], hpke_seed: [u8; 32]) -> (
material: IdentityMaterial)
    ensures
        material.identity_seed == identity_seed,
        material.hpke_seed == hpke_seed,
        material.community_id == replica@.community_id,
        material.owner == replica@.owner,
        match material.active_epoch {
            Some(epoch) => is_latest(
                replica@.content_keys,
                EpochName { number: epoch.number, head: epoch.head },
            ) && epoch.key == replica@.content_keys[EpochName {
                number: epoch.number,
                head: epoch.head,
            }],
            None => forall|n: EpochName| !#[trigger] replica@.content_keys.dom().contains(n),
        },
{
    IdentityMaterial {
        identity_seed,
        hpke_seed,
        community_id: replica.community_id(),
        owner: replica.community_owner(),
        active_epoch: latest_content_epoch(replica),
    }
}

proof fn opened_are(replica: ReplicaModel, list: Seq<EncryptedText>, seen: TextSeen)
    ensures
        opened_texts(replica, list).contains(seen) <==> exists|k: int|
            0 <= k < list.len() && opens_to(replica, #[trigger] list[k], seen),
    decreases list.len(),
{
    if list.len() > 0 {
        let before = list.drop_last();
        opened_are(replica, before, seen);
        let some = opened_texts(replica, before);
        let all = opened_texts(replica, list);
        let last = list.last();
        assert(list[list.len() - 1] == last);
        if some.contains(seen) {
            let k = choose|k: int| 0 <= k < before.len() && opens_to(replica, #[trigger] before[k], seen);
            assert(list[k] == before[k]);
            let i = some.index_of(seen);
            assert(all[i] == seen);
        }
        if exists|k: int| 0 <= k < list.len() && opens_to(replica, #[trigger] list[k], seen) {
            let k = choose|k: int| 0 <= k < list.len() && opens_to(replica, #[trigger] list[k], seen);
            if k < before.len() {
                assert(before[k] == list[k]);
            } else {
                assert(all[all.len() - 1] == seen);
            }
        }
        if all.contains(seen) && !some.contains(seen) {
            let i = all.index_of(seen);
            if i < some.len() {
                assert(some[i] == all[i]);
            }
        }
    }
}

/// Whether a text that is kept reads as this, with the content key that is held for it.
pub open spec fn opens_to(replica: ReplicaModel, text: EncryptedText, seen: TextSeen) -> bool {
    let name = EpochName { number: text.epoch, head: text.head };
    &&& replica.content_keys.dom().contains(name)
    &&& seen.author == text.author
    &&& text_found(replica.community_id, text@, replica.content_keys[name]@) == Ok::<
        TextModel,
        FaultModel,
    >(seen.text)
}

/// Whether an attachment that is kept reads as this, with the content key that is held for it.
pub open spec fn attachment_opens_to(
    replica: ReplicaModel,
    attachment: EncryptedAttachment,
    seen: AttachmentSeen,
) -> bool {
    let name = EpochName { number: attachment.epoch, head: attachment.head };
    &&& replica.content_keys.dom().contains(name)
    &&& seen.author == attachment.author
    &&& attachment_found(replica.community_id, attachment@, replica.content_keys[name]@) == Ok::<
        AttachmentModel,
        FaultModel,
    >(seen.attachment)
}

proof fn opened_attachments_are(
    replica: ReplicaModel,
    list: Seq<EncryptedAttachment>,
    seen: AttachmentSeen,
)
    ensures
        opened_attachments(replica, list).contains(seen) <==> exists|k: int|
            0 <= k < list.len() && attachment_opens_to(replica, #[trigger] list[k], seen),
    decreases list.len(),
{
    if list.len() > 0 {
        let before = list.drop_last();
        opened_attachments_are(replica, before, seen);
        let some = opened_attachments(replica, before);
        let all = opened_attachments(replica, list);
        let last = list.last();
        assert(list[list.len() - 1] == last);
        if some.contains(seen) {
            let k = choose|k: int|
                0 <= k < before.len() && attachment_opens_to(replica, #[trigger] before[k], seen);
            assert(list[k] == before[k]);
            let i = some.index_of(seen);
            assert(all[i] == seen);
        }
        if exists|k: int|
            0 <= k < list.len() && attachment_opens_to(replica, #[trigger] list[k], seen) {
            let k = choose|k: int|
                0 <= k < list.len() && attachment_opens_to(replica, #[trigger] list[k], seen);
            if k < before.len() {
                assert(before[k] == list[k]);
            } else {
                assert(all[all.len() - 1] == seen);
            }
        }
        if all.contains(seen) && !some.contains(seen) {
            let i = all.index_of(seen);
            if i < some.len() {
                assert(some[i] == all[i]);
            }
        }
    }
}

proof fn order_keeps_items<T: Placed>(list: Seq<T>, item: T)
    ensures
        in_order(list).contains(item) <==> list.contains(item),
{
    broadcast use vstd::seq_lib::group_to_multiset_ensures;

    in_order_is_sorted(list);
    assert(in_order(list).to_multiset().count(item) == list.to_multiset().count(item));
}

/// A snapshot shows every text that is kept and can be read, by its author and as it was written;
/// and every text that it shows is one of these, or one of the time before texts were encrypted.
pub proof fn snapshots_show_what_can_be_read(
    replica: ReplicaModel,
    snapshot: Snapshot,
    name: ContentName,
    seen: TextSeen,
)
    requires
        shows(replica, snapshot),
        replica.texts.dom().finite(),
    ensures
        replica.texts.dom().contains(name) && opens_to(replica, replica.texts[name], seen)
            ==> exists|i: int|
            0 <= i < snapshot.messages@.len() && (#[trigger] snapshot.messages@[i]).author
                == seen.author && snapshot.messages@[i].message@ == seen.text,
        forall|i: int|
            0 <= i < snapshot.messages@.len() ==> {
                let shown = TextSeen {
                    author: (#[trigger] snapshot.messages@[i]).author,
                    text: snapshot.messages@[i].message@,
                };
                ||| clear_texts(replica.legacy_texts).contains(shown)
                ||| exists|n: ContentName| #[trigger]
                    replica.texts.dom().contains(n) && opens_to(replica, replica.texts[n], shown)
            },
{
    let values = sorted_values(replica.texts);
    let clear = clear_texts(replica.legacy_texts);
    let opened = opened_texts(replica, values);
    let texts = choose|texts: Seq<AuthoredText>|
        #![trigger in_order(texts)]
        seen_texts(texts) == clear + opened && snapshot.messages@ == in_order(texts);
    let all = clear + opened;
    finite_maps_list_their_values(replica.texts, name);
    if replica.texts.dom().contains(name) && opens_to(replica, replica.texts[name], seen) {
        let k = values.index_of(replica.texts[name]);
        assert(values[k] == replica.texts[name]);
        opened_are(replica, values, seen);
        assert(opens_to(replica, values[k], seen));
        assert(opened.contains(seen));
        let o = opened.index_of(seen);
        let i = clear.len() + o;
        assert(seen_texts(texts).len() == texts.len() && i < all.len());
        assert(all[i] == seen);
        assert(seen_texts(texts)[i] == seen);
        assert(texts.contains(texts[i]));
        order_keeps_items(texts, texts[i]);
        let s = snapshot.messages@.index_of(texts[i]);
        assert(snapshot.messages@[s].author == seen.author && snapshot.messages@[s].message@
            == seen.text);
    }
    assert forall|i: int| 0 <= i < snapshot.messages@.len() implies {
        let shown = TextSeen {
            author: (#[trigger] snapshot.messages@[i]).author,
            text: snapshot.messages@[i].message@,
        };
        ||| clear_texts(replica.legacy_texts).contains(shown)
        ||| exists|n: ContentName| #[trigger]
            replica.texts.dom().contains(n) && opens_to(replica, replica.texts[n], shown)
    } by {
        let item = snapshot.messages@[i];
        let shown = TextSeen { author: item.author, text: item.message@ };
        assert(snapshot.messages@.contains(item));
        order_keeps_items(texts, item);
        let t = texts.index_of(item);
        assert(seen_texts(texts)[t] == shown);
        assert(all[t] == shown);
        if t < clear.len() {
            assert(clear[t] == shown);
        } else {
            assert(opened[t - clear.len()] == shown);
            assert(opened.contains(shown));
            opened_are(replica, values, shown);
            let k = choose|k: int| 0 <= k < values.len() && opens_to(replica, #[trigger] values[k], shown);
            let n = sorted_keys(replica.texts)[k];
            assert(replica.texts.dom().contains(n) && values[k] == replica.texts[n]);
        }
    }
}

/// A snapshot shows every attachment that is kept and can be read, by its author and with its name
/// and its bytes; and every attachment that it shows is one of these.
pub proof fn snapshots_show_attachments_that_can_be_read(
    replica: ReplicaModel,
    snapshot: Snapshot,
    name: ContentName,
    seen: AttachmentSeen,
)
    requires
        shows(replica, snapshot),
        replica.attachments.dom().finite(),
    ensures
        replica.attachments.dom().contains(name) && attachment_opens_to(
            replica,
            replica.attachments[name],
            seen,
        ) ==> exists|i: int|
            0 <= i < snapshot.attachments@.len() && (#[trigger] snapshot.attachments@[i]).author
                == seen.author && snapshot.attachments@[i].attachment@ == seen.attachment,
        forall|i: int|
            0 <= i < snapshot.attachments@.len() ==> {
                let shown = AttachmentSeen {
                    author: (#[trigger] snapshot.attachments@[i]).author,
                    attachment: snapshot.attachments@[i].attachment@,
                };
                exists|n: ContentName| #[trigger]
                    replica.attachments.dom().contains(n) && attachment_opens_to(
                        replica,
                        replica.attachments[n],
                        shown,
                    )
            },
{
    let values = sorted_values(replica.attachments);
    let opened = opened_attachments(replica, values);
    let list = choose|list: Seq<AuthoredAttachment>|
        #![trigger in_order(list)]
        seen_attachments(list) == opened && snapshot.attachments@ == in_order(list);
    finite_maps_list_their_values(replica.attachments, name);
    if replica.attachments.dom().contains(name) && attachment_opens_to(
        replica,
        replica.attachments[name],
        seen,
    ) {
        let k = values.index_of(replica.attachments[name]);
        assert(values[k] == replica.attachments[name]);
        opened_attachments_are(replica, values, seen);
        let i = opened.index_of(seen);
        assert(seen_attachments(list)[i] == seen);
        assert(list.contains(list[i]));
        order_keeps_items(list, list[i]);
        let s = snapshot.attachments@.index_of(list[i]);
        assert(snapshot.attachments@[s].author == seen.author
            && snapshot.attachments@[s].attachment@ == seen.attachment);
    }
    assert forall|i: int| 0 <= i < snapshot.attachments@.len() implies {
        let shown = AttachmentSeen {
            author: (#[trigger] snapshot.attachments@[i]).author,
            attachment: snapshot.attachments@[i].attachment@,
        };
        exists|n: ContentName| #[trigger]
            replica.attachments.dom().contains(n) && attachment_opens_to(
                replica,
                replica.attachments[n],
                shown,
            )
    } by {
        let item = snapshot.attachments@[i];
        let shown = AttachmentSeen { author: item.author, attachment: item.attachment@ };
        assert(snapshot.attachments@.contains(item));
        order_keeps_items(list, item);
        let t = list.index_of(item);
        assert(seen_attachments(list)[t] == shown);
        assert(opened[t] == shown);
        assert(opened.contains(shown));
        opened_attachments_are(replica, values, shown);
        let k = choose|k: int|
            0 <= k < values.len() && attachment_opens_to(replica, #[trigger] values[k], shown);
        let n = sorted_keys(replica.attachments)[k];
        assert(replica.attachments.dom().contains(n) && values[k] == replica.attachments[n]);
    }
}

/// A snapshot shows every channel that is kept, the members of the community that the history leads
/// to, and the display name of every member whose name can be read.
pub proof fn snapshots_show_channels_and_names(
    replica: ReplicaModel,
    snapshot: Snapshot,
    channel: ChannelId,
    member: MemberId,
)
    requires
        shows(replica, snapshot),
        replica.channels.dom().finite(),
    ensures
        replica.channels.dom().contains(channel) ==> exists|i: int|
            0 <= i < snapshot.channels@.len() && (#[trigger] snapshot.channels@[i])@
                == replica.channels[channel].channel@,
        snapshot.channels@.len() == replica.channels.dom().len(),
        replica.community() == Ok::<CommunityModel, FaultModel>(snapshot.community@),
        ({
            let profile = replica.profiles[member];
            let name = EpochName { number: profile.epoch, head: profile.head };
            let readable = replica.profiles.dom().contains(member)
                && snapshot.community@.members.dom().contains(profile.member)
                && replica.content_keys.dom().contains(name);
            &&& snapshot.display_names@.dom().contains(member) <==> readable
            &&& readable ==> name_found(
                replica.community_id,
                profile@,
                replica.content_keys[name]@,
            ) == Ok::<Seq<char>, FaultModel>(snapshot.display_names@[member]@)
        }),
{
    finite_maps_list_their_values(replica.channels, channel);
    if replica.channels.dom().contains(channel) {
        let values = sorted_values(replica.channels);
        let k = values.index_of(replica.channels[channel]);
        assert(values[k] == replica.channels[channel]);
        assert(snapshot.channels@[k]@ == values[k].channel@);
    }
}

/// The content key that a backup keeps is one that is held, of the latest membership of which one is:
/// no key of a later membership is held.
pub proof fn backups_keep_the_latest_key(
    keys: Map<EpochName, [u8; 32]>,
    name: EpochName,
    other: EpochName,
)
    requires
        is_latest(keys, name),
        keys.dom().contains(other),
    ensures
        keys.dom().contains(name),
        other.number <= name.number,
{
}

} // verus!
