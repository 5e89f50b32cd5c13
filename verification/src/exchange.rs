//! What holds between peers: what one sends is what another receives, whatever the order.

use vstd::prelude::*;

use crate::bytes::{array_with, array_with_is};
use crate::community::{
    histories_go_step_by_step, membership_head, membership_objection, subject, CommunityError,
    CommunityModel, MemberId, MemberRole, MembershipChange, SignedMembership,
};
use crate::crypto::{
    attachment_found, attachment_reads_back, encrypted_attachment_fault, encrypted_text_fault,
    envelope_message, envelope_opened, name_found, name_reads_back, opens_with_key,
    presence_reads_back, profile_fault, registration_message, signature_fault, text_found,
    text_reads_back, voice_aad, ContentEpoch, ContentKeyEnvelope, EncryptedAttachment,
    EncryptedMemberProfile, EncryptedText, EncryptedVoicePresence, KeyRegistration,
};
use crate::egregore::{
    membership_changed, membership_outcome, membership_received, names, participants_of, posts,
    receives_attachment, receives_channel, receives_profile, receives_text, refresh_ruling,
    refreshed_with, refreshes, rotated_to, rotates, rotation_outcome, seals_for, sealing_fault,
    shares, signs_channel, EgregoreModel, Rotation,
};
use crate::fault::{protocol_fault, Fault, FaultModel};
use crate::filing::{filed, filters_keep_what_passes, slot};
use crate::handler::{
    catches_up, command_refusal, counted_after, lists_given, lists_texts, obeyed,
    operation_received, others_registered, outcome_in, payload_fault, plans, reacted, reads_up_to,
    receives_presence, reply_telling, sealed_voice, seals_statement, silences, speaks, states,
    tells_presence, untracks, HandlerModel, Reaction, ReplyModel, SealedVoice, SyncPlan,
};
use crate::model::{
    attachment_objection, channel_signature_objection, display_name_objection, text_objection,
    Attachment, AttachmentModel, Channel, ChannelId, Command, DisplayName, Event, MessageId, SignedCreateChannel, TextMessage,
    TextModel, VoiceFrameModel, VoicePresence,
};
use crate::names::{ContentName, EnvelopeName, EpochName, TextIdentity};
use crate::operations::{
    attachment_carried, attachment_unreadable, attachment_wire, channel_unreadable, channel_wire,
    envelope_unreadable, envelope_wire, identity_of, inventory_bytes, inventory_unreadable, lacks,
    member_profile_carried, member_profile_unreadable, member_profile_wire, membership_unreadable,
    membership_wire, missing_texts, registration_wire, text_carried, text_unreadable, text_wire,
    voice_presence_carried, voice_presence_unreadable, voice_presence_wire, voice_unreadable,
};
use crate::outcome::{outcome_of, sent, with_profile_refresh, EventModel, OutcomeModel};
use crate::primitives::{ed25519_public_key, hpke_key_objection, hpke_public_key};
use crate::replica::{
    at_revision, rotations_add_to_what_is_held, storable, the_last_membership_is_in_force,
    ReplicaModel,
};
use crate::snapshot::{current_profiles, syncs, SyncState};
use crate::sorted::{
    finite_maps_are_listed, finite_maps_list_their_values, rank, sorted_keys, sorted_values,
};
use crate::voice::{presence_after, presence_refusal};
use crate::wire::{self, Body, BodyModel};

verus! {

/// The name of an item of an author.
pub open spec fn named(author: MemberId, id: MessageId) -> ContentName {
    ContentName { author, id }
}

/// Whoever posts a text makes it readable to every participant that admits it: the text comes up there
/// under its author's name, once, as it was written. A peer admits it where it holds the content key
/// that the author used, knows the author as a participant of that epoch and the channel as a text
/// channel, and has no text of that name.
pub proof fn posted_text_arrives(
    author: EgregoreModel,
    message: TextModel,
    sealed: EncryptedText,
    peer: EgregoreModel,
    sender: MemberId,
    after: EgregoreModel,
    answer: Result<OutcomeModel, FaultModel>,
)
    requires
        text_objection(message.body) is None,
        posts(author, message, sealed),
        peer.replica.community_id == author.replica.community_id,
        peer.text_admission(sender, sealed) == Ok::<Option<[u8; 32]>, FaultModel>(
            Some((author.replica.active_epoch()->0).key),
        ),
        peer.replica.text_verdict(sealed) == Ok::<bool, FaultModel>(true),
        receives_text(peer, sender, text_wire(sealed@), after, answer),
    ensures
        answer == Ok::<OutcomeModel, FaultModel>(
            outcome_of(
                seq![EventModel::TextStored { author: sealed.author, text: message }],
                Seq::empty(),
            ),
        ),
        after.replica.texts.dom().contains(named(sealed.author, message.id)),
        after.replica.texts[named(sealed.author, message.id)]@ == sealed@,
{
    let wired = text_wire(sealed@);
    assert(text_unreadable(wired) is None);
    let read = choose|read: EncryptedText| #[trigger]
        text_wire(read@) == wired && (after, answer) == peer.text_received(sender, read);
    text_carried(sealed, read);
    same_text_fields(sealed, read);
    assert(peer.text_admission(sender, read) == peer.text_admission(sender, sealed));
    assert(peer.replica.text_verdict(read) == peer.replica.text_verdict(sealed));
    text_reads_back(
        author.signing_seed,
        author.replica.community_id,
        author.replica.active_epoch()->0,
        message,
        sealed@,
    );
}

proof fn same_text_fields(a: EncryptedText, b: EncryptedText)
    requires
        a@ == b@,
    ensures
        a.id == b.id,
        a.author == b.author,
        a.channel_id == b.channel_id,
        a.epoch == b.epoch,
        a.head == b.head,
{
    assert(a.head@ == b.head@);
    assert(a.head =~= b.head);
}

/// Whoever shares an attachment makes it readable to every participant that admits it: the attachment
/// comes up there under its author's name, with the name and the bytes that it was shared with.
pub proof fn shared_attachment_arrives(
    author: EgregoreModel,
    attachment: AttachmentModel,
    sealed: EncryptedAttachment,
    peer: EgregoreModel,
    sender: MemberId,
    after: EgregoreModel,
    answer: Result<OutcomeModel, FaultModel>,
)
    requires
        attachment_objection(attachment.name, attachment.bytes) is None,
        shares(author, attachment, sealed),
        peer.replica.community_id == author.replica.community_id,
        peer.attachment_admission(sender, sealed) == Ok::<Option<[u8; 32]>, FaultModel>(
            Some((author.replica.active_epoch()->0).key),
        ),
        peer.replica.attachment_verdict(sealed) == Ok::<bool, FaultModel>(true),
        receives_attachment(peer, sender, attachment_wire(sealed@), after, answer),
    ensures
        answer == Ok::<OutcomeModel, FaultModel>(
            outcome_of(
                seq![EventModel::AttachmentStored { author: sealed.author, attachment }],
                Seq::empty(),
            ),
        ),
        after.replica.attachments.dom().contains(named(sealed.author, attachment.id)),
        after.replica.attachments[named(sealed.author, attachment.id)]@ == sealed@,
{
    let wired = attachment_wire(sealed@);
    assert(attachment_unreadable(wired) is None);
    let read = choose|read: EncryptedAttachment| #[trigger]
        attachment_wire(read@) == wired && (after, answer) == peer.attachment_received(
            sender,
            read,
        );
    attachment_carried(sealed, read);
    assert(sealed.head =~= read.head) by {
        assert(sealed@.head == read@.head);
    }
    assert(sealed.id == read.id && sealed.author == read.author && sealed.channel_id
        == read.channel_id) by {
        assert(sealed@.id == read@.id);
    }
    assert(peer.attachment_admission(sender, read) == peer.attachment_admission(sender, sealed));
    assert(peer.replica.attachment_verdict(read) == peer.replica.attachment_verdict(sealed));
    attachment_reads_back(
        author.signing_seed,
        author.replica.community_id,
        author.replica.active_epoch()->0,
        attachment,
        sealed@,
    );
}

/// Whoever takes a name shows it to every participant that admits it.
pub proof fn taken_name_arrives(
    member: EgregoreModel,
    name: Seq<char>,
    sealed: EncryptedMemberProfile,
    peer: EgregoreModel,
    sender: MemberId,
    after: EgregoreModel,
    answer: Result<OutcomeModel, FaultModel>,
)
    requires
        display_name_objection(name) is None,
        names(member, name, sealed),
        member.replica.next_profile_revision(member.local_member) <= u64::MAX,
        peer.replica.community_id == member.replica.community_id,
        peer.profile_admission(sender, sealed) == Ok::<Option<[u8; 32]>, FaultModel>(
            Some((member.replica.active_epoch()->0).key),
        ),
        peer.replica.profile_verdict(sealed) == Ok::<bool, FaultModel>(true),
        receives_profile(peer, sender, member_profile_wire(sealed@), after, answer),
    ensures
        answer == Ok::<OutcomeModel, FaultModel>(
            outcome_of(
                seq![EventModel::DisplayNameChanged { member: sealed.member, name }],
                Seq::empty(),
            ),
        ),
{
    let wired = member_profile_wire(sealed@);
    assert(member_profile_unreadable(wired) is None);
    let read = choose|read: EncryptedMemberProfile| #[trigger]
        member_profile_wire(read@) == wired && (after, answer) == peer.profile_received(
            sender,
            read,
        );
    member_profile_carried(sealed, read);
    assert(sealed.head =~= read.head) by {
        assert(sealed@.head == read@.head);
    }
    assert(sealed.member == read.member && sealed.revision == read.revision && sealed.epoch
        == read.epoch) by {
        assert(sealed@.member == read@.member);
    }
    assert(peer.profile_admission(sender, read) == peer.profile_admission(sender, sealed));
    assert(peer.replica.profile_verdict(read) == peer.replica.profile_verdict(sealed));
    name_reads_back(
        member.signing_seed,
        member.replica.community_id,
        member.replica.active_epoch()->0,
        member.replica.next_profile_revision(member.local_member) as u64,
        name,
        sealed@,
    );
}

/// Whoever gets its envelope of a rotation holds the rotation's content key from there on, where the
/// owner's signature passes and nothing else is kept for the epoch.
pub proof fn sealed_key_arrives(
    owner: EgregoreModel,
    change: MembershipChange,
    key: [u8; 32],
    rotation: Rotation,
    i: int,
    member: EgregoreModel,
    after: EgregoreModel,
    answer: Result<OutcomeModel, FaultModel>,
)
    requires
        rotates(owner, change, key, rotation),
        0 <= i < rotation.envelopes.len(),
        rotation.envelopes[i].recipient == member.local_member,
        member.replica.community_id == owner.replica.community_id,
        member.hpke_seed.len() == 32,
        hpke_public_key(member.hpke_seed)
            == owner.replica.registrations[member.local_member].public_key@,
        signature_fault(
            member.replica.owner@,
            envelope_message(member.replica.community_id, rotation.envelopes[i]@),
            rotation.envelopes[i].signature@,
        ) is None,
        member.community.role(member.local_member) != Some(MemberRole::Availability),
        member.replica.envelope_verdict(rotation.envelopes[i]) is Ok,
        storable(rotation.epoch.number),
        member.replica.held_key(rotation.epoch.number, rotation.epoch.head) is None,
        (after, answer) == member.envelope_received(rotation.envelopes[i]),
    ensures
        answer is Ok,
        after.replica.held_key(rotation.epoch.number, rotation.epoch.head) == Some(key),
{
    keys_reach_participants_only(owner, change, key, rotation, i, member.hpke_seed);
    let next = owner.community.changed(owner.local_member, change);
    let list = participants_of(next, sorted_keys(next.members));
    let envelope = rotation.envelopes[i];
    assert(seals_for(owner, rotation.epoch, list[i], envelope));
    array_with_is::<32>(key);
    let epoch = ContentEpoch {
        number: envelope.epoch,
        head: envelope.head,
        key: crate::bytes::array_with::<32>(key@),
    };
    let kept = member.with_replica(member.replica.envelope_added(envelope));
    assert(kept.replica.content_keys == member.replica.content_keys);
    assert(kept.replica.content_key_verdict(epoch) is Ok);
}

/// Whoever speaks is heard by every participant in the channel that holds the content key: the same
/// frame, under the speaker's name.
pub proof fn spoken_frame_is_heard(
    speaker: HandlerModel,
    frame: VoiceFrameModel,
    message: wire::VoiceFrameModel,
    listener: HandlerModel,
)
    requires
        speaks(speaker, frame, message),
        message.payload.len() <= u64::MAX,
        payload_fault(frame.payload) is None,
        listener.egregore.replica.community_id == speaker.egregore.replica.community_id,
        listener.egregore.community.participates(speaker.egregore.local_member),
        listener.egregore.community.participates(listener.egregore.local_member),
        listener.voice_admission(sealed_voice(message), speaker.egregore.local_member) == Ok::<
            [u8; 32],
            FaultModel,
        >((speaker.egregore.replica.active_epoch()->0).key),
    ensures
        listener.datagram_received(
            speaker.egregore.local_member,
            wire::encoded(wire::voice_frame_fields(message)),
        ).1 == Ok::<EventModel, FaultModel>(
            EventModel::VoiceReceived { author: speaker.egregore.local_member, frame },
        ),
{
    let epoch = speaker.egregore.replica.active_epoch()->0;
    wire::voice_frame_reads_back(message);
    array_with_is::<16>(frame.stream_id.0);
    array_with_is::<32>(frame.channel_id.0);
    array_with_is::<32>(epoch.head);
    assert(voice_unreadable(message) is None);
    let sealed = sealed_voice(message);
    assert(sealed.frame.stream_id == frame.stream_id);
    assert(sealed.frame.channel_id == frame.channel_id);
    assert(sealed.head == epoch.head);
    assert(voice_aad(
        listener.egregore.replica.community_id,
        sealed.epoch,
        sealed.head@,
        speaker.egregore.local_member,
        sealed.frame,
    ) == voice_aad(
        speaker.egregore.replica.community_id,
        epoch.number,
        epoch.head@,
        speaker.egregore.local_member,
        frame,
    ));
}

proof fn participants_are(community: CommunityModel, members: Seq<MemberId>)
    ensures
        forall|m: MemberId|
            participants_of(community, members).contains(m) <==> (#[trigger] members.contains(m)
                && community.participates(m)),
    decreases members.len(),
{
    if members.len() > 0 {
        let before = members.drop_last();
        participants_are(community, before);
        let list = participants_of(community, before);
        let all = participants_of(community, members);
        assert forall|m: MemberId|
            all.contains(m) <==> (#[trigger] members.contains(m) && community.participates(m)) by {
            assert(before.contains(m) ==> members.contains(m)) by {
                if before.contains(m) {
                    let k = before.index_of(m);
                    assert(members[k] == m);
                }
            }
            assert(members.contains(m) && m != members.last() ==> before.contains(m)) by {
                if members.contains(m) && m != members.last() {
                    let k = members.index_of(m);
                    assert(before[k] == m);
                }
            }
            assert(members[members.len() - 1] == members.last());
            if community.participates(members.last()) {
                assert(all == list.push(members.last()));
                assert(all[all.len() - 1] == members.last());
                if list.contains(m) {
                    let k = list.index_of(m);
                    assert(all[k] == m);
                }
                if all.contains(m) && m != members.last() {
                    let k = all.index_of(m);
                    assert(list[k] == m);
                }
            }
            assert(list.contains(m) <==> (before.contains(m) && community.participates(m)));
        }
    }
}

/// A change of the membership gives its content key to the participants that it leaves, and to nobody
/// else: neither an availability peer nor a removed member gets an envelope, and each envelope opens to
/// the new key, not to an earlier one.
pub proof fn keys_reach_participants_only(
    state: EgregoreModel,
    change: MembershipChange,
    key: [u8; 32],
    rotation: Rotation,
    i: int,
    seed: Seq<u8>,
)
    requires
        rotates(state, change, key, rotation),
        0 <= i < rotation.envelopes.len(),
        seed.len() == 32,
        hpke_public_key(seed)
            == state.replica.registrations[rotation.envelopes[i].recipient].public_key@,
    ensures
        state.community.changed(state.local_member, change).participates(
            rotation.envelopes[i].recipient,
        ),
        envelope_opened(state.replica.community_id, rotation.envelopes[i]@, seed) == Ok::<
            Seq<u8>,
            FaultModel,
        >(key@),
{
    let next = state.community.changed(state.local_member, change);
    let members = sorted_keys(next.members);
    participants_are(next, members);
    let list = participants_of(next, members);
    assert(seals_for(state, rotation.epoch, list[i], rotation.envelopes[i]));
    assert(list.contains(list[i]));
    assert(members.contains(list[i]));
}

/// A member that only keeps what others write gets no envelope when it is admitted.
pub proof fn availability_gets_no_key(
    state: EgregoreModel,
    member: MemberId,
    key: [u8; 32],
    rotation: Rotation,
    i: int,
)
    requires
        rotates(state, MembershipChange::AdmitAvailability(member), key, rotation),
        state.community.verdict(state.local_member, MembershipChange::AdmitAvailability(member))
            is Ok,
        0 <= i < rotation.envelopes.len(),
    ensures
        rotation.envelopes[i].recipient != member,
{
    let next = state.community.changed(
        state.local_member,
        MembershipChange::AdmitAvailability(member),
    );
    let members = sorted_keys(next.members);
    participants_are(next, members);
    let list = participants_of(next, members);
    assert(seals_for(state, rotation.epoch, list[i], rotation.envelopes[i]));
    assert(list.contains(list[i]));
    assert(members.contains(list[i]));
    assert(next.participates(rotation.envelopes[i].recipient));
}

/// In which order two texts come in makes no difference to what is kept.
pub proof fn kept_texts_converge(replica: ReplicaModel, a: EncryptedText, b: EncryptedText)
    requires
        named(a.author, a.id) != named(b.author, b.id),
    ensures
        replica.text_added(a).text_added(b) == replica.text_added(b).text_added(a),
{
    assert(replica.text_added(a).text_added(b).texts =~= replica.text_added(b).text_added(a).texts);
}

/// A text that comes in again changes nothing, and a different one under its name is refused: what was
/// kept first stays.
pub proof fn kept_texts_stay(replica: ReplicaModel, text: EncryptedText, other: EncryptedText)
    requires
        replica.text_verdict(text) is Ok,
        other.author == text.author,
        other.id == text.id,
        storable(other.epoch),
    ensures
        replica.text_added(text).texts[named(text.author, text.id)]@ == text@,
        other@ == text@ ==> replica.text_added(text).text_verdict(other) == Ok::<bool, FaultModel>(
            false,
        ),
        other@ != text@ ==> replica.text_added(text).text_verdict(other) is Err,
        replica.text_added(text).text_added(other) == replica.text_added(text),
{
}

/// A forgotten attachment never comes back: it is answered as if it were known, and is not kept.
pub proof fn forgotten_attachments_stay_forgotten(
    replica: ReplicaModel,
    attachment: EncryptedAttachment,
    other: EncryptedAttachment,
)
    ensures
        ({
            let name = named(attachment.author, attachment.id);
            let after = replica.attachment_forgotten(attachment.author, attachment.id);
            &&& !after.attachments.dom().contains(name)
            &&& after.attachment_verdict(attachment) == Ok::<bool, FaultModel>(false)
            &&& after.attachment_added(attachment) == after
            &&& !after.attachment_added(other).attachments.dom().contains(name)
            &&& after.attachment_added(other).forgotten.contains(name)
        }),
{
}

/// What was read in a channel never goes back, whatever is reported.
pub proof fn cursors_never_go_back(replica: ReplicaModel, channel: ChannelId, id: MessageId)
    ensures
        replica.cursor_set(channel, id).cursors.dom().contains(channel),
        rank(id) <= rank(replica.cursor_set(channel, id).cursors[channel]),
        replica.cursors.dom().contains(channel) ==> rank(replica.cursors[channel]) <= rank(
            replica.cursor_set(channel, id).cursors[channel],
        ),
{
}

/// Whether everything that a replica held another one holds, unchanged: only a display name may
/// have made room for a later one of its member.
pub open spec fn nothing_lost(before: ReplicaModel, after: ReplicaModel) -> bool {
    &&& after.community_id == before.community_id
    &&& after.owner == before.owner
    &&& after.recovered == before.recovered
    &&& after.legacy_texts == before.legacy_texts
    &&& after.forgotten == before.forgotten
    &&& after.cursors == before.cursors
    &&& forall|i: int|
        0 <= i < before.history.len() ==> after.history.contains(#[trigger] before.history[i])
    &&& before.registrations.submap_of(after.registrations)
    &&& before.envelopes.submap_of(after.envelopes)
    &&& before.content_keys.submap_of(after.content_keys)
    &&& before.channels.submap_of(after.channels)
    &&& before.texts.submap_of(after.texts)
    &&& before.attachments.submap_of(after.attachments)
    &&& forall|m: MemberId| #[trigger]
        before.profiles.dom().contains(m) ==> after.profiles.dom().contains(m) && (
        after.profiles[m] == before.profiles[m] || after.profiles[m].revision
            > before.profiles[m].revision)
}

proof fn same_loses_nothing(replica: ReplicaModel)
    ensures
        nothing_lost(replica, replica),
{
    assert forall|i: int| 0 <= i < replica.history.len() implies replica.history.contains(
        #[trigger] replica.history[i],
    ) by {}
}

proof fn parts_of_parts<K, V>(a: Map<K, V>, b: Map<K, V>, c: Map<K, V>)
    requires
        a.submap_of(b),
        b.submap_of(c),
    ensures
        a.submap_of(c),
{
    assert forall|k: K| #[trigger]
        a.dom().contains(k) implies #[trigger] c.dom().contains(k) && a[k] == c[k] by {
        assert(b.dom().contains(k));
    }
}

proof fn losses_add_up(a: ReplicaModel, b: ReplicaModel, c: ReplicaModel)
    requires
        nothing_lost(a, b),
        nothing_lost(b, c),
    ensures
        nothing_lost(a, c),
{
    assert forall|i: int| 0 <= i < a.history.len() implies c.history.contains(
        #[trigger] a.history[i],
    ) by {
        let k = b.history.index_of(a.history[i]);
        assert(c.history.contains(b.history[k]));
    }
    assert forall|m: MemberId| #[trigger] a.profiles.dom().contains(m) implies c.profiles.dom().contains(
        m,
    ) && (c.profiles[m] == a.profiles[m] || c.profiles[m].revision > a.profiles[m].revision) by {
        assert(b.profiles.dom().contains(m));
    }
    parts_of_parts(a.registrations, b.registrations, c.registrations);
    parts_of_parts(a.envelopes, b.envelopes, c.envelopes);
    parts_of_parts(a.content_keys, b.content_keys, c.content_keys);
    parts_of_parts(a.channels, b.channels, c.channels);
    parts_of_parts(a.texts, b.texts, c.texts);
    parts_of_parts(a.attachments, b.attachments, c.attachments);
}

proof fn filing_loses_nothing(replica: ReplicaModel, signed: SignedMembership)
    ensures
        nothing_lost(
            replica,
            ReplicaModel { history: filed(replica.history, signed), ..replica },
        ),
        filed(replica.history, signed).contains(signed),
{
    same_loses_nothing(replica);
    slot_stands_in(replica.history, signed);
    let s = slot(replica.history, signed);
    let all = filed(replica.history, signed);
    assert(all[s] == signed);
    assert forall|i: int| 0 <= i < replica.history.len() implies all.contains(
        #[trigger] replica.history[i],
    ) by {
        let k = if i < s { i } else { i + 1 };
        assert(all[k] == replica.history[i]);
    }
}

proof fn slot_stands_in(list: Seq<SignedMembership>, item: SignedMembership)
    ensures
        0 <= slot(list, item) <= list.len(),
    decreases list.len(),
{
    if list.len() > 0 {
        slot_stands_in(list.drop_last(), item);
    }
}

proof fn activating_loses_nothing(
    state: EgregoreModel,
    next: CommunityModel,
    signed: SignedMembership,
    members: Seq<MemberId>,
)
    ensures
        ({
            let after = state.members_activated(next, signed, members).0;
            &&& nothing_lost(state.replica, after.replica)
            &&& after.replica == (ReplicaModel {
                registrations: after.replica.registrations,
                ..state.replica
            })
            &&& after.community == state.community
            &&& after.local_member == state.local_member
            &&& after.signing_seed == state.signing_seed
            &&& after.hpke_seed == state.hpke_seed
        }),
    decreases members.len(),
{
    same_loses_nothing(state.replica);
    if members.len() > 0 {
        activating_loses_nothing(state, next, signed, members.drop_last());
        let before = state.members_activated(next, signed, members.drop_last());
        if before.1 is None {
            same_loses_nothing(before.0.replica);
            let after = state.members_activated(next, signed, members).0;
            assert(nothing_lost(before.0.replica, after.replica));
            losses_add_up(state.replica, before.0.replica, after.replica);
        }
    }
}

proof fn refreshing_loses_nothing(
    before: ReplicaModel,
    member: MemberId,
    signing_seed: Seq<u8>,
    after: ReplicaModel,
    result: Result<Option<(EncryptedMemberProfile, DisplayName)>, Fault>,
)
    requires
        refreshes(before, member, signing_seed, after, result),
    ensures
        nothing_lost(before, after),
        after == (ReplicaModel { profiles: after.profiles, ..before }),
{
    same_loses_nothing(before);
    let ruling = refresh_ruling(before, member);
    if ruling is Ok && ruling->Ok_0 is Some {
        let sealed = choose|sealed: EncryptedMemberProfile| #[trigger]
            refreshed_with(before, signing_seed, ruling->Ok_0->0, sealed, after, result);
        assert(refreshed_with(before, signing_seed, ruling->Ok_0->0, sealed, after, result));
    }
}

proof fn membership_loses_nothing(
    before: EgregoreModel,
    signed: SignedMembership,
    after: EgregoreModel,
    answer: Result<OutcomeModel, FaultModel>,
)
    requires
        membership_received(before, signed, after, answer),
    ensures
        nothing_lost(before.replica, after.replica),
        after.replica.texts == before.replica.texts,
        after.replica.attachments == before.replica.attachments,
        after.local_member == before.local_member,
        after.signing_seed == before.signing_seed,
        after.hpke_seed == before.hpke_seed,
{
    same_loses_nothing(before.replica);
    filing_loses_nothing(before.replica, signed);
    let change = signed.update.change;
    let next = before.community.changed(before.replica.owner, change);
    activating_loses_nothing(before, next, signed, sorted_keys(next.members));
    let active = before.activation(signed).0;
    assert(nothing_lost(before.replica, active.replica));
    filing_loses_nothing(active.replica, signed);
    same_loses_nothing(active.replica);
    let kept = active.with_replica(active.replica.membership_added(signed));
    assert(nothing_lost(active.replica, kept.replica));
    losses_add_up(before.replica, active.replica, kept.replica);
    if kept.replica.community() is Ok {
        let renewed = kept.with_community(kept.replica.community()->Ok_0);
        assert(renewed.replica == kept.replica);
        if exists|result: Result<Option<(EncryptedMemberProfile, DisplayName)>, Fault>|
            #[trigger] refreshes(
                renewed.replica,
                renewed.local_member,
                renewed.signing_seed,
                after.replica,
                result,
            ) {
            let result = choose|result: Result<Option<(EncryptedMemberProfile, DisplayName)>, Fault>|
                #[trigger] refreshes(
                    renewed.replica,
                    renewed.local_member,
                    renewed.signing_seed,
                    after.replica,
                    result,
                );
            refreshing_loses_nothing(
                renewed.replica,
                renewed.local_member,
                renewed.signing_seed,
                after.replica,
                result,
            );
            losses_add_up(before.replica, kept.replica, after.replica);
        }
    }
}

/// Whatever a peer sends, nothing that a node held is lost by it: every text, every attachment,
/// every channel, every key and every change of the membership is still held as it was, and what was
/// forgotten is still forgotten.
pub proof fn operations_take_nothing_away(
    before: HandlerModel,
    peer: MemberId,
    body: BodyModel,
    after: HandlerModel,
    answer: Result<ReplyModel, FaultModel>,
)
    requires
        operation_received(before, peer, body, after, answer),
    ensures
        nothing_lost(before.egregore.replica, after.egregore.replica),
        after.egregore.local_member == before.egregore.local_member,
        after.egregore.signing_seed == before.egregore.signing_seed,
        after.egregore.hpke_seed == before.egregore.hpke_seed,
{
    let replica = before.egregore.replica;
    same_loses_nothing(replica);
    match body {
        BodyModel::Membership(message) => {
            if membership_unreadable(message) is None {
                let read = choose|read: SignedMembership| #[trigger]
                    membership_wire(read) == message && membership_received(
                        before.egregore,
                        read,
                        after.egregore,
                        outcome_in(answer),
                    );
                membership_loses_nothing(before.egregore, read, after.egregore, outcome_in(answer));
            }
        },
        BodyModel::ContentKeyEnvelope(message) => {
            if envelope_unreadable(message) is None {
                let read = choose|read: ContentKeyEnvelope| #[trigger]
                    envelope_wire(read@) == message && (after.egregore, outcome_in(answer))
                        == before.egregore.envelope_received(read);
                let added = replica.envelope_added(read);
                assert(nothing_lost(replica, added));
                same_loses_nothing(added);
                if after.egregore.replica != replica {
                    assert(nothing_lost(added, after.egregore.replica));
                    losses_add_up(replica, added, after.egregore.replica);
                }
            }
        },
        _ => {},
    }
}

/// An attachment that a node holds after an operation and did not hold before is the one that the
/// operation carries, under its author and its name.
pub proof fn attachments_come_as_they_were_sent(
    before: HandlerModel,
    peer: MemberId,
    body: BodyModel,
    after: HandlerModel,
    answer: Result<ReplyModel, FaultModel>,
    name: ContentName,
)
    requires
        operation_received(before, peer, body, after, answer),
        !before.egregore.replica.attachments.dom().contains(name),
        after.egregore.replica.attachments.dom().contains(name),
    ensures
        body is Attachment,
        attachment_wire(after.egregore.replica.attachments[name]@) == body->Attachment_0,
        after.egregore.replica.attachments[name].author == name.author,
        after.egregore.replica.attachments[name].id == name.id,
{
    match body {
        BodyModel::Membership(message) => {
            if membership_unreadable(message) is None {
                let read = choose|read: SignedMembership| #[trigger]
                    membership_wire(read) == message && membership_received(
                        before.egregore,
                        read,
                        after.egregore,
                        outcome_in(answer),
                    );
                membership_loses_nothing(before.egregore, read, after.egregore, outcome_in(answer));
            }
        },
        _ => {},
    }
}

/// A text that a node holds after an operation and did not hold before is the one that the
/// operation carries, under its author and its name.
pub proof fn texts_come_as_they_were_sent(
    before: HandlerModel,
    peer: MemberId,
    body: BodyModel,
    after: HandlerModel,
    answer: Result<ReplyModel, FaultModel>,
    name: ContentName,
)
    requires
        operation_received(before, peer, body, after, answer),
        !before.egregore.replica.texts.dom().contains(name),
        after.egregore.replica.texts.dom().contains(name),
    ensures
        body is Text,
        text_wire(after.egregore.replica.texts[name]@) == body->Text_0,
        after.egregore.replica.texts[name].author == name.author,
        after.egregore.replica.texts[name].id == name.id,
{
    match body {
        BodyModel::Membership(message) => {
            if membership_unreadable(message) is None {
                let read = choose|read: SignedMembership| #[trigger]
                    membership_wire(read) == message && membership_received(
                        before.egregore,
                        read,
                        after.egregore,
                        outcome_in(answer),
                    );
                membership_loses_nothing(before.egregore, read, after.egregore, outcome_in(answer));
            }
        },
        _ => {},
    }
}

/// A peer that is a member, as the node itself is, gets a plan wherever the history of the
/// memberships holds up; anybody else gets none.
pub proof fn members_get_a_plan(
    state: HandlerModel,
    peer: MemberId,
    plan: Result<Option<SyncPlan>, Fault>,
)
    requires
        catches_up(state, peer, plan),
    ensures
        ({
            let members = state.egregore.community.members.dom();
            let both = members.contains(peer) && members.contains(state.egregore.local_member);
            &&& both && state.egregore.replica.community() is Ok ==> plan is Ok && plan->Ok_0 is Some
            &&& both && state.egregore.replica.community() is Err ==> plan is Err
            &&& !both ==> plan is Ok && plan->Ok_0 is None
        }),
{
}

/// Whether everything that a replica keeps in maps is finite.
pub open spec fn finite(replica: ReplicaModel) -> bool {
    &&& replica.registrations.dom().finite()
    &&& replica.envelopes.dom().finite()
    &&& replica.channels.dom().finite()
    &&& replica.texts.dom().finite()
    &&& replica.attachments.dom().finite()
    &&& replica.profiles.dom().finite()
}

/// What a node that catches a peer up gathers and plans.
pub open spec fn gathered(
    state: HandlerModel,
    plan: SyncPlan,
    community: CommunityModel,
    given: SyncState,
) -> bool {
    &&& state.egregore.replica.community() == Ok::<CommunityModel, FaultModel>(community)
    &&& syncs(state.egregore.replica, community, given)
    &&& plans(state.egregore.local_member, given, plan)
}

proof fn plan_is_gathered(state: HandlerModel, peer: MemberId, plan: SyncPlan) -> (found: (
    CommunityModel,
    SyncState,
))
    requires
        catches_up(state, peer, Ok(Some(plan))),
    ensures
        gathered(state, plan, found.0, found.1),
{
    let community = state.egregore.replica.community()->Ok_0;
    let given = choose|given: SyncState| #[trigger]
        syncs(state.egregore.replica, community, given) && plans(
            state.egregore.local_member,
            given,
            plan,
        );
    (community, given)
}

/// Every attachment that a node holds is in the plan for a peer: an operation carries it, and
/// whoever reads the operation reads that attachment.
pub proof fn plans_carry_every_attachment(
    state: HandlerModel,
    peer: MemberId,
    plan: SyncPlan,
    name: ContentName,
)
    requires
        catches_up(state, peer, Ok(Some(plan))),
        finite(state.egregore.replica),
        state.egregore.replica.attachments.dom().contains(name),
    ensures
        exists|i: int|
            0 <= i < plan.operations@.len() && (#[trigger] sent(plan.operations@)[i])
                == BodyModel::Attachment(
                attachment_wire(state.egregore.replica.attachments[name]@),
            ),
        forall|read: EncryptedAttachment| #[trigger]
            attachment_wire(read@) == attachment_wire(
                state.egregore.replica.attachments[name]@,
            ) ==> read@ == state.egregore.replica.attachments[name]@,
{
    let replica = state.egregore.replica;
    let (community, given) = plan_is_gathered(state, peer, plan);
    finite_maps_list_their_values(replica.attachments, name);
    let values = sorted_values(replica.attachments);
    let k = values.index_of(replica.attachments[name]);
    assert(values[k] == replica.attachments[name]);
    assert(given.attachments@[k]@ == values[k]@);
    assert(0 <= k < sent(plan.operations@).len());
    assert(sent(plan.operations@)[k] == BodyModel::Attachment(
        attachment_wire(replica.attachments[name]@),
    ));
    assert forall|read: EncryptedAttachment| #[trigger]
        attachment_wire(read@) == attachment_wire(replica.attachments[name]@) implies read@
        == replica.attachments[name]@ by {
        attachment_carried(replica.attachments[name], read);
    }
}

/// Every text that a node holds is among the texts of the plan for a peer, and its name is in the
/// inventory; nothing else is in either.
pub proof fn plans_carry_every_text(
    state: HandlerModel,
    peer: MemberId,
    plan: SyncPlan,
    name: ContentName,
)
    requires
        catches_up(state, peer, Ok(Some(plan))),
        state.egregore.replica.well_formed(),
        finite(state.egregore.replica),
    ensures
        state.egregore.replica.texts.dom().contains(name) <==> exists|i: int|
            0 <= i < plan.messages@.len() && (#[trigger] plan.messages@[i]).author == name.author
                && plan.messages@[i].id == name.id,
        forall|i: int|
            0 <= i < plan.messages@.len() ==> {
                let text = #[trigger] plan.messages@[i];
                &&& state.egregore.replica.texts.dom().contains(named(text.author, text.id))
                &&& state.egregore.replica.texts[named(text.author, text.id)]@ == text@
            },
        plan.messages@.len() == state.egregore.replica.texts.dom().len(),
        exists|names: Seq<TextIdentity>|
            plan.inventory@ == #[trigger] inventory_bytes(names) && (names.contains(
                TextIdentity { author: name.author, id: name.id },
            ) <==> state.egregore.replica.texts.dom().contains(name)),
{
    let replica = state.egregore.replica;
    let (community, given) = plan_is_gathered(state, peer, plan);
    finite_maps_list_their_values(replica.texts, name);
    let keys = sorted_keys(replica.texts);
    let values = sorted_values(replica.texts);
    assert forall|i: int| 0 <= i < plan.messages@.len() implies {
        let text = #[trigger] plan.messages@[i];
        &&& replica.texts.dom().contains(named(text.author, text.id))
        &&& replica.texts[named(text.author, text.id)]@ == text@
    } by {
        assert(given.messages@[i]@ == values[i]@);
        assert(replica.texts.dom().contains(keys[i]));
        same_text_fields(given.messages@[i], values[i]);
        assert(named(plan.messages@[i].author, plan.messages@[i].id) == keys[i]);
    }
    if replica.texts.dom().contains(name) {
        let k = values.index_of(replica.texts[name]);
        assert(values[k] == replica.texts[name]);
        assert(given.messages@[k]@ == values[k]@);
        same_text_fields(given.messages@[k], values[k]);
        assert(plan.messages@[k].author == name.author && plan.messages@[k].id == name.id);
    }
    let names = choose|names: Seq<TextIdentity>| #[trigger]
        lists_given(given.messages@, names) && plan.inventory@ == inventory_bytes(names);
    let own = TextIdentity { author: name.author, id: name.id };
    assert(names.contains(own) <==> exists|i: int|
        0 <= i < given.messages@.len() && identity_of((#[trigger] given.messages@[i])@) == own);
    if names.contains(own) {
        let i = choose|i: int|
            0 <= i < given.messages@.len() && identity_of((#[trigger] given.messages@[i])@) == own;
        assert(plan.messages@[i].author == name.author && plan.messages@[i].id == name.id);
    }
    if exists|i: int|
        0 <= i < plan.messages@.len() && (#[trigger] plan.messages@[i]).author == name.author
            && plan.messages@[i].id == name.id {
        let i = choose|i: int|
            0 <= i < plan.messages@.len() && (#[trigger] plan.messages@[i]).author == name.author
                && plan.messages@[i].id == name.id;
        assert(identity_of(given.messages@[i]@) == own);
    }
}

proof fn registered_bodies(local: MemberId, list: Seq<KeyRegistration>)
    ensures
        forall|i: int|
            0 <= i < others_registered(local, list).len() ==> exists|k: int|
                0 <= k < list.len() && #[trigger] list[k].member != local && (
                #[trigger] others_registered(local, list)[i]) == BodyModel::KeyRegistration(
                    registration_wire(list[k]),
                ),
        forall|k: int|
            0 <= k < list.len() && (#[trigger] list[k]).member != local ==> others_registered(
                local,
                list,
            ).contains(BodyModel::KeyRegistration(registration_wire(list[k]))),
    decreases list.len(),
{
    if list.len() > 0 {
        let before = list.drop_last();
        registered_bodies(local, before);
        let some = others_registered(local, before);
        let all = others_registered(local, list);
        assert(list[list.len() - 1] == list.last());
        assert forall|i: int| 0 <= i < all.len() implies exists|k: int|
            0 <= k < list.len() && #[trigger] list[k].member != local && (#[trigger] all[i])
                == BodyModel::KeyRegistration(registration_wire(list[k])) by {
            if i < some.len() {
                assert(all[i] == some[i]);
                let k = choose|k: int|
                    0 <= k < before.len() && #[trigger] before[k].member != local && some[i]
                        == BodyModel::KeyRegistration(registration_wire(before[k]));
                assert(list[k].member != local);
            } else {
                assert(list[list.len() - 1].member != local);
            }
        }
        assert forall|k: int| 0 <= k < list.len() && (#[trigger] list[k]).member
            != local implies all.contains(
            BodyModel::KeyRegistration(registration_wire(list[k])),
        ) by {
            let body = BodyModel::KeyRegistration(registration_wire(list[k]));
            if k < before.len() {
                assert(before[k] == list[k]);
                assert(some.contains(body));
                let i = some.index_of(body);
                assert(all[i] == body);
            } else {
                assert(all[all.len() - 1] == body);
            }
        }
    }
}

/// What a peer needs before it can take content is in the first operations of the plan: the
/// registration of everybody but the node itself, every envelope, every change of the membership
/// and every channel that the node holds.
pub proof fn plans_start_with_the_groundwork(
    state: HandlerModel,
    peer: MemberId,
    plan: SyncPlan,
    member: MemberId,
    envelope: EnvelopeName,
    change: int,
    channel: ChannelId,
)
    requires
        catches_up(state, peer, Ok(Some(plan))),
        state.egregore.replica.well_formed(),
        finite(state.egregore.replica),
    ensures
        ({
            let replica = state.egregore.replica;
            let bodies = sent(plan.first@);
            &&& replica.registrations.dom().contains(member) && member
                != state.egregore.local_member ==> bodies.contains(
                BodyModel::KeyRegistration(registration_wire(replica.registrations[member])),
            )
            &&& replica.envelopes.dom().contains(envelope) ==> bodies.contains(
                BodyModel::ContentKeyEnvelope(envelope_wire(replica.envelopes[envelope]@)),
            )
            &&& 0 <= change < replica.history.len() ==> bodies.contains(
                BodyModel::Membership(membership_wire(replica.history[change])),
            )
            &&& replica.channels.dom().contains(channel) ==> bodies.contains(
                BodyModel::CreateChannel(
                    channel_wire(
                        replica.channels[channel].channel@,
                        replica.channels[channel].signature@,
                    ),
                ),
            )
            &&& forall|i: int|
                0 <= i < bodies.len() ==> !((#[trigger] bodies[i]) is Attachment) && !(
                bodies[i] is Text) && !(bodies[i] is MemberProfile)
        }),
{
    let replica = state.egregore.replica;
    let (community, given) = plan_is_gathered(state, peer, plan);
    let local = state.egregore.local_member;
    let bodies = sent(plan.first@);
    finite_maps_list_their_values(replica.registrations, member);
    finite_maps_list_their_values(replica.envelopes, envelope);
    finite_maps_list_their_values(replica.channels, channel);
    registered_bodies(local, given.registrations@);
    let registered = others_registered(local, given.registrations@);
    let from = registered.len() as int;
    if replica.registrations.dom().contains(member) && member != local {
        let k = given.registrations@.index_of(replica.registrations[member]);
        assert(given.registrations@[k] == replica.registrations[member]);
        let body = BodyModel::KeyRegistration(registration_wire(replica.registrations[member]));
        assert(registered.contains(body));
        let i = registered.index_of(body);
        assert(bodies[i] == body);
    }
    if replica.envelopes.dom().contains(envelope) {
        let values = sorted_values(replica.envelopes);
        let k = values.index_of(replica.envelopes[envelope]);
        assert(values[k] == replica.envelopes[envelope]);
        assert(given.envelopes@[k]@ == values[k]@);
        assert(bodies[from + k] == BodyModel::ContentKeyEnvelope(
            envelope_wire(replica.envelopes[envelope]@),
        ));
    }
    let next = from + given.envelopes@.len();
    if 0 <= change < replica.history.len() {
        assert(bodies[next + change] == BodyModel::Membership(
            membership_wire(replica.history[change]),
        ));
    }
    let last = next + given.memberships@.len();
    if replica.channels.dom().contains(channel) {
        let values = sorted_values(replica.channels);
        let k = values.index_of(replica.channels[channel]);
        assert(values[k] == replica.channels[channel]);
        assert(given.channels@[k].channel@ == values[k].channel@);
        assert(bodies[last + k] == BodyModel::CreateChannel(
            channel_wire(
                replica.channels[channel].channel@,
                replica.channels[channel].signature@,
            ),
        ));
    }
    assert forall|i: int| 0 <= i < bodies.len() implies !((#[trigger] bodies[i]) is Attachment) && !(
    bodies[i] is Text) && !(bodies[i] is MemberProfile) by {
        if i < from {
            assert(bodies[i] == registered[i]);
        }
    }
}

proof fn current_are_listed(
    replica: ReplicaModel,
    community: CommunityModel,
    list: Seq<EncryptedMemberProfile>,
)
    ensures
        forall|k: int|
            0 <= k < list.len() && community.members.dom().contains((#[trigger] list[k]).member)
                && list[k].epoch == replica.active_revision() && list[k].head@
                == replica.active_head() ==> current_profiles(replica, community, list).contains(
                list[k],
            ),
        forall|i: int|
            0 <= i < current_profiles(replica, community, list).len() ==> {
                let profile = #[trigger] current_profiles(replica, community, list)[i];
                &&& list.contains(profile)
                &&& community.members.dom().contains(profile.member)
                &&& profile.epoch == replica.active_revision()
                &&& profile.head@ == replica.active_head()
            },
    decreases list.len(),
{
    if list.len() > 0 {
        let before = list.drop_last();
        current_are_listed(replica, community, before);
        let some = current_profiles(replica, community, before);
        let all = current_profiles(replica, community, list);
        assert(list[list.len() - 1] == list.last());
        assert forall|k: int|
            0 <= k < list.len() && community.members.dom().contains((#[trigger] list[k]).member)
                && list[k].epoch == replica.active_revision() && list[k].head@
                == replica.active_head() implies all.contains(list[k]) by {
            if k < before.len() {
                assert(before[k] == list[k]);
                let i = some.index_of(before[k]);
                assert(all[i] == list[k]);
            } else {
                assert(all[all.len() - 1] == list[k]);
            }
        }
        assert forall|i: int| 0 <= i < all.len() implies {
            let profile = #[trigger] all[i];
            &&& list.contains(profile)
            &&& community.members.dom().contains(profile.member)
            &&& profile.epoch == replica.active_revision()
            &&& profile.head@ == replica.active_head()
        } by {
            if i < some.len() {
                assert(all[i] == some[i]);
                let k = before.index_of(some[i]);
                assert(list[k] == all[i]);
            }
        }
    }
}

/// The display name of every member that is encrypted under the membership in force is in the plan
/// for a peer; and the last operations of the plan carry nothing but such names and attachments
/// that the node holds.
pub proof fn plans_end_with_the_content(
    state: HandlerModel,
    peer: MemberId,
    plan: SyncPlan,
    member: MemberId,
)
    requires
        catches_up(state, peer, Ok(Some(plan))),
        finite(state.egregore.replica),
    ensures
        ({
            let replica = state.egregore.replica;
            let bodies = sent(plan.operations@);
            let community = replica.community()->Ok_0;
            &&& replica.profiles.dom().contains(member) && community.members.dom().contains(
                replica.profiles[member].member,
            ) && replica.profiles[member].epoch == replica.active_revision()
                && replica.profiles[member].head@ == replica.active_head() ==> bodies.contains(
                BodyModel::MemberProfile(member_profile_wire(replica.profiles[member]@)),
            )
            &&& forall|i: int|
                0 <= i < bodies.len() ==> match #[trigger] bodies[i] {
                    BodyModel::Attachment(message) => exists|name: ContentName| #[trigger]
                        replica.attachments.dom().contains(name) && message == attachment_wire(
                            replica.attachments[name]@,
                        ),
                    BodyModel::MemberProfile(message) => exists|m: MemberId| #[trigger]
                        replica.profiles.dom().contains(m) && message == member_profile_wire(
                            replica.profiles[m]@,
                        ) && community.members.dom().contains(replica.profiles[m].member),
                    _ => false,
                }
        }),
{
    let replica = state.egregore.replica;
    let (community, given) = plan_is_gathered(state, peer, plan);
    let bodies = sent(plan.operations@);
    finite_maps_list_their_values(replica.profiles, member);
    let values = sorted_values(replica.profiles);
    current_are_listed(replica, community, values);
    let current = current_profiles(replica, community, values);
    let from = given.attachments@.len() as int;
    if replica.profiles.dom().contains(member) {
        let profile = replica.profiles[member];
        let k = values.index_of(profile);
        assert(values[k] == profile);
        if community.members.dom().contains(profile.member) && profile.epoch
            == replica.active_revision() && profile.head@ == replica.active_head() {
            assert(current.contains(values[k]));
            let i = current.index_of(profile);
            assert(given.member_profiles@[i]@ == current[i]@);
            assert(bodies[from + i] == BodyModel::MemberProfile(member_profile_wire(profile@)));
        }
    }
    assert forall|i: int| 0 <= i < bodies.len() implies match #[trigger] bodies[i] {
        BodyModel::Attachment(message) => exists|name: ContentName| #[trigger]
            replica.attachments.dom().contains(name) && message == attachment_wire(
                replica.attachments[name]@,
            ),
        BodyModel::MemberProfile(message) => exists|m: MemberId| #[trigger]
            replica.profiles.dom().contains(m) && message == member_profile_wire(
                replica.profiles[m]@,
            ) && community.members.dom().contains(replica.profiles[m].member),
        _ => false,
    } by {
        if i < from {
            finite_maps_list_their_values(
                replica.attachments,
                sorted_keys(replica.attachments)[i],
            );
            let name = sorted_keys(replica.attachments)[i];
            assert(given.attachments@[i]@ == sorted_values(replica.attachments)[i]@);
            assert(replica.attachments.dom().contains(name));
            assert(bodies[i] == BodyModel::Attachment(
                attachment_wire(replica.attachments[name]@),
            ));
        } else {
            let k = i - from;
            assert(given.member_profiles@[k]@ == current[k]@);
            let p = values.index_of(current[k]);
            let m = sorted_keys(replica.profiles)[p];
            assert(values[p] == replica.profiles[m]);
            assert(replica.profiles.dom().contains(m));
            assert(bodies[i] == BodyModel::MemberProfile(
                member_profile_wire(replica.profiles[m]@),
            ));
        }
    }
}

/// Whether a node goes through these states as a peer's operations come in.
pub open spec fn delivers(
    states: Seq<HandlerModel>,
    sender: MemberId,
    bodies: Seq<BodyModel>,
) -> bool {
    &&& states.len() == bodies.len() + 1
    &&& forall|i: int|
        0 <= i < bodies.len() ==> comes_in(states[i], sender, #[trigger] bodies[i], states[i + 1])
}

/// Whether this is the state of a node once an operation of a peer came in.
pub open spec fn comes_in(
    before: HandlerModel,
    sender: MemberId,
    body: BodyModel,
    after: HandlerModel,
) -> bool {
    exists|answer: Result<ReplyModel, FaultModel>|
        operation_received(before, sender, body, after, answer)
}

proof fn answer_to(
    before: HandlerModel,
    sender: MemberId,
    body: BodyModel,
    after: HandlerModel,
) -> (answer: Result<ReplyModel, FaultModel>)
    requires
        comes_in(before, sender, body, after),
    ensures
        operation_received(before, sender, body, after, answer),
{
    choose|answer: Result<ReplyModel, FaultModel>|
        operation_received(before, sender, body, after, answer)
}

/// Whether a node that can read an attachment, or that only keeps what others write, would take it
/// from a peer.
pub open spec fn takes_attachment(
    node: EgregoreModel,
    sender: MemberId,
    attachment: EncryptedAttachment,
) -> bool {
    match node.attachment_admission(sender, attachment) {
        Ok(Some(key)) => attachment_found(node.replica.community_id, attachment@, key@) is Ok,
        Ok(None) => true,
        Err(_) => false,
    }
}

proof fn deliveries_keep(states: Seq<HandlerModel>, sender: MemberId, bodies: Seq<BodyModel>, i: int, j: int)
    requires
        delivers(states, sender, bodies),
        0 <= i <= j < states.len(),
    ensures
        nothing_lost(states[i].egregore.replica, states[j].egregore.replica),
    decreases j - i,
{
    if i == j {
        same_loses_nothing(states[i].egregore.replica);
    } else {
        deliveries_keep(states, sender, bodies, i, j - 1);
        assert(comes_in(states[j - 1], sender, bodies[j - 1], states[j - 1 + 1]));
        let answer = answer_to(states[j - 1], sender, bodies[j - 1], states[j]);
        operations_take_nothing_away(states[j - 1], sender, bodies[j - 1], states[j], answer);
        losses_add_up(
            states[i].egregore.replica,
            states[j - 1].egregore.replica,
            states[j].egregore.replica,
        );
    }
}

proof fn deliveries_carry(
    states: Seq<HandlerModel>,
    sender: MemberId,
    bodies: Seq<BodyModel>,
    held: EncryptedAttachment,
    i: int,
)
    requires
        delivers(states, sender, bodies),
        0 <= i < states.len(),
        !states[0].egregore.replica.attachments.dom().contains(named(held.author, held.id)),
        forall|k: int|
            0 <= k < bodies.len() ==> match #[trigger] bodies[k] {
                BodyModel::Attachment(message) => message.author == held.author@ && message.id
                    == held.id@ ==> message == attachment_wire(held@),
                _ => true,
            },
    ensures
        states[i].egregore.replica.attachments.dom().contains(named(held.author, held.id))
            ==> states[i].egregore.replica.attachments[named(held.author, held.id)]@ == held@,
    decreases i,
{
    let name = named(held.author, held.id);
    if i > 0 {
        deliveries_carry(states, sender, bodies, held, i - 1);
        assert(comes_in(states[i - 1], sender, bodies[i - 1], states[i - 1 + 1]));
        let answer = answer_to(states[i - 1], sender, bodies[i - 1], states[i]);
        let before = states[i - 1].egregore.replica.attachments;
        let after = states[i].egregore.replica.attachments;
        operations_take_nothing_away(states[i - 1], sender, bodies[i - 1], states[i], answer);
        if before.dom().contains(name) {
            assert(after.dom().contains(name) && after[name] == before[name]);
        } else if after.dom().contains(name) {
            attachments_come_as_they_were_sent(
                states[i - 1],
                sender,
                bodies[i - 1],
                states[i],
                answer,
                name,
            );
            attachment_carried(held, after[name]);
        }
    }
}

proof fn sent_attachment_is_taken(
    before: HandlerModel,
    sender: MemberId,
    held: EncryptedAttachment,
    after: HandlerModel,
    answer: Result<ReplyModel, FaultModel>,
)
    requires
        operation_received(
            before,
            sender,
            BodyModel::Attachment(attachment_wire(held@)),
            after,
            answer,
        ),
        held@.ciphertext.len() <= 8388608 + 255 + 18,
        held.epoch <= i64::MAX,
        takes_attachment(before.egregore, sender, held),
        !before.egregore.replica.forgotten.contains(named(held.author, held.id)),
        before.egregore.replica.attachments.dom().contains(named(held.author, held.id))
            ==> before.egregore.replica.attachments[named(held.author, held.id)]@ == held@,
    ensures
        after.egregore.replica.attachments.dom().contains(named(held.author, held.id)),
        after.egregore.replica.attachments[named(held.author, held.id)]@ == held@,
        answer is Ok,
{
    let node = before.egregore;
    let wired = attachment_wire(held@);
    assert(attachment_unreadable(wired) is None);
    let read = choose|read: EncryptedAttachment| #[trigger]
        attachment_wire(read@) == wired && (after.egregore, outcome_in(answer))
            == node.attachment_received(sender, read);
    attachment_carried(held, read);
    assert(held.head =~= read.head) by {
        assert(held@.head == read@.head);
    }
    assert(held.id == read.id && held.author == read.author && held.channel_id == read.channel_id)
        by {
        assert(held@.id == read@.id);
    }
    assert(node.attachment_admission(sender, read) == node.attachment_admission(sender, held));
}

/// Once everything in a plan was delivered, the peer holds every attachment that the node held and
/// that the peer neither had nor forgot: the very one, under its author and its name. The peer has
/// to take it, as whoever may read it or keep it does.
pub proof fn caught_up_peers_hold_every_attachment(
    state: HandlerModel,
    peer: MemberId,
    plan: SyncPlan,
    texts: Seq<BodyModel>,
    states: Seq<HandlerModel>,
    name: ContentName,
)
    requires
        catches_up(state, peer, Ok(Some(plan))),
        state.egregore.replica.well_formed(),
        finite(state.egregore.replica),
        state.egregore.replica.attachments.dom().contains(name),
        state.egregore.replica.attachments[name]@.ciphertext.len() <= 8388608 + 255 + 18,
        forall|i: int| 0 <= i < texts.len() ==> (#[trigger] texts[i]) is Text,
        delivers(
            states,
            state.egregore.local_member,
            sent(plan.first@) + texts + sent(plan.operations@),
        ),
        !states[0].egregore.replica.attachments.dom().contains(name),
        !states[0].egregore.replica.forgotten.contains(name),
        forall|i: int|
            0 <= i < states.len() ==> takes_attachment(
                (#[trigger] states[i]).egregore,
                state.egregore.local_member,
                state.egregore.replica.attachments[name],
            ),
    ensures
        states.last().egregore.replica.attachments.dom().contains(name),
        states.last().egregore.replica.attachments[name]@
            == state.egregore.replica.attachments[name]@,
{
    let replica = state.egregore.replica;
    let held = replica.attachments[name];
    let sender = state.egregore.local_member;
    let first = sent(plan.first@);
    let operations = sent(plan.operations@);
    let bodies = first + texts + operations;
    assert(named(held.author, held.id) == name);
    plans_carry_every_attachment(state, peer, plan, name);
    plans_end_with_the_content(state, peer, plan, name.author);
    plans_start_with_the_groundwork(
        state,
        peer,
        plan,
        name.author,
        EnvelopeName { epoch: 0, recipient: name.author, head: held.head },
        0,
        held.channel_id,
    );
    assert forall|k: int| 0 <= k < bodies.len() implies match #[trigger] bodies[k] {
        BodyModel::Attachment(message) => message.author == held.author@ && message.id == held.id@
            ==> message == attachment_wire(held@),
        _ => true,
    } by {
        let from = first.len() + texts.len();
        if k < first.len() {
            assert(bodies[k] == first[k]);
        } else if k < from {
            assert(bodies[k] == texts[k - first.len()]);
        } else {
            assert(bodies[k] == operations[k - from]);
            if bodies[k] is Attachment {
                let message = bodies[k]->Attachment_0;
                let other = choose|other: ContentName| #[trigger]
                    replica.attachments.dom().contains(other) && message == attachment_wire(
                        replica.attachments[other]@,
                    );
                if message.author == held.author@ && message.id == held.id@ {
                    assert(other.author.0 =~= name.author.0);
                    assert(other.id.0 =~= name.id.0);
                    assert(other == name);
                }
            }
        }
    }
    let i = choose|i: int|
        0 <= i < plan.operations@.len() && (#[trigger] sent(plan.operations@)[i])
            == BodyModel::Attachment(attachment_wire(held@));
    let k = first.len() + texts.len() + i;
    assert(bodies[k] == operations[i]);
    assert(comes_in(states[k], sender, bodies[k], states[k + 1]));
    let answer = answer_to(states[k], sender, bodies[k], states[k + 1]);
    deliveries_carry(states, sender, bodies, held, k);
    deliveries_keep(states, sender, bodies, 0, k);
    sent_attachment_is_taken(states[k], sender, held, states[k + 1], answer);
    deliveries_keep(states, sender, bodies, k + 1, states.len() - 1);
    held_items_stay(
        states[k + 1].egregore.replica,
        states[states.len() - 1].egregore.replica,
        name,
    );
}

/// Whoever participates may write into a text channel that is there, with the content key of the
/// membership in force; nobody else may, and nowhere else.
pub proof fn participants_write_into_text_channels(node: EgregoreModel, channel: ChannelId)
    ensures
        node.writing_refusal(channel) is None <==> {
            &&& node.community.members.dom().contains(node.local_member)
            &&& node.community.members[node.local_member] is Participant
            &&& node.replica.channels.dom().contains(channel)
            &&& node.replica.channels[channel].channel@.kind is Text
            &&& node.replica.active_epoch() is Some
        },
        node.naming_refusal() is None <==> {
            &&& node.community.members.dom().contains(node.local_member)
            &&& node.community.members[node.local_member] is Participant
            &&& node.replica.active_epoch() is Some
        },
{
}

/// A text that a user posts is kept, told and sent: kept under the own name, told as it was
/// written, and sent as it is kept. Nothing that was held is lost.
pub proof fn posted_texts_are_kept_told_and_sent(
    before: HandlerModel,
    message: TextMessage,
    after: HandlerModel,
    reaction: Result<Reaction, Fault>,
)
    requires
        before.well_formed(),
        obeyed(before, Command::PostText(message), after, reaction),
        text_objection(message@.body) is None,
        reaction is Ok,
    ensures
        ({
            let name = named(before.egregore.local_member, message@.id);
            let replica = after.egregore.replica;
            &&& reaction->Ok_0 is Applied
            &&& replica.texts.dom().contains(name)
            &&& replica.texts[name].channel_id == message@.channel_id
            &&& reacted(reaction)->Ok_0.outbound == seq![
                BodyModel::Text(text_wire(replica.texts[name]@)),
            ]
            &&& !before.egregore.replica.texts.dom().contains(name) ==> reacted(
                reaction,
            )->Ok_0.events == seq![
                EventModel::TextStored { author: before.egregore.local_member, text: message@ },
            ]
            &&& nothing_lost(before.egregore.replica, replica)
            &&& after.egregore.community == before.egregore.community
            &&& after.rooms == before.rooms
        }),
{
    let node = before.egregore;
    let key = node.replica.active_epoch()->0.key;
    same_loses_nothing(node.replica);
    let sealed = choose|sealed: EncryptedText| #[trigger]
        posts(node, message@, sealed) && counted_after(
            before,
            node.text_posted(sealed, key),
            after,
            reacted(reaction),
        );
    assert(sealed.author.0 =~= node.local_member.0) by {
        assert(sealed@.author == sealed.author);
    }
    if encrypted_text_fault(node.replica.community_id, sealed@) is None {
        text_reads_back(
            node.signing_seed,
            node.replica.community_id,
            node.replica.active_epoch()->0,
            message@,
            sealed@,
        );
    }
    let name = named(node.local_member, message@.id);
    assert(named(sealed.author, sealed.id) == name);
}

/// A text that a user may post, under a name that is not taken, is posted wherever the own
/// signatures pass.
pub proof fn texts_that_may_be_posted_are_posted(
    before: HandlerModel,
    message: TextMessage,
    after: HandlerModel,
    reaction: Result<Reaction, Fault>,
)
    requires
        before.well_formed(),
        obeyed(before, Command::PostText(message), after, reaction),
        text_objection(message@.body) is None,
        before.egregore.community.members.dom().contains(before.egregore.local_member),
        before.egregore.community.members[before.egregore.local_member] is Participant,
        before.egregore.replica.channels.dom().contains(message@.channel_id),
        before.egregore.replica.channels[message@.channel_id].channel@.kind is Text,
        before.egregore.replica.active_epoch() is Some,
        !before.egregore.replica.texts.dom().contains(
            named(before.egregore.local_member, message@.id),
        ),
        forall|sealed: EncryptedText| #[trigger]
            posts(before.egregore, message@, sealed) ==> encrypted_text_fault(
                before.egregore.replica.community_id,
                sealed@,
            ) is None,
    ensures
        reaction is Ok,
{
    let node = before.egregore;
    let epoch = node.replica.active_epoch()->0;
    let sealed = choose|sealed: EncryptedText| #[trigger]
        posts(node, message@, sealed) && counted_after(
            before,
            node.text_posted(sealed, epoch.key),
            after,
            reacted(reaction),
        );
    assert(sealed.author.0 =~= node.local_member.0) by {
        assert(sealed@.author == sealed.author);
    }
    text_reads_back(
        node.signing_seed,
        node.replica.community_id,
        epoch,
        message@,
        sealed@,
    );
    assert(named(sealed.author, sealed.id) == named(node.local_member, message@.id));
    assert(node.replica.content_keys.dom().contains(
        EpochName { number: epoch.number, head: epoch.head },
    ));
    assert(storable(sealed.epoch));
    assert(node.text_posted(sealed, epoch.key).1 is Ok);
}

/// An attachment that a user shares is kept, told and sent: kept under the own name, told with the
/// name and the bytes that it was shared with, and sent as it is kept. One that was forgotten is
/// sent and not kept.
pub proof fn shared_attachments_are_kept_told_and_sent(
    before: HandlerModel,
    attachment: Attachment,
    after: HandlerModel,
    reaction: Result<Reaction, Fault>,
)
    requires
        before.well_formed(),
        obeyed(before, Command::ShareAttachment(attachment), after, reaction),
        attachment_objection(attachment@.name, attachment@.bytes) is None,
        reaction is Ok,
        !before.egregore.replica.forgotten.contains(
            named(before.egregore.local_member, attachment@.id),
        ),
    ensures
        ({
            let name = named(before.egregore.local_member, attachment@.id);
            let replica = after.egregore.replica;
            &&& reaction->Ok_0 is Applied
            &&& replica.attachments.dom().contains(name)
            &&& replica.attachments[name].channel_id == attachment@.channel_id
            &&& reacted(reaction)->Ok_0.outbound == seq![
                BodyModel::Attachment(attachment_wire(replica.attachments[name]@)),
            ]
            &&& !before.egregore.replica.attachments.dom().contains(name) ==> reacted(
                reaction,
            )->Ok_0.events == seq![
                EventModel::AttachmentStored {
                    author: before.egregore.local_member,
                    attachment: attachment@,
                },
            ]
            &&& nothing_lost(before.egregore.replica, replica)
            &&& after.egregore.community == before.egregore.community
            &&& after.rooms == before.rooms
        }),
{
    let node = before.egregore;
    let key = node.replica.active_epoch()->0.key;
    same_loses_nothing(node.replica);
    let sealed = choose|sealed: EncryptedAttachment| #[trigger]
        shares(node, attachment@, sealed) && counted_after(
            before,
            node.attachment_shared(sealed, key),
            after,
            reacted(reaction),
        );
    assert(sealed.author.0 =~= node.local_member.0) by {
        assert(sealed@.author == sealed.author);
    }
    if encrypted_attachment_fault(node.replica.community_id, sealed@) is None {
        attachment_reads_back(
            node.signing_seed,
            node.replica.community_id,
            node.replica.active_epoch()->0,
            attachment@,
            sealed@,
        );
    }
    let name = named(node.local_member, attachment@.id);
    assert(named(sealed.author, sealed.id) == name);
}

/// An attachment that a user forgets is not held from then on and never will be again; everything
/// else is held as before, and the user is told.
pub proof fn forgetting_lets_go_of_one_attachment(
    before: HandlerModel,
    author: MemberId,
    id: MessageId,
    after: HandlerModel,
    reaction: Result<Reaction, Fault>,
    other: ContentName,
)
    requires
        obeyed(before, Command::ForgetAttachment { author, id }, after, reaction),
    ensures
        ({
            let replica = before.egregore.replica;
            let left = after.egregore.replica;
            &&& reacted(reaction) == Ok::<OutcomeModel, FaultModel>(
                outcome_of(seq![EventModel::AttachmentForgotten { author, id }], Seq::empty()),
            )
            &&& !left.attachments.dom().contains(named(author, id))
            &&& left.forgotten.contains(named(author, id))
            &&& other != named(author, id) ==> (left.attachments.dom().contains(other)
                <==> replica.attachments.dom().contains(other)) && (
            replica.attachments.dom().contains(other) ==> left.attachments[other]
                == replica.attachments[other]) && (left.forgotten.contains(other)
                <==> replica.forgotten.contains(other))
            &&& left == (ReplicaModel {
                attachments: left.attachments,
                forgotten: left.forgotten,
                ..replica
            })
            &&& after.egregore == (EgregoreModel { replica: left, ..before.egregore })
            &&& after.rooms == before.rooms
        }),
{
}

/// A name that a user takes is kept, told and sent, and it replaces the one that it had.
pub proof fn taken_names_are_kept_told_and_sent(
    before: HandlerModel,
    name: DisplayName,
    after: HandlerModel,
    reaction: Result<Reaction, Fault>,
)
    requires
        before.well_formed(),
        obeyed(before, Command::SetDisplayName(name), after, reaction),
        before.egregore.replica.next_profile_revision(before.egregore.local_member) <= i64::MAX,
        reaction is Ok,
    ensures
        ({
            let local = before.egregore.local_member;
            let replica = after.egregore.replica;
            &&& replica.profiles.dom().contains(local)
            &&& reacted(reaction)->Ok_0.outbound == seq![
                BodyModel::MemberProfile(member_profile_wire(replica.profiles[local]@)),
            ]
            &&& reacted(reaction)->Ok_0.events == seq![
                EventModel::DisplayNameChanged { member: local, name: name@ },
            ]
            &&& before.egregore.replica.profiles.dom().contains(local)
                ==> replica.profiles[local].revision
                == before.egregore.replica.profiles[local].revision + 1
            &&& !before.egregore.replica.profiles.dom().contains(local)
                ==> replica.profiles[local].revision == 1
            &&& nothing_lost(before.egregore.replica, replica)
            &&& after.rooms == before.rooms
        }),
{
    let node = before.egregore;
    same_loses_nothing(node.replica);
    let sealed = choose|sealed: EncryptedMemberProfile| #[trigger]
        names(node, name@, sealed) && after == before.with_egregore(
            node.name_set(sealed, name@).0,
        ) && reacted(reaction) == node.name_set(sealed, name@).1;
    assert(sealed.member.0 =~= node.local_member.0) by {
        assert(sealed@.member == sealed.member);
    }
    assert(sealed@.revision == sealed.revision);
}

/// A channel that the owner creates is there from then on, is told and is sent; nobody but the
/// owner creates one.
pub proof fn created_channels_are_kept_told_and_sent(
    before: HandlerModel,
    channel: Channel,
    after: HandlerModel,
    reaction: Result<Reaction, Fault>,
)
    requires
        obeyed(before, Command::CreateChannel(channel), after, reaction),
    ensures
        ({
            let known = before.egregore.replica.channels;
            let replica = after.egregore.replica;
            &&& reaction is Ok ==> before.egregore.community.owner == before.egregore.local_member
            &&& before.egregore.community.owner == before.egregore.local_member
                && !known.dom().contains(channel@.id) ==> reaction is Ok
            &&& reaction is Ok ==> replica.channels.dom().contains(channel@.id)
                && replica.channels[channel@.id].channel@ == channel@
            &&& reaction is Ok && !known.dom().contains(channel@.id) ==> reacted(
                reaction,
            )->Ok_0.events == seq![EventModel::ChannelCreated(channel@)] && reacted(
                reaction,
            )->Ok_0.outbound == seq![
                BodyModel::CreateChannel(
                    channel_wire(channel@, replica.channels[channel@.id].signature@),
                ),
            ]
            &&& nothing_lost(before.egregore.replica, replica)
            &&& after.rooms == before.rooms
        }),
{
    let node = before.egregore;
    same_loses_nothing(node.replica);
    if node.community.owner == node.local_member {
        let signed = choose|signed: SignedCreateChannel| #[trigger]
            signs_channel(node, channel, signed) && ({
                let taken = node.channel_taken(
                    signed,
                    seq![BodyModel::CreateChannel(channel_wire(channel@, signed.signature@))],
                );
                after == before.with_egregore(taken.0) && reacted(reaction) == taken.1
            });
        assert(signed.channel@ == channel@);
    }
}

/// A text that its author signed, as a participant of the membership that it names, is admitted
/// from any member where its channel is a text channel. Whoever holds the content key reads it;
/// whoever only keeps what others write keeps it; and nothing is admitted from an outsider.
pub proof fn texts_are_admitted_from_members(
    node: EgregoreModel,
    sender: MemberId,
    text: EncryptedText,
)
    requires
        encrypted_text_fault(node.replica.community_id, text@) is None,
        node.replica.epoch_author_verdict(text.epoch, text.head@, text.author) is Ok,
        node.replica.channels.dom().contains(text.channel_id),
        node.replica.channels[text.channel_id].channel@.kind is Text,
        text.epoch <= i64::MAX,
    ensures
        ({
            let members = node.community.members;
            let both = members.dom().contains(sender) && members.dom().contains(node.local_member);
            let key = EpochName { number: text.epoch, head: text.head };
            let held = node.replica.content_keys.dom().contains(key);
            &&& !both ==> node.text_admission(sender, text) is Err
            &&& both && held ==> node.text_admission(sender, text) == Ok::<
                Option<[u8; 32]>,
                FaultModel,
            >(Some(node.replica.content_keys[key]))
            &&& both && !held && members[node.local_member] is Availability
                ==> node.text_admission(sender, text) == Ok::<Option<[u8; 32]>, FaultModel>(None)
            &&& both && !held && members[node.local_member] is Participant
                ==> node.text_admission(sender, text) is Err
        }),
{
}

/// An attachment is admitted as a text is.
pub proof fn attachments_are_admitted_from_members(
    node: EgregoreModel,
    sender: MemberId,
    attachment: EncryptedAttachment,
)
    requires
        encrypted_attachment_fault(node.replica.community_id, attachment@) is None,
        node.replica.epoch_author_verdict(
            attachment.epoch,
            attachment.head@,
            attachment.author,
        ) is Ok,
        node.replica.channels.dom().contains(attachment.channel_id),
        node.replica.channels[attachment.channel_id].channel@.kind is Text,
        attachment.epoch <= i64::MAX,
    ensures
        ({
            let members = node.community.members;
            let both = members.dom().contains(sender) && members.dom().contains(node.local_member);
            let key = EpochName { number: attachment.epoch, head: attachment.head };
            let held = node.replica.content_keys.dom().contains(key);
            &&& !both ==> node.attachment_admission(sender, attachment) is Err
            &&& both && held ==> node.attachment_admission(sender, attachment) == Ok::<
                Option<[u8; 32]>,
                FaultModel,
            >(Some(node.replica.content_keys[key]))
            &&& both && !held && members[node.local_member] is Availability
                ==> node.attachment_admission(sender, attachment) == Ok::<
                Option<[u8; 32]>,
                FaultModel,
            >(None)
            &&& both && !held && members[node.local_member] is Participant
                ==> node.attachment_admission(sender, attachment) is Err
        }),
{
}

/// A display name that its member signed, as a participant of the membership that it names, is
/// admitted from any member as long as it still participates.
pub proof fn names_are_admitted_from_members(
    node: EgregoreModel,
    sender: MemberId,
    profile: EncryptedMemberProfile,
)
    requires
        profile_fault(node.replica.community_id, profile@) is None,
        node.replica.epoch_author_verdict(profile.epoch, profile.head@, profile.member) is Ok,
        profile.epoch <= i64::MAX,
    ensures
        ({
            let members = node.community.members;
            let both = members.dom().contains(sender) && members.dom().contains(node.local_member);
            let current = members.dom().contains(profile.member)
                && members[profile.member] is Participant;
            let key = EpochName { number: profile.epoch, head: profile.head };
            let held = node.replica.content_keys.dom().contains(key);
            &&& !both || !current ==> node.profile_admission(sender, profile) is Err
            &&& both && current && held ==> node.profile_admission(sender, profile) == Ok::<
                Option<[u8; 32]>,
                FaultModel,
            >(Some(node.replica.content_keys[key]))
            &&& both && current && !held && members[node.local_member] is Availability
                ==> node.profile_admission(sender, profile) == Ok::<Option<[u8; 32]>, FaultModel>(
                None,
            )
        }),
{
}

/// Content that its author did not sign is refused, whoever sends it.
pub proof fn unsigned_content_is_refused(
    node: EgregoreModel,
    sender: MemberId,
    text: EncryptedText,
    attachment: EncryptedAttachment,
    profile: EncryptedMemberProfile,
)
    ensures
        encrypted_text_fault(node.replica.community_id, text@) is Some ==> node.text_admission(
            sender,
            text,
        ) is Err,
        encrypted_attachment_fault(node.replica.community_id, attachment@) is Some
            ==> node.attachment_admission(sender, attachment) is Err,
        profile_fault(node.replica.community_id, profile@) is Some ==> node.profile_admission(
            sender,
            profile,
        ) is Err,
        node.text_admission(sender, text) is Err ==> node.text_received(sender, text).0 == node
            && node.text_received(sender, text).1 is Err,
        node.attachment_admission(sender, attachment) is Err ==> node.attachment_received(
            sender,
            attachment,
        ).0 == node && node.attachment_received(sender, attachment).1 is Err,
        node.profile_admission(sender, profile) is Err ==> node.profile_received(
            sender,
            profile,
        ).0 == node && node.profile_received(sender, profile).1 is Err,
{
}

/// A member that only keeps what others write keeps a text that it cannot read, and tells nothing
/// of it; so it does with an attachment and with a display name that is not outdated.
pub proof fn availability_keeps_what_it_cannot_read(
    node: EgregoreModel,
    sender: MemberId,
    text: EncryptedText,
    attachment: EncryptedAttachment,
    profile: EncryptedMemberProfile,
)
    ensures
        ({
            let name = named(text.author, text.id);
            let (after, answer) = node.text_received(sender, text);
            node.text_admission(sender, text) == Ok::<Option<[u8; 32]>, FaultModel>(None)
                && text.epoch <= i64::MAX && !node.replica.texts.dom().contains(name) ==> {
                &&& after.replica.texts == node.replica.texts.insert(name, text)
                &&& answer == Ok::<OutcomeModel, FaultModel>(
                    outcome_of(Seq::empty(), Seq::empty()),
                )
            }
        }),
        ({
            let name = named(attachment.author, attachment.id);
            let (after, answer) = node.attachment_received(sender, attachment);
            node.attachment_admission(sender, attachment) == Ok::<Option<[u8; 32]>, FaultModel>(
                None,
            ) && attachment.epoch <= i64::MAX && !node.replica.attachments.dom().contains(name)
                && !node.replica.forgotten.contains(name) ==> {
                &&& after.replica.attachments == node.replica.attachments.insert(name, attachment)
                &&& answer == Ok::<OutcomeModel, FaultModel>(
                    outcome_of(Seq::empty(), Seq::empty()),
                )
            }
        }),
        ({
            let (after, answer) = node.profile_received(sender, profile);
            node.profile_admission(sender, profile) == Ok::<Option<[u8; 32]>, FaultModel>(None)
                && profile.epoch <= i64::MAX && 1 <= profile.revision <= i64::MAX && (
            node.replica.profiles.dom().contains(profile.member)
                ==> node.replica.profiles[profile.member].revision < profile.revision) ==> {
                &&& after.replica.profiles == node.replica.profiles.insert(
                    profile.member,
                    profile,
                )
                &&& answer is Ok
            }
        }),
{
}

/// A display name that is older than the one that is held changes nothing and is no fault; a later
/// one replaces it; and a different one of the same revision is refused.
pub proof fn the_latest_name_is_kept(replica: ReplicaModel, profile: EncryptedMemberProfile)
    requires
        replica.profiles.dom().contains(profile.member),
        profile.epoch <= i64::MAX,
        1 <= profile.revision <= i64::MAX,
    ensures
        ({
            let held = replica.profiles[profile.member];
            let after = replica.profile_added(profile);
            &&& profile.revision < held.revision ==> after == replica && replica.profile_verdict(
                profile,
            ) is Ok
            &&& profile.revision > held.revision ==> after.profiles == replica.profiles.insert(
                profile.member,
                profile,
            ) && replica.profile_verdict(profile) is Ok
            &&& profile.revision == held.revision ==> after == replica
            &&& profile.revision == held.revision && profile@ != held@ ==> replica.profile_verdict(
                profile,
            ) is Err
            &&& profile.revision == held.revision && profile@ == held@ ==> replica.profile_verdict(
                profile,
            ) is Ok
        }),
{
}

/// A registration that its member signed is kept where the member is admitted or the owner sends
/// it; that of an outsider waits where the outsider itself or a member sends it and there is room.
/// One that is kept already is no fault, a different one is; and a stranger's is refused.
pub proof fn registrations_are_kept_or_wait(
    node: EgregoreModel,
    peer: MemberId,
    registration: KeyRegistration,
)
    requires
        signature_fault(
            registration.member@,
            registration_message(
                node.replica.community_id,
                registration.member,
                registration.public_key@,
            ),
            registration.signature@,
        ) is None,
    ensures
        ({
            let member = registration.member;
            let (after, answer) = node.registration_received(peer, registration);
            let held = node.replica.registrations.dom().contains(member);
            let admitted = node.community.members.dom().contains(member);
            let vouched = peer == member || node.community.members.dom().contains(peer);
            let room = node.pending.dom().contains(member) || node.pending.dom().len() < 64;
            &&& !held && (admitted || peer == node.community.owner) ==> answer is Ok
                && after.replica.registrations == node.replica.registrations.insert(
                member,
                registration,
            ) && after.pending == node.pending
            &&& held && node.replica.registrations[member] == registration ==> answer is Ok && after
                == node
            &&& held && (node.replica.registrations[member].public_key@ != registration.public_key@
                || node.replica.registrations[member].signature@ != registration.signature@)
                ==> answer is Err && after == node
            &&& !held && !admitted && peer != node.community.owner && vouched && room ==> answer
                is Ok && after.pending == node.pending.insert(member, registration)
                && after.replica == node.replica
            &&& !held && !admitted && peer != node.community.owner && !(vouched && room) ==> answer
                is Err && after == node
        }),
{
}

/// A registration that its member did not sign is refused.
pub proof fn unsigned_registrations_are_refused(
    node: EgregoreModel,
    peer: MemberId,
    registration: KeyRegistration,
)
    requires
        signature_fault(
            registration.member@,
            registration_message(
                node.replica.community_id,
                registration.member,
                registration.public_key@,
            ),
            registration.signature@,
        ) is Some,
    ensures
        node.registration_received(peer, registration).0 == node,
        node.registration_received(peer, registration).1 is Err,
{
}

/// An envelope that the owner signed is kept, for whomever it is; one that the owner did not sign,
/// or one for a member that only keeps what others write, is refused.
pub proof fn envelopes_of_the_owner_are_kept(node: EgregoreModel, envelope: ContentKeyEnvelope)
    ensures
        ({
            let name = EnvelopeName {
                epoch: envelope.epoch,
                recipient: envelope.recipient,
                head: envelope.head,
            };
            let (after, answer) = node.envelope_received(envelope);
            let passed = signature_fault(
                node.replica.owner@,
                envelope_message(node.replica.community_id, envelope@),
                envelope.signature@,
            ) is None;
            let own = envelope.recipient == node.local_member;
            let keeper = node.community.members.dom().contains(node.local_member)
                && node.community.members[node.local_member] is Availability;
            &&& !passed || (own && keeper) ==> answer is Err && after == node
            &&& passed && !(own && keeper) && envelope.epoch <= i64::MAX
                && !node.replica.envelopes.dom().contains(name) ==> after.replica.envelopes
                == node.replica.envelopes.insert(name, envelope)
            &&& passed && !own && envelope.epoch <= i64::MAX
                && !node.replica.envelopes.dom().contains(name) ==> answer is Ok
                && after.replica.content_keys == node.replica.content_keys
        }),
{
}

proof fn activated_members_are_ready(
    state: EgregoreModel,
    next: CommunityModel,
    signed: SignedMembership,
    members: Seq<MemberId>,
    k: int,
)
    requires
        state.members_activated(next, signed, members).1 is None,
        0 <= k < members.len(),
    ensures
        ({
            let after = state.members_activated(next, signed, members).0.replica;
            let head = array_with::<32>(membership_head(state.replica.community_id, signed));
            let name = EnvelopeName {
                epoch: signed.update.revision,
                recipient: members[k],
                head,
            };
            &&& after.registrations.dom().contains(members[k])
            &&& next.participates(members[k]) ==> after.envelopes.dom().contains(name)
            &&& next.role(members[k]) == Some(MemberRole::Availability)
                ==> !after.envelopes.dom().contains(name)
        }),
    decreases members.len(),
{
    let before = members.drop_last();
    let some = state.members_activated(next, signed, before);
    activating_loses_nothing(state, next, signed, before);
    activating_loses_nothing(state, next, signed, members);
    if k < before.len() {
        activated_members_are_ready(state, next, signed, before, k);
        assert(before[k] == members[k]);
        let after = state.members_activated(next, signed, members).0;
        assert(some.0.replica.registrations.submap_of(after.replica.registrations));
    } else {
        assert(members[k] == members.last());
    }
}

/// A new membership takes effect only where everybody whom it leaves has registered, every
/// participant has its envelope and nobody else does, the one whom it removes least of all. It then
/// stands in the history, the community is the one that the history leads to, and the user is told.
pub proof fn memberships_take_effect_when_ready(
    before: EgregoreModel,
    signed: SignedMembership,
    after: EgregoreModel,
    answer: Result<OutcomeModel, FaultModel>,
    member: MemberId,
)
    requires
        membership_received(before, signed, after, answer),
        signed.update.revision == before.replica.next_revision(),
        before.community.verdict(before.replica.owner, signed.update.change) == Ok::<
            bool,
            CommunityError,
        >(true),
        before.community.changed(before.replica.owner, signed.update.change).members.dom().finite(),
        answer is Ok,
        answer->Ok_0.events.len() > 0,
    ensures
        ({
            let next = before.community.changed(before.replica.owner, signed.update.change);
            let head = array_with::<32>(membership_head(before.replica.community_id, signed));
            let name = EnvelopeName { epoch: signed.update.revision, recipient: member, head };
            let gone = subject(signed.update.change) == before.local_member
                && signed.update.change is Remove;
            &&& after.replica.history.contains(signed)
            &&& after.replica.community() == Ok::<CommunityModel, FaultModel>(after.community)
            &&& answer->Ok_0.events[0] == EventModel::MembershipChanged(after.community)
            &&& answer->Ok_0.removed_member == (if signed.update.change is Remove {
                Some(subject(signed.update.change))
            } else {
                None
            })
            &&& answer->Ok_0.refresh_voice_presence <==> after.community.participates(
                before.local_member,
            )
            &&& !gone && next.members.dom().contains(member) ==> {
                &&& after.replica.registrations.dom().contains(member)
                &&& next.members[member] is Participant ==> after.replica.envelopes.dom().contains(
                    name,
                )
                &&& next.members[member] is Availability
                    ==> !after.replica.envelopes.dom().contains(name)
            }
            &&& !next.members.dom().contains(member) && member == subject(signed.update.change)
                ==> !after.replica.envelopes.dom().contains(name)
        }),
{
    let change = signed.update.change;
    let next = before.community.changed(before.replica.owner, change);
    let keys = sorted_keys(next.members);
    finite_maps_are_listed(next.members);
    activating_loses_nothing(before, next, signed, keys);
    let (active, stopped) = before.activation(signed);
    assert(stopped is None);
    filing_loses_nothing(active.replica, signed);
    let kept = active.with_replica(active.replica.membership_added(signed));
    let community = kept.replica.community()->Ok_0;
    let renewed = kept.with_community(community);
    assert(after.community == community && after.replica.history == kept.replica.history
        && after.replica.envelopes == active.replica.envelopes && after.replica.registrations
        == active.replica.registrations) by {
        if community.participates(active.local_member) {
            let result = choose|result: Result<Option<(EncryptedMemberProfile, DisplayName)>, Fault>|
                #[trigger] refreshes(
                    renewed.replica,
                    renewed.local_member,
                    renewed.signing_seed,
                    after.replica,
                    result,
                ) && after == renewed.with_replica(after.replica) && answer == Ok::<
                    OutcomeModel,
                    FaultModel,
                >(
                    OutcomeModel {
                        refresh_voice_presence: true,
                        ..with_profile_refresh(membership_outcome(signed, community), result)
                    },
                );
            refreshing_loses_nothing(
                renewed.replica,
                renewed.local_member,
                renewed.signing_seed,
                after.replica,
                result,
            );
        }
    }
    assert(keys.contains(member) <==> next.members.dom().contains(member));
    if keys.contains(member) && !(subject(change) == before.local_member && change is Remove) {
        let k = keys.index_of(member);
        activated_members_are_ready(before, next, signed, keys, k);
    }
}

/// A change of the membership that the owner did not sign, or one that leaves a gap after the
/// history, changes nothing and is refused.
pub proof fn memberships_come_in_order(
    before: EgregoreModel,
    signed: SignedMembership,
    after: EgregoreModel,
    answer: Result<OutcomeModel, FaultModel>,
)
    requires
        membership_received(before, signed, after, answer),
    ensures
        membership_objection(
            before.replica.owner,
            before.replica.community_id,
            signed.update,
            signed.signature@,
        ) is Some ==> after == before && answer is Err,
        signed.update.revision > before.replica.next_revision() ==> after == before && answer
            is Err,
{
}

/// What the owner sends out for a change of the membership: the registration of everybody whom it
/// leaves, an envelope for every participant among them, and the change itself. The change stands in
/// the history, its content key is held, and the user is told of the community that comes of it. A
/// new member is sent everything next; a removed one is let go.
pub proof fn rotations_are_sent_out(
    before: EgregoreModel,
    change: MembershipChange,
    key: [u8; 32],
    after: EgregoreModel,
    answer: Result<OutcomeModel, FaultModel>,
    member: MemberId,
)
    requires
        membership_changed(before, change, key, after, answer),
        before.community.verdict(before.local_member, change) == Ok::<bool, CommunityError>(true),
        before.community.changed(before.local_member, change).members.dom().finite(),
        answer is Ok,
    ensures
        exists|signed: SignedMembership|
            #![trigger membership_wire(signed)]
            {
                let next = before.community.changed(before.local_member, change);
                let outcome = answer->Ok_0;
                let head = array_with::<32>(membership_head(before.replica.community_id, signed));
                &&& signed.update.change == change
                &&& signed.update.revision == before.replica.next_revision()
                &&& outcome.outbound.contains(BodyModel::Membership(membership_wire(signed)))
                &&& after.replica.history.contains(signed)
                &&& after.replica.content_keys.dom().contains(
                    EpochName { number: signed.update.revision, head },
                )
                &&& after.replica.content_keys[EpochName {
                    number: signed.update.revision,
                    head,
                }] == key
                &&& after.replica.community() == Ok::<CommunityModel, FaultModel>(after.community)
                &&& outcome.events.len() > 0 && outcome.events[0] == EventModel::MembershipChanged(
                    after.community,
                )
                &&& outcome.removed_member == (if change is Remove {
                    Some(subject(change))
                } else {
                    None
                })
                &&& outcome.sync_member == (if change is Remove {
                    None
                } else {
                    Some(subject(change))
                })
                &&& next.members.dom().contains(member) ==> outcome.outbound.contains(
                    BodyModel::KeyRegistration(
                        registration_wire(after.replica.registrations[member]),
                    ),
                )
                &&& next.members.dom().contains(member) && next.members[member] is Participant
                    ==> exists|envelope: ContentKeyEnvelope|
                    #![trigger envelope_wire(envelope@)]
                    {
                        &&& envelope.recipient == member
                        &&& envelope.epoch == signed.update.revision
                        &&& envelope.head == head
                        &&& opens_with_key(
                            before.replica.community_id,
                            envelope@,
                            after.replica.registrations[member].public_key@,
                            key@,
                        )
                        &&& outcome.outbound.contains(
                            BodyModel::ContentKeyEnvelope(envelope_wire(envelope@)),
                        )
                    }
            },
{
    let settled = before.settled_for(change);
    let next = before.community.changed(before.local_member, change);
    let keys = sorted_keys(next.members);
    finite_maps_are_listed(next.members);
    assert(settled.community == before.community && settled.local_member == before.local_member
        && settled.replica.community_id == before.replica.community_id && settled.replica.history
        == before.replica.history);
    let rotation = choose|rotation: Rotation| #[trigger]
        rotates(settled, change, key, rotation) && rotated_to(settled, rotation, after, answer);
    let signed = rotation.signed;
    let replica = settled.replica.rotated(signed, rotation.epoch, rotation.envelopes);
    let community = replica.community()->Ok_0;
    let result = choose|result: Result<Option<(EncryptedMemberProfile, DisplayName)>, Fault>|
        #[trigger] refreshes(
            replica,
            settled.local_member,
            settled.signing_seed,
            after.replica,
            result,
        ) && after == settled.with_community(community).with_replica(after.replica) && answer
            == Ok::<OutcomeModel, FaultModel>(
            with_profile_refresh(rotation_outcome(settled, rotation, community), result),
        );
    refreshing_loses_nothing(
        replica,
        settled.local_member,
        settled.signing_seed,
        after.replica,
        result,
    );
    filing_loses_nothing(settled.replica, signed);
    let base = rotation_outcome(settled, rotation, community).outbound;
    let outbound = answer->Ok_0.outbound;
    assert forall|body: BodyModel| base.contains(body) implies #[trigger] outbound.contains(body) by {
        let k = base.index_of(body);
        assert(outbound[k] == body);
    }
    assert(base[base.len() - 1] == BodyModel::Membership(membership_wire(signed)));
    assert(base.contains(BodyModel::Membership(membership_wire(signed))));
    let head = array_with::<32>(membership_head(before.replica.community_id, signed));
    array_with_is::<32>(rotation.epoch.head);
    assert(rotation.epoch.head == head);
    assert(keys.contains(member) <==> next.members.dom().contains(member));
    if next.members.dom().contains(member) {
        let k = keys.index_of(member);
        let body = BodyModel::KeyRegistration(
            registration_wire(settled.replica.registrations[member]),
        );
        assert(base[k] == body);
        assert(base.contains(body));
        if next.members[member] is Participant {
            participants_are(next, keys);
            let list = participants_of(next, keys);
            assert(list.contains(member));
            let p = list.index_of(member);
            let envelope = rotation.envelopes[p];
            assert(seals_for(settled, rotation.epoch, list[p], envelope));
            let sealed = BodyModel::ContentKeyEnvelope(envelope_wire(envelope@));
            assert(base[keys.len() + p] == sealed);
            assert(base.contains(sealed));
        }
    }
    assert(membership_wire(signed) == membership_wire(signed));
}

/// Whoever is taken out of its voice channel is in none, nobody else moves, and the user is told
/// where it was.
pub proof fn silenced_members_are_in_no_room(
    before: HandlerModel,
    member: MemberId,
    after: HandlerModel,
    event: Option<Event>,
    other: MemberId,
)
    requires
        silences(before, member, after, event),
    ensures
        !after.rooms.dom().contains(member),
        other != member ==> (after.rooms.dom().contains(other) <==> before.rooms.dom().contains(
            other,
        )),
        other != member && before.rooms.dom().contains(other) ==> after.rooms[other]
            == before.rooms[other],
        after.egregore == before.egregore,
        event is Some <==> before.rooms.dom().contains(member),
        event matches Some(event) ==> event == (Event::VoicePresence {
            channel: before.rooms[member].channel,
            member,
            state: VoicePresence::Left,
        }),
{
}

/// Where the last connection of somebody is gone, it is in no voice channel, and the registration
/// of an outsider no longer waits; everything else stays. As long as there is another connection,
/// nothing changes.
pub proof fn lost_peers_are_forgotten(
    before: HandlerModel,
    member: MemberId,
    still_connected: bool,
    after: HandlerModel,
    event: Option<Event>,
    other: MemberId,
)
    requires
        untracks(before, member, still_connected, after, event),
    ensures
        still_connected ==> after == before && event is None,
        !still_connected ==> !after.rooms.dom().contains(member),
        !still_connected ==> (event is Some <==> before.rooms.dom().contains(member)),
        !still_connected && !before.egregore.community.members.dom().contains(member)
            ==> !after.egregore.pending.dom().contains(member),
        before.egregore.community.members.dom().contains(member) ==> after.egregore
            == before.egregore,
        other != member ==> (after.rooms.dom().contains(other) <==> before.rooms.dom().contains(
            other,
        )) && (after.egregore.pending.dom().contains(other)
            <==> before.egregore.pending.dom().contains(other)),
        other != member && before.rooms.dom().contains(other) ==> after.rooms[other]
            == before.rooms[other],
        after.egregore == (EgregoreModel { pending: after.egregore.pending, ..before.egregore }),
{
}

/// A participant that connects is told in which voice channel the node is and whether it is muted;
/// nobody else is told, and nothing is told where the node is in none.
pub proof fn participants_learn_where_the_node_is(
    state: HandlerModel,
    peer: MemberId,
    operations: Result<Vec<Body>, Fault>,
)
    requires
        tells_presence(state, peer, operations),
        state.egregore.replica.active_epoch() is Some,
    ensures
        ({
            let members = state.egregore.community.members;
            let local = state.egregore.local_member;
            let told = members.dom().contains(peer) && members[peer] is Participant
                && state.rooms.dom().contains(local);
            &&& operations is Ok
            &&& !told ==> operations->Ok_0@.len() == 0
            &&& told ==> operations->Ok_0@.len() == 2 && states(
                state,
                state.rooms[local].channel,
                VoicePresence::Joined,
                operations->Ok_0@[0]@,
            ) && states(
                state,
                state.rooms[local].channel,
                VoicePresence::Muted(state.rooms[local].muted),
                operations->Ok_0@[1]@,
            )
        }),
{
}

/// How far a text channel was read is noted where the item is held there; the cursor never goes
/// back, and nothing else changes.
pub proof fn reading_moves_the_cursor(
    before: HandlerModel,
    channel: ChannelId,
    id: MessageId,
    after: HandlerModel,
    verdict: Result<(), Fault>,
    other: ChannelId,
)
    requires
        reads_up_to(before, channel, id, after, verdict),
    ensures
        ({
            let replica = before.egregore.replica;
            let left = after.egregore.replica;
            let there = replica.channels.dom().contains(channel)
                && replica.channels[channel].channel@.kind is Text;
            &&& there && replica.texts.dom().contains(named(before.egregore.local_member, id))
                && replica.texts[named(before.egregore.local_member, id)].channel_id == channel
                ==> verdict is Ok
            &&& !there ==> verdict is Err
            &&& verdict is Err ==> after == before
            &&& verdict is Ok ==> left.cursors.dom().contains(channel)
            &&& verdict is Ok && (!replica.cursors.dom().contains(channel) || rank(
                replica.cursors[channel],
            ) < rank(id)) ==> left.cursors[channel] == id
            &&& verdict is Ok && replica.cursors.dom().contains(channel) && rank(
                replica.cursors[channel],
            ) >= rank(id) ==> left.cursors[channel] == replica.cursors[channel]
            &&& other != channel ==> (left.cursors.dom().contains(other)
                <==> replica.cursors.dom().contains(other)) && (replica.cursors.dom().contains(
                other,
            ) ==> left.cursors[other] == replica.cursors[other])
            &&& left == (ReplicaModel { cursors: left.cursors, ..replica })
            &&& after.egregore == (EgregoreModel { replica: left, ..before.egregore })
            &&& after.rooms == before.rooms
        }),
{
}

/// An item that is held in a channel, a text or an attachment of anybody, can be read there.
pub proof fn held_items_can_be_read(replica: ReplicaModel, name: ContentName, channel: ChannelId)
    ensures
        replica.texts.dom().contains(name) && replica.texts[name].channel_id == channel
            ==> replica.has_item(channel, name.id),
        replica.attachments.dom().contains(name) && replica.attachments[name].channel_id == channel
            ==> replica.has_item(channel, name.id),
{
}

/// A user speaks and states where it is in a voice channel that is there, as a participant with the
/// content key of the membership in force; and it speaks only where it is.
pub proof fn participants_speak_where_they_are(state: HandlerModel, channel: ChannelId)
    ensures
        ({
            let node = state.egregore;
            let may = node.community.members.dom().contains(node.local_member)
                && node.community.members[node.local_member] is Participant
                && node.replica.channels.dom().contains(channel)
                && node.replica.channels[channel].channel@.kind is Voice
                && node.replica.active_epoch() is Some;
            &&& state.stating_refusal(channel) is None <==> may
            &&& state.speaking_refusal(channel) is None <==> may && state.rooms.dom().contains(
                node.local_member,
            ) && state.rooms[node.local_member].channel == channel
        }),
{
}

/// Nobody hears or is heard that does not participate: a datagram of or to anybody else changes
/// nothing and is refused.
pub proof fn only_participants_are_heard(state: HandlerModel, author: MemberId, bytes: Seq<u8>)
    requires
        ({
            let node = state.egregore;
            let members = node.community.members;
            !(members.dom().contains(author) && members[author] is Participant
                && members.dom().contains(node.local_member)
                && members[node.local_member] is Participant)
        }),
    ensures
        state.datagram_received(author, bytes).0 == state,
        state.datagram_received(author, bytes).1 is Err,
{
}

/// A frame is admitted from somebody in its voice channel that encrypted it under the membership in
/// force, and is then opened with the content key of that membership; from elsewhere it is not.
pub proof fn voice_is_admitted_from_the_room(
    state: HandlerModel,
    sealed: SealedVoice,
    author: MemberId,
)
    ensures
        ({
            let replica = state.egregore.replica;
            let key = EpochName { number: sealed.epoch, head: sealed.head };
            let channel = sealed.frame.channel_id;
            let present = state.rooms.dom().contains(author) && state.rooms[author].channel
                == channel;
            let there = replica.channels.dom().contains(channel)
                && replica.channels[channel].channel@.kind is Voice;
            let current = sealed.epoch == replica.active_revision() && sealed.head@
                == replica.active_head();
            &&& !present || !there || !current ==> state.voice_admission(sealed, author) is Err
            &&& present && there && current && payload_fault(sealed.frame.payload) is None
                && sealed.epoch <= i64::MAX && replica.content_keys.dom().contains(key)
                ==> state.voice_admission(sealed, author) == Ok::<[u8; 32], FaultModel>(
                replica.content_keys[key],
            )
        }),
{
}

/// Whether a node that can read a text, or that only keeps what others write, would take it from a
/// peer.
pub open spec fn takes_text(node: EgregoreModel, sender: MemberId, text: EncryptedText) -> bool {
    match node.text_admission(sender, text) {
        Ok(Some(key)) => text_found(node.replica.community_id, text@, key@) is Ok,
        Ok(None) => true,
        Err(_) => false,
    }
}

/// The operations that carry texts.
pub open spec fn text_bodies(texts: Seq<EncryptedText>) -> Seq<BodyModel> {
    Seq::new(texts.len(), |i: int| BodyModel::Text(text_wire(texts[i]@)))
}

proof fn deliveries_carry_text(
    states: Seq<HandlerModel>,
    sender: MemberId,
    bodies: Seq<BodyModel>,
    held: EncryptedText,
    i: int,
)
    requires
        delivers(states, sender, bodies),
        0 <= i < states.len(),
        !states[0].egregore.replica.texts.dom().contains(named(held.author, held.id)),
        forall|k: int|
            0 <= k < bodies.len() ==> match #[trigger] bodies[k] {
                BodyModel::Text(message) => message.author == held.author@ && message.id
                    == held.id@ ==> message == text_wire(held@),
                _ => true,
            },
    ensures
        states[i].egregore.replica.texts.dom().contains(named(held.author, held.id))
            ==> states[i].egregore.replica.texts[named(held.author, held.id)]@ == held@,
    decreases i,
{
    let name = named(held.author, held.id);
    if i > 0 {
        deliveries_carry_text(states, sender, bodies, held, i - 1);
        assert(comes_in(states[i - 1], sender, bodies[i - 1], states[i - 1 + 1]));
        let answer = answer_to(states[i - 1], sender, bodies[i - 1], states[i]);
        let before = states[i - 1].egregore.replica.texts;
        let after = states[i].egregore.replica.texts;
        operations_take_nothing_away(states[i - 1], sender, bodies[i - 1], states[i], answer);
        if before.dom().contains(name) {
            assert(after.dom().contains(name) && after[name] == before[name]);
        } else if after.dom().contains(name) {
            texts_come_as_they_were_sent(
                states[i - 1],
                sender,
                bodies[i - 1],
                states[i],
                answer,
                name,
            );
            text_carried(held, after[name]);
        }
    }
}

proof fn sent_text_is_taken(
    before: HandlerModel,
    sender: MemberId,
    held: EncryptedText,
    after: HandlerModel,
    answer: Result<ReplyModel, FaultModel>,
)
    requires
        operation_received(before, sender, BodyModel::Text(text_wire(held@)), after, answer),
        held.epoch <= i64::MAX,
        takes_text(before.egregore, sender, held),
        before.egregore.replica.texts.dom().contains(named(held.author, held.id))
            ==> before.egregore.replica.texts[named(held.author, held.id)]@ == held@,
    ensures
        after.egregore.replica.texts.dom().contains(named(held.author, held.id)),
        after.egregore.replica.texts[named(held.author, held.id)]@ == held@,
        answer is Ok,
{
    let node = before.egregore;
    let wired = text_wire(held@);
    assert(text_unreadable(wired) is None);
    let read = choose|read: EncryptedText| #[trigger]
        text_wire(read@) == wired && (after.egregore, outcome_in(answer)) == node.text_received(
            sender,
            read,
        );
    text_carried(held, read);
    same_text_fields(held, read);
    assert(node.text_admission(sender, read) == node.text_admission(sender, held));
}

proof fn held_items_stay(before: ReplicaModel, after: ReplicaModel, name: ContentName)
    requires
        nothing_lost(before, after),
    ensures
        before.texts.dom().contains(name) ==> after.texts.dom().contains(name)
            && after.texts[name] == before.texts[name],
        before.attachments.dom().contains(name) ==> after.attachments.dom().contains(name)
            && after.attachments[name] == before.attachments[name],
{
    assert(before.texts.submap_of(after.texts));
    assert(before.attachments.submap_of(after.attachments));
    if before.texts.dom().contains(name) {
        assert(after.texts.dom().contains(name));
    }
    if before.attachments.dom().contains(name) {
        assert(after.attachments.dom().contains(name));
    }
}

proof fn plans_carry_one_text_of_a_name(
    state: HandlerModel,
    peer: MemberId,
    plan: SyncPlan,
    inventory: Set<TextIdentity>,
    name: ContentName,
    k: int,
)
    requires
        catches_up(state, peer, Ok(Some(plan))),
        state.egregore.replica.well_formed(),
        finite(state.egregore.replica),
        state.egregore.replica.texts.dom().contains(name),
        0 <= k < (sent(plan.first@) + text_bodies(missing_texts(inventory, plan.messages@)) + sent(
            plan.operations@,
        )).len(),
    ensures
        match (sent(plan.first@) + text_bodies(missing_texts(inventory, plan.messages@)) + sent(
            plan.operations@,
        ))[k] {
            BodyModel::Text(message) => message.author == name.author@ && message.id == name.id@
                ==> message == text_wire(state.egregore.replica.texts[name]@),
            _ => true,
        },
{
    let held = state.egregore.replica.texts[name];
    let missing = missing_texts(inventory, plan.messages@);
    let first = sent(plan.first@);
    let texts = text_bodies(missing);
    let operations = sent(plan.operations@);
    let bodies = first + texts + operations;
    let wanted = |text: EncryptedText| lacks(inventory, text);
    let from = first.len() + texts.len();
    if k < first.len() {
        plans_start_with_the_groundwork(
            state,
            peer,
            plan,
            name.author,
            EnvelopeName { epoch: 0, recipient: name.author, head: held.head },
            0,
            held.channel_id,
        );
        assert(bodies[k] == first[k]);
    } else if k < from {
        plans_carry_every_text(state, peer, plan, name);
        let text = missing[k - first.len()];
        assert(bodies[k] == texts[k - first.len()]);
        assert(missing.contains(text));
        filters_keep_what_passes(plan.messages@, wanted, text);
        let i = plan.messages@.index_of(text);
        assert(plan.messages@[i] == text);
        if text_wire(text@).author == name.author@ && text_wire(text@).id == name.id@ {
            assert(text.author.0 =~= name.author.0);
            assert(text.id.0 =~= name.id.0);
            assert(named(text.author, text.id) == name);
        }
    } else {
        plans_end_with_the_content(state, peer, plan, name.author);
        assert(bodies[k] == operations[k - from]);
    }
}

/// Once everything in a plan was delivered, with the texts that the peer did not list, the peer
/// holds every text that the node held: one that it had as it had it, and any other one as the node
/// held it. The peer has to take it, as whoever may read it or keep it does.
pub proof fn caught_up_peers_hold_every_text(
    state: HandlerModel,
    peer: MemberId,
    plan: SyncPlan,
    inventory: Set<TextIdentity>,
    states: Seq<HandlerModel>,
    name: ContentName,
)
    requires
        catches_up(state, peer, Ok(Some(plan))),
        state.egregore.replica.well_formed(),
        finite(state.egregore.replica),
        state.egregore.replica.texts.dom().contains(name),
        delivers(
            states,
            state.egregore.local_member,
            sent(plan.first@) + text_bodies(missing_texts(inventory, plan.messages@)) + sent(
                plan.operations@,
            ),
        ),
        forall|n: TextIdentity| #[trigger]
            inventory.contains(n) ==> states[0].egregore.replica.texts.dom().contains(
                named(n.author, n.id),
            ),
        forall|i: int|
            0 <= i < states.len() ==> takes_text(
                (#[trigger] states[i]).egregore,
                state.egregore.local_member,
                state.egregore.replica.texts[name],
            ),
    ensures
        states.last().egregore.replica.texts.dom().contains(name),
        states[0].egregore.replica.texts.dom().contains(name)
            ==> states.last().egregore.replica.texts[name]
            == states[0].egregore.replica.texts[name],
        !states[0].egregore.replica.texts.dom().contains(name)
            ==> states.last().egregore.replica.texts[name]@
            == state.egregore.replica.texts[name]@,
{
    let replica = state.egregore.replica;
    let held = replica.texts[name];
    let sender = state.egregore.local_member;
    let missing = missing_texts(inventory, plan.messages@);
    let first = sent(plan.first@);
    let texts = text_bodies(missing);
    let operations = sent(plan.operations@);
    let bodies = first + texts + operations;
    let wanted = |text: EncryptedText| lacks(inventory, text);
    assert(named(held.author, held.id) == name);
    deliveries_keep(states, sender, bodies, 0, states.len() - 1);
    held_items_stay(
        states[0].egregore.replica,
        states[states.len() - 1].egregore.replica,
        name,
    );
    if !states[0].egregore.replica.texts.dom().contains(name) {
        plans_carry_every_text(state, peer, plan, name);
        assert forall|k: int| 0 <= k < bodies.len() implies match #[trigger] bodies[k] {
            BodyModel::Text(message) => message.author == held.author@ && message.id == held.id@
                ==> message == text_wire(held@),
            _ => true,
        } by {
            plans_carry_one_text_of_a_name(state, peer, plan, inventory, name, k);
        }
        let i = choose|i: int|
            0 <= i < plan.messages@.len() && (#[trigger] plan.messages@[i]).author == name.author
                && plan.messages@[i].id == name.id;
        let text = plan.messages@[i];
        assert(text@ == held@);
        let own = TextIdentity { author: name.author, id: name.id };
        assert(named(own.author, own.id) == name);
        assert(!inventory.contains(own));
        assert(identity_of(text@) == own);
        assert(wanted(text));
        assert(plan.messages@.contains(text));
        filters_keep_what_passes(plan.messages@, wanted, text);
        let m = missing.index_of(text);
        let k = first.len() + m;
        assert(bodies[k] == texts[m]);
        assert(bodies[k] == BodyModel::Text(text_wire(held@)));
        assert(comes_in(states[k], sender, bodies[k], states[k + 1]));
        let answer = answer_to(states[k], sender, bodies[k], states[k + 1]);
        deliveries_carry_text(states, sender, bodies, held, k);
        sent_text_is_taken(states[k], sender, held, states[k + 1], answer);
        deliveries_keep(states, sender, bodies, k + 1, states.len() - 1);
        held_items_stay(
            states[k + 1].egregore.replica,
            states[states.len() - 1].egregore.replica,
            name,
        );
    }
}

/// A peer is sent the texts that it did not list, all of them and no others, in the order in which
/// they are held.
pub proof fn missing_texts_are_those_not_listed(
    inventory: Set<TextIdentity>,
    texts: Seq<EncryptedText>,
    text: EncryptedText,
)
    ensures
        missing_texts(inventory, texts).contains(text) <==> texts.contains(text)
            && !inventory.contains(TextIdentity { author: text.author, id: text.id }),
        missing_texts(Set::empty(), texts) == texts,
{
    filters_keep_what_passes(texts, |t: EncryptedText| lacks(inventory, t), text);
    everything_is_missing(texts);
}

proof fn everything_is_missing(texts: Seq<EncryptedText>)
    ensures
        missing_texts(Set::empty(), texts) == texts,
    decreases texts.len(),
{
    reveal(Seq::filter);
    if texts.len() > 0 {
        everything_is_missing(texts.drop_last());
        assert(missing_texts(Set::empty(), texts) =~= texts);
    }
}

/// A registration that waits is taken in where its member has none yet, and no longer waits; any
/// other one stays where it is.
pub proof fn waiting_registrations_are_taken_in(
    node: EgregoreModel,
    member: MemberId,
    other: MemberId,
)
    requires
        node.pending.dom().contains(member) ==> node.pending[member].member == member,
    ensures
        ({
            let after = node.settled(member);
            let due = !node.replica.registrations.dom().contains(member)
                && node.pending.dom().contains(member);
            &&& due ==> after.replica.registrations.dom().contains(member)
                && after.replica.registrations[member] == node.pending[member]
                && !after.pending.dom().contains(member)
            &&& !due ==> after == node
            &&& other != member ==> (after.replica.registrations.dom().contains(other)
                <==> node.replica.registrations.dom().contains(other)) && (
            after.pending.dom().contains(other) <==> node.pending.dom().contains(other))
            &&& after.community == node.community
        }),
{
}

/// After a change of the membership the own display name is encrypted anew, with the content key of
/// the membership in force and one revision later, and says what it said.
pub proof fn names_are_renewed(
    before: ReplicaModel,
    member: MemberId,
    signing_seed: Seq<u8>,
    after: ReplicaModel,
    result: Result<Option<(EncryptedMemberProfile, DisplayName)>, Fault>,
    name: Seq<char>,
)
    requires
        refreshes(before, member, signing_seed, after, result),
        before.well_formed(),
        member@ == ed25519_public_key(signing_seed),
        before.profiles.dom().contains(member),
        before.profiles[member].revision < i64::MAX,
        before.active_epoch() is Some,
        ({
            let held = before.profiles[member];
            let key = EpochName { number: held.epoch, head: held.head };
            let current = before.active_epoch()->0;
            &&& held.epoch != current.number || held.head@ != current.head@
            &&& before.content_keys.dom().contains(key)
            &&& name_found(before.community_id, held@, before.content_keys[key]@) == Ok::<
                Seq<char>,
                FaultModel,
            >(name)
        }),
    ensures
        result is Ok,
        result->Ok_0 is Some,
        ({
            let (renewed, said) = result->Ok_0->0;
            said@ == name && after.profiles[member]@ == renewed@
        }),
        after.profiles.dom().contains(member),
        after.profiles[member].revision == before.profiles[member].revision + 1,
        after.profiles[member].epoch == before.active_revision(),
        after == (ReplicaModel { profiles: after.profiles, ..before }),
{
    let held = before.profiles[member];
    let epoch = before.active_epoch()->0;
    let ruling = refresh_ruling(before, member);
    assert(epoch.number == before.active_revision());
    assert(ruling == Ok::<Option<(ContentEpoch, Seq<char>, u64)>, FaultModel>(
        Some((epoch, name, (held.revision + 1) as u64)),
    ));
    let sealed = choose|sealed: EncryptedMemberProfile| #[trigger]
        refreshed_with(before, signing_seed, ruling->Ok_0->0, sealed, after, result);
    assert(refreshed_with(before, signing_seed, ruling->Ok_0->0, sealed, after, result));
    assert(sealed@.member == sealed.member && sealed@.revision == sealed.revision && sealed@.epoch
        == sealed.epoch);
    assert(sealed.member.0 =~= member.0);
    assert(before.content_keys.dom().contains(
        EpochName { number: epoch.number, head: epoch.head },
    ));
}

proof fn rotating_loses_nothing(
    replica: ReplicaModel,
    signed: SignedMembership,
    epoch: ContentEpoch,
    envelopes: Seq<ContentKeyEnvelope>,
)
    requires
        replica.rotation_verdict(signed, epoch, envelopes) is Ok,
    ensures
        nothing_lost(replica, replica.rotated(signed, epoch, envelopes)),
{
    let after = replica.rotated(signed, epoch, envelopes);
    same_loses_nothing(replica);
    filing_loses_nothing(replica, signed);
    assert forall|name: EnvelopeName| #[trigger]
        replica.envelopes.dom().contains(name) implies #[trigger] after.envelopes.dom().contains(
        name,
    ) && replica.envelopes[name] == after.envelopes[name] by {
        rotations_add_to_what_is_held(
            replica,
            signed,
            epoch,
            envelopes,
            0,
            name,
            EpochName { number: epoch.number, head: epoch.head },
        );
    }
    assert forall|name: EpochName| #[trigger]
        replica.content_keys.dom().contains(name) implies #[trigger] after.content_keys.dom().contains(
        name,
    ) && replica.content_keys[name] == after.content_keys[name] by {
        rotations_add_to_what_is_held(
            replica,
            signed,
            epoch,
            envelopes,
            0,
            EnvelopeName {
                epoch: epoch.number,
                recipient: subject(signed.update.change),
                head: epoch.head,
            },
            name,
        );
    }
}

/// Whatever the user asks for, nothing that a node held is lost by it, but for an attachment that it
/// asks to forget.
pub proof fn commands_take_nothing_away(
    before: HandlerModel,
    command: Command,
    after: HandlerModel,
    reaction: Result<Reaction, Fault>,
)
    requires
        obeyed(before, command, after, reaction),
        !(command is ForgetAttachment),
    ensures
        nothing_lost(before.egregore.replica, after.egregore.replica),
        after.egregore.local_member == before.egregore.local_member,
{
    let node = before.egregore;
    same_loses_nothing(node.replica);
    if command_refusal(before, command) is None {
        match command {
            Command::ChangeMembership(change) => {
                let key = choose|key: [u8; 32]| #[trigger]
                    membership_changed(node, change, key, after.egregore, reacted(reaction))
                        && after == before.with_egregore(after.egregore);
                change_loses_nothing(node, change, key, after.egregore, reacted(reaction));
            },
            Command::SetDisplayName(name) => {
                let sealed = choose|sealed: EncryptedMemberProfile| #[trigger]
                    names(node, name@, sealed) && after == before.with_egregore(
                        node.name_set(sealed, name@).0,
                    ) && reacted(reaction) == node.name_set(sealed, name@).1;
            },
            Command::PostText(message) => {
                let key = node.replica.active_epoch()->0.key;
                let sealed = choose|sealed: EncryptedText| #[trigger]
                    posts(node, message@, sealed) && counted_after(
                        before,
                        node.text_posted(sealed, key),
                        after,
                        reacted(reaction),
                    );
            },
            _ => {},
        }
    }
}

proof fn change_loses_nothing(
    before: EgregoreModel,
    change: MembershipChange,
    key: [u8; 32],
    after: EgregoreModel,
    answer: Result<OutcomeModel, FaultModel>,
)
    requires
        membership_changed(before, change, key, after, answer),
    ensures
        nothing_lost(before.replica, after.replica),
        after.local_member == before.local_member,
{
    same_loses_nothing(before.replica);
    let settled = before.settled_for(change);
    same_loses_nothing(settled.replica);
    assert(nothing_lost(before.replica, settled.replica));
    if after != before && after != settled {
        let rotation = choose|rotation: Rotation| #[trigger]
            rotates(settled, change, key, rotation) && rotated_to(
                settled,
                rotation,
                after,
                answer,
            );
        let replica = settled.replica.rotated(
            rotation.signed,
            rotation.epoch,
            rotation.envelopes,
        );
        assert(settled.replica.rotation_verdict(
            rotation.signed,
            rotation.epoch,
            rotation.envelopes,
        ) is Ok);
        rotating_loses_nothing(
            settled.replica,
            rotation.signed,
            rotation.epoch,
            rotation.envelopes,
        );
        losses_add_up(before.replica, settled.replica, replica);
        if replica.community() is Ok {
            let community = replica.community()->Ok_0;
            let result = choose|
                result: Result<Option<(EncryptedMemberProfile, DisplayName)>, Fault>,
            |
                #[trigger] refreshes(
                    replica,
                    settled.local_member,
                    settled.signing_seed,
                    after.replica,
                    result,
                ) && after == settled.with_community(community).with_replica(after.replica)
                    && answer == Ok::<OutcomeModel, FaultModel>(
                    with_profile_refresh(rotation_outcome(settled, rotation, community), result),
                );
            refreshing_loses_nothing(
                replica,
                settled.local_member,
                settled.signing_seed,
                after.replica,
                result,
            );
            losses_add_up(before.replica, replica, after.replica);
        }
    }
}

/// A member that asks which texts are held is told exactly those, in an answer that reads as the list
/// of their names, or, where they are too many for one answer, that reads as an empty list; nothing
/// changes by it. Anybody else is refused.
pub proof fn members_are_told_what_is_held(
    before: HandlerModel,
    peer: MemberId,
    asked: wire::TextInventoryModel,
    after: HandlerModel,
    answer: Result<ReplyModel, FaultModel>,
)
    requires
        operation_received(before, peer, BodyModel::TextInventory(asked), after, answer),
        inventory_unreadable(asked.messages) is None,
    ensures
        after == before,
        ({
            let members = before.egregore.community.members.dom();
            let both = members.contains(peer) && members.contains(before.egregore.local_member);
            &&& !both ==> answer is Err
            &&& both ==> answer is Ok && answer->Ok_0 is Inventory && exists|
                names: Seq<TextIdentity>,
            |
                answer->Ok_0->Inventory_0 == #[trigger] inventory_bytes(names) && forall|
                    name: TextIdentity,
                | #[trigger]
                    names.contains(name) <==> before.egregore.replica.texts.dom().contains(
                        named(name.author, name.id),
                    )
        }),
{
    let members = before.egregore.community.members.dom();
    if members.contains(peer) && members.contains(before.egregore.local_member) {
        let names = choose|names: Seq<TextIdentity>| #[trigger]
            lists_texts(before.egregore.replica, names) && answer == Ok::<ReplyModel, FaultModel>(
                ReplyModel::Inventory(inventory_bytes(names)),
            );
        assert(answer->Ok_0->Inventory_0 == inventory_bytes(names));
    }
}

proof fn ready_members_pass(
    state: EgregoreModel,
    next: CommunityModel,
    signed: SignedMembership,
    members: Seq<MemberId>,
)
    requires
        signed.update.revision <= i64::MAX,
        forall|k: int|
            0 <= k < members.len() ==> is_ready(state, next, signed, #[trigger] members[k]),
    ensures
        state.members_activated(next, signed, members) == (state, None::<FaultModel>),
    decreases members.len(),
{
    if members.len() > 0 {
        let before = members.drop_last();
        assert forall|k: int| 0 <= k < before.len() implies is_ready(
            state,
            next,
            signed,
            #[trigger] before[k],
        ) by {
            assert(before[k] == members[k]);
        }
        ready_members_pass(state, next, signed, before);
        assert(is_ready(state, next, signed, members[members.len() - 1]));
    }
}

/// Whether a node holds what a new membership asks for of a member: its registration, and, of a
/// participant alone, an envelope that the owner signed.
pub open spec fn is_ready(
    node: EgregoreModel,
    next: CommunityModel,
    signed: SignedMembership,
    member: MemberId,
) -> bool {
    let head = array_with::<32>(membership_head(node.replica.community_id, signed));
    let name = EnvelopeName { epoch: signed.update.revision, recipient: member, head };
    &&& node.replica.registrations.dom().contains(member)
    &&& next.participates(member) ==> node.replica.envelopes.dom().contains(name)
        && signature_fault(
        node.replica.owner@,
        envelope_message(node.replica.community_id, node.replica.envelopes[name]@),
        node.replica.envelopes[name].signature@,
    ) is None
    &&& !next.participates(member) ==> !node.replica.envelopes.dom().contains(name)
}

proof fn last_goes_last(list: Seq<SignedMembership>, item: SignedMembership)
    requires
        list.len() > 0 ==> list.last().update.revision < item.update.revision,
    ensures
        filed(list, item) == list.push(item),
{
    assert(slot(list, item) == list.len());
    assert(filed(list, item) =~= list.push(item));
}

proof fn nothing_at(history: Seq<SignedMembership>, revision: u64)
    requires
        forall|i: int|
            0 <= i < history.len() ==> (#[trigger] history[i]).update.revision < revision,
    ensures
        at_revision(history, revision) is None,
    decreases history.len(),
{
    if history.len() > 0 {
        let before = history.drop_last();
        assert forall|i: int| 0 <= i < before.len() implies (
        #[trigger] before[i]).update.revision < revision by {
            assert(before[i] == history[i]);
        }
        nothing_at(before, revision);
        assert(history[history.len() - 1].update.revision < revision);
    }
}

/// A change of the membership that the owner signed, that comes next and that finds everybody ready
/// takes effect: it stands last in the history, the community is the one that it leads to, and the
/// user is told. The own removal takes effect whoever is ready.
pub proof fn ready_memberships_take_effect(
    before: EgregoreModel,
    signed: SignedMembership,
    after: EgregoreModel,
    answer: Result<OutcomeModel, FaultModel>,
)
    requires
        membership_received(before, signed, after, answer),
        before.replica.well_formed(),
        before.replica.community() == Ok::<CommunityModel, FaultModel>(before.community),
        membership_objection(
            before.replica.owner,
            before.replica.community_id,
            signed.update,
            signed.signature@,
        ) is None,
        signed.update.change == MembershipChange::AdmitAvailability(before.local_member)
            ==> before.replica.content_keys.dom().len() == 0,
        signed.update.revision == before.replica.next_revision(),
        signed.update.revision <= i64::MAX,
        before.community.verdict(before.replica.owner, signed.update.change) == Ok::<
            bool,
            CommunityError,
        >(true),
        ({
            let next = before.community.changed(before.replica.owner, signed.update.change);
            &&& next.members.dom().finite()
            &&& signed.update.change == MembershipChange::Remove(before.local_member) || forall|
                m: MemberId,
            | #[trigger]
                next.members.dom().contains(m) ==> is_ready(before, next, signed, m)
        }),
        signed.update.change is Remove ==> !before.replica.envelopes.dom().contains(
            EnvelopeName {
                epoch: signed.update.revision,
                recipient: subject(signed.update.change),
                head: array_with::<32>(membership_head(before.replica.community_id, signed)),
            },
        ),
    ensures
        answer is Ok,
        after.replica.history == before.replica.history.push(signed),
        after.community == before.community.changed(before.replica.owner, signed.update.change),
        answer->Ok_0.events.len() > 0,
        answer->Ok_0.events[0] == EventModel::MembershipChanged(after.community),
{
    let replica = before.replica;
    let change = signed.update.change;
    let next = before.community.changed(replica.owner, change);
    let keys = sorted_keys(next.members);
    finite_maps_are_listed(next.members);
    if change != MembershipChange::Remove(before.local_member) {
        assert forall|k: int| 0 <= k < keys.len() implies is_ready(
            before,
            next,
            signed,
            #[trigger] keys[k],
        ) by {
            assert(keys.contains(keys[k]));
            assert(next.members.dom().contains(keys[k]));
        }
        ready_members_pass(before, next, signed, keys);
    }
    assert(before.activation(signed) == (before, None::<FaultModel>));
    the_last_membership_is_in_force(
        replica,
        EpochName { number: signed.update.revision, head: replica_head(replica, signed) },
    );
    nothing_at(replica.history, signed.update.revision);
    last_goes_last(replica.history, signed);
    histories_go_step_by_step(replica.owner, replica.history, signed);
    let kept = before.with_replica(replica.membership_added(signed));
    assert(replica.membership_verdict(signed) == Ok::<bool, FaultModel>(true));
    assert(kept.replica.history == replica.history.push(signed));
    assert(kept.replica.community() == Ok::<CommunityModel, FaultModel>(next));
    let renewed = kept.with_community(next);
    if next.participates(before.local_member) {
        let result = choose|result: Result<Option<(EncryptedMemberProfile, DisplayName)>, Fault>|
            #[trigger] refreshes(
                renewed.replica,
                renewed.local_member,
                renewed.signing_seed,
                after.replica,
                result,
            ) && after == renewed.with_replica(after.replica) && answer == Ok::<
                OutcomeModel,
                FaultModel,
            >(
                OutcomeModel {
                    refresh_voice_presence: true,
                    ..with_profile_refresh(membership_outcome(signed, next), result)
                },
            );
        refreshing_loses_nothing(
            renewed.replica,
            renewed.local_member,
            renewed.signing_seed,
            after.replica,
            result,
        );
    }
}

spec fn replica_head(replica: ReplicaModel, signed: SignedMembership) -> [u8; 32] {
    array_with::<32>(membership_head(replica.community_id, signed))
}

proof fn keys_can_be_sealed(
    replica: ReplicaModel,
    community: CommunityModel,
    members: Seq<MemberId>,
)
    ensures
        sealing_fault(replica, community, members) is None <==> forall|k: int|
            0 <= k < members.len() ==> can_be_sealed_for(replica, community, #[trigger] members[k]),
    decreases members.len(),
{
    if members.len() > 0 {
        let before = members.drop_last();
        keys_can_be_sealed(replica, community, before);
        assert(members[members.len() - 1] == members.last());
        if forall|k: int|
            0 <= k < members.len() ==> can_be_sealed_for(replica, community, #[trigger] members[k]) {
            assert forall|k: int| 0 <= k < before.len() implies can_be_sealed_for(
                replica,
                community,
                #[trigger] before[k],
            ) by {
                assert(before[k] == members[k]);
            }
            assert(can_be_sealed_for(replica, community, members[members.len() - 1]));
        }
        if sealing_fault(replica, community, members) is None {
            assert forall|k: int| 0 <= k < members.len() implies can_be_sealed_for(
                replica,
                community,
                #[trigger] members[k],
            ) by {
                if k < before.len() {
                    assert(before[k] == members[k]);
                }
            }
        }
    }
}

/// Whether a member has registered, and, as a participant, with a key that something can be sealed
/// for.
pub open spec fn can_be_sealed_for(
    replica: ReplicaModel,
    community: CommunityModel,
    member: MemberId,
) -> bool {
    replica.registrations.dom().contains(member) && (community.participates(member)
        ==> hpke_key_objection(replica.registrations[member].public_key@) is None)
}

/// What the owner asks for is done where everybody whom it leaves has registered, with a key that
/// something can be sealed for, and nothing is in the way of storing it; nobody else changes
/// anything, and what changes nothing is no fault.
pub proof fn owners_change_the_membership(
    before: EgregoreModel,
    change: MembershipChange,
    key: [u8; 32],
    after: EgregoreModel,
    answer: Result<OutcomeModel, FaultModel>,
)
    requires
        membership_changed(before, change, key, after, answer),
        before.replica.well_formed(),
        before.replica.community() == Ok::<CommunityModel, FaultModel>(before.community),
        before.replica.owner == before.community.owner,
        !before.replica.recovered || before.replica.active_epoch() is Some,
        before.community.changed(before.local_member, change).members.dom().finite(),
    ensures
        before.local_member != before.community.owner ==> answer is Err && after == before,
        before.community.verdict(before.local_member, change) == Ok::<bool, CommunityError>(false)
            ==> answer is Ok && after == before,
        ({
            let next = before.community.changed(before.local_member, change);
            let settled = before.settled_for(change);
            before.community.verdict(before.local_member, change) == Ok::<bool, CommunityError>(
                true,
            ) && (forall|m: MemberId| #[trigger]
                next.members.dom().contains(m) ==> can_be_sealed_for(settled.replica, next, m))
                ==> {
                ||| answer is Ok && after.community == next && after.replica.history.len()
                    == before.replica.history.len() + 1
                ||| exists|rotation: Rotation| #[trigger]
                    rotates(settled, change, key, rotation) && settled.replica.rotation_verdict(
                        rotation.signed,
                        rotation.epoch,
                        rotation.envelopes,
                    ) is Err && answer is Err
            }
        }),
{
    let next = before.community.changed(before.local_member, change);
    let settled = before.settled_for(change);
    let keys = sorted_keys(next.members);
    finite_maps_are_listed(next.members);
    if before.community.verdict(before.local_member, change) == Ok::<bool, CommunityError>(true)
        && (forall|m: MemberId| #[trigger]
        next.members.dom().contains(m) ==> can_be_sealed_for(settled.replica, next, m)) {
        keys_can_be_sealed(settled.replica, next, keys);
        assert forall|k: int| 0 <= k < keys.len() implies can_be_sealed_for(
            settled.replica,
            next,
            #[trigger] keys[k],
        ) by {
            assert(keys.contains(keys[k]));
            assert(next.members.dom().contains(keys[k]));
        }
        if !(change is Remove) {
            assert(next.members.dom().contains(subject(change)));
        }
        let rotation = choose|rotation: Rotation| #[trigger]
            rotates(settled, change, key, rotation) && rotated_to(
                settled,
                rotation,
                after,
                answer,
            );
        let signed = rotation.signed;
        if settled.replica.rotation_verdict(signed, rotation.epoch, rotation.envelopes) is Ok {
            assert(settled.replica.history == before.replica.history);
            the_last_membership_is_in_force(
                before.replica,
                EpochName { number: signed.update.revision, head: rotation.epoch.head },
            );
            last_goes_last(before.replica.history, signed);
            histories_go_step_by_step(before.replica.owner, before.replica.history, signed);
            let replica = settled.replica.rotated(signed, rotation.epoch, rotation.envelopes);
            assert(replica.history == before.replica.history.push(signed));
            assert(replica.community() == Ok::<CommunityModel, FaultModel>(next));
            let result = choose|
                result: Result<Option<(EncryptedMemberProfile, DisplayName)>, Fault>,
            |
                #[trigger] refreshes(
                    replica,
                    settled.local_member,
                    settled.signing_seed,
                    after.replica,
                    result,
                ) && after == settled.with_community(next).with_replica(after.replica) && answer
                    == Ok::<OutcomeModel, FaultModel>(
                    with_profile_refresh(rotation_outcome(settled, rotation, next), result),
                );
            refreshing_loses_nothing(
                replica,
                settled.local_member,
                settled.signing_seed,
                after.replica,
                result,
            );
        } else {
            assert(rotates(settled, change, key, rotation));
        }
    }
}

/// A channel that the owner signed comes to be there and is told; one that the owner did not sign is
/// refused and changes nothing.
pub proof fn signed_channels_arrive(
    before: EgregoreModel,
    message: wire::CreateChannelModel,
    after: EgregoreModel,
    answer: Result<OutcomeModel, FaultModel>,
)
    requires
        receives_channel(before, message, after, answer),
        channel_unreadable(message) is None,
    ensures
        exists|signed: SignedCreateChannel|
            {
                let id = signed.channel@.id;
                let passed = channel_signature_objection(
                    before.replica.owner,
                    before.replica.community_id,
                    signed.channel@,
                    signed.signature@,
                ) is None;
                &&& #[trigger] channel_wire(signed.channel@, signed.signature@) == message
                &&& !passed ==> answer is Err && after == before
                &&& passed && !before.replica.channels.dom().contains(id)
                    ==> after.replica.channels == before.replica.channels.insert(id, signed)
                    && answer == Ok::<OutcomeModel, FaultModel>(
                    outcome_of(seq![EventModel::ChannelCreated(signed.channel@)], Seq::empty()),
                )
                &&& passed && before.replica.channels.dom().contains(id) ==> after.replica.channels
                    == before.replica.channels
            },
{
    let signed = choose|signed: SignedCreateChannel| #[trigger]
        channel_wire(signed.channel@, signed.signature@) == message
            && match channel_signature_objection(
            before.replica.owner,
            before.replica.community_id,
            signed.channel@,
            signed.signature@,
        ) {
            Some(text) => after == before && answer == Err::<OutcomeModel, FaultModel>(
                protocol_fault(text),
            ),
            None => (after, answer) == before.channel_taken(signed, Seq::empty()),
        };
    assert(channel_wire(signed.channel@, signed.signature@) == message);
}

/// Where a participant states that it joined, left or muted itself, a node under the same membership
/// notes just that of it: in the channel that it named, and as if the statement had been made there.
pub proof fn stated_presence_arrives(
    speaker: HandlerModel,
    channel: ChannelId,
    presence: VoicePresence,
    sealed: EncryptedVoicePresence,
    before: HandlerModel,
    after: HandlerModel,
    answer: Result<ReplyModel, FaultModel>,
)
    requires
        seals_statement(speaker, channel, presence, sealed),
        sealed@.ciphertext.len() <= 128,
        before.egregore.replica.community_id == speaker.egregore.replica.community_id,
        before.egregore.community.members.dom().contains(speaker.egregore.local_member),
        before.egregore.community.members[speaker.egregore.local_member] is Participant,
        sealed.epoch <= i64::MAX,
        sealed.epoch == before.egregore.replica.active_revision(),
        sealed.head@ == before.egregore.replica.active_head(),
        ({
            let key = EpochName { number: sealed.epoch, head: sealed.head };
            &&& before.egregore.replica.content_keys.dom().contains(key)
            &&& before.egregore.replica.content_keys[key]
                == speaker.egregore.replica.active_epoch()->0.key
        }),
        before.egregore.replica.channels.dom().contains(channel),
        before.egregore.replica.channels[channel].channel@.kind is Voice,
        operation_received(
            before,
            speaker.egregore.local_member,
            BodyModel::VoicePresence(voice_presence_wire(sealed@)),
            after,
            answer,
        ),
    ensures
        after.egregore == before.egregore,
        match presence_refusal(
            before.rooms,
            speaker.egregore.local_member,
            channel,
            presence,
        ) {
            Some(_) => answer is Err && after.rooms == before.rooms,
            None => answer is Ok && after.rooms == presence_after(
                before.rooms,
                speaker.egregore.local_member,
                channel,
                presence,
            ),
        },
{
    let member = speaker.egregore.local_member;
    let message = voice_presence_wire(sealed@);
    assert(voice_presence_unreadable(message) is None);
    let events = choose|events: Result<Seq<Event>, FaultModel>| #[trigger]
        receives_presence(before, member, message, after, events) && answer == reply_telling(
            events,
        );
    let read = choose|read: EncryptedVoicePresence| #[trigger]
        voice_presence_wire(read@) == message && (after, events) == before.presence_received(
            member,
            read,
        );
    voice_presence_carried(sealed, read);
    assert(sealed.head =~= read.head) by {
        assert(sealed@.head == read@.head);
    }
    assert(sealed.epoch == read.epoch) by {
        assert(sealed@.epoch == read@.epoch);
    }
    presence_reads_back(
        speaker.egregore.replica.community_id,
        speaker.egregore.replica.active_epoch()->0,
        member,
        channel,
        presence,
        sealed@,
    );
    array_with_is::<32>(channel.0);
}

/// Every text that is received is counted, once; one that cannot be opened is counted as that; and
/// one that is known or refused is not counted.
pub proof fn received_texts_are_counted(node: EgregoreModel, sender: MemberId, text: EncryptedText)
    requires
        node.metrics.messages_received.0 < u64::MAX,
        node.metrics.decrypt_failures.0 < u64::MAX,
    ensures
        ({
            let (after, answer) = node.text_received(sender, text);
            let told = answer is Ok && answer->Ok_0.events.len() > 0;
            &&& told ==> after.metrics.messages_received.0 == node.metrics.messages_received.0 + 1
            &&& !told ==> after.metrics.messages_received == node.metrics.messages_received
            &&& match node.text_admission(sender, text) {
                Ok(Some(key)) => text_found(node.replica.community_id, text@, key@) is Err
                    ==> after.metrics.decrypt_failures.0 == node.metrics.decrypt_failures.0 + 1,
                _ => after.metrics == node.metrics,
            }
            &&& after.metrics.messages_sent == node.metrics.messages_sent
        }),
{
}

/// Every text that is posted is counted as sent, and none that is refused.
pub proof fn posted_texts_are_counted(
    before: HandlerModel,
    message: TextMessage,
    after: HandlerModel,
    reaction: Result<Reaction, Fault>,
)
    requires
        obeyed(before, Command::PostText(message), after, reaction),
        before.egregore.metrics.messages_sent.0 < u64::MAX,
    ensures
        reaction is Ok ==> after.egregore.metrics.messages_sent.0
            == before.egregore.metrics.messages_sent.0 + 1,
        reaction is Err ==> after.egregore.metrics == before.egregore.metrics,
{
    if command_refusal(before, Command::PostText(message)) is None {
        let node = before.egregore;
        let key = node.replica.active_epoch()->0.key;
        let sealed = choose|sealed: EncryptedText| #[trigger]
            posts(node, message@, sealed) && counted_after(
                before,
                node.text_posted(sealed, key),
                after,
                reacted(reaction),
            );
        assert(node.text_posted(sealed, key).0.metrics == node.metrics);
    }
}

} // verus!
