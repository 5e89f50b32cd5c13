//! The part of a node that rules on operations: what it accepts, what it keeps, what it tells its
//! user and what it sends.

use vstd::prelude::*;

use crate::bytes::same_bytes;
use crate::community::{
    membership_head, membership_objection, subject, Community, CommunityError, CommunityId,
    CommunityModel, MemberId, MemberRole, MembershipChange, SignedMembership,
};
use crate::crypto::{
    attachment_found, encrypted_attachment_fault, encrypted_text_fault, envelope_message,
    envelope_opened, hpke_public, member_of, name_found, opens_with_key, profile_fault,
    registration_message, seals_attachment, seals_name, seals_text, signature_fault, text_found,
    ContentEpoch, ContentKeyEnvelope, EncryptedAttachment, EncryptedMemberProfile, EncryptedText,
    KeyRegistration,
};
use crate::fault::{
    answers, authorization_fault, protocol_fault, Fault, FaultModel,
};
use crate::metrics::{Counter, Metrics};
use crate::model::{
    channel_message, channel_signature_objection, Attachment, AttachmentModel, AuthoredAttachment,
    AuthoredText, Channel, ChannelId, ChannelKind, DisplayName, Event, SignedCreateChannel,
    TextMessage, TextModel,
};
use crate::operations::{
    attachment_operation, attachment_unreadable, attachment_wire, channel_operation,
    channel_unreadable, channel_wire, envelope_operation, envelope_unreadable, envelope_wire,
    member_profile_operation, member_profile_unreadable, member_profile_wire,
    membership_operation, membership_unreadable, membership_wire, read_attachment, read_channel,
    read_envelope, read_member_profile, read_membership, read_registration, read_text,
    registration_operation, registration_unreadable, registration_wire, text_operation,
    text_unreadable, text_wire,
};
use crate::outcome::{
    finish_profile_refresh, idle, outcome_of, sent, with_profile_refresh, ApplyOutcome, EventModel,
    OutcomeModel,
};
use crate::primitives::{
    ed25519_public_key, ed25519_signature, hpke_key_objection, hpke_public_key, random_24, random_32,
};
use crate::replica::{participant_verdict, refusal, require_participant, Replica, ReplicaModel};
use crate::sorted::{sorted_keys, sorted_keys_are, SortedMap};
use crate::wire::{self, Body, BodyModel};

verus! {

/// How many registrations of outsiders a node keeps.
pub const MAX_PENDING_REGISTRATIONS: usize = 64;

/// The state of a node that rules on operations.
#[derive(Debug)]
pub struct Egregore {
    replica: Replica,
    community: Community,
    local_member: MemberId,
    hpke_seed: [u8; 32],
    signing_seed: [u8; 32],
    pending: SortedMap<MemberId, KeyRegistration>,
    metrics: Metrics,
}

/// What a node's state is.
#[verifier::ext_equal]
pub struct EgregoreModel {
    pub replica: ReplicaModel,
    pub community: CommunityModel,
    pub local_member: MemberId,
    pub hpke_seed: Seq<u8>,
    pub signing_seed: Seq<u8>,
    pub pending: Map<MemberId, KeyRegistration>,
    pub metrics: Metrics,
}

impl View for Egregore {
    type V = EgregoreModel;

    closed spec fn view(&self) -> EgregoreModel {
        EgregoreModel {
            replica: self.replica@,
            community: self.community@,
            local_member: self.local_member,
            hpke_seed: self.hpke_seed@,
            signing_seed: self.signing_seed@,
            pending: self.pending@,
            metrics: self.metrics,
        }
    }
}

/// What an answer says.
pub open spec fn said(answer: Result<ApplyOutcome, Fault>) -> Result<OutcomeModel, FaultModel> {
    match answer {
        Ok(outcome) => Ok(outcome@),
        Err(fault) => Err(fault@),
    }
}

/// The refusal of whoever is not admitted.
pub open spec fn not_admitted() -> FaultModel {
    refusal(CommunityError::MemberNotAdmitted)
}

/// What is wrong with the use of a channel.
pub open spec fn channel_refusal(
    replica: ReplicaModel,
    id: ChannelId,
    expected: ChannelKind,
) -> Option<
    FaultModel,
> {
    if !replica.channels.dom().contains(id) {
        Some(authorization_fault("channel does not exist"@))
    } else if replica.channels[id].channel@.kind != expected {
        Some(authorization_fault("channel kind does not match operation"@))
    } else {
        None
    }
}

/// Accepts the use of a channel that exists and is of the expected kind.
pub fn require_channel(replica: &Replica, id: ChannelId, expected: ChannelKind) -> (verdict: Result<
    (),
    Fault,
>)
    ensures
        match verdict {
            Ok(()) => channel_refusal(replica@, id, expected) is None,
            Err(fault) => channel_refusal(replica@, id, expected) == Some(fault@),
        },
{
    match replica.channel(id) {
        None => Err(Fault::authorization("channel does not exist")),
        Some(channel) => if channel.kind() != expected {
            Err(Fault::authorization("channel kind does not match operation"))
        } else {
            Ok(())
        },
    }
}

/// Accepts content of the membership that is in force.
pub fn require_active_epoch(replica: &Replica, epoch: u64, head: &[u8; 32]) -> (verdict: Result<
    (),
    Fault,
>)
    ensures
        match verdict {
            Ok(()) => replica@.is_active(epoch, head@),
            Err(fault) => !replica@.is_active(epoch, head@) && fault@ == authorization_fault(
                "content is not encrypted for the active membership head"@,
            ),
        },
{
    let (active_epoch, active_head): (u64, [u8; 32]) = replica.active_membership_head();
    if active_epoch == epoch && same_bytes(active_head.as_slice(), head.as_slice()) {
        Ok(())
    } else {
        Err(Fault::authorization("content is not encrypted for the active membership head"))
    }
}

/// The content key of the membership that is in force, or the refusal.
pub open spec fn active_key(replica: ReplicaModel) -> Result<ContentEpoch, FaultModel> {
    match replica.active_epoch() {
        Some(epoch) => Ok(epoch),
        None => Err(authorization_fault("content key is unavailable"@)),
    }
}

/// The content key of the membership that is in force.
pub fn require_content_key(replica: &Replica) -> (epoch: Result<ContentEpoch, Fault>)
    ensures
        answers(epoch, active_key(replica@)),
{
    match replica.active_content_epoch() {
        Some(epoch) => Ok(epoch),
        None => Err(Fault::authorization("content key is unavailable")),
    }
}

impl EgregoreModel {
    /// What always holds.
    pub open spec fn well_formed(self) -> bool {
        self.replica.well_formed() && self.local_member@ == ed25519_public_key(self.signing_seed)
    }

    /// The key that opens content of an epoch. A participant has it; an availability peer keeps
    /// content that it cannot read.
    pub open spec fn local_key(self, epoch: u64, head: [u8; 32]) -> Result<
        Option<[u8; 32]>,
        FaultModel,
    > {
        match self.replica.content_key(epoch, head) {
            Err(fault) => Err(fault),
            Ok(Some(key)) => Ok(Some(key)),
            Ok(None) => if self.community.participates(self.local_member) {
                Err(protocol_fault("participant content key is unavailable"@))
            } else {
                Ok(None)
            },
        }
    }

    /// The state after a failed decryption was counted.
    pub open spec fn decrypt_failed(self) -> Self {
        EgregoreModel {
            metrics: Metrics {
                decrypt_failures: self.metrics.decrypt_failures.counted(),
                ..self.metrics
            },
            ..self
        }
    }

    /// The state after a received item was counted.
    pub open spec fn received_one(self) -> Self {
        EgregoreModel {
            metrics: Metrics {
                messages_received: self.metrics.messages_received.counted(),
                ..self.metrics
            },
            ..self
        }
    }

    /// The state with this replica.
    pub open spec fn with_replica(self, replica: ReplicaModel) -> Self {
        EgregoreModel { replica, ..self }
    }

    /// Whether a peer's text is admitted, and the key that opens it: its author signed it and
    /// participated under the membership that it names, and the peer may send it.
    pub open spec fn text_admission(self, peer: MemberId, text: EncryptedText) -> Result<
        Option<[u8; 32]>,
        FaultModel,
    > {
        match encrypted_text_fault(self.replica.community_id, text@) {
            Some(fault) => Err(fault),
            None => match self.replica.epoch_author_verdict(text.epoch, text.head@, text.author) {
                Err(fault) => Err(fault),
                Ok(_) => if !self.community.may_exchange(peer, self.local_member) {
                    Err(not_admitted())
                } else {
                    match channel_refusal(self.replica, text.channel_id, ChannelKind::Text) {
                        Some(fault) => Err(fault),
                        None => self.local_key(text.epoch, text.head),
                    }
                },
            },
        }
    }

    /// What comes of a text that a peer sends.
    pub open spec fn text_received(self, peer: MemberId, text: EncryptedText) -> (
        Self,
        Result<OutcomeModel, FaultModel>,
    ) {
        match self.text_admission(peer, text) {
            Err(fault) => (self, Err(fault)),
            Ok(None) => match self.replica.text_verdict(text) {
                Err(fault) => (self, Err(fault)),
                Ok(_) => (self.with_replica(self.replica.text_added(text)), Ok(idle())),
            },
            Ok(Some(key)) => match text_found(self.replica.community_id, text@, key@) {
                Err(fault) => (self.decrypt_failed(), Err(fault)),
                Ok(found) => match self.replica.text_verdict(text) {
                    Err(fault) => (self, Err(fault)),
                    Ok(false) => (self, Ok(idle())),
                    Ok(true) => (
                        self.with_replica(self.replica.text_added(text)).received_one(),
                        Ok(
                            outcome_of(
                                seq![EventModel::TextStored { author: text.author, text: found }],
                                Seq::empty(),
                            ),
                        ),
                    ),
                },
            },
        }
    }

    /// Whether a peer's attachment is admitted, and the key that opens it: its author signed it and
    /// participated under the membership that it names, and the peer may send it.
    pub open spec fn attachment_admission(
        self,
        peer: MemberId,
        attachment: EncryptedAttachment,
    ) -> Result<
        Option<[u8; 32]>,
        FaultModel,
    > {
        match encrypted_attachment_fault(self.replica.community_id, attachment@) {
            Some(fault) => Err(fault),
            None => match self.replica.epoch_author_verdict(attachment.epoch, attachment.head@, attachment.author) {
                Err(fault) => Err(fault),
                Ok(_) => if !self.community.may_exchange(peer, self.local_member) {
                    Err(not_admitted())
                } else {
                    match channel_refusal(self.replica, attachment.channel_id, ChannelKind::Text) {
                        Some(fault) => Err(fault),
                        None => self.local_key(attachment.epoch, attachment.head),
                    }
                },
            },
        }
    }

    /// What comes of an attachment that a peer sends.
    pub open spec fn attachment_received(self, peer: MemberId, attachment: EncryptedAttachment) -> (
        Self,
        Result<OutcomeModel, FaultModel>,
    ) {
        match self.attachment_admission(peer, attachment) {
            Err(fault) => (self, Err(fault)),
            Ok(None) => match self.replica.attachment_verdict(attachment) {
                Err(fault) => (self, Err(fault)),
                Ok(_) => (self.with_replica(self.replica.attachment_added(attachment)), Ok(idle())),
            },
            Ok(Some(key)) => match attachment_found(self.replica.community_id, attachment@, key@) {
                Err(fault) => (self.decrypt_failed(), Err(fault)),
                Ok(found) => match self.replica.attachment_verdict(attachment) {
                    Err(fault) => (self, Err(fault)),
                    Ok(false) => (self, Ok(idle())),
                    Ok(true) => (
                        self.with_replica(self.replica.attachment_added(attachment)).received_one(),
                        Ok(
                            outcome_of(
                                seq![EventModel::AttachmentStored { author: attachment.author, attachment: found }],
                                Seq::empty(),
                            ),
                        ),
                    ),
                },
            },
        }
    }

    /// Whether a peer's display name is admitted, and the key that opens it: its author signed it and
    /// participated under the membership that it names, and the peer may send it.
    pub open spec fn profile_admission(
        self,
        peer: MemberId,
        profile: EncryptedMemberProfile,
    ) -> Result<
        Option<[u8; 32]>,
        FaultModel,
    > {
        match profile_fault(self.replica.community_id, profile@) {
            Some(fault) => Err(fault),
            None => match self.replica.epoch_author_verdict(profile.epoch, profile.head@, profile.member) {
                Err(fault) => Err(fault),
                Ok(_) => if !self.community.may_exchange(peer, self.local_member) {
                    Err(not_admitted())
                } else {
                    match participant_verdict(self.community, profile.member) {
                        Err(fault) => Err(fault),
                        Ok(_) => self.local_key(profile.epoch, profile.head),
                    }
                },
            },
        }
    }

    /// What comes of a display name that a peer sends.
    pub open spec fn profile_received(self, peer: MemberId, profile: EncryptedMemberProfile) -> (
        Self,
        Result<OutcomeModel, FaultModel>,
    ) {
        match self.profile_admission(peer, profile) {
            Err(fault) => (self, Err(fault)),
            Ok(None) => match self.replica.profile_verdict(profile) {
                Err(fault) => (self, Err(fault)),
                Ok(_) => (self.with_replica(self.replica.profile_added(profile)), Ok(idle())),
            },
            Ok(Some(key)) => match name_found(self.replica.community_id, profile@, key@) {
                Err(fault) => (self.decrypt_failed(), Err(fault)),
                Ok(found) => match self.replica.profile_verdict(profile) {
                    Err(fault) => (self, Err(fault)),
                    Ok(false) => (self, Ok(idle())),
                    Ok(true) => (
                        self.with_replica(self.replica.profile_added(profile)),
                        Ok(
                            outcome_of(
                                seq![EventModel::DisplayNameChanged { member: profile.member, name: found }],
                                Seq::empty(),
                            ),
                        ),
                    ),
                },
            },
        }
    }

    /// What keeps the local member from writing into a text channel.
    pub open spec fn writing_refusal(self, channel: ChannelId) -> Option<FaultModel> {
        match participant_verdict(self.community, self.local_member) {
            Err(fault) => Some(fault),
            Ok(_) => match channel_refusal(self.replica, channel, ChannelKind::Text) {
                Some(fault) => Some(fault),
                None => match active_key(self.replica) {
                    Err(fault) => Some(fault),
                    Ok(_) => None,
                },
            },
        }
    }

    /// What comes of an own text, once it is encrypted.
    pub open spec fn text_posted(self, sealed: EncryptedText, key: [u8; 32]) -> (
        Self,
        Result<OutcomeModel, FaultModel>,
    ) {
        match text_found(self.replica.community_id, sealed@, key@) {
            Err(fault) => (self, Err(fault)),
            Ok(found) => match self.replica.text_verdict(sealed) {
                Err(fault) => (self, Err(fault)),
                Ok(new) => (
                    self.with_replica(self.replica.text_added(sealed)),
                    Ok(
                        outcome_of(
                            if new {
                                seq![EventModel::TextStored { author: sealed.author, text: found }]
                            } else {
                                Seq::empty()
                            },
                            seq![BodyModel::Text(text_wire(sealed@))],
                        ),
                    ),
                ),
            },
        }
    }

    /// What comes of an own attachment, once it is encrypted.
    pub open spec fn attachment_shared(self, sealed: EncryptedAttachment, key: [u8; 32]) -> (
        Self,
        Result<OutcomeModel, FaultModel>,
    ) {
        match attachment_found(self.replica.community_id, sealed@, key@) {
            Err(fault) => (self, Err(fault)),
            Ok(found) => match self.replica.attachment_verdict(sealed) {
                Err(fault) => (self, Err(fault)),
                Ok(new) => (
                    self.with_replica(self.replica.attachment_added(sealed)),
                    Ok(
                        outcome_of(
                            if new {
                                seq![
                                    EventModel::AttachmentStored {
                                        author: sealed.author,
                                        attachment: found,
                                    },
                                ]
                            } else {
                                Seq::empty()
                            },
                            seq![BodyModel::Attachment(attachment_wire(sealed@))],
                        ),
                    ),
                ),
            },
        }
    }

    /// What keeps the local member from naming itself.
    pub open spec fn naming_refusal(self) -> Option<FaultModel> {
        match participant_verdict(self.community, self.local_member) {
            Err(fault) => Some(fault),
            Ok(_) => match active_key(self.replica) {
                Err(fault) => Some(fault),
                Ok(_) => None,
            },
        }
    }

    /// What comes of an own display name, once it is encrypted.
    pub open spec fn name_set(self, sealed: EncryptedMemberProfile, name: Seq<char>) -> (
        Self,
        Result<OutcomeModel, FaultModel>,
    ) {
        match self.replica.profile_verdict(sealed) {
            Err(fault) => (self, Err(fault)),
            Ok(new) => (
                self.with_replica(self.replica.profile_added(sealed)),
                Ok(
                    outcome_of(
                        if new {
                            seq![
                                EventModel::DisplayNameChanged { member: self.local_member, name },
                            ]
                        } else {
                            Seq::empty()
                        },
                        seq![BodyModel::MemberProfile(member_profile_wire(sealed@))],
                    ),
                ),
            ),
        }
    }

    /// What comes of a channel with the owner's signature.
    pub open spec fn channel_taken(self, signed: SignedCreateChannel, outbound: Seq<BodyModel>) -> (
        Self,
        Result<OutcomeModel, FaultModel>,
    ) {
        match self.replica.channel_verdict(signed) {
            Err(fault) => (self, Err(fault)),
            Ok(new) => (
                self.with_replica(self.replica.channel_added(signed)),
                Ok(
                    outcome_of(
                        if new {
                            seq![EventModel::ChannelCreated(signed.channel@)]
                        } else {
                            Seq::empty()
                        },
                        outbound,
                    ),
                ),
            ),
        }
    }
}

impl Egregore {
    /// What the node keeps.
    pub fn replica(&self) -> (replica: &Replica)
        ensures
            replica@ == self@.replica,
    {
        &self.replica
    }

    /// The community.
    pub fn community(&self) -> (community: &Community)
        ensures
            community@ == self@.community,
    {
        &self.community
    }

    /// The local member.
    pub fn local_member(&self) -> (member: MemberId)
        ensures
            member == self@.local_member,
    {
        self.local_member
    }

    /// The counters.
    pub fn metrics(&self) -> (metrics: Metrics)
        ensures
            metrics == self@.metrics,
    {
        self.metrics
    }

    /// Takes these counters.
    pub fn count(&mut self, metrics: Metrics)
        ensures
            final(self)@ == (EgregoreModel { metrics, ..old(self)@ }),
    {
        self.metrics = metrics;
        assert(self@ =~= (EgregoreModel { metrics, ..old(self)@ }));
    }

    /// Remembers up to where a text channel was read.
    pub fn set_last_read(&mut self, channel: ChannelId, message: crate::model::MessageId) -> (
    verdict: Result<(), Fault>)
        requires
            old(self)@.well_formed(),
        ensures
            match verdict {
                Ok(()) => channel_refusal(old(self)@.replica, channel, ChannelKind::Text) is None
                    && old(self)@.replica.has_item(channel, message) && final(self)@ == old(
                    self,
                )@.with_replica(old(self)@.replica.cursor_set(channel, message)),
                Err(fault) => final(self)@ == old(self)@ && match channel_refusal(
                    old(self)@.replica,
                    channel,
                    ChannelKind::Text,
                ) {
                    Some(refusal) => fault@ == refusal,
                    None => !old(self)@.replica.has_item(channel, message) && fault@
                        == protocol_fault(
                        "read cursor does not identify a stored item in the channel"@,
                    ),
                },
            },
            final(self)@.well_formed(),
    {
        match require_channel(&self.replica, channel, ChannelKind::Text) {
            Ok(()) => {},
            Err(fault) => {
                return Err(fault);
            },
        }
        let verdict: Result<(), Fault> = self.replica.set_last_read(channel, message);
        proof {
            if verdict is Ok {
                assert(self@ =~= old(self)@.with_replica(
                    old(self)@.replica.cursor_set(channel, message),
                ));
            } else {
                assert(self@ =~= old(self)@);
            }
        }
        verdict
    }

    /// Up to where a text channel was read.
    pub fn last_read(&self, channel: ChannelId) -> (cursor: Result<
        Option<crate::model::MessageId>,
        Fault,
    >)
        ensures
            match cursor {
                Ok(cursor) => channel_refusal(self@.replica, channel, ChannelKind::Text) is None
                    && cursor == (if self@.replica.cursors.dom().contains(channel) {
                    Some(self@.replica.cursors[channel])
                } else {
                    None
                }),
                Err(fault) => channel_refusal(self@.replica, channel, ChannelKind::Text) == Some(
                    fault@,
                ),
            },
    {
        match require_channel(&self.replica, channel, ChannelKind::Text) {
            Ok(()) => Ok(self.replica.last_read(channel)),
            Err(fault) => Err(fault),
        }
    }

    /// Forgets an attachment for good.
    pub fn forget_attachment(&mut self, author: MemberId, id: crate::model::MessageId)
        requires
            old(self)@.well_formed(),
        ensures
            final(self)@ == old(self)@.with_replica(
                old(self)@.replica.attachment_forgotten(author, id),
            ),
            final(self)@.well_formed(),
    {
        self.replica.forget_attachment(author, id);
        assert(self@ =~= old(self)@.with_replica(
            old(self)@.replica.attachment_forgotten(author, id),
        ));
    }

    fn local_content_key(&self, epoch: u64, head: &[u8; 32]) -> (key: Result<
        Option<[u8; 32]>,
        Fault,
    >)
        ensures
            answers(key, self@.local_key(epoch, *head)),
    {
        match self.replica.content_key(epoch, head) {
            Err(fault) => Err(fault),
            Ok(Some(key)) => Ok(Some(key)),
            Ok(None) => match self.community.role(self.local_member) {
                Some(MemberRole::Participant) => Err(
                    Fault::protocol("participant content key is unavailable"),
                ),
                _ => Ok(None),
            },
        }
    }

    /// Rules on a text that a peer sends.
    pub fn accept_text(
        &mut self,
        peer: MemberId,
        text: EncryptedText,
    ) -> (answer: Result<ApplyOutcome, Fault>)
        requires
            old(self)@.well_formed(),
        ensures
            (final(self)@, said(answer)) == old(self)@.text_received(peer, text),
            final(self)@.well_formed(),
    {
        match text.verify(self.replica.community_id()) {
            Ok(()) => {},
            Err(fault) => {
                return Err(fault);
            },
        }
        match self.replica.authorize_epoch_author(text.epoch, &text.head, text.author) {
            Ok(()) => {},
            Err(fault) => {
                return Err(fault);
            },
        }
        match self.community.authorize_exchange(peer, self.local_member) {
            Ok(()) => {},
            Err(error) => {
                return Err(Fault::refused(error));
            },
        }
        match require_channel(&self.replica, text.channel_id, ChannelKind::Text) {
            Ok(()) => {},
            Err(fault) => {
                return Err(fault);
            },
        }
        let key: Option<[u8; 32]> = match self.local_content_key(text.epoch, &text.head) {
            Ok(key) => key,
            Err(fault) => {
                return Err(fault);
            },
        };
        let found: Option<AuthoredText> = match key {
            None => None,
            Some(key) => match text.decrypt(self.replica.community_id(), &key) {
                Ok(found) => Some(found),
                Err(fault) => {
                    self.metrics.decrypt_failures.inc();
                    assert(self@ =~= old(self)@.decrypt_failed());
                    return Err(fault);
                },
            },
        };
        match self.replica.insert_encrypted(text) {
            Err(fault) => {
                assert(self@ =~= old(self)@);
                Err(fault)
            },
            Ok(false) => {
                assert(self@ =~= old(self)@);
                Ok(ApplyOutcome::default())
            },
            Ok(true) => match found {
                None => {
                    assert(self@ =~= old(self)@.with_replica(old(self)@.replica.text_added(text)));
                    Ok(ApplyOutcome::default())
                },
                Some(found) => {
                        self.metrics.messages_received.inc();
                    assert(self@ =~= old(self)@.text_received(peer, text).0);
                    Ok(ApplyOutcome::tell(Event::TextStored(found)))
                },
            },
        }
    }

    /// Rules on an attachment that a peer sends.
    pub fn accept_attachment(
        &mut self,
        peer: MemberId,
        attachment: EncryptedAttachment,
    ) -> (answer: Result<ApplyOutcome, Fault>)
        requires
            old(self)@.well_formed(),
        ensures
            (final(self)@, said(answer)) == old(self)@.attachment_received(peer, attachment),
            final(self)@.well_formed(),
    {
        match attachment.verify(self.replica.community_id()) {
            Ok(()) => {},
            Err(fault) => {
                return Err(fault);
            },
        }
        match self.replica.authorize_epoch_author(attachment.epoch, &attachment.head, attachment.author) {
            Ok(()) => {},
            Err(fault) => {
                return Err(fault);
            },
        }
        match self.community.authorize_exchange(peer, self.local_member) {
            Ok(()) => {},
            Err(error) => {
                return Err(Fault::refused(error));
            },
        }
        match require_channel(&self.replica, attachment.channel_id, ChannelKind::Text) {
            Ok(()) => {},
            Err(fault) => {
                return Err(fault);
            },
        }
        let key: Option<[u8; 32]> = match self.local_content_key(attachment.epoch, &attachment.head) {
            Ok(key) => key,
            Err(fault) => {
                return Err(fault);
            },
        };
        let found: Option<AuthoredAttachment> = match key {
            None => None,
            Some(key) => match attachment.decrypt(self.replica.community_id(), &key) {
                Ok(found) => Some(found),
                Err(fault) => {
                    self.metrics.decrypt_failures.inc();
                    assert(self@ =~= old(self)@.decrypt_failed());
                    return Err(fault);
                },
            },
        };
        match self.replica.insert_encrypted_attachment(attachment) {
            Err(fault) => {
                assert(self@ =~= old(self)@);
                Err(fault)
            },
            Ok(false) => {
                assert(self@ =~= old(self)@);
                Ok(ApplyOutcome::default())
            },
            Ok(true) => match found {
                None => {
                    assert(self@ =~= old(self)@.with_replica(old(self)@.replica.attachment_added(attachment)));
                    Ok(ApplyOutcome::default())
                },
                Some(found) => {
                        self.metrics.messages_received.inc();
                    assert(self@ =~= old(self)@.attachment_received(peer, attachment).0);
                    Ok(ApplyOutcome::tell(Event::AttachmentStored(found)))
                },
            },
        }
    }

    /// Rules on a display name that a peer sends.
    pub fn accept_member_profile(
        &mut self,
        peer: MemberId,
        profile: EncryptedMemberProfile,
    ) -> (answer: Result<ApplyOutcome, Fault>)
        requires
            old(self)@.well_formed(),
        ensures
            (final(self)@, said(answer)) == old(self)@.profile_received(peer, profile),
            final(self)@.well_formed(),
    {
        match profile.verify(self.replica.community_id()) {
            Ok(()) => {},
            Err(fault) => {
                return Err(fault);
            },
        }
        match self.replica.authorize_epoch_author(profile.epoch, &profile.head, profile.member) {
            Ok(()) => {},
            Err(fault) => {
                return Err(fault);
            },
        }
        match self.community.authorize_exchange(peer, self.local_member) {
            Ok(()) => {},
            Err(error) => {
                return Err(Fault::refused(error));
            },
        }
        match require_participant(&self.community, profile.member) {
            Ok(()) => {},
            Err(fault) => {
                return Err(fault);
            },
        }
        let key: Option<[u8; 32]> = match self.local_content_key(profile.epoch, &profile.head) {
            Ok(key) => key,
            Err(fault) => {
                return Err(fault);
            },
        };
        let found: Option<DisplayName> = match key {
            None => None,
            Some(key) => match profile.decrypt(self.replica.community_id(), &key) {
                Ok(found) => Some(found),
                Err(fault) => {
                    self.metrics.decrypt_failures.inc();
                    assert(self@ =~= old(self)@.decrypt_failed());
                    return Err(fault);
                },
            },
        };
        let member: MemberId = profile.member;
        match self.replica.insert_member_profile(profile) {
            Err(fault) => {
                assert(self@ =~= old(self)@);
                Err(fault)
            },
            Ok(false) => {
                assert(self@ =~= old(self)@);
                Ok(ApplyOutcome::default())
            },
            Ok(true) => match found {
                None => {
                    assert(self@ =~= old(self)@.with_replica(old(self)@.replica.profile_added(profile)));
                    Ok(ApplyOutcome::default())
                },
                Some(found) => {
                    assert(self@ =~= old(self)@.profile_received(peer, profile).0);
                    Ok(ApplyOutcome::tell(Event::DisplayNameChanged { member, name: found }))
                },
            },
        }
    }

    /// Rules on a peer's message with a text.
    pub fn receive_text(&mut self, peer: MemberId, operation: wire::TextMessage) -> (answer: Result<
        ApplyOutcome,
        Fault,
    >)
        requires
            old(self)@.well_formed(),
        ensures
            receives_text(old(self)@, peer, operation@, final(self)@, said(answer)),
            final(self)@.well_formed(),
    {
        match read_text(operation) {
            Ok(read) => {
                assert(text_wire(read@) == operation@);
                self.accept_text(peer, read)
            },
            Err(fault) => Err(fault),
        }
    }

    /// Rules on a peer's message with an attachment.
    pub fn receive_attachment(
        &mut self,
        peer: MemberId,
        operation: wire::Attachment,
    ) -> (answer: Result<
        ApplyOutcome,
        Fault,
    >)
        requires
            old(self)@.well_formed(),
        ensures
            receives_attachment(old(self)@, peer, operation@, final(self)@, said(answer)),
            final(self)@.well_formed(),
    {
        match read_attachment(operation) {
            Ok(read) => {
                assert(attachment_wire(read@) == operation@);
                self.accept_attachment(peer, read)
            },
            Err(fault) => Err(fault),
        }
    }

    /// Rules on a peer's message with a display name.
    pub fn receive_member_profile(
        &mut self,
        peer: MemberId,
        operation: wire::MemberProfile,
    ) -> (answer: Result<
        ApplyOutcome,
        Fault,
    >)
        requires
            old(self)@.well_formed(),
        ensures
            receives_profile(old(self)@, peer, operation@, final(self)@, said(answer)),
            final(self)@.well_formed(),
    {
        match read_member_profile(operation) {
            Ok(read) => {
                assert(member_profile_wire(read@) == operation@);
                self.accept_member_profile(peer, read)
            },
            Err(fault) => Err(fault),
        }
    }

    /// Writes a text, with a nonce drawn at random.
    pub fn post_text(&mut self, message: &TextMessage) -> (answer: Result<ApplyOutcome, Fault>)
        requires
            old(self)@.well_formed(),
        ensures
            match old(self)@.writing_refusal(message@.channel_id) {
                Some(fault) => final(self)@ == old(self)@ && said(answer) == Err::<
                    OutcomeModel,
                    FaultModel,
                >(fault),
                None => exists|sealed: EncryptedText| #[trigger]
                    posts(old(self)@, message@, sealed) && (final(self)@, said(answer)) == old(
                        self,
                    )@.text_posted(sealed, old(self)@.replica.active_epoch()->0.key),
            },
            final(self)@.well_formed(),
    {
        self.post_text_with(message, random_24())
    }

    /// Writes a text with this nonce.
    pub fn post_text_with(&mut self, message: &TextMessage, nonce: [u8; 24]) -> (answer: Result<
        ApplyOutcome,
        Fault,
    >)
        requires
            old(self)@.well_formed(),
        ensures
            match old(self)@.writing_refusal(message@.channel_id) {
                Some(fault) => final(self)@ == old(self)@ && said(answer) == Err::<
                    OutcomeModel,
                    FaultModel,
                >(fault),
                None => exists|sealed: EncryptedText| #[trigger]
                    posts(old(self)@, message@, sealed) && sealed.nonce == nonce && (
                    final(self)@,
                    said(answer),
                ) == old(self)@.text_posted(sealed, old(self)@.replica.active_epoch()->0.key),
            },
            final(self)@.well_formed(),
    {
        let epoch: ContentEpoch = match self.require_writing(message.channel_id()) {
            Ok(epoch) => epoch,
            Err(fault) => {
                return Err(fault);
            },
        };
        let id: CommunityId = self.replica.community_id();
        let sealed: EncryptedText = EncryptedText::encrypt_with(
            &self.signing_seed,
            id,
            epoch,
            message,
            nonce,
        );
        assert(posts(old(self)@, message@, sealed));
        let found: AuthoredText = match sealed.decrypt(id, &epoch.key) {
            Ok(found) => found,
            Err(fault) => {
                return Err(fault);
            },
        };
        let operation: Body = text_operation(&sealed);
        match self.replica.insert_encrypted(sealed) {
            Err(fault) => {
                assert(self@ =~= old(self)@);
                Err(fault)
            },
            Ok(new) => {
                assert(self@ =~= old(self)@.with_replica(old(self)@.replica.text_added(sealed)));
                let outcome: ApplyOutcome = if new {
                    ApplyOutcome::tell(Event::TextStored(found))
                } else {
                    ApplyOutcome::default()
                };
                let outcome: ApplyOutcome = outcome.and_send(operation);
                assert(outcome@.outbound =~= seq![BodyModel::Text(text_wire(sealed@))]);
                assert(said(Ok(outcome)) == old(self)@.text_posted(sealed, epoch.key).1);
                Ok(outcome)
            },
        }
    }

    fn require_writing(&self, channel: ChannelId) -> (epoch: Result<ContentEpoch, Fault>)
        ensures
            match epoch {
                Ok(epoch) => self@.writing_refusal(channel) is None
                    && self@.replica.active_epoch() == Some(epoch),
                Err(fault) => self@.writing_refusal(channel) == Some(fault@),
            },
    {
        match require_participant(&self.community, self.local_member) {
            Ok(()) => {},
            Err(fault) => {
                return Err(fault);
            },
        }
        match require_channel(&self.replica, channel, ChannelKind::Text) {
            Ok(()) => {},
            Err(fault) => {
                return Err(fault);
            },
        }
        require_content_key(&self.replica)
    }

    /// Shares an attachment, with a nonce drawn at random.
    pub fn share_attachment(&mut self, attachment: &Attachment) -> (answer: Result<
        ApplyOutcome,
        Fault,
    >)
        requires
            old(self)@.well_formed(),
        ensures
            match old(self)@.writing_refusal(attachment@.channel_id) {
                Some(fault) => final(self)@ == old(self)@ && said(answer) == Err::<
                    OutcomeModel,
                    FaultModel,
                >(fault),
                None => exists|sealed: EncryptedAttachment| #[trigger]
                    shares(old(self)@, attachment@, sealed) && (final(self)@, said(answer)) == old(
                        self,
                    )@.attachment_shared(sealed, old(self)@.replica.active_epoch()->0.key),
            },
            final(self)@.well_formed(),
    {
        self.share_attachment_with(attachment, random_24())
    }

    /// Shares an attachment with this nonce.
    pub fn share_attachment_with(&mut self, attachment: &Attachment, nonce: [u8; 24]) -> (answer:
        Result<ApplyOutcome, Fault>)
        requires
            old(self)@.well_formed(),
        ensures
            match old(self)@.writing_refusal(attachment@.channel_id) {
                Some(fault) => final(self)@ == old(self)@ && said(answer) == Err::<
                    OutcomeModel,
                    FaultModel,
                >(fault),
                None => exists|sealed: EncryptedAttachment| #[trigger]
                    shares(old(self)@, attachment@, sealed) && sealed.nonce == nonce && (
                    final(self)@,
                    said(answer),
                ) == old(self)@.attachment_shared(sealed, old(self)@.replica.active_epoch()->0.key),
            },
            final(self)@.well_formed(),
    {
        let epoch: ContentEpoch = match self.require_writing(attachment.channel_id()) {
            Ok(epoch) => epoch,
            Err(fault) => {
                return Err(fault);
            },
        };
        let id: CommunityId = self.replica.community_id();
        let sealed: EncryptedAttachment = EncryptedAttachment::encrypt_with(
            &self.signing_seed,
            id,
            epoch,
            attachment,
            nonce,
        );
        assert(shares(old(self)@, attachment@, sealed));
        let found: AuthoredAttachment = match sealed.decrypt(id, &epoch.key) {
            Ok(found) => found,
            Err(fault) => {
                return Err(fault);
            },
        };
        let operation: Body = attachment_operation(&sealed);
        match self.replica.insert_encrypted_attachment(sealed) {
            Err(fault) => {
                assert(self@ =~= old(self)@);
                Err(fault)
            },
            Ok(new) => {
                assert(self@ =~= old(self)@.with_replica(
                    old(self)@.replica.attachment_added(sealed),
                ));
                let outcome: ApplyOutcome = if new {
                    ApplyOutcome::tell(Event::AttachmentStored(found))
                } else {
                    ApplyOutcome::default()
                };
                let outcome: ApplyOutcome = outcome.and_send(operation);
                assert(outcome@.outbound =~= seq![BodyModel::Attachment(attachment_wire(sealed@))]);
                assert(said(Ok(outcome)) == old(self)@.attachment_shared(sealed, epoch.key).1);
                Ok(outcome)
            },
        }
    }

    /// Takes a display name, with a nonce drawn at random.
    pub fn set_display_name(&mut self, name: &DisplayName) -> (answer: Result<ApplyOutcome, Fault>)
        requires
            old(self)@.well_formed(),
        ensures
            match old(self)@.naming_refusal() {
                Some(fault) => final(self)@ == old(self)@ && said(answer) == Err::<
                    OutcomeModel,
                    FaultModel,
                >(fault),
                None => exists|sealed: EncryptedMemberProfile| #[trigger]
                    names(old(self)@, name@, sealed) && (final(self)@, said(answer)) == old(
                        self,
                    )@.name_set(sealed, name@),
            },
            final(self)@.well_formed(),
    {
        self.set_display_name_with(name, random_24())
    }

    /// Takes a display name with this nonce.
    pub fn set_display_name_with(&mut self, name: &DisplayName, nonce: [u8; 24]) -> (answer: Result<
        ApplyOutcome,
        Fault,
    >)
        requires
            old(self)@.well_formed(),
        ensures
            match old(self)@.naming_refusal() {
                Some(fault) => final(self)@ == old(self)@ && said(answer) == Err::<
                    OutcomeModel,
                    FaultModel,
                >(fault),
                None => exists|sealed: EncryptedMemberProfile| #[trigger]
                    names(old(self)@, name@, sealed) && sealed.nonce == nonce && (
                    final(self)@,
                    said(answer),
                ) == old(self)@.name_set(sealed, name@),
            },
            final(self)@.well_formed(),
    {
        match require_participant(&self.community, self.local_member) {
            Ok(()) => {},
            Err(fault) => {
                return Err(fault);
            },
        }
        let epoch: ContentEpoch = match require_content_key(&self.replica) {
            Ok(epoch) => epoch,
            Err(fault) => {
                return Err(fault);
            },
        };
        let revision: u64 = self.replica.next_member_profile_revision(self.local_member);
        let sealed: EncryptedMemberProfile = EncryptedMemberProfile::encrypt_with(
            &self.signing_seed,
            self.replica.community_id(),
            epoch,
            revision,
            name,
            nonce,
        );
        assert(names(old(self)@, name@, sealed));
        let operation: Body = member_profile_operation(&sealed);
        match self.replica.insert_member_profile(sealed) {
            Err(fault) => {
                assert(self@ =~= old(self)@);
                Err(fault)
            },
            Ok(new) => {
                assert(self@ =~= old(self)@.with_replica(old(self)@.replica.profile_added(sealed)));
                let outcome: ApplyOutcome = if new {
                    ApplyOutcome::tell(
                        Event::DisplayNameChanged { member: self.local_member, name: name.clone() },
                    )
                } else {
                    ApplyOutcome::default()
                };
                let outcome: ApplyOutcome = outcome.and_send(operation);
                assert(outcome@.outbound =~= seq![
                    BodyModel::MemberProfile(member_profile_wire(sealed@)),
                ]);
                assert(said(Ok(outcome)) == old(self)@.name_set(sealed, name@).1);
                Ok(outcome)
            },
        }
    }

    /// Creates a channel; only the owner may.
    pub fn create_channel(&mut self, channel: Channel) -> (answer: Result<ApplyOutcome, Fault>)
        requires
            old(self)@.well_formed(),
        ensures
            if old(self)@.community.owner != old(self)@.local_member {
                final(self)@ == old(self)@ && said(answer) == Err::<OutcomeModel, FaultModel>(
                    authorization_fault("only the community owner can create channels"@),
                )
            } else {
                exists|signed: SignedCreateChannel| #[trigger]
                    signs_channel(old(self)@, channel, signed) && (final(self)@, said(answer))
                        == old(self)@.channel_taken(
                        signed,
                        seq![
                            BodyModel::CreateChannel(channel_wire(channel@, signed.signature@)),
                        ],
                    )
            },
            final(self)@.well_formed(),
    {
        if self.community.owner() != self.local_member {
            return Err(Fault::authorization("only the community owner can create channels"));
        }
        let signed: SignedCreateChannel = SignedCreateChannel::sign(
            &self.signing_seed,
            self.replica.community_id(),
            channel,
        );
        assert(signs_channel(old(self)@, channel, signed));
        let operation: Body = channel_operation(&signed);
        match self.take_channel(signed) {
            Ok(outcome) => {
                let outcome: ApplyOutcome = outcome.and_send(operation);
                assert(outcome@.outbound =~= seq![
                    BodyModel::CreateChannel(channel_wire(channel@, signed.signature@)),
                ]);
                Ok(outcome)
            },
            Err(fault) => Err(fault),
        }
    }

    fn take_channel(&mut self, signed: SignedCreateChannel) -> (answer: Result<ApplyOutcome, Fault>)
        requires
            old(self)@.well_formed(),
        ensures
            (final(self)@, said(answer)) == old(self)@.channel_taken(signed, Seq::empty()),
            final(self)@.well_formed(),
    {
        let channel: Channel = signed.channel.clone();
        match self.replica.insert_channel(signed) {
            Err(fault) => {
                assert(self@ =~= old(self)@);
                Err(fault)
            },
            Ok(new) => {
                assert(self@ =~= old(self)@.with_replica(old(self)@.replica.channel_added(signed)));
                Ok(
                    if new {
                        ApplyOutcome::tell(Event::ChannelCreated(channel))
                    } else {
                        ApplyOutcome::default()
                    },
                )
            },
        }
    }

    /// Rules on a peer's message with a channel.
    pub fn receive_channel(&mut self, operation: wire::CreateChannel) -> (answer: Result<
        ApplyOutcome,
        Fault,
    >)
        requires
            old(self)@.well_formed(),
        ensures
            receives_channel(old(self)@, operation@, final(self)@, said(answer)),
            final(self)@.well_formed(),
    {
        let (channel, signature): (Channel, [u8; 64]) = match read_channel(operation) {
            Ok(read) => read,
            Err(fault) => {
                return Err(fault);
            },
        };
        let ghost read = SignedCreateChannel { channel, signature };
        assert(channel_wire(read.channel@, read.signature@) == operation@);
        match SignedCreateChannel::verified(
            self.replica.community_owner(),
            self.replica.community_id(),
            channel,
            signature,
        ) {
            Ok(signed) => {
                assert(channel_wire(signed.channel@, signed.signature@) == operation@);
                self.take_channel(signed)
            },
            Err(text) => Err(Fault::protocol(text.as_str())),
        }
    }
}

/// What comes of a peer's message with a text.
pub open spec fn receives_text(
    before: EgregoreModel,
    peer: MemberId,
    message: wire::TextMessageModel,
    after: EgregoreModel,
    answer: Result<OutcomeModel, FaultModel>,
) -> bool {
    match text_unreadable(message) {
        Some(fault) => after == before && answer == Err::<OutcomeModel, FaultModel>(fault),
        None => exists|read: EncryptedText| #[trigger]
            text_wire(read@) == message && (after, answer) == before.text_received(peer, read),
    }
}

/// What comes of a peer's message with an attachment.
pub open spec fn receives_attachment(
    before: EgregoreModel,
    peer: MemberId,
    message: wire::AttachmentModel,
    after: EgregoreModel,
    answer: Result<OutcomeModel, FaultModel>,
) -> bool {
    match attachment_unreadable(message) {
        Some(fault) => after == before && answer == Err::<OutcomeModel, FaultModel>(fault),
        None => exists|read: EncryptedAttachment| #[trigger]
            attachment_wire(read@) == message && (after, answer) == before.attachment_received(peer, read),
    }
}

/// What comes of a peer's message with a display name.
pub open spec fn receives_profile(
    before: EgregoreModel,
    peer: MemberId,
    message: wire::MemberProfileModel,
    after: EgregoreModel,
    answer: Result<OutcomeModel, FaultModel>,
) -> bool {
    match member_profile_unreadable(message) {
        Some(fault) => after == before && answer == Err::<OutcomeModel, FaultModel>(fault),
        None => exists|read: EncryptedMemberProfile| #[trigger]
            member_profile_wire(read@) == message && (after, answer) == before.profile_received(peer, read),
    }
}

/// What comes of a peer's message with a channel.
pub open spec fn receives_channel(
    before: EgregoreModel,
    message: wire::CreateChannelModel,
    after: EgregoreModel,
    answer: Result<OutcomeModel, FaultModel>,
) -> bool {
    match channel_unreadable(message) {
        Some(fault) => after == before && answer == Err::<OutcomeModel, FaultModel>(fault),
        None => exists|signed: SignedCreateChannel| #[trigger]
            channel_wire(signed.channel@, signed.signature@) == message
                && match channel_signature_objection(
                before.replica.owner,
                before.replica.community_id,
                signed.channel@,
                signed.signature@,
            ) {
                Some(text) => after == before && answer == Err::<OutcomeModel, FaultModel>(
                    protocol_fault(text),
                ),
                None => (after, answer) == before.channel_taken(signed, Seq::empty()),
            },
    }
}

/// Whether an encrypted text is what the local member makes of a text.
pub open spec fn posts(state: EgregoreModel, message: TextModel, sealed: EncryptedText) -> bool {
    seals_text(
        state.signing_seed,
        state.replica.community_id,
        state.replica.active_epoch()->0,
        message,
        sealed@,
    )
}

/// Whether an encrypted attachment is what the local member makes of an attachment.
pub open spec fn shares(
    state: EgregoreModel,
    attachment: AttachmentModel,
    sealed: EncryptedAttachment,
) -> bool {
    seals_attachment(
        state.signing_seed,
        state.replica.community_id,
        state.replica.active_epoch()->0,
        attachment,
        sealed@,
    )
}

/// Whether an encrypted display name is what the local member makes of a name.
pub open spec fn names(
    state: EgregoreModel,
    name: Seq<char>,
    sealed: EncryptedMemberProfile,
) -> bool {
    seals_name(
        state.signing_seed,
        state.replica.community_id,
        state.replica.active_epoch()->0,
        state.replica.next_profile_revision(state.local_member) as u64,
        name,
        sealed@,
    )
}

/// Whether a channel carries the local member's signature.
pub open spec fn signs_channel(
    state: EgregoreModel,
    channel: Channel,
    signed: SignedCreateChannel,
) -> bool {
    &&& signed.channel@ == channel@
    &&& signed.signature@ == ed25519_signature(
        state.signing_seed,
        channel_message(state.replica.community_id, channel@),
    )
}

impl EgregoreModel {
    /// The state with one more registration of an outsider.
    pub open spec fn with_pending(self, registration: KeyRegistration) -> Self {
        EgregoreModel {
            pending: self.pending.insert(registration.member, registration),
            ..self
        }
    }

    /// What comes of a registration that a peer sends.
    pub open spec fn registration_received(self, peer: MemberId, registration: KeyRegistration) -> (
        Self,
        Result<OutcomeModel, FaultModel>,
    ) {
        let member = registration.member;
        match signature_fault(
            member@,
            registration_message(
                self.replica.community_id,
                member,
                registration.public_key@,
            ),
            registration.signature@,
        ) {
            Some(fault) => (self, Err(fault)),
            None => if self.replica.registration(member) is Some
                || self.community.members.dom().contains(member) || peer == self.community.owner {
                match self.replica.registration_verdict(registration) {
                    Err(fault) => (self, Err(fault)),
                    Ok(_) => (
                        self.with_replica(self.replica.registration_added(registration)),
                        Ok(idle()),
                    ),
                }
            } else if member == peer || self.community.members.dom().contains(peer) {
                if !self.pending.dom().contains(member) && self.pending.dom().len()
                    >= MAX_PENDING_REGISTRATIONS {
                    (self, Err(authorization_fault("too many pending member registrations"@)))
                } else {
                    (self.with_pending(registration), Ok(idle()))
                }
            } else {
                (
                    self,
                    Err(
                        authorization_fault(
                            "pending member key registration came from an unauthorized peer"@,
                        ),
                    ),
                )
            },
        }
    }

    /// What comes of an envelope.
    pub open spec fn envelope_received(self, envelope: ContentKeyEnvelope) -> (
        Self,
        Result<OutcomeModel, FaultModel>,
    ) {
        match signature_fault(
            self.replica.owner@,
            envelope_message(self.replica.community_id, envelope@),
            envelope.signature@,
        ) {
            Some(fault) => (self, Err(fault)),
            None => if envelope.recipient == self.local_member && self.community.role(
                self.local_member,
            ) == Some(MemberRole::Availability) {
                (
                    self,
                    Err(
                        authorization_fault(
                            "availability peer cannot receive a content key envelope"@,
                        ),
                    ),
                )
            } else {
                match self.replica.envelope_verdict(envelope) {
                    Err(fault) => (self, Err(fault)),
                    Ok(_) => {
                        let after = self.with_replica(self.replica.envelope_added(envelope));
                        if envelope.recipient != self.local_member {
                            (after, Ok(idle()))
                        } else {
                            match envelope_opened(
                                self.replica.community_id,
                                envelope@,
                                self.hpke_seed,
                            ) {
                                Err(fault) => (after, Err(fault)),
                                Ok(key) => {
                                    let epoch = ContentEpoch {
                                        number: envelope.epoch,
                                        head: envelope.head,
                                        key: crate::bytes::array_with::<32>(key),
                                    };
                                    match after.replica.content_key_verdict(epoch) {
                                        Err(fault) => (after, Err(fault)),
                                        Ok(_) => (
                                            after.with_replica(
                                                after.replica.content_key_added(epoch),
                                            ),
                                            Ok(idle()),
                                        ),
                                    }
                                },
                            }
                        }
                    },
                }
            },
        }
    }

    /// The state after a member's registration that waited was taken in.
    pub open spec fn settled(self, member: MemberId) -> Self {
        if self.replica.registration(member) is None && self.pending.dom().contains(member) {
            EgregoreModel {
                replica: self.replica.registration_added(self.pending[member]),
                pending: self.pending.remove(member),
                ..self
            }
        } else {
            self
        }
    }

    /// What comes of a member that a new membership activates: it has a registration, and the
    /// envelope that its role calls for.
    pub open spec fn member_activated(
        self,
        next: CommunityModel,
        signed: SignedMembership,
        member: MemberId,
    ) -> (Self, Option<FaultModel>) {
        let after = self.settled(member);
        let head = crate::bytes::array_with::<32>(
            membership_head(self.replica.community_id, signed),
        );
        (
            after,
            if after.replica.registration(member) is None {
                Some(
                    protocol_fault(
                        "membership activates a member without an encryption key registration"@,
                    ),
                )
            } else {
                match after.replica.envelope_for(signed.update.revision, head, member) {
                    Err(fault) => Some(fault),
                    Ok(envelope) => match next.role(member) {
                        Some(MemberRole::Participant) => match envelope {
                            None => Some(
                                protocol_fault(
                                    "membership arrived before its recipient envelopes"@,
                                ),
                            ),
                            Some(envelope) => signature_fault(
                                self.replica.owner@,
                                envelope_message(self.replica.community_id, envelope@),
                                envelope.signature@,
                            ),
                        },
                        Some(MemberRole::Availability) => match envelope {
                            Some(_) => Some(
                                protocol_fault(
                                    "availability peer received a content key envelope"@,
                                ),
                            ),
                            None => None,
                        },
                        None => None,
                    },
                }
            },
        )
    }

    /// What comes of the members that a new membership activates, one after the other up to the
    /// first that is refused.
    pub open spec fn members_activated(
        self,
        next: CommunityModel,
        signed: SignedMembership,
        members: Seq<MemberId>,
    ) -> (Self, Option<FaultModel>)
        decreases members.len(),
    {
        if members.len() == 0 {
            (self, None)
        } else {
            let before = self.members_activated(next, signed, members.drop_last());
            if before.1 is Some {
                before
            } else {
                before.0.member_activated(next, signed, members.last())
            }
        }
    }

    /// What keeps a change of the membership from being considered.
    pub open spec fn membership_refusal(self, signed: SignedMembership) -> Option<FaultModel> {
        if signed.update.change == MembershipChange::AdmitAvailability(self.local_member)
            && self.replica.content_keys.dom().len() > 0 {
            Some(
                authorization_fault(
                    "an identity with content keys cannot become an availability peer"@,
                ),
            )
        } else {
            match membership_objection(
                self.replica.owner,
                self.replica.community_id,
                signed.update,
                signed.signature@,
            ) {
                Some(text) => Some(protocol_fault(text)),
                None => None,
            }
        }
    }

    /// What comes of a change that changes nobody's role: it is kept.
    pub open spec fn membership_kept(self, signed: SignedMembership) -> (
        Self,
        Result<OutcomeModel, FaultModel>,
    ) {
        match self.replica.membership_verdict(signed) {
            Err(fault) => (self, Err(fault)),
            Ok(_) => (self.with_replica(self.replica.membership_added(signed)), Ok(idle())),
        }
    }

    /// What comes of the activation of a new membership: the state and the fault that stops it.
    pub open spec fn activation(self, signed: SignedMembership) -> (Self, Option<FaultModel>) {
        let change = signed.update.change;
        let next = self.community.changed(self.replica.owner, change);
        let head = crate::bytes::array_with::<32>(
            membership_head(self.replica.community_id, signed),
        );
        let local_was_removed = subject(change) == self.local_member
            && !next.members.dom().contains(self.local_member);
        let activated = if local_was_removed {
            (self, None)
        } else {
            self.members_activated(next, signed, sorted_keys(next.members))
        };
        if activated.1 is Some {
            activated
        } else {
            (
                activated.0,
                if next.members.dom().contains(subject(change)) {
                    None
                } else {
                    match activated.0.replica.envelope_for(
                        signed.update.revision,
                        head,
                        subject(change),
                    ) {
                        Err(fault) => Some(fault),
                        Ok(Some(_)) => Some(
                            protocol_fault("removed member received the replacement content key"@),
                        ),
                        Ok(None) => None,
                    }
                },
            )
        }
    }

    /// The state with this community.
    pub open spec fn with_community(self, community: CommunityModel) -> Self {
        EgregoreModel { community, ..self }
    }
}

/// What a display name is renewed with: the content key, the name and the revision; or why it is
/// not.
pub open spec fn refresh_ruling(replica: ReplicaModel, member: MemberId) -> Result<
    Option<(ContentEpoch, Seq<char>, u64)>,
    FaultModel,
> {
    let current = replica.profiles[member];
    if !replica.profiles.dom().contains(member) {
        Ok(None)
    } else {
        match active_key(replica) {
            Err(fault) => Err(fault),
            Ok(epoch) => if current.epoch == epoch.number && current.head@ == epoch.head@ {
                Ok(None)
            } else {
                match replica.held_key(current.epoch, current.head) {
                    None => Err(protocol_fault("member profile content key is unavailable"@)),
                    Some(key) => match name_found(replica.community_id, current@, key@) {
                        Err(fault) => Err(fault),
                        Ok(name) => Ok(Some((epoch, name, (current.revision + 1) as u64))),
                    },
                }
            },
        }
    }
}

/// Whether a display name was renewed: encrypted anew with the content key of the membership that
/// is in force, and taken in.
pub open spec fn refreshes(
    before: ReplicaModel,
    member: MemberId,
    signing_seed: Seq<u8>,
    after: ReplicaModel,
    result: Result<Option<(EncryptedMemberProfile, DisplayName)>, Fault>,
) -> bool {
    let ruling = refresh_ruling(before, member);
    if ruling is Err {
        after == before && (result matches Err(fault) && fault@ == ruling->Err_0)
    } else if ruling->Ok_0 is None {
        after == before && (result matches Ok(None))
    } else {
        exists|sealed: EncryptedMemberProfile| #[trigger]
            refreshed_with(before, signing_seed, ruling->Ok_0->0, sealed, after, result)
    }
}

/// Whether a display name was renewed by this one.
pub open spec fn refreshed_with(
    before: ReplicaModel,
    signing_seed: Seq<u8>,
    renewal: (ContentEpoch, Seq<char>, u64),
    sealed: EncryptedMemberProfile,
    after: ReplicaModel,
    result: Result<Option<(EncryptedMemberProfile, DisplayName)>, Fault>,
) -> bool {
    let (epoch, name, revision) = renewal;
    &&& seals_name(signing_seed, before.community_id, epoch, revision, name, sealed@)
    &&& match before.profile_verdict(sealed) {
        Err(fault) => after == before && (result matches Err(found) && found@ == fault),
        Ok(_) => after == before.profile_added(sealed) && (result matches Ok(Some(pair))
            && pair.0@ == sealed@ && pair.1@ == name),
    }
}

/// Encrypts a member's display name anew where the membership changed.
pub fn refresh_local_profile(replica: &mut Replica, member: MemberId, signing_seed: &[u8; 32]) -> (
result: Result<Option<(EncryptedMemberProfile, DisplayName)>, Fault>)
    requires
        old(replica)@.well_formed(),
    ensures
        refreshes(old(replica)@, member, signing_seed@, final(replica)@, result),
        final(replica)@.well_formed(),
{
    let current: EncryptedMemberProfile = match replica.member_profile(member) {
        Some(current) => current.clone(),
        None => {
            return Ok(None);
        },
    };
    proof {
        assert(replica@.profiles.dom().contains(member));
        let stored = replica@.profiles[member];
        assert(current@.head == stored@.head);
        assert(current.head =~= stored.head);
    }
    let epoch: ContentEpoch = match require_content_key(replica) {
        Ok(epoch) => epoch,
        Err(fault) => {
            return Err(fault);
        },
    };
    if current.epoch == epoch.number && same_bytes(current.head.as_slice(), epoch.head.as_slice()) {
        return Ok(None);
    }
    let id: CommunityId = replica.community_id();
    let key: [u8; 32] = match replica.content_key(current.epoch, &current.head) {
        Ok(Some(key)) => key,
        Ok(None) => {
            return Err(Fault::protocol("member profile content key is unavailable"));
        },
        Err(fault) => {
            return Err(fault);
        },
    };
    let name: DisplayName = match current.decrypt(id, &key) {
        Ok(name) => name,
        Err(fault) => {
            return Err(fault);
        },
    };
    let revision: u64 = current.revision + 1;
    let sealed: EncryptedMemberProfile = EncryptedMemberProfile::encrypt(
        signing_seed,
        id,
        epoch,
        revision,
        &name,
    );
    assert(seals_name(signing_seed@, id, epoch, revision, name@, sealed@));
    proof {
        let stored = replica@.profiles[member];
        assert(current@ == stored@);
        assert(replica@.held_key(stored.epoch, stored.head) == Some(key));
        assert(refresh_ruling(replica@, member) == Ok::<
            Option<(ContentEpoch, Seq<char>, u64)>,
            FaultModel,
        >(Some((epoch, name@, revision))));
    }
    let copy: EncryptedMemberProfile = sealed.clone();
    let result: Result<Option<(EncryptedMemberProfile, DisplayName)>, Fault> =
        match replica.insert_member_profile(sealed) {
        Ok(_) => Ok(Some((copy, name))),
        Err(fault) => Err(fault),
    };
    proof {
        let ruling = refresh_ruling(old(replica)@, member);
        assert(refreshed_with(
            old(replica)@,
            signing_seed@,
            ruling->Ok_0->0,
            sealed,
            replica@,
            result,
        ));
        assert(refreshes(old(replica)@, member, signing_seed@, replica@, result));
    }
    result
}

impl Egregore {
    /// Rules on a registration that a peer sends.
    pub fn accept_registration(&mut self, peer: MemberId, registration: KeyRegistration) -> (answer:
        Result<ApplyOutcome, Fault>)
        requires
            old(self)@.well_formed(),
        ensures
            (final(self)@, said(answer)) == old(self)@.registration_received(peer, registration),
            final(self)@.well_formed(),
    {
        let member: MemberId = registration.member;
        let registration: KeyRegistration = match KeyRegistration::verified(
            self.replica.community_id(),
            member,
            registration.public_key,
            registration.signature,
        ) {
            Ok(registration) => registration,
            Err(fault) => {
                return Err(fault);
            },
        };
        let known: bool = self.replica.key_registration(member).is_some();
        if known || self.community.contains(member) || peer == self.community.owner() {
            match self.replica.insert_key_registration(&registration) {
                Ok(_) => {
                    assert(self@ =~= old(self)@.with_replica(
                        old(self)@.replica.registration_added(registration),
                    ));
                    Ok(ApplyOutcome::default())
                },
                Err(fault) => {
                    assert(self@ =~= old(self)@);
                    Err(fault)
                },
            }
        } else if member == peer || self.community.contains(peer) {
            if !self.pending.contains_key(member) && self.pending.len()
                >= MAX_PENDING_REGISTRATIONS {
                return Err(Fault::authorization("too many pending member registrations"));
            }
            self.pending.insert(member, registration);
            assert(self@ =~= old(self)@.with_pending(registration));
            Ok(ApplyOutcome::default())
        } else {
            Err(
                Fault::authorization(
                    "pending member key registration came from an unauthorized peer",
                ),
            )
        }
    }

    /// Rules on a peer's message with a registration.
    pub fn receive_registration(&mut self, peer: MemberId, operation: wire::KeyRegistration) -> (
    answer: Result<ApplyOutcome, Fault>)
        requires
            old(self)@.well_formed(),
        ensures
            receives_registration(old(self)@, peer, operation@, final(self)@, said(answer)),
            final(self)@.well_formed(),
    {
        match read_registration(operation) {
            Ok(read) => {
                assert(registration_wire(read) == operation@);
                self.accept_registration(peer, read)
            },
            Err(fault) => Err(fault),
        }
    }

    /// Forgets the registration of an outsider that is gone.
    pub fn forget_pending(&mut self, member: MemberId)
        ensures
            final(self)@ == (EgregoreModel {
                pending: old(self)@.pending.remove(member),
                ..old(self)@
            }),
    {
        self.pending.remove(member);
        assert(self@ =~= (EgregoreModel {
            pending: old(self)@.pending.remove(member),
            ..old(self)@
        }));
    }

    /// Rules on an envelope.
    pub fn accept_envelope(&mut self, envelope: ContentKeyEnvelope) -> (answer: Result<
        ApplyOutcome,
        Fault,
    >)
        requires
            old(self)@.well_formed(),
        ensures
            (final(self)@, said(answer)) == old(self)@.envelope_received(envelope),
            final(self)@.well_formed(),
    {
        let id: CommunityId = self.replica.community_id();
        match envelope.verify(self.replica.community_owner(), id) {
            Ok(()) => {},
            Err(fault) => {
                return Err(fault);
            },
        }
        let mine: bool = envelope.recipient == self.local_member;
        if mine {
            match self.community.role(self.local_member) {
                Some(MemberRole::Availability) => {
                    return Err(
                        Fault::authorization(
                            "availability peer cannot receive a content key envelope",
                        ),
                    );
                },
                _ => {},
            }
        }
        let copy: ContentKeyEnvelope = envelope.clone();
        proof {
            assert(copy@.head == envelope@.head);
            assert(copy.head =~= envelope.head);
        }
        match self.replica.insert_content_key_envelope(envelope) {
            Ok(_) => {},
            Err(fault) => {
                assert(self@ =~= old(self)@);
                return Err(fault);
            },
        }
        let ghost after = old(self)@.with_replica(old(self)@.replica.envelope_added(envelope));
        assert(self@ =~= after);
        if !mine {
            return Ok(ApplyOutcome::default());
        }
        let epoch: ContentEpoch = match copy.open(id, &self.hpke_seed) {
            Ok(epoch) => epoch,
            Err(fault) => {
                return Err(fault);
            },
        };
        proof {
            crate::bytes::array_with_is(epoch.key);
        }
        match self.replica.insert_content_key(epoch) {
            Ok(()) => {
                assert(self@ =~= after.with_replica(after.replica.content_key_added(epoch)));
                Ok(ApplyOutcome::default())
            },
            Err(fault) => {
                assert(self@ =~= after);
                Err(fault)
            },
        }
    }

    /// Rules on a peer's message with an envelope.
    pub fn receive_envelope(&mut self, operation: wire::ContentKeyEnvelope) -> (answer: Result<
        ApplyOutcome,
        Fault,
    >)
        requires
            old(self)@.well_formed(),
        ensures
            receives_envelope(old(self)@, operation@, final(self)@, said(answer)),
            final(self)@.well_formed(),
    {
        match read_envelope(operation) {
            Ok(read) => {
                assert(envelope_wire(read@) == operation@);
                self.accept_envelope(read)
            },
            Err(fault) => Err(fault),
        }
    }

    fn settle(&mut self, member: MemberId)
        requires
            old(self)@.well_formed(),
        ensures
            final(self)@ == old(self)@.settled(member),
            final(self)@.well_formed(),
            final(self).community == old(self).community,
    {
        if self.replica.key_registration(member).is_none() {
            if let Some(registration) = self.pending.remove(member) {
                let verdict: Result<bool, Fault> = self.replica.insert_key_registration(
                    &registration,
                );
            }
        }
        assert(self@ =~= old(self)@.settled(member));
    }

    fn activate_member(
        &mut self,
        next: &Community,
        signed: &SignedMembership,
        member: MemberId,
    ) -> (
    fault: Option<Fault>)
        requires
            old(self)@.well_formed(),
        ensures
            final(self)@ == old(self)@.member_activated(next@, *signed, member).0,
            match fault {
                Some(fault) => old(self)@.member_activated(next@, *signed, member).1 == Some(
                    fault@,
                ),
                None => old(self)@.member_activated(next@, *signed, member).1 is None,
            },
            final(self)@.well_formed(),
    {
        let id: CommunityId = self.replica.community_id();
        let head: [u8; 32] = signed.head(id);
        proof {
            crate::bytes::array_with_is(head);
        }
        self.settle(member);
        assert(self@.replica.community_id == old(self)@.replica.community_id);
        assert(self@.replica.owner == old(self)@.replica.owner);
        if self.replica.key_registration(member).is_none() {
            return Some(
                Fault::protocol(
                    "membership activates a member without an encryption key registration",
                ),
            );
        }
        let envelope: Option<&ContentKeyEnvelope> = match self.replica.content_key_envelope(
            signed.update.revision,
            &head,
            member,
        ) {
            Ok(envelope) => envelope,
            Err(fault) => {
                return Some(fault);
            },
        };
        match next.role(member) {
            Some(MemberRole::Participant) => match envelope {
                None => Some(Fault::protocol("membership arrived before its recipient envelopes")),
                Some(envelope) => match envelope.verify(self.replica.community_owner(), id) {
                    Ok(()) => None,
                    Err(fault) => Some(fault),
                },
            },
            Some(MemberRole::Availability) => match envelope {
                Some(_) => Some(
                    Fault::protocol("availability peer received a content key envelope"),
                ),
                None => None,
            },
            None => None,
        }
    }

    fn activate(&mut self, next: &Community, signed: &SignedMembership) -> (fault: Option<Fault>)
        requires
            old(self)@.well_formed(),
            next@ == old(self)@.community.changed(old(self)@.replica.owner, signed.update.change),
        ensures
            final(self)@ == old(self)@.activation(*signed).0,
            match fault {
                Some(fault) => old(self)@.activation(*signed).1 == Some(fault@),
                None => old(self)@.activation(*signed).1 is None,
            },
            final(self)@.well_formed(),
    {
        let change: MembershipChange = signed.update.change;
        let head: [u8; 32] = signed.head(self.replica.community_id());
        proof {
            crate::bytes::array_with_is(head);
        }
        let local_was_removed: bool = change.member() == self.local_member && !next.contains(
            self.local_member,
        );
        let ghost before = self@;
        if !local_was_removed {
            let members: Vec<MemberId> = next.members();
            proof {
                sorted_keys_are(next@.members, members@);
                assert(members@.take(0) =~= Seq::<MemberId>::empty());
            }
            let mut i: usize = 0;
            while i < members.len()
                invariant
                    i <= members@.len(),
                    self@.well_formed(),
                    before.members_activated(next@, *signed, members@.take(i as int)) == (
                        self@,
                        None::<FaultModel>,
                    ),
                    members@ == sorted_keys(next@.members),
                    before == old(self)@,
                    !local_was_removed,
                    local_was_removed == (subject(change) == before.local_member
                        && !next@.members.dom().contains(before.local_member)),
                    change == signed.update.change,
                    next@ == before.community.changed(before.replica.owner, change),
                decreases members@.len() - i,
            {
                let ghost here = self@;
                proof {
                    assert(members@.take(i + 1).drop_last() =~= members@.take(i as int));
                    assert(members@.take(i + 1).last() == members@[i as int]);
                }
                match self.activate_member(next, signed, members[i]) {
                    Some(fault) => {
                        proof {
                            assert(before.members_activated(
                                next@,
                                *signed,
                                members@.take(i + 1),
                            ) == (self@, Some(fault@)));
                            stopped_stays(before, next@, *signed, members@, i + 1);
                        }
                        return Some(fault);
                    },
                    None => {},
                }
                i += 1;
            }
            assert(members@.take(i as int) =~= members@);
        }
        proof {
            if !local_was_removed {
                activation_keeps_names(before, next@, *signed, sorted_keys(next@.members));
            }
        }
        if !next.contains(change.member()) {
            match self.replica.content_key_envelope(
                signed.update.revision,
                &head,
                change.member(),
            ) {
                Err(fault) => {
                    return Some(fault);
                },
                Ok(Some(_)) => {
                    return Some(
                        Fault::protocol("removed member received the replacement content key"),
                    );
                },
                Ok(None) => {},
            }
        }
        None
    }

    fn keep_membership(&mut self, signed: &SignedMembership) -> (answer: Result<
        ApplyOutcome,
        Fault,
    >)
        requires
            old(self)@.well_formed(),
        ensures
            (final(self)@, said(answer)) == old(self)@.membership_kept(*signed),
            final(self)@.well_formed(),
    {
        match self.replica.insert_membership(signed) {
            Ok(_) => {
                assert(self@ =~= old(self)@.with_replica(
                    old(self)@.replica.membership_added(*signed),
                ));
                Ok(ApplyOutcome::default())
            },
            Err(fault) => {
                assert(self@ =~= old(self)@);
                Err(fault)
            },
        }
    }

    /// Rules on a change of the membership that is read from a peer's message.
    pub fn accept_membership(&mut self, signed: &SignedMembership) -> (answer: Result<
        ApplyOutcome,
        Fault,
    >)
        requires
            old(self)@.well_formed(),
        ensures
            membership_received(old(self)@, *signed, final(self)@, said(answer)),
            final(self)@.well_formed(),
    {
        let change: MembershipChange = signed.update.change;
        let ghost before = self@;
        if let MembershipChange::AdmitAvailability(member) = change {
            if member == self.local_member && self.replica.has_content_keys() {
                return Err(
                    Fault::authorization(
                        "an identity with content keys cannot become an availability peer",
                    ),
                );
            }
        }
        let owner: MemberId = self.replica.community_owner();
        let id: CommunityId = self.replica.community_id();
        match SignedMembership::verified(owner, id, signed.update, signed.signature) {
            Ok(_) => {},
            Err(text) => {
                return Err(Fault::protocol(text.as_str()));
            },
        }
        assert(before.membership_refusal(*signed) is None);
        let expected: u64 = self.replica.next_membership_revision();
        if signed.update.revision < expected {
            return self.keep_membership(signed);
        }
        if signed.update.revision != expected {
            return Err(Fault::protocol("membership revision has a gap"));
        }
        let mut next: Community = self.community.clone();
        match next.change_membership(owner, change) {
            Ok(true) => {},
            Ok(false) => {
                return self.keep_membership(signed);
            },
            Err(error) => {
                return Err(Fault::refused(error));
            },
        }
        match self.activate(&next, signed) {
            Some(fault) => {
                return Err(fault);
            },
            None => {},
        }
        let ghost active = self@;
        match self.replica.insert_membership(signed) {
            Ok(true) => {},
            Ok(false) => {
                assert(self@ =~= active);
                return Ok(ApplyOutcome::default());
            },
            Err(fault) => {
                assert(self@ =~= active);
                return Err(fault);
            },
        }
        let ghost kept = active.with_replica(active.replica.membership_added(*signed));
        assert(self@ =~= kept);
        let community: Community = match self.replica.community() {
            Ok(community) => community,
            Err(fault) => {
                return Err(fault);
            },
        };
        let told: Community = community.clone();
        self.community = community;
        let ghost renewed = kept.with_community(told@);
        assert(self@ =~= renewed);
        let mut outcome: ApplyOutcome = ApplyOutcome::tell(Event::MembershipChanged(told));
        outcome.removed_member = if change.is_admission() {
            None
        } else {
            Some(change.member())
        };
        let participant: bool = matches!(
            self.community.role(self.local_member),
            Some(MemberRole::Participant)
        );
        let ghost base = outcome@;
        if participant {
            let refreshed: Result<Option<(EncryptedMemberProfile, DisplayName)>, Fault> =
                refresh_local_profile(&mut self.replica, self.local_member, &self.signing_seed);
            let ghost result = refreshed;
            finish_profile_refresh(&mut outcome, refreshed);
            outcome.refresh_voice_presence = true;
            proof {
                assert(self@ =~= renewed.with_replica(self@.replica));
                assert(outcome@ == (OutcomeModel {
                    refresh_voice_presence: true,
                    ..with_profile_refresh(base, result)
                }));
                assert(refreshes(
                    renewed.replica,
                    renewed.local_member,
                    renewed.signing_seed,
                    self@.replica,
                    result,
                ));
            }
        } else {
            assert(outcome@ =~= base);
        }
        Ok(outcome)
    }

    /// Rules on a peer's message with a change of the membership.
    pub fn receive_membership(&mut self, operation: wire::MembershipChange) -> (answer: Result<
        ApplyOutcome,
        Fault,
    >)
        requires
            old(self)@.well_formed(),
        ensures
            receives_membership(old(self)@, operation@, final(self)@, said(answer)),
            final(self)@.well_formed(),
    {
        match read_membership(operation) {
            Ok(read) => {
                assert(membership_wire(read) == operation@);
                self.accept_membership(&read)
            },
            Err(fault) => Err(fault),
        }
    }
}

/// What comes of a peer's message with a registration.
pub open spec fn receives_registration(
    before: EgregoreModel,
    peer: MemberId,
    message: wire::KeyRegistrationModel,
    after: EgregoreModel,
    answer: Result<OutcomeModel, FaultModel>,
) -> bool {
    match registration_unreadable(message) {
        Some(fault) => after == before && answer == Err::<OutcomeModel, FaultModel>(fault),
        None => exists|read: KeyRegistration| #[trigger]
            registration_wire(read) == message && (after, answer) == before.registration_received(peer, read),
    }
}

/// What comes of a peer's message with an envelope.
pub open spec fn receives_envelope(
    before: EgregoreModel,
    message: wire::ContentKeyEnvelopeModel,
    after: EgregoreModel,
    answer: Result<OutcomeModel, FaultModel>,
) -> bool {
    match envelope_unreadable(message) {
        Some(fault) => after == before && answer == Err::<OutcomeModel, FaultModel>(fault),
        None => exists|read: ContentKeyEnvelope| #[trigger]
            envelope_wire(read@) == message && (after, answer) == before.envelope_received(read),
    }
}

/// What comes of a peer's message with a change of the membership.
pub open spec fn receives_membership(
    before: EgregoreModel,
    message: wire::MembershipChangeModel,
    after: EgregoreModel,
    answer: Result<OutcomeModel, FaultModel>,
) -> bool {
    match membership_unreadable(message) {
        Some(fault) => after == before && answer == Err::<OutcomeModel, FaultModel>(fault),
        None => exists|read: SignedMembership| #[trigger]
            membership_wire(read) == message && membership_received(before, read, after, answer),
    }
}

/// The outcome of a membership that was activated, before the own display name is renewed.
pub open spec fn membership_outcome(
    signed: SignedMembership,
    community: CommunityModel,
) -> OutcomeModel {
    OutcomeModel {
        removed_member: if signed.update.change is Remove {
            Some(subject(signed.update.change))
        } else {
            None
        },
        ..outcome_of(seq![EventModel::MembershipChanged(community)], Seq::empty())
    }
}

/// What comes of a change of the membership that a peer sends. Revisions come one after the other;
/// one that is there already must be the same; the next one must find the registrations and the
/// envelopes of everyone whom it leaves in the community, and none for whom it removes.
pub open spec fn membership_received(
    before: EgregoreModel,
    signed: SignedMembership,
    after: EgregoreModel,
    answer: Result<OutcomeModel, FaultModel>,
) -> bool {
    let change = signed.update.change;
    match before.membership_refusal(signed) {
        Some(fault) => after == before && answer == Err::<OutcomeModel, FaultModel>(fault),
        None => if signed.update.revision < before.replica.next_revision() {
            (after, answer) == before.membership_kept(signed)
        } else if signed.update.revision != before.replica.next_revision() {
            after == before && answer == Err::<OutcomeModel, FaultModel>(
                protocol_fault("membership revision has a gap"@),
            )
        } else {
            match before.community.verdict(before.replica.owner, change) {
                Err(error) => after == before && answer == Err::<OutcomeModel, FaultModel>(
                    refusal(error),
                ),
                Ok(false) => (after, answer) == before.membership_kept(signed),
                Ok(true) => {
                    let (active, stopped) = before.activation(signed);
                    match stopped {
                        Some(fault) => after == active && answer == Err::<OutcomeModel, FaultModel>(
                            fault,
                        ),
                        None => membership_activated(active, signed, after, answer),
                    }
                },
            }
        },
    }
}

/// What comes of a new membership that nothing stops.
pub open spec fn membership_activated(
    active: EgregoreModel,
    signed: SignedMembership,
    after: EgregoreModel,
    answer: Result<OutcomeModel, FaultModel>,
) -> bool {
    let kept = active.with_replica(active.replica.membership_added(signed));
    match active.replica.membership_verdict(signed) {
        Err(fault) => after == active && answer == Err::<OutcomeModel, FaultModel>(fault),
        Ok(false) => after == active && answer == Ok::<OutcomeModel, FaultModel>(idle()),
        Ok(true) => match kept.replica.community() {
            Err(fault) => after == kept && answer == Err::<OutcomeModel, FaultModel>(fault),
            Ok(community) => {
                let renewed = kept.with_community(community);
                let base = membership_outcome(signed, community);
                if community.participates(active.local_member) {
                    exists|result: Result<Option<(EncryptedMemberProfile, DisplayName)>, Fault>|
                        #[trigger] refreshes(
                            renewed.replica,
                            renewed.local_member,
                            renewed.signing_seed,
                            after.replica,
                            result,
                        ) && after == renewed.with_replica(after.replica) && answer == Ok::<
                            OutcomeModel,
                            FaultModel,
                        >(
                            OutcomeModel {
                                refresh_voice_presence: true,
                                ..with_profile_refresh(base, result)
                            },
                        )
                } else {
                    after == renewed && answer == Ok::<OutcomeModel, FaultModel>(base)
                }
            },
        },
    }
}

proof fn stopped_stays(
    state: EgregoreModel,
    next: CommunityModel,
    signed: SignedMembership,
    members: Seq<MemberId>,
    i: int,
)
    requires
        0 <= i <= members.len(),
        state.members_activated(next, signed, members.take(i)).1 is Some,
    ensures
        state.members_activated(next, signed, members) == state.members_activated(
            next,
            signed,
            members.take(i),
        ),
    decreases members.len(),
{
    if i == members.len() {
        assert(members.take(i) =~= members);
    } else {
        assert(members.drop_last().take(i) =~= members.take(i));
        stopped_stays(state, next, signed, members.drop_last(), i);
    }
}

proof fn activation_keeps_names(
    state: EgregoreModel,
    next: CommunityModel,
    signed: SignedMembership,
    members: Seq<MemberId>,
)
    ensures
        ({
            let after = state.members_activated(next, signed, members).0;
            &&& after.replica.community_id == state.replica.community_id
            &&& after.replica.owner == state.replica.owner
            &&& after.community == state.community
            &&& after.local_member == state.local_member
        }),
    decreases members.len(),
{
    if members.len() > 0 {
        activation_keeps_names(state, next, signed, members.drop_last());
    }
}

/// What keeps the local member from administering: an identity that was restored and has not yet
/// learned the content key of the membership that is in force.
pub open spec fn recovery_refusal(replica: ReplicaModel) -> Option<FaultModel> {
    if replica.recovered && replica.active_epoch() is None {
        Some(
            authorization_fault(
                "recovered identity must synchronize before administering the community"@,
            ),
        )
    } else {
        None
    }
}

/// The participants among members.
pub open spec fn participants_of(community: CommunityModel, members: Seq<MemberId>) -> Seq<MemberId>
    decreases members.len(),
{
    if members.len() == 0 {
        Seq::empty()
    } else {
        let before = participants_of(community, members.drop_last());
        if community.participates(members.last()) {
            before.push(members.last())
        } else {
            before
        }
    }
}

/// Whether an envelope seals the key of an epoch for a member, signed by the local member.
pub open spec fn seals_for(
    state: EgregoreModel,
    epoch: ContentEpoch,
    member: MemberId,
    envelope: ContentKeyEnvelope,
) -> bool {
    &&& envelope.epoch == epoch.number
    &&& envelope.head == epoch.head
    &&& envelope.recipient == member
    &&& envelope.signature@ == ed25519_signature(
        state.signing_seed,
        envelope_message(state.replica.community_id, envelope@),
    )
    &&& opens_with_key(
        state.replica.community_id,
        envelope@,
        state.replica.registrations[member].public_key@,
        epoch.key@,
    )
}

/// Whether envelopes seal the key of an epoch for each of these members, in their order.
pub open spec fn seals_for_all(
    state: EgregoreModel,
    epoch: ContentEpoch,
    members: Seq<MemberId>,
    envelopes: Seq<ContentKeyEnvelope>,
) -> bool {
    envelopes.len() == members.len() && forall|i: int|
        0 <= i < envelopes.len() ==> seals_for(state, epoch, members[i], #[trigger] envelopes[i])
}

/// The operations that carry registrations.
pub open spec fn registration_bodies(replica: ReplicaModel, members: Seq<MemberId>) -> Seq<
    BodyModel,
> {
    Seq::new(
        members.len(),
        |i: int|
            BodyModel::KeyRegistration(registration_wire(replica.registrations[members[i]])),
    )
}

/// The operations that carry envelopes.
pub open spec fn envelope_bodies(envelopes: Seq<ContentKeyEnvelope>) -> Seq<BodyModel> {
    Seq::new(
        envelopes.len(),
        |i: int| BodyModel::ContentKeyEnvelope(envelope_wire(envelopes[i]@)),
    )
}

/// What keeps a content key from being sealed for the participants among members: the first member
/// that has not registered, or the first participant with a key that nothing can be sealed for.
pub open spec fn sealing_fault(
    replica: ReplicaModel,
    community: CommunityModel,
    members: Seq<MemberId>,
) -> Option<FaultModel>
    decreases members.len(),
{
    if members.len() == 0 {
        None
    } else {
        match sealing_fault(replica, community, members.drop_last()) {
            Some(fault) => Some(fault),
            None => match replica.registration(members.last()) {
                None => Some(
                    authorization_fault("community member has no encryption key registration"@),
                ),
                Some(registration) => match hpke_key_objection(registration.public_key@) {
                    Some(text) => if community.participates(members.last()) {
                        Some(protocol_fault(text))
                    } else {
                        None
                    },
                    None => None,
                },
            },
        }
    }
}

proof fn sealing_fault_stays(
    replica: ReplicaModel,
    community: CommunityModel,
    members: Seq<MemberId>,
    n: int,
)
    requires
        0 <= n <= members.len(),
        sealing_fault(replica, community, members.take(n)) is Some,
    ensures
        sealing_fault(replica, community, members) == sealing_fault(
            replica,
            community,
            members.take(n),
        ),
    decreases members.len() - n,
{
    if n < members.len() {
        assert(members.take(n + 1).drop_last() =~= members.take(n));
        sealing_fault_stays(replica, community, members, n + 1);
    } else {
        assert(members.take(n) =~= members);
    }
}

/// A change of the membership that the owner makes: the signed change, the content key of its
/// epoch, and the envelopes for the participants that it leaves.
pub struct Rotation {
    pub signed: SignedMembership,
    pub epoch: ContentEpoch,
    pub envelopes: Seq<ContentKeyEnvelope>,
}

/// Whether a rotation is what the local member makes of a change with this content key.
pub open spec fn rotates(
    state: EgregoreModel,
    change: MembershipChange,
    key: [u8; 32],
    rotation: Rotation,
) -> bool {
    let next = state.community.changed(state.local_member, change);
    &&& rotation.signed.update.revision == state.replica.next_revision()
    &&& rotation.signed.update.change == change
    &&& rotation.signed.signature@ == ed25519_signature(
        state.signing_seed,
        crate::community::membership_message(state.replica.community_id, rotation.signed.update),
    )
    &&& rotation.epoch.number == rotation.signed.update.revision
    &&& rotation.epoch.head@ == membership_head(state.replica.community_id, rotation.signed)
    &&& rotation.epoch.key == key
    &&& seals_for_all(
        state,
        rotation.epoch,
        participants_of(next, sorted_keys(next.members)),
        rotation.envelopes,
    )
}

/// The outcome of a rotation, before the own display name is renewed.
pub open spec fn rotation_outcome(
    state: EgregoreModel,
    rotation: Rotation,
    community: CommunityModel,
) -> OutcomeModel {
    let change = rotation.signed.update.change;
    let next = state.community.changed(state.local_member, change);
    OutcomeModel {
        events: seq![EventModel::MembershipChanged(community)],
        outbound: (registration_bodies(state.replica, sorted_keys(next.members)) + envelope_bodies(
            rotation.envelopes,
        )).push(BodyModel::Membership(membership_wire(rotation.signed))),
        removed_member: if change is Remove {
            Some(subject(change))
        } else {
            None
        },
        sync_member: if change is Remove {
            None
        } else {
            Some(subject(change))
        },
        refresh_voice_presence: false,
    }
}

/// What comes of a rotation.
pub open spec fn rotated_to(
    state: EgregoreModel,
    rotation: Rotation,
    after: EgregoreModel,
    answer: Result<OutcomeModel, FaultModel>,
) -> bool {
    let replica = state.replica.rotated(rotation.signed, rotation.epoch, rotation.envelopes);
    match state.replica.rotation_verdict(rotation.signed, rotation.epoch, rotation.envelopes) {
        Err(fault) => after == state && answer == Err::<OutcomeModel, FaultModel>(fault),
        Ok(_) => match replica.community() {
            Err(fault) => after == state.with_replica(replica) && answer == Err::<
                OutcomeModel,
                FaultModel,
            >(fault),
            Ok(community) => exists|
                result: Result<Option<(EncryptedMemberProfile, DisplayName)>, Fault>,
            |
                #[trigger] refreshes(
                    replica,
                    state.local_member,
                    state.signing_seed,
                    after.replica,
                    result,
                ) && after == state.with_community(community).with_replica(after.replica) && answer
                    == Ok::<OutcomeModel, FaultModel>(
                    with_profile_refresh(rotation_outcome(state, rotation, community), result),
                ),
        },
    }
}

impl EgregoreModel {
    /// The state after the registration that a change needs was taken in, should it wait.
    pub open spec fn settled_for(self, change: MembershipChange) -> Self {
        if change is Remove {
            self
        } else {
            self.settled(subject(change))
        }
    }
}

/// What comes of a change of the membership that the local member asks for: where the content key
/// can be sealed for everyone, a rotation.
pub open spec fn membership_changed(
    before: EgregoreModel,
    change: MembershipChange,
    key: [u8; 32],
    after: EgregoreModel,
    answer: Result<OutcomeModel, FaultModel>,
) -> bool {
    match recovery_refusal(before.replica) {
        Some(fault) => after == before && answer == Err::<OutcomeModel, FaultModel>(fault),
        None => match before.community.verdict(before.local_member, change) {
            Err(error) => after == before && answer == Err::<OutcomeModel, FaultModel>(
                refusal(error),
            ),
            Ok(false) => after == before && answer == Ok::<OutcomeModel, FaultModel>(idle()),
            Ok(true) => {
                let settled = before.settled_for(change);
                let next = before.community.changed(before.local_member, change);
                if !(change is Remove) && settled.replica.registration(subject(change)) is None {
                    after == settled && answer == Err::<OutcomeModel, FaultModel>(
                        authorization_fault("member has not registered an encryption key"@),
                    )
                } else {
                    match sealing_fault(settled.replica, next, sorted_keys(next.members)) {
                        Some(fault) => after == settled && answer == Err::<
                            OutcomeModel,
                            FaultModel,
                        >(fault),
                        None => exists|rotation: Rotation| #[trigger]
                            rotates(settled, change, key, rotation) && rotated_to(
                                settled,
                                rotation,
                                after,
                                answer,
                            ),
                    }
                }
            },
        },
    }
}

/// How often a change looks for the registration of the member that it admits.
pub const REGISTRATION_TRIES: u32 = 100;

/// How long it waits in between, in milliseconds.
pub const REGISTRATION_PAUSE_MILLIS: u64 = 10;

/// Whether a change has to wait for the registration of the member that it admits.
pub open spec fn awaits(state: EgregoreModel, change: MembershipChange) -> bool {
    &&& recovery_refusal(state.replica) is None
    &&& state.community.verdict(state.local_member, change) == Ok::<bool, CommunityError>(true)
    &&& !(change is Remove)
    &&& state.replica.registration(subject(change)) is None
    &&& !state.pending.dom().contains(subject(change))
}

impl Egregore {
    /// Accepts administration, once an identity that was restored has synchronized.
    pub fn ensure_recovery_reconciled(&self) -> (verdict: Result<(), Fault>)
        ensures
            match verdict {
                Ok(()) => recovery_refusal(self@.replica) is None,
                Err(fault) => recovery_refusal(self@.replica) == Some(fault@),
            },
    {
        if self.replica.is_recovered() && self.replica.active_content_epoch().is_none() {
            Err(
                Fault::authorization(
                    "recovered identity must synchronize before administering the community",
                ),
            )
        } else {
            Ok(())
        }
    }

    /// Whether a change has to wait for the registration of the member that it admits.
    pub fn awaits_registration(&self, change: MembershipChange) -> (waits: bool)
        ensures
            waits == awaits(self@, change),
    {
        if self.ensure_recovery_reconciled().is_err() || !change.is_admission() {
            return false;
        }
        let mut next: Community = self.community.clone();
        match next.change_membership(self.local_member, change) {
            Ok(true) => self.replica.key_registration(change.member()).is_none()
                && !self.pending.contains_key(change.member()),
            _ => false,
        }
    }

    /// How long a change waits before it is tried again, in milliseconds, where it was tried this
    /// often; `None` where it waits no longer.
    pub fn registration_pause(&self, change: MembershipChange, tries: u32) -> (pause: Option<u64>)
        ensures
            pause == (if tries < REGISTRATION_TRIES && awaits(self@, change) {
                Some(REGISTRATION_PAUSE_MILLIS)
            } else {
                None
            }),
    {
        if tries < REGISTRATION_TRIES && self.awaits_registration(change) {
            Some(REGISTRATION_PAUSE_MILLIS)
        } else {
            None
        }
    }

    /// Makes a change of the membership, with a content key drawn at random.
    pub fn change_membership(&mut self, change: MembershipChange) -> (answer: Result<
        ApplyOutcome,
        Fault,
    >)
        requires
            old(self)@.well_formed(),
        ensures
            exists|key: [u8; 32]| #[trigger]
                membership_changed(old(self)@, change, key, final(self)@, said(answer)),
            final(self)@.well_formed(),
    {
        self.change_membership_with(change, random_32())
    }

    fn seal_for_members(
        &self,
        next: &Community,
        members: &Vec<MemberId>,
        epoch: ContentEpoch,
    ) -> (sealed: Result<(Vec<Body>, Vec<ContentKeyEnvelope>), Fault>)
        requires
            self@.well_formed(),
        ensures
            match sealed {
                Ok((operations, envelopes)) => {
                    &&& sealing_fault(self@.replica, next@, members@) is None
                    &&& sent(operations@) == registration_bodies(self@.replica, members@)
                    &&& seals_for_all(
                        self@,
                        epoch,
                        participants_of(next@, members@),
                        envelopes@,
                    )
                },
                Err(fault) => sealing_fault(self@.replica, next@, members@) == Some(fault@),
            },
    {
        let mut operations: Vec<Body> = Vec::new();
        let mut envelopes: Vec<ContentKeyEnvelope> = Vec::new();
        let mut i: usize = 0;
        proof {
            assert(members@.take(0) =~= Seq::<MemberId>::empty());
            assert(sent(operations@) =~= registration_bodies(self@.replica, members@.take(0)));
        }
        while i < members.len()
            invariant
                i <= members@.len(),
                self@.well_formed(),
                sealing_fault(self@.replica, next@, members@.take(i as int)) is None,
                sent(operations@) == registration_bodies(self@.replica, members@.take(i as int)),
                seals_for_all(
                    self@,
                    epoch,
                    participants_of(next@, members@.take(i as int)),
                    envelopes@,
                ),
            decreases members@.len() - i,
        {
            let member: MemberId = members[i];
            let ghost (shorter, longer) = (members@.take(i as int), members@.take(i + 1));
            proof {
                assert(longer.drop_last() =~= shorter);
                assert(longer.last() == member);
            }
            let registration: KeyRegistration = match self.replica.key_registration(member) {
                Some(registration) => registration,
                None => {
                    proof {
                        sealing_fault_stays(self@.replica, next@, members@, i + 1);
                    }
                    return Err(
                        Fault::authorization("community member has no encryption key registration"),
                    );
                },
            };
            proof {
                assert(self@.replica.registrations.dom().contains(member));
                assert(registration.member == member);
            }
            if matches!(next.role(member), Some(MemberRole::Participant)) {
                match ContentKeyEnvelope::seal(
                    &self.signing_seed,
                    self.replica.community_id(),
                    epoch,
                    &registration,
                ) {
                    Ok(envelope) => {
                        let ghost before = envelopes@;
                        envelopes.push(envelope);
                        proof {
                            let there = participants_of(next@, longer);
                            assert(seals_for(self@, epoch, member, envelope));
                            assert forall|j: int| 0 <= j < envelopes@.len() implies seals_for(
                                self@,
                                epoch,
                                there[j],
                                #[trigger] envelopes@[j],
                            ) by {
                                if j < before.len() {
                                    assert(envelopes@[j] == before[j]);
                                    assert(there[j] == participants_of(next@, shorter)[j]);
                                }
                            }
                        }
                    },
                    Err(fault) => {
                        proof {
                            sealing_fault_stays(self@.replica, next@, members@, i + 1);
                        }
                        return Err(fault);
                    },
                }
            }
            let ghost before = operations@;
            operations.push(registration_operation(&registration));
            proof {
                assert(sent(operations@) =~= sent(before).push(
                    BodyModel::KeyRegistration(registration_wire(registration)),
                ));
                assert(registration_bodies(self@.replica, longer) =~= registration_bodies(
                    self@.replica,
                    shorter,
                ).push(BodyModel::KeyRegistration(registration_wire(registration))));
            }
            i += 1;
        }
        assert(members@.take(i as int) =~= members@);
        Ok((operations, envelopes))
    }

    /// Makes a change of the membership with this content key.
    pub fn change_membership_with(&mut self, change: MembershipChange, key: [u8; 32]) -> (answer:
        Result<ApplyOutcome, Fault>)
        requires
            old(self)@.well_formed(),
        ensures
            membership_changed(old(self)@, change, key, final(self)@, said(answer)),
            final(self)@.well_formed(),
    {
        match self.ensure_recovery_reconciled() {
            Ok(()) => {},
            Err(fault) => {
                return Err(fault);
            },
        }
        let mut next: Community = self.community.clone();
        match next.change_membership(self.local_member, change) {
            Ok(true) => {},
            Ok(false) => {
                return Ok(ApplyOutcome::default());
            },
            Err(error) => {
                return Err(Fault::refused(error));
            },
        }
        let revision: u64 = self.replica.next_membership_revision();
        if change.is_admission() {
            self.settle(change.member());
            if self.replica.key_registration(change.member()).is_none() {
                return Err(Fault::authorization("member has not registered an encryption key"));
            }
        }
        let ghost settled = self@;
        assert(settled == old(self)@.settled_for(change));
        let id: CommunityId = self.replica.community_id();
        let signed: SignedMembership = SignedMembership::sign(
            &self.signing_seed,
            id,
            revision,
            change,
        );
        let epoch: ContentEpoch = ContentEpoch { number: revision, head: signed.head(id), key };
        let members: Vec<MemberId> = next.members();
        proof {
            sorted_keys_are(next@.members, members@);
        }
        let (operations, envelopes): (Vec<Body>, Vec<ContentKeyEnvelope>) =
            match self.seal_for_members(&next, &members, epoch) {
            Ok(sealed) => sealed,
            Err(fault) => {
                return Err(fault);
            },
        };
        let ghost rotation = Rotation { signed, epoch, envelopes: envelopes@ };
        assert(rotates(settled, change, key, rotation));
        self.finish_rotation(change, &signed, epoch, operations, envelopes)
    }

    /// Makes a change of the membership for which everything is signed and sealed: keeps it, renews
    /// the own display name, and tells everyone. `operations` carry the members' registrations.
    pub fn finish_rotation(
        &mut self,
        change: MembershipChange,
        signed: &SignedMembership,
        epoch: ContentEpoch,
        operations: Vec<Body>,
        envelopes: Vec<ContentKeyEnvelope>,
    ) -> (answer: Result<ApplyOutcome, Fault>)
        requires
            old(self)@.well_formed(),
            signed.update.change == change,
            sent(operations@) == registration_bodies(
                old(self)@.replica,
                sorted_keys(old(self)@.community.changed(old(self)@.local_member, change).members),
            ),
        ensures
            rotated_to(
                old(self)@,
                (Rotation { signed: *signed, epoch, envelopes: envelopes@ }),
                final(self)@,
                said(answer),
            ),
            final(self)@.well_formed(),
    {
        let ghost settled = self@;
        let ghost rotation = Rotation { signed: *signed, epoch, envelopes: envelopes@ };
        let mut outbound: Vec<Body> = operations;
        let ghost registrations = outbound@;
        let mut i: usize = 0;
        assert(sent(outbound@) =~= sent(registrations) + envelope_bodies(envelopes@.take(0)));
        while i < envelopes.len()
            invariant
                i <= envelopes@.len(),
                sent(outbound@) == sent(registrations) + envelope_bodies(
                    envelopes@.take(i as int),
                ),
            decreases envelopes@.len() - i,
        {
            let ghost before = outbound@;
            outbound.push(envelope_operation(&envelopes[i]));
            proof {
                let body = BodyModel::ContentKeyEnvelope(envelope_wire(envelopes@[i as int]@));
                assert(sent(outbound@) =~= sent(before).push(body));
                assert(sent(registrations) + envelope_bodies(envelopes@.take(i + 1)) =~= (sent(
                    registrations,
                ) + envelope_bodies(envelopes@.take(i as int))).push(body));
            }
            i += 1;
        }
        assert(envelopes@.take(i as int) =~= envelopes@);
        outbound.push(membership_operation(signed));
        let ghost sending = outbound@;
        match self.replica.persist_rotation(signed, epoch, envelopes) {
            Ok(()) => {},
            Err(fault) => {
                proof {
                    assert(self@ =~= settled);
                    assert(rotated_to(
                        settled,
                        rotation,
                        self@,
                        Err::<OutcomeModel, FaultModel>(fault@),
                    ));
                }
                return Err(fault);
            },
        }
        let ghost rotated = settled.replica.rotated(*signed, epoch, envelopes@);
        assert(self@ =~= settled.with_replica(rotated));
        let community: Community = match self.replica.community() {
            Ok(community) => community,
            Err(fault) => {
                assert(rotated_to(
                    settled,
                    rotation,
                    self@,
                    Err::<OutcomeModel, FaultModel>(fault@),
                ));
                return Err(fault);
            },
        };
        let told: Community = community.clone();
        self.community = community;
        let refreshed: Result<Option<(EncryptedMemberProfile, DisplayName)>, Fault> =
            refresh_local_profile(&mut self.replica, self.local_member, &self.signing_seed);
        let ghost result = refreshed;
        let mut outcome: ApplyOutcome = ApplyOutcome::tell(Event::MembershipChanged(told));
        outcome.outbound = outbound;
        if change.is_admission() {
            outcome.sync_member = Some(change.member());
        } else {
            outcome.removed_member = Some(change.member());
        }
        proof {
            assert(sent(sending) =~= rotation_outcome(settled, rotation, told@).outbound);
            assert(outcome@ =~= rotation_outcome(settled, rotation, told@));
        }
        finish_profile_refresh(&mut outcome, refreshed);
        proof {
            assert(self@ =~= settled.with_community(told@).with_replica(self@.replica));
            assert(refreshes(
                rotated,
                settled.local_member,
                settled.signing_seed,
                self@.replica,
                result,
            ));
            assert(rotated_to(settled, rotation, self@, Ok::<OutcomeModel, FaultModel>(outcome@)));
        }
        Ok(outcome)
    }
}

/// A registration of an own key, as it is signed.
pub open spec fn registers(
    signing_seed: Seq<u8>,
    hpke_seed: Seq<u8>,
    community: CommunityId,
    registration: KeyRegistration,
) -> bool {
    &&& registration.member@ == ed25519_public_key(signing_seed)
    &&& registration.public_key@ == hpke_public_key(hpke_seed)
    &&& registration.signature@ == ed25519_signature(
        signing_seed,
        registration_message(community, registration.member, registration.public_key@),
    )
}

/// Whether a channel is one of those that a community starts with, signed by its owner.
pub open spec fn starts_with(
    signing_seed: Seq<u8>,
    community: CommunityId,
    channel: crate::model::ChannelModel,
    signed: SignedCreateChannel,
) -> bool {
    &&& signed.channel@ == channel
    &&& signed.signature@ == ed25519_signature(signing_seed, channel_message(community, channel))
}

/// What a node keeps once it is opened: its own registration, and for the owner the channels that
/// a community starts with.
pub open spec fn opened_replica(
    replica: ReplicaModel,
    registration: KeyRegistration,
    general: SignedCreateChannel,
    voice: SignedCreateChannel,
) -> Result<ReplicaModel, FaultModel> {
    match replica.registration_verdict(registration) {
        Err(fault) => Err(fault),
        Ok(_) => {
            let registered = replica.registration_added(registration);
            if replica.owner != registration.member {
                Ok(registered)
            } else {
                match registered.channel_verdict(general) {
                    Err(fault) => Err(fault),
                    Ok(_) => {
                        let one = registered.channel_added(general);
                        match one.channel_verdict(voice) {
                            Err(fault) => Err(fault),
                            Ok(_) => Ok(one.channel_added(voice)),
                        }
                    },
                }
            }
        },
    }
}

/// A node as it is opened.
pub open spec fn opened_state(
    replica: ReplicaModel,
    community: CommunityModel,
    signing_seed: Seq<u8>,
    hpke_seed: Seq<u8>,
    local_member: MemberId,
) -> EgregoreModel {
    EgregoreModel {
        replica,
        community,
        local_member,
        hpke_seed,
        signing_seed,
        pending: Map::empty(),
        metrics: Metrics {
            messages_sent: Counter(0),
            messages_received: Counter(0),
            decrypt_failures: Counter(0),
            voice_frames_sent: Counter(0),
            voice_frames_received: Counter(0),
            voice_frame_failures: Counter(0),
        },
    }
}

/// Whether the owner founds the first content key when a node is opened.
pub open spec fn founds_key(replica: ReplicaModel, local_member: MemberId) -> bool {
    replica.owner == local_member && replica.active_epoch() is None && !replica.recovered
}

/// What comes of opening a node with this content key, should one have to be founded.
pub open spec fn opens_to(
    replica: ReplicaModel,
    signing_seed: Seq<u8>,
    hpke_seed: Seq<u8>,
    key: [u8; 32],
    registration: KeyRegistration,
    general: SignedCreateChannel,
    voice: SignedCreateChannel,
    node: Result<Egregore, Fault>,
) -> bool {
    &&& registers(signing_seed, hpke_seed, replica.community_id, registration)
    &&& starts_with(
        signing_seed,
        replica.community_id,
        crate::model::ChannelModel {
            id: crate::model::general_channel(),
            name: "general"@,
            kind: ChannelKind::Text,
        },
        general,
    )
    &&& starts_with(
        signing_seed,
        replica.community_id,
        crate::model::ChannelModel {
            id: crate::model::voice_room_channel(),
            name: "Voice Room"@,
            kind: ChannelKind::Voice,
        },
        voice,
    )
    &&& match opened_replica(replica, registration, general, voice) {
        Err(fault) => node matches Err(found) && found@ == fault,
        Ok(prepared) => match prepared.community() {
            Err(fault) => node matches Err(found) && found@ == fault,
            Ok(community) => {
                let state = opened_state(
                    prepared,
                    community,
                    signing_seed,
                    hpke_seed,
                    registration.member,
                );
                if !founds_key(prepared, registration.member) {
                    node matches Ok(found) && found@ == state
                } else {
                    exists|epoch: ContentEpoch, envelope: ContentKeyEnvelope| #[trigger]
                        founded_with(state, key, epoch, envelope) && founds(
                            state,
                            epoch,
                            envelope,
                            node,
                        )
                }
            },
        },
    }
}

/// Whether a content key is founded for the membership that is in force, with an envelope for the
/// owner.
pub open spec fn founded_with(
    state: EgregoreModel,
    key: [u8; 32],
    epoch: ContentEpoch,
    envelope: ContentKeyEnvelope,
) -> bool {
    &&& state.replica.is_active(epoch.number, epoch.head@)
    &&& epoch.key == key
    &&& seals_for(state, epoch, state.local_member, envelope)
}

/// Whether a node is what a state becomes with a first content key and the owner's envelope of it.
pub open spec fn founds(
    state: EgregoreModel,
    epoch: ContentEpoch,
    envelope: ContentKeyEnvelope,
    node: Result<Egregore, Fault>,
) -> bool {
    let keyed = state.replica.content_key_added(epoch);
    match state.replica.content_key_verdict(epoch) {
        Err(fault) => node matches Err(found) && found@ == fault,
        Ok(_) => match keyed.envelope_verdict(envelope) {
            Err(fault) => node matches Err(found) && found@ == fault,
            Ok(_) => node matches Ok(found) && found@ == state.with_replica(
                keyed.envelope_added(envelope),
            ),
        },
    }
}

impl Egregore {
    /// Gives a node its first content key, and the owner's envelope of it.
    pub fn found(self, epoch: ContentEpoch, envelope: ContentKeyEnvelope) -> (node: Result<
        Self,
        Fault,
    >)
        requires
            self@.well_formed(),
        ensures
            founds(self@, epoch, envelope, node),
            node matches Ok(found) ==> found@.well_formed(),
    {
        let ghost state = self@;
        let mut node: Egregore = self;
        match node.replica.insert_content_key(epoch) {
            Ok(()) => {},
            Err(fault) => {
                return Err(fault);
            },
        }
        match node.replica.insert_content_key_envelope(envelope) {
            Ok(_) => {
                assert(node@ =~= state.with_replica(
                    state.replica.content_key_added(epoch).envelope_added(envelope),
                ));
                Ok(node)
            },
            Err(fault) => Err(fault),
        }
    }

    /// Opens a node, with a first content key drawn at random should one have to be founded.
    pub fn open(replica: Replica, signing_seed: [u8; 32], hpke_seed: [u8; 32]) -> (node: Result<
        Self,
        Fault,
    >)
        requires
            replica@.well_formed(),
        ensures
            exists|
                key: [u8; 32],
                registration: KeyRegistration,
                general: SignedCreateChannel,
                voice: SignedCreateChannel,
            |
                #[trigger] opens_to(
                    replica@,
                    signing_seed@,
                    hpke_seed@,
                    key,
                    registration,
                    general,
                    voice,
                    node,
                ),
            node matches Ok(found) ==> found@.well_formed(),
    {
        Egregore::open_with(replica, signing_seed, hpke_seed, random_32())
    }

    /// Opens a node, with this content key should one have to be founded.
    pub fn open_with(
        replica: Replica,
        signing_seed: [u8; 32],
        hpke_seed: [u8; 32],
        key: [u8; 32],
    ) -> (node: Result<Self, Fault>)
        requires
            replica@.well_formed(),
        ensures
            exists|
                registration: KeyRegistration,
                general: SignedCreateChannel,
                voice: SignedCreateChannel,
            |
                #[trigger] opens_to(
                    replica@,
                    signing_seed@,
                    hpke_seed@,
                    key,
                    registration,
                    general,
                    voice,
                    node,
                ),
            node matches Ok(found) ==> found@.well_formed(),
    {
        let ghost given = replica@;
        let mut replica: Replica = replica;
        let id: CommunityId = replica.community_id();
        let local_member: MemberId = member_of(&signing_seed);
        let registration: KeyRegistration = KeyRegistration::sign(
            &signing_seed,
            id,
            hpke_public(&hpke_seed),
        );
        proof {
            assert(registration.member.0 =~= local_member.0);
        }
        let channels: [Channel; 2] = Channel::default_channels();
        let general_channel: Channel = channels[0].clone();
        let voice_channel: Channel = channels[1].clone();
        let general: SignedCreateChannel = SignedCreateChannel::sign(
            &signing_seed,
            id,
            general_channel,
        );
        let voice: SignedCreateChannel = SignedCreateChannel::sign(&signing_seed, id, voice_channel);
        let ghost (g, v) = (general, voice);
        let node: Result<Egregore, Fault> = Egregore::prepare(
            replica,
            signing_seed,
            hpke_seed,
            key,
            local_member,
            registration,
            general,
            voice,
        );
        assert(opens_to(given, signing_seed@, hpke_seed@, key, registration, g, v, node));
        node
    }

    fn prepare(
        replica: Replica,
        signing_seed: [u8; 32],
        hpke_seed: [u8; 32],
        key: [u8; 32],
        local_member: MemberId,
        registration: KeyRegistration,
        general: SignedCreateChannel,
        voice: SignedCreateChannel,
    ) -> (node: Result<Self, Fault>)
        requires
            replica@.well_formed(),
            local_member == registration.member,
            registers(signing_seed@, hpke_seed@, replica@.community_id, registration),
            hpke_key_objection(registration.public_key@) is None,
            starts_with(
                signing_seed@,
                replica@.community_id,
                crate::model::ChannelModel {
                    id: crate::model::general_channel(),
                    name: "general"@,
                    kind: ChannelKind::Text,
                },
                general,
            ),
            starts_with(
                signing_seed@,
                replica@.community_id,
                crate::model::ChannelModel {
                    id: crate::model::voice_room_channel(),
                    name: "Voice Room"@,
                    kind: ChannelKind::Voice,
                },
                voice,
            ),
        ensures
            opens_to(
                replica@,
                signing_seed@,
                hpke_seed@,
                key,
                registration,
                general,
                voice,
                node,
            ),
            node matches Ok(found) ==> found@.well_formed(),
    {
        let ghost given = replica@;
        let mut replica: Replica = replica;
        match replica.insert_key_registration(&registration) {
            Ok(_) => {},
            Err(fault) => {
                return Err(fault);
            },
        }
        if replica.community_owner() == local_member {
            match replica.insert_channel(general) {
                Ok(_) => {},
                Err(fault) => {
                    return Err(fault);
                },
            }
            match replica.insert_channel(voice) {
                Ok(_) => {},
                Err(fault) => {
                    return Err(fault);
                },
            }
        }
        let ghost prepared = replica@;
        assert(opened_replica(given, registration, general, voice) == Ok::<
            ReplicaModel,
            FaultModel,
        >(prepared));
        let community: Community = match replica.community() {
            Ok(community) => community,
            Err(fault) => {
                return Err(fault);
            },
        };
        let founding: bool = replica.community_owner() == local_member
            && replica.active_content_epoch().is_none() && !replica.is_recovered();
        let node: Egregore = Egregore {
            replica,
            community,
            local_member,
            hpke_seed,
            signing_seed,
            pending: SortedMap::new(),
            metrics: Metrics::default(),
        };
        let ghost state = opened_state(
            prepared,
            node.community@,
            signing_seed@,
            hpke_seed@,
            local_member,
        );
        assert(node@ =~= state);
        if !founding {
            return Ok(node);
        }
        let (number, head): (u64, [u8; 32]) = node.replica.active_membership_head();
        let epoch: ContentEpoch = ContentEpoch { number, head, key };
        let envelope: ContentKeyEnvelope = match ContentKeyEnvelope::seal(
            &node.signing_seed,
            node.replica.community_id(),
            epoch,
            &registration,
        ) {
            Ok(envelope) => envelope,
            Err(fault) => {
                return Err(fault);
            },
        };
        proof {
            assert(prepared.registrations.dom().contains(local_member));
            assert(prepared.registrations[local_member].public_key@ == registration.public_key@);
        }
        assert(founded_with(state, key, epoch, envelope));
        assert(founds_key(prepared, registration.member));
        let founded: Result<Egregore, Fault> = node.found(epoch, envelope);
        assert(founds(state, epoch, envelope, founded));
        assert(state == opened_state(
            prepared,
            prepared.community()->Ok_0,
            signing_seed@,
            hpke_seed@,
            registration.member,
        ));
        assert(opens_to(
            given,
            signing_seed@,
            hpke_seed@,
            key,
            registration,
            general,
            voice,
            founded,
        ));
        founded
    }
}

} // verus!
