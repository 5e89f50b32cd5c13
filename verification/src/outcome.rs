//! What comes of an operation: events for the user, and operations for peers.

use vstd::prelude::*;

use crate::community::{CommunityModel, MemberId};
use crate::crypto::EncryptedMemberProfile;
use crate::fault::{Fault, FaultModel};
use crate::model::{
    AttachmentModel, ChannelId, ChannelModel, DisplayName, Event, MessageId, TextModel,
    VoiceFrameModel, VoicePresence,
};
use crate::operations::{member_profile_operation, member_profile_wire};
use crate::wire::{Body, BodyModel};

verus! {

/// What an event says.
pub enum EventModel {
    PeerConnected(MemberId),
    DisplayNameChanged { member: MemberId, name: Seq<char> },
    ChannelCreated(ChannelModel),
    TextStored { author: MemberId, text: TextModel },
    AttachmentStored { author: MemberId, attachment: AttachmentModel },
    AttachmentForgotten { author: MemberId, id: MessageId },
    VoiceReceived { author: MemberId, frame: VoiceFrameModel },
    VoicePresence { channel: ChannelId, member: MemberId, state: VoicePresence },
    MembershipChanged(CommunityModel),
    Fault(FaultModel),
}

impl View for Event {
    type V = EventModel;

    open spec fn view(&self) -> EventModel {
        match self {
            Event::PeerConnected(member) => EventModel::PeerConnected(*member),
            Event::DisplayNameChanged { member, name } => EventModel::DisplayNameChanged {
                member: *member,
                name: name@,
            },
            Event::ChannelCreated(channel) => EventModel::ChannelCreated(channel@),
            Event::TextStored(authored) => EventModel::TextStored {
                author: authored.author,
                text: authored.message@,
            },
            Event::AttachmentStored(authored) => EventModel::AttachmentStored {
                author: authored.author,
                attachment: authored.attachment@,
            },
            Event::AttachmentForgotten { author, id } => EventModel::AttachmentForgotten {
                author: *author,
                id: *id,
            },
            Event::VoiceReceived(authored) => EventModel::VoiceReceived {
                author: authored.author,
                frame: authored.frame@,
            },
            Event::VoicePresence { channel, member, state } => EventModel::VoicePresence {
                channel: *channel,
                member: *member,
                state: *state,
            },
            Event::MembershipChanged(community) => EventModel::MembershipChanged(community@),
            Event::Fault(fault) => EventModel::Fault(fault@),
        }
    }
}

/// What events say.
pub open spec fn heard(events: Seq<Event>) -> Seq<EventModel> {
    Seq::new(events.len(), |i: int| events[i]@)
}

/// What operations say.
pub open spec fn sent(operations: Seq<Body>) -> Seq<BodyModel> {
    Seq::new(operations.len(), |i: int| operations[i]@)
}

/// What comes of an operation.
#[derive(Debug)]
pub struct ApplyOutcome {
    pub events: Vec<Event>,
    pub outbound: Vec<Body>,
    pub removed_member: Option<MemberId>,
    pub sync_member: Option<MemberId>,
    pub refresh_voice_presence: bool,
}

/// What an outcome says.
#[verifier::ext_equal]
pub struct OutcomeModel {
    pub events: Seq<EventModel>,
    pub outbound: Seq<BodyModel>,
    pub removed_member: Option<MemberId>,
    pub sync_member: Option<MemberId>,
    pub refresh_voice_presence: bool,
}

impl View for ApplyOutcome {
    type V = OutcomeModel;

    open spec fn view(&self) -> OutcomeModel {
        OutcomeModel {
            events: heard(self.events@),
            outbound: sent(self.outbound@),
            removed_member: self.removed_member,
            sync_member: self.sync_member,
            refresh_voice_presence: self.refresh_voice_presence,
        }
    }
}

/// An outcome of which nothing comes.
pub open spec fn idle() -> OutcomeModel {
    OutcomeModel {
        events: Seq::empty(),
        outbound: Seq::empty(),
        removed_member: None,
        sync_member: None,
        refresh_voice_presence: false,
    }
}

/// An outcome with these events and these operations.
pub open spec fn outcome_of(events: Seq<EventModel>, outbound: Seq<BodyModel>) -> OutcomeModel {
    OutcomeModel { events, outbound, ..idle() }
}

impl Default for ApplyOutcome {
    fn default() -> (outcome: Self)
        ensures
            outcome@ == idle(),
            outcome.events@.len() == 0,
            outcome.outbound@.len() == 0,
    {
        let outcome: ApplyOutcome = ApplyOutcome {
            events: Vec::new(),
            outbound: Vec::new(),
            removed_member: None,
            sync_member: None,
            refresh_voice_presence: false,
        };
        assert(outcome@ =~= idle());
        outcome
    }
}

impl ApplyOutcome {
    /// The outcome with one event.
    pub fn tell(event: Event) -> (outcome: Self)
        ensures
            outcome@ == outcome_of(seq![event@], Seq::empty()),
    {
        let mut outcome: ApplyOutcome = ApplyOutcome::default();
        outcome.events.push(event);
        assert(outcome@ =~= outcome_of(seq![event@], Seq::empty()));
        outcome
    }

    /// The outcome with one more operation.
    pub fn and_send(self, operation: Body) -> (outcome: Self)
        ensures
            outcome@ == (OutcomeModel { outbound: self@.outbound.push(operation@), ..self@ }),
    {
        let mut outcome: ApplyOutcome = self;
        outcome.outbound.push(operation);
        assert(outcome@ =~= (OutcomeModel { outbound: self@.outbound.push(operation@), ..self@ }));
        outcome
    }
}

/// What becomes of an outcome when a display name was renewed, or could not be.
pub open spec fn with_profile_refresh(
    outcome: OutcomeModel,
    result: Result<Option<(EncryptedMemberProfile, DisplayName)>, Fault>,
) -> OutcomeModel {
    match result {
        Ok(Some((profile, name))) => OutcomeModel {
            events: outcome.events.push(
                EventModel::DisplayNameChanged { member: profile.member, name: name@ },
            ),
            outbound: outcome.outbound.push(
                BodyModel::MemberProfile(member_profile_wire(profile@)),
            ),
            ..outcome
        },
        Ok(None) => outcome,
        Err(fault) => OutcomeModel {
            events: outcome.events.push(EventModel::Fault(fault@)),
            ..outcome
        },
    }
}

/// Tells of a display name that was renewed, or of the fault that kept it from being. Either way
/// the outcome stands.
pub fn finish_profile_refresh(
    outcome: &mut ApplyOutcome,
    result: Result<Option<(EncryptedMemberProfile, DisplayName)>, Fault>,
)
    ensures
        final(outcome)@ == with_profile_refresh(old(outcome)@, result),
{
    match result {
        Ok(Some((profile, name))) => {
            let operation: Body = member_profile_operation(&profile);
            outcome.events.push(Event::DisplayNameChanged { member: profile.member, name });
            outcome.outbound.push(operation);
        },
        Ok(None) => {},
        Err(fault) => {
            outcome.events.push(Event::Fault(fault));
        },
    }
    assert(outcome@ =~= with_profile_refresh(old(outcome)@, result));
}

/// A name that was renewed is told and sent, behind what was told and sent already; a fault is told;
/// and where there was nothing to renew nothing is added.
pub proof fn renewed_names_are_told_and_sent(
    outcome: OutcomeModel,
    profile: EncryptedMemberProfile,
    name: DisplayName,
    fault: Fault,
)
    ensures
        ({
            let after = with_profile_refresh(outcome, Ok(Some((profile, name))));
            &&& after.events == outcome.events + seq![
                EventModel::DisplayNameChanged { member: profile.member, name: name@ },
            ]
            &&& after.outbound == outcome.outbound + seq![
                BodyModel::MemberProfile(member_profile_wire(profile@)),
            ]
            &&& after.removed_member == outcome.removed_member
            &&& after.sync_member == outcome.sync_member
            &&& after.refresh_voice_presence == outcome.refresh_voice_presence
        }),
        with_profile_refresh(outcome, Ok(None)) == outcome,
        ({
            let after = with_profile_refresh(outcome, Err(fault));
            after.events == outcome.events + seq![EventModel::Fault(fault@)] && after == (
            OutcomeModel { events: after.events, ..outcome })
        }),
{
}

} // verus!
