//! The part of a node that talks to peers: it hands operations on to be ruled on, keeps track of who
//! is in which voice channel, and says what a peer is sent.

use vstd::prelude::*;

use crate::bytes::{array_with, array_with_is, to_vec};
use crate::community::{CommunityId, MemberId};
use crate::crypto::{
    box_opened, decrypt_voice, encrypt_voice, presence_found, seals_presence, voice_aad,
    ContentEpoch, EncryptedText, EncryptedVoicePresence,
};
use crate::decoding::{decoding_text, explain, Shape};
use crate::egregore::{
    active_key, channel_refusal, membership_changed, names, not_admitted, posts,
    receives_attachment, receives_channel, receives_envelope, receives_membership,
    receives_profile, receives_registration, receives_text, recovery_refusal,
    require_active_epoch, require_channel, require_content_key, said, shares, signs_channel,
    Egregore, EgregoreModel,
};
use crate::fault::{authorization_fault, protocol_fault, Fault, FaultModel};
use crate::metrics::Metrics;
use crate::model::{
    voice_frame_error_text, voice_frame_objection, AuthoredVoice, ChannelId, ChannelKind, Command,
    Event, VoiceFrame, VoiceFrameModel, VoicePresence, VoiceStreamId,
};
use crate::names::TextIdentity;
use crate::operations::{
    attachment_operation, attachment_wire, channel_operation, channel_wire, decode_text_inventory,
    encode_text_inventory, envelope_operation, envelope_wire, inventory_bytes,
    inventory_unreadable, member_profile_operation, member_profile_wire, membership_operation,
    membership_wire, read_voice, read_voice_presence, registration_operation, registration_wire,
    text_inventory, voice_presence_operation, voice_presence_unreadable, voice_presence_wire,
    voice_unreadable, VoiceParts,
};
use crate::outcome::{heard, outcome_of, sent, ApplyOutcome, EventModel, OutcomeModel};
use crate::primitives::xchacha_sealed;
use crate::replica::{participant_verdict, refusal, require_participant, ReplicaModel};
use crate::snapshot::{sync_state, syncs, SyncState};
use crate::sorted::SortedMap;
use crate::voice::{
    apply_voice_presence, clear_voice_presence, is_in, presence_after, presence_event,
    presence_events, presence_refusal, rooms_bounded, rooms_stay_bounded, ActiveVoicePresence,
};
use crate::wire::{self, operation_in, Body, BodyModel};

verus! {

/// The state of a node that talks to peers.
#[derive(Debug)]
pub struct OperationHandler {
    egregore: Egregore,
    voice_presence: SortedMap<MemberId, ActiveVoicePresence>,
}

/// What the state of a node that talks to peers is.
#[verifier::ext_equal]
pub struct HandlerModel {
    pub egregore: EgregoreModel,
    pub rooms: Map<MemberId, ActiveVoicePresence>,
}

impl View for OperationHandler {
    type V = HandlerModel;

    closed spec fn view(&self) -> HandlerModel {
        HandlerModel { egregore: self.egregore@, rooms: self.voice_presence@ }
    }
}

/// What an answer with events says.
pub open spec fn told(answer: Result<Vec<Event>, Fault>) -> Result<Seq<Event>, FaultModel> {
    match answer {
        Ok(events) => Ok(events@),
        Err(fault) => Err(fault@),
    }
}

/// A voice frame as it is read from a datagram: the frame around the ciphertext, its epoch, and its
/// nonce.
pub struct SealedVoice {
    pub frame: VoiceFrameModel,
    pub epoch: u64,
    pub head: [u8; 32],
    pub nonce: Seq<u8>,
}

/// The voice frame that a message carries.
pub open spec fn sealed_voice(message: wire::VoiceFrameModel) -> SealedVoice {
    SealedVoice {
        frame: VoiceFrameModel {
            stream_id: VoiceStreamId(array_with::<16>(message.stream_id)),
            channel_id: ChannelId(array_with::<32>(message.channel_id)),
            sequence: message.sequence,
            payload: message.payload,
        },
        epoch: message.epoch,
        head: array_with::<32>(message.membership_head),
        nonce: message.nonce,
    }
}

/// What is wrong with the payload of a voice frame.
pub open spec fn payload_fault(payload: Seq<u8>) -> Option<FaultModel> {
    match voice_frame_objection(payload) {
        Some(error) => Some(protocol_fault(voice_frame_error_text(error))),
        None => None,
    }
}

impl HandlerModel {
    /// What always holds: no voice channel holds more members than there are places.
    pub open spec fn well_formed(self) -> bool {
        self.egregore.well_formed() && rooms_bounded(self.rooms)
    }

    /// The state with this node state.
    pub open spec fn with_egregore(self, egregore: EgregoreModel) -> Self {
        HandlerModel { egregore, ..self }
    }

    /// The state with these counters.
    pub open spec fn counting(self, metrics: Metrics) -> Self {
        self.with_egregore(EgregoreModel { metrics, ..self.egregore })
    }

    /// What comes of a statement about a voice channel, once it is opened.
    pub open spec fn presence_stated(
        self,
        member: MemberId,
        channel: ChannelId,
        state: VoicePresence,
    ) -> (Self, Result<Seq<Event>, FaultModel>) {
        match presence_refusal(self.rooms, member, channel, state) {
            Some(fault) => (self, Err(fault)),
            None => (
                HandlerModel {
                    rooms: presence_after(self.rooms, member, channel, state),
                    ..self
                },
                Ok(presence_events(self.rooms, member, channel, state)),
            ),
        }
    }

    /// What comes of an encrypted statement that a peer makes about a voice channel.
    pub open spec fn presence_received(self, peer: MemberId, presence: EncryptedVoicePresence) -> (
        Self,
        Result<Seq<Event>, FaultModel>,
    ) {
        let replica = self.egregore.replica;
        if !replica.is_active(presence.epoch, presence.head@) {
            (
                self,
                Err(
                    authorization_fault(
                        "content is not encrypted for the active membership head"@,
                    ),
                ),
            )
        } else {
            match replica.content_key(presence.epoch, presence.head) {
                Err(fault) => (self, Err(fault)),
                Ok(None) => (
                    self,
                    Err(protocol_fault("voice presence content key is unavailable"@)),
                ),
                Ok(Some(key)) => match presence_found(
                    replica.community_id,
                    peer,
                    presence@,
                    key@,
                ) {
                    Err(fault) => (
                        self.with_egregore(self.egregore.decrypt_failed()),
                        Err(fault),
                    ),
                    Ok((bytes, state)) => {
                        let channel = ChannelId(array_with::<32>(bytes));
                        match channel_refusal(replica, channel, ChannelKind::Voice) {
                            Some(fault) => (self, Err(fault)),
                            None => self.presence_stated(peer, channel, state),
                        }
                    },
                },
            }
        }
    }

    /// Whether an author may be heard in a channel.
    pub open spec fn voice_admission(self, sealed: SealedVoice, author: MemberId) -> Result<
        [u8; 32],
        FaultModel,
    > {
        let replica = self.egregore.replica;
        if !replica.is_active(sealed.epoch, sealed.head@) {
            Err(authorization_fault("content is not encrypted for the active membership head"@))
        } else {
            match payload_fault(sealed.frame.payload) {
                Some(fault) => Err(fault),
                None => match channel_refusal(
                    replica,
                    sealed.frame.channel_id,
                    ChannelKind::Voice,
                ) {
                    Some(fault) => Err(fault),
                    None => if !is_in(self.rooms, author, sealed.frame.channel_id) {
                        Err(authorization_fault("voice author is not present in the channel"@))
                    } else {
                        match replica.content_key(sealed.epoch, sealed.head) {
                            Err(fault) => Err(fault),
                            Ok(None) => Err(protocol_fault("voice content key is unavailable"@)),
                            Ok(Some(key)) => Ok(key),
                        }
                    },
                },
            }
        }
    }

    /// What comes of an encrypted voice frame.
    pub open spec fn voice_heard(self, author: MemberId, sealed: SealedVoice) -> (
        Self,
        Result<EventModel, FaultModel>,
    ) {
        let metrics = self.egregore.metrics;
        match self.voice_admission(sealed, author) {
            Err(fault) => (self, Err(fault)),
            Ok(key) => match box_opened(
                key@,
                sealed.nonce,
                voice_aad(
                    self.egregore.replica.community_id,
                    sealed.epoch,
                    sealed.head@,
                    author,
                    sealed.frame,
                ),
                sealed.frame.payload,
            ) {
                Err(fault) => (
                    self.counting(
                        Metrics {
                            voice_frame_failures: metrics.voice_frame_failures.counted(),
                            ..metrics
                        },
                    ),
                    Err(fault),
                ),
                Ok(payload) => (
                    self.counting(
                        Metrics {
                            voice_frames_received: metrics.voice_frames_received.counted(),
                            ..metrics
                        },
                    ),
                    match payload_fault(payload) {
                        Some(fault) => Err(fault),
                        None => Ok(
                            EventModel::VoiceReceived {
                                author,
                                frame: VoiceFrameModel { payload, ..sealed.frame },
                            },
                        ),
                    },
                ),
            },
        }
    }

    /// What comes of a datagram.
    pub open spec fn datagram_received(self, author: MemberId, bytes: Seq<u8>) -> (
        Self,
        Result<EventModel, FaultModel>,
    ) {
        let community = self.egregore.community;
        if !community.participates(author) || !community.participates(self.egregore.local_member) {
            (self, Err(not_admitted()))
        } else {
            match wire::voice_frame_in(bytes) {
                None => (self, Err(protocol_fault(decoding_text(Shape::VoiceFrame, bytes)))),
                Some(message) => match voice_unreadable(message) {
                    Some(fault) => (self, Err(fault)),
                    None => self.voice_heard(author, sealed_voice(message)),
                },
            }
        }
    }

    /// What keeps the local member from speaking.
    pub open spec fn speaking_refusal(self, channel: ChannelId) -> Option<FaultModel> {
        match participant_verdict(self.egregore.community, self.egregore.local_member) {
            Err(fault) => Some(fault),
            Ok(_) => match channel_refusal(self.egregore.replica, channel, ChannelKind::Voice) {
                Some(fault) => Some(fault),
                None => if !is_in(self.rooms, self.egregore.local_member, channel) {
                    Some(
                        authorization_fault("voice transmission requires active channel presence"@),
                    )
                } else {
                    match active_key(self.egregore.replica) {
                        Err(fault) => Some(fault),
                        Ok(_) => None,
                    }
                },
            },
        }
    }

    /// What keeps the local member from a statement about a voice channel.
    pub open spec fn stating_refusal(self, channel: ChannelId) -> Option<FaultModel> {
        match participant_verdict(self.egregore.community, self.egregore.local_member) {
            Err(fault) => Some(fault),
            Ok(_) => match channel_refusal(self.egregore.replica, channel, ChannelKind::Voice) {
                Some(fault) => Some(fault),
                None => match active_key(self.egregore.replica) {
                    Err(fault) => Some(fault),
                    Ok(_) => None,
                },
            },
        }
    }

    /// The state after a member was taken out of its voice channel.
    pub open spec fn silenced(self, member: MemberId) -> Self {
        HandlerModel { rooms: self.rooms.remove(member), ..self }
    }
}

/// Whether a voice frame is sealed for the community, as a datagram carries it.
pub open spec fn speaks(
    state: HandlerModel,
    frame: VoiceFrameModel,
    message: wire::VoiceFrameModel,
) -> bool {
    let epoch = state.egregore.replica.active_epoch()->0;
    let aad = voice_aad(
        state.egregore.replica.community_id,
        epoch.number,
        epoch.head@,
        state.egregore.local_member,
        frame,
    );
    &&& message.stream_id == frame.stream_id@
    &&& message.channel_id == frame.channel_id@
    &&& message.sequence == frame.sequence
    &&& message.epoch == epoch.number
    &&& message.membership_head == epoch.head@
    &&& message.nonce.len() == 24
    &&& message.payload == xchacha_sealed(epoch.key@, message.nonce, aad, frame.payload)
    &&& box_opened(epoch.key@, message.nonce, aad, message.payload) == Ok::<Seq<u8>, FaultModel>(
        frame.payload,
    )
}

proof fn silence_keeps_bound(rooms: Map<MemberId, ActiveVoicePresence>, member: MemberId)
    requires
        rooms_bounded(rooms),
    ensures
        rooms_bounded(rooms.remove(member)),
{
    let after = rooms.remove(member);
    assert forall|c: ChannelId| #[trigger]
        crate::voice::room(after, c).len() <= crate::model::MAX_VOICE_PARTICIPANTS by {
        assert(crate::voice::room(after, c).subset_of(crate::voice::room(rooms, c)));
        assert(crate::voice::room(rooms, c).subset_of(rooms.dom()));
        vstd::set_lib::lemma_len_subset(crate::voice::room(rooms, c), rooms.dom());
        vstd::set_lib::lemma_len_subset(
            crate::voice::room(after, c),
            crate::voice::room(rooms, c),
        );
    }
}

impl OperationHandler {
    /// A node that nobody has spoken to.
    pub fn new(egregore: Egregore) -> (handler: Self)
        requires
            egregore@.well_formed(),
        ensures
            handler@.egregore == egregore@,
            handler@.rooms == Map::<MemberId, ActiveVoicePresence>::empty(),
            handler@.well_formed(),
    {
        let handler: OperationHandler = OperationHandler {
            egregore,
            voice_presence: SortedMap::new(),
        };
        proof {
            let rooms = handler@.rooms;
            assert forall|c: ChannelId| #[trigger]
                crate::voice::room(rooms, c).len() <= crate::model::MAX_VOICE_PARTICIPANTS by {
                assert(crate::voice::room(rooms, c) =~= Set::empty());
            }
            assert(rooms.dom().finite());
        }
        handler
    }

    /// The node state.
    pub fn egregore(&self) -> (egregore: &Egregore)
        ensures
            egregore@ == self@.egregore,
    {
        &self.egregore
    }

    /// Who is in which voice channel.
    pub fn voice_presence(&self) -> (rooms: &SortedMap<MemberId, ActiveVoicePresence>)
        ensures
            rooms@ == self@.rooms,
    {
        &self.voice_presence
    }

    fn state_presence(&mut self, member: MemberId, channel: ChannelId, state: VoicePresence) -> (
    answer: Result<Vec<Event>, Fault>)
        requires
            old(self)@.well_formed(),
        ensures
            (final(self)@, told(answer)) == old(self)@.presence_stated(member, channel, state),
            final(self)@.well_formed(),
    {
        proof {
            rooms_stay_bounded(self.voice_presence@, member, channel, state);
        }
        let answer: Result<Vec<Event>, Fault> = apply_voice_presence(
            &mut self.voice_presence,
            member,
            channel,
            state,
        );
        assert(self@ =~= old(self)@.presence_stated(member, channel, state).0);
        answer
    }

    fn accept_presence(&mut self, peer: MemberId, presence: EncryptedVoicePresence) -> (answer:
        Result<Vec<Event>, Fault>)
        requires
            old(self)@.well_formed(),
        ensures
            (final(self)@, told(answer)) == old(self)@.presence_received(peer, presence),
            final(self)@.well_formed(),
    {
        match require_active_epoch(self.egregore.replica(), presence.epoch, &presence.head) {
            Ok(()) => {},
            Err(fault) => {
                return Err(fault);
            },
        }
        let key: [u8; 32] = match self.egregore.replica().content_key(
            presence.epoch,
            &presence.head,
        ) {
            Ok(Some(key)) => key,
            Ok(None) => {
                return Err(Fault::protocol("voice presence content key is unavailable"));
            },
            Err(fault) => {
                return Err(fault);
            },
        };
        let id: CommunityId = self.egregore.replica().community_id();
        let (channel, state): (ChannelId, VoicePresence) = match presence.decrypt(id, peer, &key) {
            Ok(found) => found,
            Err(fault) => {
                let mut metrics: Metrics = self.egregore.metrics();
                metrics.decrypt_failures.inc();
                self.egregore.count(metrics);
                assert(self@ =~= old(self)@.with_egregore(old(self)@.egregore.decrypt_failed()));
                return Err(fault);
            },
        };
        proof {
            array_with_is(channel.0);
        }
        match require_channel(self.egregore.replica(), channel, ChannelKind::Voice) {
            Ok(()) => {},
            Err(fault) => {
                return Err(fault);
            },
        }
        self.state_presence(peer, channel, state)
    }

    /// Rules on a peer's message about a voice channel. The answer lists the events that tell of
    /// it.
    pub fn receive_voice_presence(&mut self, peer: MemberId, operation: wire::VoicePresence) -> (
    answer: Result<Vec<Event>, Fault>)
        requires
            old(self)@.well_formed(),
        ensures
            receives_presence(old(self)@, peer, operation@, final(self)@, told(answer)),
            final(self)@.well_formed(),
    {
        match require_participant(self.egregore.community(), peer) {
            Ok(()) => {},
            Err(fault) => {
                return Err(fault);
            },
        }
        match read_voice_presence(operation) {
            Ok(read) => {
                assert(voice_presence_wire(read@) == operation@);
                self.accept_presence(peer, read)
            },
            Err(fault) => Err(fault),
        }
    }

    /// Rules on a datagram with a voice frame. The answer is the event that tells of it.
    pub fn receive_voice(&mut self, author: MemberId, bytes: &[u8]) -> (answer: Result<
        Event,
        Fault,
    >)
        requires
            old(self)@.well_formed(),
        ensures
            (final(self)@, heard_one(answer)) == old(self)@.datagram_received(author, bytes@),
            final(self)@.well_formed(),
    {
        match require_participant(self.egregore.community(), author) {
            Ok(()) => {},
            Err(fault) => {
                return Err(fault);
            },
        }
        match require_participant(self.egregore.community(), self.egregore.local_member()) {
            Ok(()) => {},
            Err(fault) => {
                return Err(fault);
            },
        }
        let message: wire::VoiceFrame = match wire::VoiceFrame::decode(bytes) {
            Some(message) => message,
            None => {
                return Err(Fault::protocol(explain(Shape::VoiceFrame, bytes).as_str()));
            },
        };
        let parts: VoiceParts = match read_voice(&message) {
            Ok(parts) => parts,
            Err(fault) => {
                return Err(fault);
            },
        };
        let ghost sealed = sealed_voice(message@);
        proof {
            array_with_is(parts.stream_id.0);
            array_with_is(parts.channel_id.0);
            array_with_is(parts.head);
        }
        match require_active_epoch(self.egregore.replica(), message.epoch, &parts.head) {
            Ok(()) => {},
            Err(fault) => {
                return Err(fault);
            },
        }
        let epoch_number: u64 = message.epoch;
        let encrypted: VoiceFrame = match VoiceFrame::in_channel(
            parts.stream_id,
            parts.channel_id,
            message.sequence,
            message.payload,
        ) {
            Ok(frame) => frame,
            Err(error) => {
                return Err(error.fault());
            },
        };
        assert(encrypted@ == sealed.frame);
        match require_channel(self.egregore.replica(), parts.channel_id, ChannelKind::Voice) {
            Ok(()) => {},
            Err(fault) => {
                return Err(fault);
            },
        }
        let present: bool = match self.voice_presence.get(author) {
            Some(presence) => presence.channel == parts.channel_id,
            None => false,
        };
        if !present {
            return Err(Fault::authorization("voice author is not present in the channel"));
        }
        let key: [u8; 32] = match self.egregore.replica().content_key(epoch_number, &parts.head) {
            Ok(Some(key)) => key,
            Ok(None) => {
                return Err(Fault::protocol("voice content key is unavailable"));
            },
            Err(fault) => {
                return Err(fault);
            },
        };
        assert(self@.voice_admission(sealed, author) == Ok::<[u8; 32], FaultModel>(key));
        let epoch: ContentEpoch = ContentEpoch { number: epoch_number, head: parts.head, key };
        let id: CommunityId = self.egregore.replica().community_id();
        let mut metrics: Metrics = self.egregore.metrics();
        let payload: Vec<u8> = match decrypt_voice(id, epoch, author, &encrypted, &parts.nonce) {
            Ok(payload) => payload,
            Err(fault) => {
                metrics.voice_frame_failures.inc();
                self.egregore.count(metrics);
                assert(self@ =~= old(self)@.counting(metrics));
                return Err(fault);
            },
        };
        metrics.voice_frames_received.inc();
        self.egregore.count(metrics);
        assert(self@ =~= old(self)@.counting(metrics));
        match VoiceFrame::in_channel(
            encrypted.stream_id(),
            encrypted.channel_id(),
            encrypted.sequence(),
            payload,
        ) {
            Ok(frame) => Ok(Event::VoiceReceived(AuthoredVoice::new(author, frame))),
            Err(error) => Err(error.fault()),
        }
    }

    /// Seals a voice frame for the participants. The answer is the datagram that they are sent.
    pub fn send_voice(&mut self, frame: &VoiceFrame) -> (datagram: Result<Vec<u8>, Fault>)
        requires
            old(self)@.well_formed(),
        ensures
            match datagram {
                Ok(bytes) => old(self)@.speaking_refusal(frame@.channel_id) is None && exists|
                    message: wire::VoiceFrameModel,
                |
                    #[trigger] speaks(old(self)@, frame@, message) && bytes@ == wire::encoded(
                        wire::voice_frame_fields(message),
                    ) && final(self)@ == old(self)@.counting(
                        Metrics {
                            voice_frames_sent: old(
                                self,
                            )@.egregore.metrics.voice_frames_sent.counted(),
                            ..old(self)@.egregore.metrics
                        },
                    ),
                Err(fault) => old(self)@.speaking_refusal(frame@.channel_id) == Some(fault@)
                    && final(self)@ == old(self)@,
            },
            final(self)@.well_formed(),
    {
        let local: MemberId = self.egregore.local_member();
        match require_participant(self.egregore.community(), local) {
            Ok(()) => {},
            Err(fault) => {
                return Err(fault);
            },
        }
        match require_channel(self.egregore.replica(), frame.channel_id(), ChannelKind::Voice) {
            Ok(()) => {},
            Err(fault) => {
                return Err(fault);
            },
        }
        let present: bool = match self.voice_presence.get(local) {
            Some(presence) => presence.channel == frame.channel_id(),
            None => false,
        };
        if !present {
            return Err(
                Fault::authorization("voice transmission requires active channel presence"),
            );
        }
        let epoch: ContentEpoch = match require_content_key(self.egregore.replica()) {
            Ok(epoch) => epoch,
            Err(fault) => {
                return Err(fault);
            },
        };
        let id: CommunityId = self.egregore.replica().community_id();
        let (nonce, ciphertext): ([u8; 24], Vec<u8>) = encrypt_voice(id, epoch, local, frame);
        let message: wire::VoiceFrame = wire::VoiceFrame {
            stream_id: to_vec(frame.stream_id().0.as_slice()),
            sequence: frame.sequence(),
            payload: ciphertext,
            channel_id: to_vec(frame.channel_id().0.as_slice()),
            epoch: epoch.number,
            membership_head: to_vec(epoch.head.as_slice()),
            nonce: to_vec(nonce.as_slice()),
        };
        assert(speaks(old(self)@, frame@, message@));
        let mut metrics: Metrics = self.egregore.metrics();
        metrics.voice_frames_sent.inc();
        self.egregore.count(metrics);
        assert(self@ =~= old(self)@.counting(metrics));
        Ok(message.encode())
    }

    /// Makes a statement about a voice channel. The answer holds the events that tell of it, and the
    /// operation that the participants are sent.
    pub fn set_voice_presence(
        &mut self,
        channel: ChannelId,
        state: VoicePresence,
    ) -> (answer: Result<
        (Vec<Event>, Body),
        Fault,
    >)
        requires
            old(self)@.well_formed(),
        ensures
            match old(self)@.stating_refusal(channel) {
                Some(refusal) => final(self)@ == old(self)@ && (answer matches Err(fault) && fault@
                    == refusal),
                None => {
                    let stated = old(self)@.presence_stated(
                        old(self)@.egregore.local_member,
                        channel,
                        state,
                    );
                    &&& final(self)@ == stated.0
                    &&& match answer {
                        Ok((events, body)) => stated.1 == Ok::<Seq<Event>, FaultModel>(events@)
                            && states(old(self)@, channel, state, body@),
                        Err(fault) => stated.1 == Err::<Seq<Event>, FaultModel>(fault@),
                    }
                },
            },
            final(self)@.well_formed(),
    {
        let local: MemberId = self.egregore.local_member();
        match require_participant(self.egregore.community(), local) {
            Ok(()) => {},
            Err(fault) => {
                return Err(fault);
            },
        }
        match require_channel(self.egregore.replica(), channel, ChannelKind::Voice) {
            Ok(()) => {},
            Err(fault) => {
                return Err(fault);
            },
        }
        let epoch: ContentEpoch = match require_content_key(self.egregore.replica()) {
            Ok(epoch) => epoch,
            Err(fault) => {
                return Err(fault);
            },
        };
        let body: Body = self.presence_operation(epoch, channel, state);
        match self.state_presence(local, channel, state) {
            Ok(events) => Ok((events, body)),
            Err(fault) => Err(fault),
        }
    }

    fn presence_operation(&self, epoch: ContentEpoch, channel: ChannelId, state: VoicePresence) -> (
    body: Body)
        requires
            self@.egregore.replica.active_epoch() == Some(epoch),
        ensures
            states(self@, channel, state, body@),
    {
        let sealed: EncryptedVoicePresence = EncryptedVoicePresence::encrypt(
            self.egregore.replica().community_id(),
            epoch,
            self.egregore.local_member(),
            channel,
            state,
        );
        assert(seals_statement(self@, channel, state, sealed));
        voice_presence_operation(&sealed)
    }

    /// Takes a member out of its voice channel. The answer is the event that tells of it.
    pub fn clear_presence(&mut self, member: MemberId) -> (event: Option<Event>)
        requires
            old(self)@.well_formed(),
        ensures
            silences(old(self)@, member, final(self)@, event),
            final(self)@.well_formed(),
    {
        proof {
            silence_keeps_bound(self.voice_presence@, member);
        }
        let event: Option<Event> = clear_voice_presence(&mut self.voice_presence, member);
        assert(self@ =~= old(self)@.silenced(member));
        event
    }

    /// Forgets what hung on a connection that is gone: unless another one is left, the registration
    /// of an outsider and the place in a voice channel.
    pub fn untrack(&mut self, member: MemberId, still_connected: bool) -> (event: Option<Event>)
        requires
            old(self)@.well_formed(),
        ensures
            untracks(old(self)@, member, still_connected, final(self)@, event),
            final(self)@.well_formed(),
    {
        if still_connected {
            return None;
        }
        if !self.egregore.community().contains(member) {
            self.egregore.forget_pending(member);
        }
        self.clear_presence(member)
    }

    /// The statements that tell a peer where the local member is.
    pub fn local_presence(&self, peer: MemberId) -> (operations: Result<Vec<Body>, Fault>)
        requires
            self@.well_formed(),
        ensures
            tells_presence(self@, peer, operations),
    {
        let mut operations: Vec<Body> = Vec::new();
        if self.egregore.community().authorize_participant(peer).is_err() {
            return Ok(operations);
        }
        let presence: ActiveVoicePresence = match self.voice_presence.get(
            self.egregore.local_member(),
        ) {
            Some(presence) => *presence,
            None => {
                return Ok(operations);
            },
        };
        let epoch: ContentEpoch = match require_content_key(self.egregore.replica()) {
            Ok(epoch) => epoch,
            Err(fault) => {
                return Err(fault);
            },
        };
        operations.push(self.presence_operation(epoch, presence.channel, VoicePresence::Joined));
        operations.push(
            self.presence_operation(
                epoch,
                presence.channel,
                VoicePresence::Muted(presence.muted),
            ),
        );
        Ok(operations)
    }
}

/// Whether an encrypted statement is what the local member says about a voice channel.
pub open spec fn seals_statement(
    state: HandlerModel,
    channel: ChannelId,
    presence: VoicePresence,
    sealed: EncryptedVoicePresence,
) -> bool {
    seals_presence(
        state.egregore.replica.community_id,
        state.egregore.replica.active_epoch()->0,
        state.egregore.local_member,
        channel,
        presence,
        sealed@,
    )
}

/// Whether an operation carries what the local member says about a voice channel.
pub open spec fn states(
    state: HandlerModel,
    channel: ChannelId,
    presence: VoicePresence,
    body: BodyModel,
) -> bool {
    exists|sealed: EncryptedVoicePresence| #[trigger]
        seals_statement(state, channel, presence, sealed) && body == BodyModel::VoicePresence(
            voice_presence_wire(sealed@),
        )
}

/// What an answer with one event says.
pub open spec fn heard_one(answer: Result<Event, Fault>) -> Result<EventModel, FaultModel> {
    match answer {
        Ok(event) => Ok(event@),
        Err(fault) => Err(fault@),
    }
}

/// What comes of a peer's message about a voice channel.
pub open spec fn receives_presence(
    before: HandlerModel,
    peer: MemberId,
    message: wire::VoicePresenceModel,
    after: HandlerModel,
    answer: Result<Seq<Event>, FaultModel>,
) -> bool {
    if !before.egregore.community.participates(peer) {
        after == before && answer == Err::<Seq<Event>, FaultModel>(not_admitted())
    } else {
        match voice_presence_unreadable(message) {
            Some(fault) => after == before && answer == Err::<Seq<Event>, FaultModel>(fault),
            None => exists|read: EncryptedVoicePresence| #[trigger]
                voice_presence_wire(read@) == message && (after, answer)
                    == before.presence_received(peer, read),
        }
    }
}

/// What a peer is answered.
#[derive(Debug)]
pub enum Reply {
    /// The peer asked which texts are held: the bytes of the answer.
    Inventory(Vec<u8>),
    /// The operation was applied.
    Applied(ApplyOutcome),
}

/// What a reply says.
pub enum ReplyModel {
    Inventory(Seq<u8>),
    Applied(OutcomeModel),
}

impl View for Reply {
    type V = ReplyModel;

    open spec fn view(&self) -> ReplyModel {
        match self {
            Reply::Inventory(bytes) => ReplyModel::Inventory(bytes@),
            Reply::Applied(outcome) => ReplyModel::Applied(outcome@),
        }
    }
}

/// What an answer with a reply says.
pub open spec fn replied(answer: Result<Reply, Fault>) -> Result<ReplyModel, FaultModel> {
    match answer {
        Ok(reply) => Ok(reply@),
        Err(fault) => Err(fault@),
    }
}

/// Whether an inventory lists the texts of a replica.
pub open spec fn lists_texts(replica: ReplicaModel, names: Seq<TextIdentity>) -> bool {
    &&& crate::sorted::ascending(names)
    &&& forall|name: TextIdentity| #[trigger]
        names.contains(name) <==> replica.texts.dom().contains(
            crate::names::ContentName { author: name.author, id: name.id },
        )
}

/// The outcome in an answer.
pub open spec fn outcome_in(answer: Result<ReplyModel, FaultModel>) -> Result<
    OutcomeModel,
    FaultModel,
> {
    match answer {
        Ok(ReplyModel::Applied(outcome)) => Ok(outcome),
        Ok(ReplyModel::Inventory(_)) => Err(protocol_fault(Seq::empty())),
        Err(fault) => Err(fault),
    }
}

/// The reply that tells these events.
pub open spec fn reply_telling(events: Result<Seq<Event>, FaultModel>) -> Result<
    ReplyModel,
    FaultModel,
> {
    match events {
        Ok(events) => Ok(ReplyModel::Applied(outcome_of(heard(events), Seq::empty()))),
        Err(fault) => Err(fault),
    }
}

/// What comes of an operation that a peer sends.
pub open spec fn operation_received(
    before: HandlerModel,
    peer: MemberId,
    body: BodyModel,
    after: HandlerModel,
    answer: Result<ReplyModel, FaultModel>,
) -> bool {
    match body {
        BodyModel::TextInventory(inventory) => {
            &&& after == before
            &&& if !before.egregore.community.may_exchange(peer, before.egregore.local_member) {
                answer == Err::<ReplyModel, FaultModel>(not_admitted())
            } else {
                match inventory_unreadable(inventory.messages) {
                    Some(fault) => answer == Err::<ReplyModel, FaultModel>(fault),
                    None => exists|names: Seq<TextIdentity>| #[trigger]
                        lists_texts(before.egregore.replica, names) && answer == Ok::<
                            ReplyModel,
                            FaultModel,
                        >(ReplyModel::Inventory(inventory_bytes(names))),
                }
            }
        },
        BodyModel::VoicePresence(message) => {
            &&& !(answer matches Ok(ReplyModel::Inventory(_)))
            &&& exists|events: Result<Seq<Event>, FaultModel>| #[trigger]
                receives_presence(before, peer, message, after, events) && answer
                    == reply_telling(events)
        },
        _ => {
            &&& !(answer matches Ok(ReplyModel::Inventory(_)))
            &&& after == before.with_egregore(after.egregore)
            &&& match body {
                BodyModel::Text(message) => receives_text(
                    before.egregore,
                    peer,
                    message,
                    after.egregore,
                    outcome_in(answer),
                ),
                BodyModel::Membership(message) => receives_membership(
                    before.egregore,
                    message,
                    after.egregore,
                    outcome_in(answer),
                ),
                BodyModel::CreateChannel(message) => receives_channel(
                    before.egregore,
                    message,
                    after.egregore,
                    outcome_in(answer),
                ),
                BodyModel::KeyRegistration(message) => receives_registration(
                    before.egregore,
                    peer,
                    message,
                    after.egregore,
                    outcome_in(answer),
                ),
                BodyModel::ContentKeyEnvelope(message) => receives_envelope(
                    before.egregore,
                    message,
                    after.egregore,
                    outcome_in(answer),
                ),
                BodyModel::Attachment(message) => receives_attachment(
                    before.egregore,
                    peer,
                    message,
                    after.egregore,
                    outcome_in(answer),
                ),
                BodyModel::MemberProfile(message) => receives_profile(
                    before.egregore,
                    peer,
                    message,
                    after.egregore,
                    outcome_in(answer),
                ),
                _ => true,
            }
        },
    }
}

fn applied(answer: Result<ApplyOutcome, Fault>) -> (reply: Result<Reply, Fault>)
    ensures
        outcome_in(replied(reply)) == said(answer),
        !(replied(reply) matches Ok(ReplyModel::Inventory(_))),
{
    match answer {
        Ok(outcome) => Ok(Reply::Applied(outcome)),
        Err(fault) => Err(fault),
    }
}

impl OperationHandler {
    /// Rules on the bytes that a peer sends.
    pub fn receive_operation(&mut self, peer: MemberId, bytes: &[u8]) -> (answer: Result<
        Reply,
        Fault,
    >)
        requires
            old(self)@.well_formed(),
        ensures
            match operation_in(bytes@) {
                None => final(self)@ == old(self)@ && replied(answer) == Err::<
                    ReplyModel,
                    FaultModel,
                >(protocol_fault(decoding_text(Shape::Operation, bytes@))),
                Some(None) => final(self)@ == old(self)@ && replied(answer) == Err::<
                    ReplyModel,
                    FaultModel,
                >(protocol_fault("operation has no body"@)),
                Some(Some(body)) => operation_received(
                    old(self)@,
                    peer,
                    body,
                    final(self)@,
                    replied(answer),
                ),
            },
            final(self)@.well_formed(),
    {
        match Body::decode(bytes) {
            None => Err(Fault::protocol(explain(Shape::Operation, bytes).as_str())),
            Some(None) => Err(Fault::protocol("operation has no body")),
            Some(Some(body)) => self.receive_body(peer, body),
        }
    }

    fn receive_body(&mut self, peer: MemberId, body: Body) -> (answer: Result<Reply, Fault>)
        requires
            old(self)@.well_formed(),
        ensures
            operation_received(old(self)@, peer, body@, final(self)@, replied(answer)),
            final(self)@.well_formed(),
    {
        let ghost before = self@;
        match body {
            Body::TextInventory(inventory) => self.answer_inventory(peer, &inventory),
            Body::VoicePresence(operation) => self.receive_statement(peer, operation),
            Body::Text(operation) => {
                let answer: Result<Reply, Fault> = applied(self.egregore.receive_text(peer, operation));
                assert(self@ =~= before.with_egregore(self@.egregore));
                answer
            },
            Body::Membership(operation) => {
                let answer: Result<Reply, Fault> = applied(self.egregore.receive_membership(operation));
                assert(self@ =~= before.with_egregore(self@.egregore));
                answer
            },
            Body::CreateChannel(operation) => {
                let answer: Result<Reply, Fault> = applied(self.egregore.receive_channel(operation));
                assert(self@ =~= before.with_egregore(self@.egregore));
                answer
            },
            Body::KeyRegistration(operation) => {
                let answer: Result<Reply, Fault> = applied(self.egregore.receive_registration(peer, operation));
                assert(self@ =~= before.with_egregore(self@.egregore));
                answer
            },
            Body::ContentKeyEnvelope(operation) => {
                let answer: Result<Reply, Fault> = applied(self.egregore.receive_envelope(operation));
                assert(self@ =~= before.with_egregore(self@.egregore));
                answer
            },
            Body::Attachment(operation) => {
                let answer: Result<Reply, Fault> = applied(self.egregore.receive_attachment(peer, operation));
                assert(self@ =~= before.with_egregore(self@.egregore));
                answer
            },
            Body::MemberProfile(operation) => {
                let answer: Result<Reply, Fault> = applied(self.egregore.receive_member_profile(peer, operation));
                assert(self@ =~= before.with_egregore(self@.egregore));
                answer
            },
        }
    }

    fn receive_statement(
        &mut self,
        peer: MemberId,
        operation: wire::VoicePresence,
    ) -> (answer: Result<
        Reply,
        Fault,
    >)
        requires
            old(self)@.well_formed(),
        ensures
            operation_received(
                old(self)@,
                peer,
                BodyModel::VoicePresence(operation@),
                final(self)@,
                replied(answer),
            ),
            final(self)@.well_formed(),
    {
        let events: Result<Vec<Event>, Fault> = self.receive_voice_presence(peer, operation);
        let ghost telling = told(events);
        assert(receives_presence(old(self)@, peer, operation@, self@, telling));
        let answer: Result<Reply, Fault> = match events {
            Ok(events) => {
                let mut outcome: ApplyOutcome = ApplyOutcome::default();
                outcome.events = events;
                assert(outcome@ =~= outcome_of(heard(events@), Seq::empty()));
                Ok(Reply::Applied(outcome))
            },
            Err(fault) => Err(fault),
        };
        proof {
            assert(replied(answer) == reply_telling(telling));
            let body = BodyModel::VoicePresence(operation@);
            assert(receives_presence(old(self)@, peer, body->VoicePresence_0, self@, telling));
        }
        answer
    }

    fn answer_inventory(&self, peer: MemberId, inventory: &wire::TextInventory) -> (answer: Result<
        Reply,
        Fault,
    >)
        requires
            self@.well_formed(),
        ensures
            operation_received(
                self@,
                peer,
                BodyModel::TextInventory(inventory@),
                self@,
                replied(answer),
            ),
    {
        match self.egregore.community().authorize_exchange(peer, self.egregore.local_member()) {
            Ok(()) => {},
            Err(error) => {
                return Err(Fault::refused(error));
            },
        }
        match decode_text_inventory(inventory) {
            Ok(_) => {},
            Err(fault) => {
                return Err(fault);
            },
        }
        let held: SortedMap<TextIdentity, ()> = self.egregore.replica().encrypted_text_inventory();
        let length: usize = held.len();
        proof {
            assert forall|name: TextIdentity| #[trigger] held.keys().contains(name) <==>
                self@.egregore.replica.texts.dom().contains(
                crate::names::ContentName { author: name.author, id: name.id },
            ) by {
                assert(held@.dom().contains(name) <==> held.keys().contains(name));
            }
            assert(lists_texts(self@.egregore.replica, held.keys()));
        }
        Ok(Reply::Inventory(encode_text_inventory(&held)))
    }

    /// Accepts that the local member invites: it is the owner, and administers.
    pub fn require_inviting(&self) -> (verdict: Result<(), Fault>)
        ensures
            match verdict {
                Ok(()) => self@.egregore.community.owner == self@.egregore.local_member
                    && recovery_refusal(self@.egregore.replica) is None,
                Err(fault) => if self@.egregore.community.owner != self@.egregore.local_member {
                    fault@ == authorization_fault("only the community owner can create an invite"@)
                } else {
                    recovery_refusal(self@.egregore.replica) == Some(fault@)
                },
            },
    {
        if self.egregore.community().owner() != self.egregore.local_member() {
            return Err(Fault::authorization("only the community owner can create an invite"));
        }
        self.egregore.ensure_recovery_reconciled()
    }
}

/// What an admitted peer is sent when it connects: first operations that it must take, then the
/// inventory, then the texts, of which it gets those that it lacks, and other operations, whose failure
/// does no harm.
#[derive(Debug)]
pub struct SyncPlan {
    pub first: Vec<Body>,
    pub inventory: Vec<u8>,
    pub messages: Vec<EncryptedText>,
    pub operations: Vec<Body>,
}

/// The operations that a peer must take: the registrations of the others, the envelopes, the changes of
/// the membership and the channels.
pub open spec fn first_bodies(local: MemberId, state: SyncState) -> Seq<BodyModel> {
    others_registered(local, state.registrations@) + Seq::new(
        state.envelopes@.len(),
        |i: int| BodyModel::ContentKeyEnvelope(envelope_wire(state.envelopes@[i]@)),
    ) + Seq::new(
        state.memberships@.len(),
        |i: int| BodyModel::Membership(membership_wire(state.memberships@[i])),
    ) + Seq::new(
        state.channels@.len(),
        |i: int|
            BodyModel::CreateChannel(
                channel_wire(state.channels@[i].channel@, state.channels@[i].signature@),
            ),
    )
}

/// The operations that carry the registrations of the others.
pub open spec fn others_registered(
    local: MemberId,
    list: Seq<crate::crypto::KeyRegistration>,
) -> Seq<
    BodyModel,
>
    decreases list.len(),
{
    if list.len() == 0 {
        Seq::empty()
    } else {
        let before = others_registered(local, list.drop_last());
        if list.last().member == local {
            before
        } else {
            before.push(BodyModel::KeyRegistration(registration_wire(list.last())))
        }
    }
}

/// The operations that a peer is sent last: the attachments and the display names.
pub open spec fn last_bodies(state: SyncState) -> Seq<BodyModel> {
    Seq::new(
        state.attachments@.len(),
        |i: int| BodyModel::Attachment(attachment_wire(state.attachments@[i]@)),
    ) + Seq::new(
        state.member_profiles@.len(),
        |i: int| BodyModel::MemberProfile(member_profile_wire(state.member_profiles@[i]@)),
    )
}

/// Whether a plan sends an admitted peer the state.
pub open spec fn plans(local: MemberId, state: SyncState, plan: SyncPlan) -> bool {
    &&& sent(plan.first@) == first_bodies(local, state)
    &&& exists|names: Seq<TextIdentity>| #[trigger]
        lists_given(state.messages@, names) && plan.inventory@ == inventory_bytes(names)
    &&& plan.messages == state.messages
    &&& sent(plan.operations@) == last_bodies(state)
}

/// Whether a member was taken out of its voice channel, and the user was told if it was in one.
pub open spec fn silences(
    before: HandlerModel,
    member: MemberId,
    after: HandlerModel,
    event: Option<Event>,
) -> bool {
    &&& after == before.silenced(member)
    &&& event == (if before.rooms.dom().contains(member) {
        Some(presence_event(before.rooms[member].channel, member, VoicePresence::Left))
    } else {
        None
    })
}

/// Whether a connection of a member was given up: where it was the last one, the member was taken
/// out of its voice channel, and the registration of an outsider no longer waits.
pub open spec fn untracks(
    before: HandlerModel,
    member: MemberId,
    still_connected: bool,
    after: HandlerModel,
    event: Option<Event>,
) -> bool {
    let egregore = before.egregore;
    if still_connected {
        after == before && event is None
    } else {
        silences(
            before.with_egregore(
                if egregore.community.members.dom().contains(member) {
                    egregore
                } else {
                    EgregoreModel { pending: egregore.pending.remove(member), ..egregore }
                },
            ),
            member,
            after,
            event,
        )
    }
}

/// Whether a peer is told of the own presence: a participant, where there is one.
pub open spec fn tells_presence(
    state: HandlerModel,
    peer: MemberId,
    operations: Result<Vec<Body>, Fault>,
) -> bool {
    let local = state.egregore.local_member;
    if !state.egregore.community.participates(peer) || !state.rooms.dom().contains(local) {
        operations matches Ok(list) && list@.len() == 0
    } else {
        let presence = state.rooms[local];
        match active_key(state.egregore.replica) {
            Err(refusal) => operations matches Err(fault) && fault@ == refusal,
            Ok(_) => operations matches Ok(list) && list@.len() == 2 && states(
                state,
                presence.channel,
                VoicePresence::Joined,
                list@[0]@,
            ) && states(
                state,
                presence.channel,
                VoicePresence::Muted(presence.muted),
                list@[1]@,
            ),
        }
    }
}

/// Whether it was noted how far a channel was read, or why not.
pub open spec fn reads_up_to(
    before: HandlerModel,
    channel: ChannelId,
    message: crate::model::MessageId,
    after: HandlerModel,
    verdict: Result<(), Fault>,
) -> bool {
    let replica = before.egregore.replica;
    match verdict {
        Ok(()) => channel_refusal(replica, channel, ChannelKind::Text) is None && replica.has_item(
            channel,
            message,
        ) && after == before.with_egregore(
            before.egregore.with_replica(replica.cursor_set(channel, message)),
        ),
        Err(fault) => after == before && match channel_refusal(
            replica,
            channel,
            ChannelKind::Text,
        ) {
            Some(refusal) => fault@ == refusal,
            None => !replica.has_item(channel, message) && fault@ == protocol_fault(
                "read cursor does not identify a stored item in the channel"@,
            ),
        },
    }
}

/// Whether this is what a peer is sent next when it connects: a member everything, an outsider
/// nothing more.
pub open spec fn catches_up(
    state: HandlerModel,
    peer: MemberId,
    plan: Result<Option<SyncPlan>, Fault>,
) -> bool {
    let egregore = state.egregore;
    let local = egregore.local_member;
    if !egregore.community.may_exchange(local, peer) {
        plan matches Ok(plan) && plan is None
    } else {
        match egregore.replica.community() {
            Err(refusal) => plan matches Err(fault) && fault@ == refusal,
            Ok(community) => plan matches Ok(Some(plan)) && exists|given: SyncState| #[trigger]
                syncs(egregore.replica, community, given) && plans(local, given, plan),
        }
    }
}

/// Whether names list these texts.
pub open spec fn lists_given(texts: Seq<EncryptedText>, names: Seq<TextIdentity>) -> bool {
    &&& crate::sorted::ascending(names)
    &&& forall|name: TextIdentity| #[trigger]
        names.contains(name) <==> exists|i: int|
            0 <= i < texts.len() && crate::operations::identity_of((#[trigger] texts[i])@) == name
}

impl OperationHandler {
    /// What every peer is sent first when it connects: the own registration.
    pub fn introduction(&self) -> (introduction: Result<Body, Fault>)
        requires
            self@.well_formed(),
        ensures
            match self@.egregore.replica.registration(self@.egregore.local_member) {
                None => introduction matches Err(fault) && fault@ == protocol_fault(
                    "local encryption key is not registered"@,
                ),
                Some(own) => introduction matches Ok(body) && body@ == BodyModel::KeyRegistration(
                    registration_wire(own),
                ),
            },
    {
        let local: MemberId = self.egregore.local_member();
        match self.egregore.replica().key_registration(local) {
            Some(own) => Ok(registration_operation(&own)),
            None => Err(Fault::protocol("local encryption key is not registered")),
        }
    }

    /// What a peer is sent next when it connects; an outsider is sent nothing more.
    pub fn sync_plan(&self, peer: MemberId) -> (plan: Result<Option<SyncPlan>, Fault>)
        requires
            self@.well_formed(),
        ensures
            catches_up(self@, peer, plan),
    {
        let local: MemberId = self.egregore.local_member();
        if self.egregore.community().authorize_exchange(local, peer).is_err() {
            return Ok(None);
        }
        let state: SyncState = match sync_state(self.egregore.replica()) {
            Ok(state) => state,
            Err(fault) => {
                return Err(fault);
            },
        };
        let ghost given = state;
        let first: Vec<Body> = plan_first(&state, local);
        let inventory: SortedMap<TextIdentity, ()> = text_inventory(&state.messages);
        let length: usize = inventory.len();
        proof {
            assert forall|name: TextIdentity| #[trigger] inventory.keys().contains(name) <==>
                exists|i: int|
                0 <= i < state.messages@.len() && crate::operations::identity_of(
                    (#[trigger] state.messages@[i])@,
                ) == name by {
                assert(inventory@.dom().contains(name) <==> inventory.keys().contains(name));
            }
            assert(lists_given(state.messages@, inventory.keys()));
        }
        let operations: Vec<Body> = plan_last(&state);
        let plan: SyncPlan = SyncPlan {
            first,
            inventory: encode_text_inventory(&inventory),
            messages: state.messages,
            operations,
        };
        assert(plans(local, given, plan));
        Ok(Some(plan))
    }
}

fn plan_first(state: &SyncState, local: MemberId) -> (bodies: Vec<Body>)
    ensures
        sent(bodies@) == first_bodies(local, *state),
{
    let mut bodies: Vec<Body> = Vec::new();
    let mut i: usize = 0;
    proof {
        assert(state.registrations@.take(0) =~= Seq::<crate::crypto::KeyRegistration>::empty());
        assert(sent(bodies@) =~= Seq::<BodyModel>::empty());
    }
    while i < state.registrations.len()
        invariant
            i <= state.registrations@.len(),
            sent(bodies@) == others_registered(local, state.registrations@.take(i as int)),
        decreases state.registrations@.len() - i,
    {
        proof {
            assert(state.registrations@.take(i + 1).drop_last() =~= state.registrations@.take(
                i as int,
            ));
        }
        if state.registrations[i].member != local {
            let ghost before = bodies@;
            bodies.push(registration_operation(&state.registrations[i]));
            proof {
                let body = BodyModel::KeyRegistration(
                    registration_wire(state.registrations@[i as int]),
                );
                assert(sent(bodies@) =~= sent(before).push(body));
            }
        }
        i += 1;
    }
    assert(state.registrations@.take(i as int) =~= state.registrations@);
    let ghost second = sent(bodies@);
    let mut i: usize = 0;
    while i < state.envelopes.len()
        invariant
            i <= state.envelopes@.len(),
            sent(bodies@) =~= second + Seq::new(
                i as nat,
                |j: int| BodyModel::ContentKeyEnvelope(envelope_wire(state.envelopes@[j]@)),
            ),
        decreases state.envelopes@.len() - i,
    {
        let ghost before = bodies@;
        bodies.push(envelope_operation(&state.envelopes[i]));
        assert(sent(bodies@) =~= sent(before).push(
            BodyModel::ContentKeyEnvelope(envelope_wire(state.envelopes@[i as int]@)),
        ));
        i += 1;
    }
    let ghost third = sent(bodies@);
    let mut i: usize = 0;
    while i < state.memberships.len()
        invariant
            i <= state.memberships@.len(),
            sent(bodies@) =~= third + Seq::new(
                i as nat,
                |j: int| BodyModel::Membership(membership_wire(state.memberships@[j])),
            ),
        decreases state.memberships@.len() - i,
    {
        let ghost before = bodies@;
        bodies.push(membership_operation(&state.memberships[i]));
        assert(sent(bodies@) =~= sent(before).push(
            BodyModel::Membership(membership_wire(state.memberships@[i as int])),
        ));
        i += 1;
    }
    let ghost fourth = sent(bodies@);
    let mut i: usize = 0;
    while i < state.channels.len()
        invariant
            i <= state.channels@.len(),
            sent(bodies@) =~= fourth + Seq::new(
                i as nat,
                |j: int|
                    BodyModel::CreateChannel(
                        channel_wire(state.channels@[j].channel@, state.channels@[j].signature@),
                    ),
            ),
        decreases state.channels@.len() - i,
    {
        let ghost before = bodies@;
        bodies.push(channel_operation(&state.channels[i]));
        assert(sent(bodies@) =~= sent(before).push(
            BodyModel::CreateChannel(
                channel_wire(
                    state.channels@[i as int].channel@,
                    state.channels@[i as int].signature@,
                ),
            ),
        ));
        i += 1;
    }
    assert(sent(bodies@) =~= first_bodies(local, *state));
    bodies
}

fn plan_last(state: &SyncState) -> (bodies: Vec<Body>)
    ensures
        sent(bodies@) == last_bodies(*state),
{
    let mut bodies: Vec<Body> = Vec::new();
    let mut i: usize = 0;
    while i < state.attachments.len()
        invariant
            i <= state.attachments@.len(),
            sent(bodies@) =~= Seq::new(
                i as nat,
                |j: int| BodyModel::Attachment(attachment_wire(state.attachments@[j]@)),
            ),
        decreases state.attachments@.len() - i,
    {
        let ghost before = bodies@;
        bodies.push(attachment_operation(&state.attachments[i]));
        assert(sent(bodies@) =~= sent(before).push(
            BodyModel::Attachment(attachment_wire(state.attachments@[i as int]@)),
        ));
        i += 1;
    }
    let ghost second = sent(bodies@);
    let mut i: usize = 0;
    while i < state.member_profiles.len()
        invariant
            i <= state.member_profiles@.len(),
            sent(bodies@) =~= second + Seq::new(
                i as nat,
                |j: int| BodyModel::MemberProfile(member_profile_wire(state.member_profiles@[j]@)),
            ),
        decreases state.member_profiles@.len() - i,
    {
        let ghost before = bodies@;
        bodies.push(member_profile_operation(&state.member_profiles[i]));
        assert(sent(bodies@) =~= sent(before).push(
            BodyModel::MemberProfile(member_profile_wire(state.member_profiles@[i as int]@)),
        ));
        i += 1;
    }
    assert(sent(bodies@) =~= last_bodies(*state));
    bodies
}

/// What comes of a command.
#[derive(Debug)]
pub enum Reaction {
    /// Events and operations.
    Applied(ApplyOutcome),
    /// A datagram for the participants.
    Voice(Vec<u8>),
    /// Events, and an operation for the participants.
    Presence(Vec<Event>, Body),
}

/// What keeps a member's command from doing anything, for the commands that a rule decides before
/// anything is encrypted.
pub open spec fn command_refusal(state: HandlerModel, command: Command) -> Option<FaultModel> {
    match command {
        Command::SetDisplayName(_) => state.egregore.naming_refusal(),
        Command::PostText(message) => state.egregore.writing_refusal(message@.channel_id),
        Command::ShareAttachment(attachment) => state.egregore.writing_refusal(
            attachment@.channel_id,
        ),
        Command::SendVoice(frame) => state.speaking_refusal(frame@.channel_id),
        Command::SetVoicePresence { channel, .. } => state.stating_refusal(channel),
        Command::CreateChannel(_) => if state.egregore.community.owner
            != state.egregore.local_member {
            Some(authorization_fault("only the community owner can create channels"@))
        } else {
            None
        },
        Command::ForgetAttachment { .. } => None,
        Command::ChangeMembership(_) => recovery_refusal(state.egregore.replica),
    }
}

impl OperationHandler {
    /// Executes a command: hands it to the part that rules on it, and counts what is sent.
    pub fn execute(&mut self, command: Command) -> (reaction: Result<Reaction, Fault>)
        requires
            old(self)@.well_formed(),
        ensures
            obeyed(old(self)@, command, final(self)@, reaction),
            final(self)@.well_formed(),
    {
        match command {
            Command::SetDisplayName(name) => self.name_self(name),
            Command::CreateChannel(channel) => self.open_channel(channel),
            Command::PostText(message) => self.write(message),
            Command::ShareAttachment(attachment) => self.share(attachment),
            Command::ChangeMembership(change) => self.administer(change),
            Command::ForgetAttachment { author, id } => self.forget(author, id),
            Command::SendVoice(frame) => self.speak(frame),
            Command::SetVoicePresence { channel, state } => self.state_own(channel, state),
        }
    }

    fn name_self(&mut self, name: crate::model::DisplayName) -> (reaction: Result<Reaction, Fault>)
        requires
            old(self)@.well_formed(),
        ensures
            obeyed(old(self)@, Command::SetDisplayName(name), final(self)@, reaction),
            final(self)@.well_formed(),
    {
        let ghost before = self@;
        let answer: Result<ApplyOutcome, Fault> = self.egregore.set_display_name(&name);
        assert(self@ =~= before.with_egregore(self@.egregore));
        match answer {
            Ok(outcome) => {
                Ok(Reaction::Applied(outcome))
            },
            Err(fault) => Err(fault),
        }
    }

    fn open_channel(
        &mut self,
        channel: crate::model::Channel,
    ) -> (reaction: Result<Reaction, Fault>)
        requires
            old(self)@.well_formed(),
        ensures
            obeyed(old(self)@, Command::CreateChannel(channel), final(self)@, reaction),
            final(self)@.well_formed(),
    {
        let ghost before = self@;
        let answer: Result<ApplyOutcome, Fault> = self.egregore.create_channel(channel);
        assert(self@ =~= before.with_egregore(self@.egregore));
        match answer {
            Ok(outcome) => {
                Ok(Reaction::Applied(outcome))
            },
            Err(fault) => Err(fault),
        }
    }

    fn write(&mut self, message: crate::model::TextMessage) -> (reaction: Result<Reaction, Fault>)
        requires
            old(self)@.well_formed(),
        ensures
            obeyed(old(self)@, Command::PostText(message), final(self)@, reaction),
            final(self)@.well_formed(),
    {
        let ghost before = self@;
        let answer: Result<ApplyOutcome, Fault> = self.egregore.post_text(&message);
        assert(self@ =~= before.with_egregore(self@.egregore));
        match answer {
            Ok(outcome) => {
                self.count_sent();
                Ok(Reaction::Applied(outcome))
            },
            Err(fault) => Err(fault),
        }
    }

    fn share(&mut self, attachment: crate::model::Attachment) -> (reaction: Result<Reaction, Fault>)
        requires
            old(self)@.well_formed(),
        ensures
            obeyed(old(self)@, Command::ShareAttachment(attachment), final(self)@, reaction),
            final(self)@.well_formed(),
    {
        let ghost before = self@;
        let answer: Result<ApplyOutcome, Fault> = self.egregore.share_attachment(&attachment);
        assert(self@ =~= before.with_egregore(self@.egregore));
        match answer {
            Ok(outcome) => {
                self.count_sent();
                Ok(Reaction::Applied(outcome))
            },
            Err(fault) => Err(fault),
        }
    }

    fn administer(
        &mut self,
        change: crate::community::MembershipChange,
    ) -> (reaction: Result<Reaction, Fault>)
        requires
            old(self)@.well_formed(),
        ensures
            obeyed(old(self)@, Command::ChangeMembership(change), final(self)@, reaction),
            final(self)@.well_formed(),
    {
        let ghost before = self@;
        let answer: Result<ApplyOutcome, Fault> = self.egregore.change_membership(change);
        assert(self@ =~= before.with_egregore(self@.egregore));
        match answer {
            Ok(outcome) => {
                Ok(Reaction::Applied(outcome))
            },
            Err(fault) => Err(fault),
        }
    }

    fn forget(&mut self, author: MemberId, id: crate::model::MessageId) -> (reaction: Result<
        Reaction,
        Fault,
    >)
        requires
            old(self)@.well_formed(),
        ensures
            obeyed(old(self)@, (Command::ForgetAttachment { author, id }), final(self)@, reaction),
            final(self)@.well_formed(),
    {
        let ghost before = self@;
        self.egregore.forget_attachment(author, id);
        assert(self@ =~= before.with_egregore(self@.egregore));
        Ok(Reaction::Applied(ApplyOutcome::tell(Event::AttachmentForgotten { author, id })))
    }

    fn speak(&mut self, frame: VoiceFrame) -> (reaction: Result<Reaction, Fault>)
        requires
            old(self)@.well_formed(),
        ensures
            obeyed(old(self)@, Command::SendVoice(frame), final(self)@, reaction),
            final(self)@.well_formed(),
    {
        match self.send_voice(&frame) {
            Ok(datagram) => Ok(Reaction::Voice(datagram)),
            Err(fault) => Err(fault),
        }
    }

    fn state_own(&mut self, channel: ChannelId, state: VoicePresence) -> (reaction: Result<
        Reaction,
        Fault,
    >)
        requires
            old(self)@.well_formed(),
        ensures
            obeyed(
                old(self)@,
                (Command::SetVoicePresence { channel, state }),
                final(self)@,
                reaction,
            ),
            final(self)@.well_formed(),
    {
        match self.set_voice_presence(channel, state) {
            Ok((events, body)) => Ok(Reaction::Presence(events, body)),
            Err(fault) => Err(fault),
        }
    }

    fn count_sent(&mut self)
        requires
            old(self)@.well_formed(),
        ensures
            final(self)@ == sent_one(old(self)@),
            final(self)@.well_formed(),
    {
        let mut metrics: Metrics = self.egregore.metrics();
        metrics.messages_sent.inc();
        self.egregore.count(metrics);
        assert(self@ =~= sent_one(old(self)@));
    }

    /// Remembers up to where a text channel was read.
    pub fn set_last_read(&mut self, channel: ChannelId, message: crate::model::MessageId) -> (
    verdict: Result<(), Fault>)
        requires
            old(self)@.well_formed(),
        ensures
            reads_up_to(old(self)@, channel, message, final(self)@, verdict),
            final(self)@.well_formed(),
    {
        let verdict: Result<(), Fault> = self.egregore.set_last_read(channel, message);
        assert(self@ =~= old(self)@.with_egregore(self@.egregore));
        verdict
    }
}

/// The state after something sent was counted.
pub open spec fn sent_one(state: HandlerModel) -> HandlerModel {
    state.counting(
        Metrics {
            messages_sent: state.egregore.metrics.messages_sent.counted(),
            ..state.egregore.metrics
        },
    )
}

/// What an answer to a command says, where it says events and operations.
pub open spec fn reacted(reaction: Result<Reaction, Fault>) -> Result<OutcomeModel, FaultModel> {
    match reaction {
        Ok(Reaction::Applied(outcome)) => Ok(outcome@),
        Ok(_) => Err(protocol_fault(Seq::empty())),
        Err(fault) => Err(fault@),
    }
}

/// What comes of a command: the refusal where one decides it, and what it does where none does.
pub open spec fn obeyed(
    before: HandlerModel,
    command: Command,
    after: HandlerModel,
    reaction: Result<Reaction, Fault>,
) -> bool {
    match command_refusal(before, command) {
        Some(refusal) => after == before && (reaction matches Err(fault) && fault@ == refusal),
        None => executed(before, command, after, reaction),
    }
}

/// Whether a command is answered in its kind: voice with a datagram, a presence with an operation
/// for the participants, everything else with an outcome.
pub open spec fn reacts_in_kind(command: Command, reaction: Result<Reaction, Fault>) -> bool {
    match reaction {
        Ok(Reaction::Voice(_)) => command is SendVoice,
        Ok(Reaction::Presence(..)) => command is SetVoicePresence,
        Ok(Reaction::Applied(_)) => !(command is SendVoice) && !(command is SetVoicePresence),
        Err(_) => true,
    }
}

/// What comes of a command, where no refusal decides it.
pub open spec fn executed(
    before: HandlerModel,
    command: Command,
    after: HandlerModel,
    reaction: Result<Reaction, Fault>,
) -> bool {
    let key = before.egregore.replica.active_epoch()->0.key;
    &&& reacts_in_kind(command, reaction)
    &&& match command {
        Command::SetDisplayName(name) => exists|
            sealed: crate::crypto::EncryptedMemberProfile,
        |
            #[trigger] names(before.egregore, name@, sealed) && after == before.with_egregore(
                before.egregore.name_set(sealed, name@).0,
            ) && reacted(reaction) == before.egregore.name_set(sealed, name@).1,
        Command::PostText(message) => exists|sealed: EncryptedText| #[trigger]
            posts(before.egregore, message@, sealed) && counted_after(
                before,
                before.egregore.text_posted(sealed, key),
                after,
                reacted(reaction),
            ),
        Command::ShareAttachment(attachment) => exists|sealed: crate::crypto::EncryptedAttachment| #[trigger]
            shares(before.egregore, attachment@, sealed) && counted_after(
                before,
                before.egregore.attachment_shared(sealed, key),
                after,
                reacted(reaction),
            ),
        Command::CreateChannel(channel) => exists|signed: crate::model::SignedCreateChannel|
            #[trigger]
            signs_channel(before.egregore, channel, signed) && ({
                let taken = before.egregore.channel_taken(
                    signed,
                    seq![BodyModel::CreateChannel(channel_wire(channel@, signed.signature@))],
                );
                after == before.with_egregore(taken.0) && reacted(reaction) == taken.1
            }),
        Command::ForgetAttachment { author, id } => after == before.with_egregore(
            before.egregore.with_replica(before.egregore.replica.attachment_forgotten(author, id)),
        ) && reacted(reaction) == Ok::<OutcomeModel, FaultModel>(
            outcome_of(seq![EventModel::AttachmentForgotten { author, id }], Seq::empty()),
        ),
        Command::ChangeMembership(change) => exists|key: [u8; 32]| #[trigger]
            membership_changed(
                before.egregore,
                change,
                key,
                after.egregore,
                reacted(reaction),
            ) && after == before.with_egregore(after.egregore),
        Command::SendVoice(frame) => (reaction matches Ok(Reaction::Voice(bytes)) && exists|message: wire::VoiceFrameModel|
            #[trigger]
            speaks(before, frame@, message) && bytes@ == wire::encoded(
                wire::voice_frame_fields(message),
            ) && after == before.counting(
                Metrics {
                    voice_frames_sent: before.egregore.metrics.voice_frames_sent.counted(),
                    ..before.egregore.metrics
                },
            )),
        Command::SetVoicePresence { channel, state } => {
            let stated = before.presence_stated(before.egregore.local_member, channel, state);
            &&& after == stated.0
            &&& match reaction {
                Ok(Reaction::Presence(events, body)) => stated.1 == Ok::<Seq<Event>, FaultModel>(
                    events@,
                ) && states(before, channel, state, body@),
                Ok(_) => false,
                Err(fault) => stated.1 == Err::<Seq<Event>, FaultModel>(fault@),
            }
        },
    }
}

/// Whether an answer is this one, and what was sent is counted.
pub open spec fn counted_after(
    before: HandlerModel,
    expected: (EgregoreModel, Result<OutcomeModel, FaultModel>),
    after: HandlerModel,
    answer: Result<OutcomeModel, FaultModel>,
) -> bool {
    let ruled = before.with_egregore(expected.0);
    &&& answer == expected.1
    &&& after == (if answer is Ok {
        sent_one(ruled)
    } else {
        ruled
    })
}

} // verus!
