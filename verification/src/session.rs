//! A user's session with a community: how it is opened, and what its commands do.

use vstd::prelude::*;

use crate::address::{CommunityInvite, PeerAddress};
use crate::audio::VoiceDeviceConfig;
use crate::community::MemberId;
use crate::connection::{Connectivity, NodeConfig, PeerDiagnostic};
use crate::egregore::Egregore;
use crate::fault::Fault;
use crate::model::{
    ChannelId, ChannelKind, ChannelModel, Command, Event, MessageId, Snapshot,
};
use crate::replica::{Replica, ReplicaModel};
use crate::snapshot::{shows, snapshot, snapshot_fault};
use crate::state::{projected, read_after, CommunityState, CommunityView, ConnectivityMode};
use crate::text::push_text;

verus! {

/// What happens to a user's voice.
#[derive(Debug, PartialEq, Eq)]
pub enum VoiceUpdate {
    Joining(ChannelId),
    Joined(ChannelId),
    Muted(bool),
    Deafened(bool),
    Leaving(ChannelId),
    Disconnected,
    Failed { channel: ChannelId, error: String },
}

/// How far a user's voice is.
#[derive(Clone, Copy, Debug, PartialEq, Eq, Structural)]
pub enum VoicePhase {
    Disconnected,
    Joining,
    Connected,
    Leaving,
    Failed,
}

/// A user's voice, as it is shown.
#[derive(Debug, PartialEq, Eq)]
pub struct VoiceState {
    pub channel: Option<ChannelId>,
    pub phase: VoicePhase,
    pub muted: bool,
    pub deafened: bool,
    pub error: Option<String>,
}

/// The voice of a user who is in no channel.
pub open spec fn silent() -> VoiceState {
    VoiceState {
        channel: None,
        phase: VoicePhase::Disconnected,
        muted: false,
        deafened: false,
        error: None,
    }
}

/// The voice after an update.
pub open spec fn voice_after(state: VoiceState, update: VoiceUpdate) -> VoiceState {
    match update {
        VoiceUpdate::Joining(channel) => VoiceState {
            channel: Some(channel),
            phase: VoicePhase::Joining,
            muted: false,
            deafened: false,
            error: None,
        },
        VoiceUpdate::Joined(channel) => VoiceState {
            channel: Some(channel),
            phase: VoicePhase::Connected,
            error: None,
            ..state
        },
        VoiceUpdate::Muted(muted) => VoiceState { muted, ..state },
        VoiceUpdate::Deafened(deafened) => VoiceState { deafened, ..state },
        VoiceUpdate::Leaving(channel) => VoiceState {
            channel: Some(channel),
            phase: VoicePhase::Leaving,
            ..state
        },
        VoiceUpdate::Disconnected => silent(),
        VoiceUpdate::Failed { channel, error } => VoiceState {
            channel: None,
            phase: VoicePhase::Failed,
            muted: false,
            deafened: false,
            error: Some(error),
        },
    }
}

/// What is said of the voice.
pub open spec fn voice_status(voice: VoiceState) -> Seq<char> {
    match voice.phase {
        VoicePhase::Disconnected => "disconnected"@,
        VoicePhase::Joining => "joining"@,
        VoicePhase::Connected => if voice.deafened {
            "deafened"@
        } else if voice.muted {
            "muted"@
        } else {
            "connected"@
        },
        VoicePhase::Leaving => "leaving"@,
        VoicePhase::Failed => match voice.error {
            Some(error) => error@,
            None => "voice failed"@,
        },
    }
}

impl Default for VoiceState {
    fn default() -> (state: Self)
        ensures
            state == silent(),
    {
        VoiceState {
            channel: None,
            phase: VoicePhase::Disconnected,
            muted: false,
            deafened: false,
            error: None,
        }
    }
}

impl VoiceState {
    /// Shows an update.
    pub fn apply(&mut self, update: VoiceUpdate)
        ensures
            *final(self) == voice_after(*old(self), update),
    {
        match update {
            VoiceUpdate::Joining(channel) => {
                self.channel = Some(channel);
                self.phase = VoicePhase::Joining;
                self.muted = false;
                self.deafened = false;
                self.error = None;
            },
            VoiceUpdate::Joined(channel) => {
                self.channel = Some(channel);
                self.phase = VoicePhase::Connected;
                self.error = None;
            },
            VoiceUpdate::Muted(muted) => {
                self.muted = muted;
            },
            VoiceUpdate::Deafened(deafened) => {
                self.deafened = deafened;
            },
            VoiceUpdate::Leaving(channel) => {
                self.channel = Some(channel);
                self.phase = VoicePhase::Leaving;
            },
            VoiceUpdate::Disconnected => {
                *self = VoiceState::default();
            },
            VoiceUpdate::Failed { channel: _, error } => {
                self.channel = None;
                self.phase = VoicePhase::Failed;
                self.muted = false;
                self.deafened = false;
                self.error = Some(error);
            },
        }
    }

    /// The channel that the user is in, joins or leaves.
    pub fn channel(&self) -> (channel: Option<ChannelId>)
        ensures
            channel == self.channel,
    {
        self.channel
    }

    /// Whether the user is in a channel.
    pub fn is_connected(&self) -> (connected: bool)
        ensures
            connected == (self.phase is Connected),
    {
        self.phase == VoicePhase::Connected
    }

    /// Whether the user is muted.
    pub fn is_muted(&self) -> (muted: bool)
        ensures
            muted == self.muted,
    {
        self.muted
    }

    /// Whether the user is deafened.
    pub fn is_deafened(&self) -> (deafened: bool)
        ensures
            deafened == self.deafened,
    {
        self.deafened
    }

    /// What is said of the voice.
    pub fn status(&self) -> (status: &str)
        ensures
            status@ == voice_status(*self),
    {
        match self.phase {
            VoicePhase::Disconnected => "disconnected",
            VoicePhase::Joining => "joining",
            VoicePhase::Connected => if self.deafened {
                "deafened"
            } else if self.muted {
                "muted"
            } else {
                "connected"
            },
            VoicePhase::Leaving => "leaving",
            VoicePhase::Failed => match &self.error {
                Some(error) => error.as_str(),
                None => "voice failed",
            },
        }
    }
}

/// What a session tells its user.
#[derive(Debug)]
pub enum SessionUpdate {
    Event(Event),
    CommandFailed(String),
    InviteReady(String),
    Snapshot(Snapshot),
    ReadStored { channel: ChannelId, message: MessageId },
    Diagnostics(Vec<PeerDiagnostic>),
    Voice(VoiceUpdate),
}

/// What a user asks of a session, and what the session hears of a voice stream that ended.
#[derive(Debug)]
pub enum SessionCommand {
    Execute(Command),
    MarkRead { channel: ChannelId, message: MessageId },
    Connect(PeerAddress),
    RequestInvite,
    ExportIdentity { path: String, passphrase: String },
    JoinVoice(ChannelId),
    SetVoiceMuted(bool),
    SetVoiceDeafened(bool),
    SetVoiceDevices(VoiceDeviceConfig),
    LeaveVoice,
    VoiceFinished { generation: u64, channel: ChannelId, result: Result<(), String> },
    Shutdown,
}

/// What a session has its surroundings do next. A voice stream is left where it still runs, and
/// released where it ended by itself.
#[derive(Debug)]
pub enum Action {
    Nothing,
    Execute(Command),
    MarkRead { channel: ChannelId, message: MessageId },
    Connect(PeerAddress),
    CreateInvite,
    ExportIdentity { path: String, passphrase: String },
    LeaveVoice,
    JoinVoice { generation: u64, channel: ChannelId },
    ReleaseVoice,
    SetMuted(bool),
    SetDeafened(bool),
    Stop,
}

/// What came of an action.
#[derive(Debug)]
pub enum Reply {
    Done,
    Invite(String),
    Failed(String),
}

/// What a session waits for.
#[derive(Clone, Copy, Debug, PartialEq, Eq)]
pub enum Pending {
    Nothing,
    Command,
    Read { channel: ChannelId, message: MessageId },
    Invite,
    LeaveToJoin { previous: ChannelId, channel: ChannelId },
    Join(ChannelId),
    Leave(ChannelId),
    LeaveToStop,
    Stopped,
}

/// What a session does next: what it tells its user, and what it has done.
#[derive(Debug)]
pub struct Step {
    pub updates: Vec<SessionUpdate>,
    pub action: Action,
}

/// What a step says.
pub struct StepModel {
    pub updates: Seq<SessionUpdate>,
    pub action: Action,
}

impl View for Step {
    type V = StepModel;

    open spec fn view(&self) -> StepModel {
        StepModel { updates: self.updates@, action: self.action }
    }
}

/// A session: the voice stream that runs, with its number and its channel, the number of the last
/// stream, the devices for the next one, and what the session waits for.
#[derive(Debug)]
pub struct Session {
    pub voice: Option<(u64, ChannelId)>,
    pub generation: u64,
    pub devices: VoiceDeviceConfig,
    pub pending: Pending,
}

/// The number after this one, around the end.
pub open spec fn next_generation(generation: u64) -> u64 {
    if generation == u64::MAX {
        0
    } else {
        (generation + 1) as u64
    }
}

/// A step without updates.
pub open spec fn quiet(action: Action) -> StepModel {
    StepModel { updates: Seq::empty(), action }
}

/// A step that tells something of the voice.
pub open spec fn telling(update: VoiceUpdate, action: Action) -> StepModel {
    StepModel { updates: seq![SessionUpdate::Voice(update)], action }
}

/// What comes of a command.
pub open spec fn commanded(session: Session, command: SessionCommand) -> (Session, StepModel) {
    match command {
        SessionCommand::Execute(command) => (
            Session { pending: Pending::Command, ..session },
            quiet(Action::Execute(command)),
        ),
        SessionCommand::MarkRead { channel, message } => (
            Session { pending: Pending::Read { channel, message }, ..session },
            quiet(Action::MarkRead { channel, message }),
        ),
        SessionCommand::Connect(address) => (
            Session { pending: Pending::Command, ..session },
            quiet(Action::Connect(address)),
        ),
        SessionCommand::RequestInvite => (
            Session { pending: Pending::Invite, ..session },
            quiet(Action::CreateInvite),
        ),
        SessionCommand::ExportIdentity { path, passphrase } => (
            Session { pending: Pending::Command, ..session },
            quiet(Action::ExportIdentity { path, passphrase }),
        ),
        SessionCommand::JoinVoice(channel) => {
            let generation = next_generation(session.generation);
            match session.voice {
                Some((_, previous)) => (
                    Session {
                        voice: None,
                        generation,
                        pending: Pending::LeaveToJoin { previous, channel },
                        ..session
                    },
                    telling(VoiceUpdate::Leaving(previous), Action::LeaveVoice),
                ),
                None => (
                    Session { generation, pending: Pending::Join(channel), ..session },
                    telling(
                        VoiceUpdate::Joining(channel),
                        Action::JoinVoice { generation, channel },
                    ),
                ),
            }
        },
        SessionCommand::SetVoiceMuted(muted) => if session.voice is Some {
            (session, telling(VoiceUpdate::Muted(muted), Action::SetMuted(muted)))
        } else {
            (session, quiet(Action::Nothing))
        },
        SessionCommand::SetVoiceDeafened(deafened) => if session.voice is Some {
            (session, telling(VoiceUpdate::Deafened(deafened), Action::SetDeafened(deafened)))
        } else {
            (session, quiet(Action::Nothing))
        },
        SessionCommand::SetVoiceDevices(devices) => (
            Session { devices, ..session },
            quiet(Action::Nothing),
        ),
        SessionCommand::LeaveVoice => {
            let generation = next_generation(session.generation);
            match session.voice {
                Some((_, channel)) => (
                    Session {
                        voice: None,
                        generation,
                        pending: Pending::Leave(channel),
                        ..session
                    },
                    telling(VoiceUpdate::Leaving(channel), Action::LeaveVoice),
                ),
                None => (Session { generation, ..session }, quiet(Action::Nothing)),
            }
        },
        SessionCommand::VoiceFinished { generation, channel, result } => if session.voice matches Some(
            current,
        ) && current.0 == generation {
            (
                Session { voice: None, ..session },
                telling(
                    match result {
                        Ok(()) => VoiceUpdate::Disconnected,
                        Err(error) => VoiceUpdate::Failed { channel, error },
                    },
                    Action::ReleaseVoice,
                ),
            )
        } else {
            (session, quiet(Action::Nothing))
        },
        SessionCommand::Shutdown => if session.voice is Some {
            (
                Session { voice: None, pending: Pending::LeaveToStop, ..session },
                quiet(Action::LeaveVoice),
            )
        } else {
            (Session { pending: Pending::Stopped, ..session }, quiet(Action::Stop))
        },
    }
}

/// What a session tells of a reply to a command that tells nothing of its success.
pub open spec fn complaint(reply: Reply) -> Seq<SessionUpdate> {
    match reply {
        Reply::Failed(error) => seq![SessionUpdate::CommandFailed(error)],
        _ => Seq::empty(),
    }
}

/// What comes of a reply.
pub open spec fn replied(session: Session, reply: Reply) -> (Session, StepModel) {
    let idle = Session { pending: Pending::Nothing, ..session };
    match session.pending {
        Pending::Nothing => (session, quiet(Action::Nothing)),
        Pending::Stopped => (session, quiet(Action::Stop)),
        Pending::Command => (
            idle,
            StepModel { updates: complaint(reply), action: Action::Nothing },
        ),
        Pending::Read { channel, message } => (
            idle,
            StepModel {
                updates: match reply {
                    Reply::Failed(_) => complaint(reply),
                    _ => seq![SessionUpdate::ReadStored { channel, message }],
                },
                action: Action::Nothing,
            },
        ),
        Pending::Invite => (
            idle,
            StepModel {
                updates: match reply {
                    Reply::Invite(text) => seq![SessionUpdate::InviteReady(text)],
                    _ => complaint(reply),
                },
                action: Action::Nothing,
            },
        ),
        Pending::LeaveToJoin { previous, channel } => (
            Session { pending: Pending::Join(channel), ..session },
            StepModel {
                updates: match reply {
                    Reply::Failed(error) => seq![
                        SessionUpdate::Voice(VoiceUpdate::Failed { channel: previous, error }),
                        SessionUpdate::Voice(VoiceUpdate::Joining(channel)),
                    ],
                    _ => seq![SessionUpdate::Voice(VoiceUpdate::Joining(channel))],
                },
                action: Action::JoinVoice { generation: session.generation, channel },
            },
        ),
        Pending::Join(channel) => match reply {
            Reply::Failed(error) => (
                idle,
                telling(VoiceUpdate::Failed { channel, error }, Action::Nothing),
            ),
            _ => (
                Session { voice: Some((session.generation, channel)), ..idle },
                telling(VoiceUpdate::Joined(channel), Action::Nothing),
            ),
        },
        Pending::Leave(channel) => (
            idle,
            telling(
                match reply {
                    Reply::Failed(error) => VoiceUpdate::Failed { channel, error },
                    _ => VoiceUpdate::Disconnected,
                },
                Action::Nothing,
            ),
        ),
        Pending::LeaveToStop => (
            Session { pending: Pending::Stopped, ..session },
            quiet(Action::Stop),
        ),
    }
}

impl Step {
    fn quiet(action: Action) -> (step: Self)
        ensures
            step@ == quiet(action),
    {
        Step { updates: Vec::new(), action }
    }

    fn telling(update: VoiceUpdate, action: Action) -> (step: Self)
        ensures
            step@ == telling(update, action),
    {
        let mut updates: Vec<SessionUpdate> = Vec::new();
        updates.push(SessionUpdate::Voice(update));
        assert(updates@ =~= seq![SessionUpdate::Voice(update)]);
        Step { updates, action }
    }

    fn saying(update: SessionUpdate) -> (step: Self)
        ensures
            step@ == (StepModel { updates: seq![update], action: Action::Nothing }),
    {
        let mut updates: Vec<SessionUpdate> = Vec::new();
        updates.push(update);
        assert(updates@ =~= seq![update]);
        Step { updates, action: Action::Nothing }
    }

    fn complaint(reply: Reply) -> (step: Self)
        ensures
            step@ == (StepModel { updates: complaint(reply), action: Action::Nothing }),
    {
        match reply {
            Reply::Failed(error) => Step::saying(SessionUpdate::CommandFailed(error)),
            _ => Step::quiet(Action::Nothing),
        }
    }
}

impl Session {
    /// A session without a voice.
    pub fn new() -> (session: Self)
        ensures
            session.voice is None,
            session.generation == 0,
            session.devices.input_device is None,
            session.devices.output_device is None,
            session.pending is Nothing,
    {
        Session {
            voice: None,
            generation: 0,
            devices: VoiceDeviceConfig::default(),
            pending: Pending::Nothing,
        }
    }

    /// Takes a command.
    pub fn command(&mut self, command: SessionCommand) -> (step: Step)
        requires
            old(self).pending is Nothing,
        ensures
            commanded(*old(self), command) == (*final(self), step@),
    {
        match command {
            SessionCommand::Execute(command) => {
                self.pending = Pending::Command;
                Step::quiet(Action::Execute(command))
            },
            SessionCommand::MarkRead { channel, message } => {
                self.pending = Pending::Read { channel, message };
                Step::quiet(Action::MarkRead { channel, message })
            },
            SessionCommand::Connect(address) => {
                self.pending = Pending::Command;
                Step::quiet(Action::Connect(address))
            },
            SessionCommand::RequestInvite => {
                self.pending = Pending::Invite;
                Step::quiet(Action::CreateInvite)
            },
            SessionCommand::ExportIdentity { path, passphrase } => {
                self.pending = Pending::Command;
                Step::quiet(Action::ExportIdentity { path, passphrase })
            },
            SessionCommand::JoinVoice(channel) => {
                self.generation = self.generation.wrapping_add(1);
                match self.voice {
                    Some((_, previous)) => {
                        self.voice = None;
                        self.pending = Pending::LeaveToJoin { previous, channel };
                        Step::telling(VoiceUpdate::Leaving(previous), Action::LeaveVoice)
                    },
                    None => {
                        self.pending = Pending::Join(channel);
                        Step::telling(
                            VoiceUpdate::Joining(channel),
                            Action::JoinVoice { generation: self.generation, channel },
                        )
                    },
                }
            },
            SessionCommand::SetVoiceMuted(muted) => {
                if self.voice.is_some() {
                    Step::telling(VoiceUpdate::Muted(muted), Action::SetMuted(muted))
                } else {
                    Step::quiet(Action::Nothing)
                }
            },
            SessionCommand::SetVoiceDeafened(deafened) => {
                if self.voice.is_some() {
                    Step::telling(VoiceUpdate::Deafened(deafened), Action::SetDeafened(deafened))
                } else {
                    Step::quiet(Action::Nothing)
                }
            },
            SessionCommand::SetVoiceDevices(devices) => {
                self.devices = devices;
                Step::quiet(Action::Nothing)
            },
            SessionCommand::LeaveVoice => {
                self.generation = self.generation.wrapping_add(1);
                match self.voice {
                    Some((_, channel)) => {
                        self.voice = None;
                        self.pending = Pending::Leave(channel);
                        Step::telling(VoiceUpdate::Leaving(channel), Action::LeaveVoice)
                    },
                    None => Step::quiet(Action::Nothing),
                }
            },
            SessionCommand::VoiceFinished { generation, channel, result } => {
                let runs: bool = match self.voice {
                    Some((current, _)) => current == generation,
                    None => false,
                };
                if runs {
                    self.voice = None;
                    let update: VoiceUpdate = match result {
                        Ok(()) => VoiceUpdate::Disconnected,
                        Err(error) => VoiceUpdate::Failed { channel, error },
                    };
                    Step::telling(update, Action::ReleaseVoice)
                } else {
                    Step::quiet(Action::Nothing)
                }
            },
            SessionCommand::Shutdown => {
                if self.voice.is_some() {
                    self.voice = None;
                    self.pending = Pending::LeaveToStop;
                    Step::quiet(Action::LeaveVoice)
                } else {
                    self.pending = Pending::Stopped;
                    Step::quiet(Action::Stop)
                }
            },
        }
    }

    /// Takes what came of the action.
    pub fn reply(&mut self, reply: Reply) -> (step: Step)
        ensures
            replied(*old(self), reply) == (*final(self), step@),
    {
        match self.pending {
            Pending::Nothing => Step::quiet(Action::Nothing),
            Pending::Stopped => Step::quiet(Action::Stop),
            Pending::Command => {
                self.pending = Pending::Nothing;
                Step::complaint(reply)
            },
            Pending::Read { channel, message } => {
                self.pending = Pending::Nothing;
                match reply {
                    Reply::Failed(error) => Step::complaint(Reply::Failed(error)),
                    _ => Step::saying(SessionUpdate::ReadStored { channel, message }),
                }
            },
            Pending::Invite => {
                self.pending = Pending::Nothing;
                match reply {
                    Reply::Invite(text) => Step::saying(SessionUpdate::InviteReady(text)),
                    Reply::Failed(error) => Step::complaint(Reply::Failed(error)),
                    Reply::Done => Step::quiet(Action::Nothing),
                }
            },
            Pending::LeaveToJoin { previous, channel } => {
                self.pending = Pending::Join(channel);
                let mut updates: Vec<SessionUpdate> = Vec::new();
                match reply {
                    Reply::Failed(error) => {
                        updates.push(
                            SessionUpdate::Voice(VoiceUpdate::Failed { channel: previous, error }),
                        );
                    },
                    _ => {},
                }
                updates.push(SessionUpdate::Voice(VoiceUpdate::Joining(channel)));
                let step: Step = Step {
                    updates,
                    action: Action::JoinVoice { generation: self.generation, channel },
                };
                assert(step@.updates =~= replied(*old(self), reply).1.updates);
                step
            },
            Pending::Join(channel) => {
                self.pending = Pending::Nothing;
                match reply {
                    Reply::Failed(error) => Step::telling(
                        VoiceUpdate::Failed { channel, error },
                        Action::Nothing,
                    ),
                    _ => {
                        self.voice = Some((self.generation, channel));
                        Step::telling(VoiceUpdate::Joined(channel), Action::Nothing)
                    },
                }
            },
            Pending::Leave(channel) => {
                self.pending = Pending::Nothing;
                match reply {
                    Reply::Failed(error) => Step::telling(
                        VoiceUpdate::Failed { channel, error },
                        Action::Nothing,
                    ),
                    _ => Step::telling(VoiceUpdate::Disconnected, Action::Nothing),
                }
            },
            Pending::LeaveToStop => {
                self.pending = Pending::Stopped;
                Step::quiet(Action::Stop)
            },
        }
    }

    /// The devices for the next voice stream.
    pub fn devices(&self) -> (devices: &VoiceDeviceConfig)
        ensures
            *devices == self.devices,
    {
        &self.devices
    }
}

/// The voice after the updates of a step.
pub open spec fn voice_following(state: VoiceState, updates: Seq<SessionUpdate>) -> VoiceState
    decreases updates.len(),
{
    if updates.len() == 0 {
        state
    } else {
        let before = voice_following(state, updates.drop_last());
        match updates.last() {
            SessionUpdate::Voice(update) => voice_after(before, update),
            _ => before,
        }
    }
}

/// Whether what is shown of a user's voice is what the session does.
pub open spec fn in_step(session: Session, shown: VoiceState) -> bool {
    match session.pending {
        Pending::LeaveToJoin { previous, channel } => session.voice is None && shown.phase is Leaving
            && shown.channel == Some(previous),
        Pending::Join(channel) => session.voice is None && shown.phase is Joining && shown.channel
            == Some(channel),
        Pending::Leave(channel) => session.voice is None && shown.phase is Leaving && shown.channel
            == Some(channel),
        Pending::LeaveToStop => true,
        Pending::Stopped => true,
        _ => match session.voice {
            Some((_, channel)) => shown.phase is Connected && shown.channel == Some(channel),
            None => (shown.phase is Disconnected || shown.phase is Failed) && shown.channel is None,
        },
    }
}

proof fn followed_once(state: VoiceState, update: SessionUpdate)
    ensures
        voice_following(state, seq![update]) == (match update {
            SessionUpdate::Voice(update) => voice_after(state, update),
            _ => state,
        }),
        voice_following(state, Seq::empty()) == state,
{
    assert(seq![update].drop_last() =~= Seq::<SessionUpdate>::empty());
    assert(seq![update].last() == update);
    reveal_with_fuel(voice_following, 2);
}

/// What is shown of a user's voice follows the session through every command.
pub proof fn commands_keep_in_step(session: Session, shown: VoiceState, command: SessionCommand)
    requires
        session.pending is Nothing,
        in_step(session, shown),
    ensures
        ({
            let (after, step) = commanded(session, command);
            in_step(after, voice_following(shown, step.updates))
        }),
{
    let (after, step) = commanded(session, command);
    if step.updates.len() > 0 {
        assert(step.updates =~= seq![step.updates[0]]);
        followed_once(shown, step.updates[0]);
    } else {
        assert(step.updates =~= Seq::<SessionUpdate>::empty());
    }
}

/// What is shown of a user's voice follows the session through every reply.
pub proof fn replies_keep_in_step(session: Session, shown: VoiceState, reply: Reply)
    requires
        in_step(session, shown),
    ensures
        ({
            let (after, step) = replied(session, reply);
            in_step(after, voice_following(shown, step.updates))
        }),
{
    let (after, step) = replied(session, reply);
    if step.updates.len() == 2 {
        assert(step.updates.drop_last() =~= seq![step.updates[0]]);
        followed_once(shown, step.updates[0]);
    } else if step.updates.len() == 1 {
        assert(step.updates =~= seq![step.updates[0]]);
        followed_once(shown, step.updates[0]);
    } else {
        assert(step.updates =~= Seq::<SessionUpdate>::empty());
    }
}

/// The end of a stream that is no longer the session's changes nothing.
pub proof fn earlier_streams_do_not_matter(
    session: Session,
    generation: u64,
    channel: ChannelId,
    result: Result<(), String>,
)
    requires
        session.voice matches Some(current) ==> current.0 != generation,
    ensures
        commanded(session, SessionCommand::VoiceFinished { generation, channel, result }) == (
            session,
            quiet(Action::Nothing),
        ),
{
}

/// How a community that is already there is opened.
pub fn open_existing(data_dir: &str, connectivity: ConnectivityMode, has_database: bool) -> (config:
    Result<NodeConfig, String>)
    ensures
        match config {
            Ok(config) => has_database && opens(config, data_dir@, connectivity, None, true),
            Err(error) => !has_database && error@ == data_dir@ + " is not an existing community"@,
        },
{
    if !has_database {
        let mut error: String = data_dir.to_owned();
        push_text(&mut error, " is not an existing community");
        return Err(error);
    }
    Ok(connectivity.configure(NodeConfig::new(data_dir).existing()))
}

/// Whether a node is opened like this.
pub open spec fn opens(
    config: NodeConfig,
    data_dir: Seq<char>,
    connectivity: ConnectivityMode,
    community: Option<(crate::community::CommunityId, MemberId)>,
    existing: bool,
) -> bool {
    &&& config.data_dir@ == data_dir
    &&& config.community == community
    &&& config.require_existing_community == existing
    &&& config.connectivity == match connectivity {
        ConnectivityMode::Wan => Connectivity::Wan,
        ConnectivityMode::RelayOnly => Connectivity::RelayOnly,
    }
}

/// How a new community is opened.
pub fn create_new(data_dir: &str, connectivity: ConnectivityMode) -> (config: NodeConfig)
    ensures
        opens(config, data_dir@, connectivity, None, false),
{
    connectivity.configure(NodeConfig::new(data_dir))
}

/// How a community is joined: as whose, and whom to connect to.
pub fn join_new(
    data_dir: &str,
    invite: &CommunityInvite,
    connectivity: ConnectivityMode,
) -> (joining:
    (NodeConfig, PeerAddress))
    ensures
        opens(
            joining.0,
            data_dir@,
            connectivity,
            Some((invite@.community_id, invite@.owner_address.member)),
            false,
        ),
        joining.1@ == invite@.owner_address,
{
    let address: PeerAddress = invite.owner_address().clone();
    (
        connectivity.configure(
            NodeConfig::new(data_dir).community(invite.community_id(), address.member_id()),
        ),
        address,
    )
}

/// How a community is opened once an identity was restored in its directory.
pub fn recover(data_dir: &str, connectivity: ConnectivityMode) -> (config: NodeConfig)
    ensures
        opens(config, data_dir@, connectivity, None, true),
{
    connectivity.configure(NodeConfig::new(data_dir).existing())
}

/// What was read of text channels, as a replica remembers.
pub open spec fn remembered(
    channels: Seq<ChannelModel>,
    cursors: Map<ChannelId, MessageId>,
) -> Map<ChannelId, MessageId>
    decreases channels.len(),
{
    if channels.len() == 0 {
        Map::empty()
    } else {
        let before = remembered(channels.drop_last(), cursors);
        let channel = channels.last();
        if channel.kind is Text && cursors.dom().contains(channel.id) {
            read_after(before, channel.id, cursors[channel.id])
        } else {
            before
        }
    }
}

/// Whether this is what a user sees first.
pub open spec fn first_seen(
    replica: ReplicaModel,
    local_member: MemberId,
    address: Seq<char>,
    state: CommunityView,
) -> bool {
    exists|snapshot: Snapshot| #[trigger]
        shows(replica, snapshot) && state == seen_of(snapshot, replica, local_member, address)
}

/// What a user sees first of a snapshot.
pub open spec fn seen_of(
    snapshot: Snapshot,
    replica: ReplicaModel,
    local_member: MemberId,
    address: Seq<char>,
) -> CommunityView {
    let state = projected(snapshot, local_member);
    CommunityView {
        local_address: address,
        last_read: remembered(state.channels, replica.cursors),
        ..state
    }
}

/// What a user sees first.
pub fn opened(egregore: &Egregore, address: String) -> (state: Result<CommunityState, Fault>)
    requires
        egregore@.well_formed(),
    ensures
        match state {
            Ok(state) => first_seen(
                egregore@.replica,
                egregore@.local_member,
                address@,
                state@,
            ),
            Err(fault) => snapshot_fault(egregore@.replica) == Some(fault@),
        },
{
    let replica: &Replica = egregore.replica();
    let seen: Snapshot = match snapshot(replica) {
        Ok(seen) => seen,
        Err(fault) => {
            return Err(fault);
        },
    };
    let mut state: CommunityState = CommunityState::from_snapshot(&seen, egregore.local_member());
    state.set_local_address(address);
    let ghost start = state@;
    let ghost views = state@.channels;
    let mut i: usize = 0;
    assert(views.take(0) =~= Seq::<ChannelModel>::empty());
    assert(state@.last_read =~= remembered(views.take(0), replica@.cursors));
    while i < state.channels.len()
        invariant
            i <= views.len(),
            views.len() == state.channels@.len(),
            views == state@.channels,
            state@ == (CommunityView {
                last_read: remembered(views.take(i as int), replica@.cursors),
                ..start
            }),
        decreases views.len() - i,
    {
        let id: ChannelId = state.channels[i].id;
        assert(views[i as int] == state.channels@[i as int]@);
        assert(views.take(i + 1).drop_last() =~= views.take(i as int));
        assert(views.take(i + 1).last() == views[i as int]);
        if state.channels[i].kind == ChannelKind::Text {
            match replica.last_read(id) {
                Some(message) => {
                    state.record_read(id, message);
                },
                None => {},
            }
        }
        assert(state@.channels.len() == state.channels@.len());
        i += 1;
    }
    proof {
        assert(views.take(i as int) =~= views);
        assert(shows(replica@, seen));
        assert(state@ == seen_of(seen, replica@, egregore@.local_member, address@));
    }
    Ok(state)
}

/// What a user asks for is done as it was asked, and what comes of it is told: a failure where it
/// failed, the invite where one was asked for, and how far a channel was read once that was noted.
pub proof fn requests_are_carried_out(
    session: Session,
    command: Command,
    channel: ChannelId,
    message: MessageId,
    text: String,
    error: String,
)
    requires
        session.pending is Nothing,
    ensures
        ({
            let (asked, step) = commanded(session, SessionCommand::Execute(command));
            &&& step.action == Action::Execute(command)
            &&& step.updates.len() == 0
            &&& replied(asked, Reply::Done).1.updates.len() == 0
            &&& replied(asked, Reply::Failed(error)).1.updates == seq![
                SessionUpdate::CommandFailed(error),
            ]
            &&& replied(asked, Reply::Done).0 == session
            &&& replied(asked, Reply::Failed(error)).0 == session
        }),
        ({
            let (asked, step) = commanded(session, SessionCommand::MarkRead { channel, message });
            &&& step.action == Action::MarkRead { channel, message }
            &&& replied(asked, Reply::Done).1.updates == seq![
                SessionUpdate::ReadStored { channel, message },
            ]
            &&& replied(asked, Reply::Failed(error)).1.updates == seq![
                SessionUpdate::CommandFailed(error),
            ]
            &&& replied(asked, Reply::Done).0 == session
        }),
        ({
            let (asked, step) = commanded(session, SessionCommand::RequestInvite);
            &&& step.action is CreateInvite
            &&& replied(asked, Reply::Invite(text)).1.updates == seq![
                SessionUpdate::InviteReady(text),
            ]
            &&& replied(asked, Reply::Failed(error)).1.updates == seq![
                SessionUpdate::CommandFailed(error),
            ]
            &&& replied(asked, Reply::Invite(text)).0 == session
        }),
{
}

/// Whoever is in no voice channel and joins one is told that it is joining, and is in it once that
/// worked; where it did not, it is in none and is told why.
pub proof fn joining_leads_into_the_channel(session: Session, channel: ChannelId, error: String)
    requires
        session.pending is Nothing,
        session.voice is None,
    ensures
        ({
            let (asked, step) = commanded(session, SessionCommand::JoinVoice(channel));
            let (joined, told) = replied(asked, Reply::Done);
            let (failed, complained) = replied(asked, Reply::Failed(error));
            &&& step.updates == seq![SessionUpdate::Voice(VoiceUpdate::Joining(channel))]
            &&& step.action == Action::JoinVoice { generation: asked.generation, channel }
            &&& asked.generation != session.generation
            &&& joined.voice == Some((asked.generation, channel))
            &&& joined.pending is Nothing
            &&& told.updates == seq![SessionUpdate::Voice(VoiceUpdate::Joined(channel))]
            &&& failed.voice is None && failed.pending is Nothing
            &&& complained.updates == seq![
                SessionUpdate::Voice(VoiceUpdate::Failed { channel, error }),
            ]
        }),
{
}

/// Whoever is in a voice channel and joins another one leaves the first, and only then joins.
pub proof fn moving_leaves_before_it_joins(
    session: Session,
    stream: u64,
    previous: ChannelId,
    channel: ChannelId,
)
    requires
        session.pending is Nothing,
        session.voice == Some((stream, previous)),
    ensures
        ({
            let (leaving, first) = commanded(session, SessionCommand::JoinVoice(channel));
            let (joining, second) = replied(leaving, Reply::Done);
            let (joined, third) = replied(joining, Reply::Done);
            &&& first.updates == seq![SessionUpdate::Voice(VoiceUpdate::Leaving(previous))]
            &&& first.action is LeaveVoice
            &&& leaving.voice is None
            &&& second.updates == seq![SessionUpdate::Voice(VoiceUpdate::Joining(channel))]
            &&& second.action == Action::JoinVoice { generation: joining.generation, channel }
            &&& joining.generation != session.generation
            &&& third.updates == seq![SessionUpdate::Voice(VoiceUpdate::Joined(channel))]
            &&& joined.voice == Some((joining.generation, channel))
            &&& joined.pending is Nothing
        }),
{
}

/// Whoever leaves its voice channel is in none; whoever is in none has nothing to leave.
pub proof fn leaving_leads_out_of_the_channel(
    session: Session,
    stream: u64,
    channel: ChannelId,
    error: String,
)
    requires
        session.pending is Nothing,
    ensures
        session.voice == Some((stream, channel)) ==> ({
            let (leaving, step) = commanded(session, SessionCommand::LeaveVoice);
            let (left, told) = replied(leaving, Reply::Done);
            &&& step.updates == seq![SessionUpdate::Voice(VoiceUpdate::Leaving(channel))]
            &&& step.action is LeaveVoice
            &&& left.voice is None && left.pending is Nothing
            &&& told.updates == seq![SessionUpdate::Voice(VoiceUpdate::Disconnected)]
            &&& replied(leaving, Reply::Failed(error)).1.updates == seq![
                SessionUpdate::Voice(VoiceUpdate::Failed { channel, error }),
            ]
        }),
        session.voice is None ==> ({
            let (left, step) = commanded(session, SessionCommand::LeaveVoice);
            left.voice is None && left.pending is Nothing && step.action is Nothing
                && step.updates.len() == 0
        }),
{
}

/// Muting and deafening are for whoever is in a voice channel, and do not move anybody.
pub proof fn muting_needs_a_voice(session: Session, on: bool)
    requires
        session.pending is Nothing,
    ensures
        ({
            let (after, step) = commanded(session, SessionCommand::SetVoiceMuted(on));
            &&& after == session
            &&& session.voice is Some ==> step.action == Action::SetMuted(on) && step.updates
                == seq![SessionUpdate::Voice(VoiceUpdate::Muted(on))]
            &&& session.voice is None ==> step.action is Nothing && step.updates.len() == 0
        }),
        ({
            let (after, step) = commanded(session, SessionCommand::SetVoiceDeafened(on));
            &&& after == session
            &&& session.voice is Some ==> step.action == Action::SetDeafened(on) && step.updates
                == seq![SessionUpdate::Voice(VoiceUpdate::Deafened(on))]
            &&& session.voice is None ==> step.action is Nothing && step.updates.len() == 0
        }),
{
}

/// A stream that ends by itself leads out of its channel, with the reason where there is one.
pub proof fn finished_streams_lead_out(
    session: Session,
    stream: u64,
    channel: ChannelId,
    error: String,
)
    requires
        session.pending is Nothing,
        session.voice == Some((stream, channel)),
    ensures
        ({
            let (after, step) = commanded(
                session,
                SessionCommand::VoiceFinished { generation: stream, channel, result: Ok(()) },
            );
            &&& after.voice is None && after.pending is Nothing
            &&& step.action is ReleaseVoice
            &&& step.updates == seq![SessionUpdate::Voice(VoiceUpdate::Disconnected)]
        }),
        ({
            let (after, step) = commanded(
                session,
                SessionCommand::VoiceFinished { generation: stream, channel, result: Err(error) },
            );
            &&& after.voice is None && after.pending is Nothing
            &&& step.action is ReleaseVoice
            &&& step.updates == seq![SessionUpdate::Voice(VoiceUpdate::Failed { channel, error })]
        }),
{
}

/// A session that is shut down stops, and leaves its voice channel first where it is in one.
pub proof fn sessions_leave_before_they_stop(session: Session, reply: Reply)
    requires
        session.pending is Nothing,
    ensures
        ({
            let (after, step) = commanded(session, SessionCommand::Shutdown);
            &&& session.voice is None ==> step.action is Stop && after.pending is Stopped
            &&& session.voice is Some ==> step.action is LeaveVoice && after.voice is None
                && replied(after, reply).1.action is Stop && replied(after, reply).0.pending
                is Stopped
            &&& step.updates.len() == 0
        }),
{
}

/// The voice that is shown follows what is told of it: where it is, and whether it is muted or
/// deaf. Joining starts with neither, and nothing is left once it is over.
pub proof fn shown_voices_follow_the_updates(
    state: VoiceState,
    channel: ChannelId,
    on: bool,
    error: String,
)
    ensures
        ({
            let after = voice_after(state, VoiceUpdate::Joining(channel));
            after.channel == Some(channel) && after.phase is Joining && !after.muted
                && !after.deafened && after.error is None
        }),
        ({
            let after = voice_after(state, VoiceUpdate::Joined(channel));
            after.channel == Some(channel) && after.phase is Connected && after.muted == state.muted
                && after.deafened == state.deafened && after.error is None
        }),
        ({
            let after = voice_after(state, VoiceUpdate::Muted(on));
            after.muted == on && after.deafened == state.deafened && after.channel == state.channel
                && after.phase == state.phase && after.error == state.error
        }),
        ({
            let after = voice_after(state, VoiceUpdate::Deafened(on));
            after.deafened == on && after.muted == state.muted && after.channel == state.channel
                && after.phase == state.phase && after.error == state.error
        }),
        ({
            let after = voice_after(state, VoiceUpdate::Leaving(channel));
            after.channel == Some(channel) && after.phase is Leaving
        }),
        ({
            let after = voice_after(state, VoiceUpdate::Disconnected);
            after.channel is None && after.phase is Disconnected && !after.muted && !after.deafened
                && after.error is None
        }),
        ({
            let after = voice_after(state, VoiceUpdate::Failed { channel, error });
            after.channel is None && after.phase is Failed && after.error == Some(error)
                && !after.muted && !after.deafened
        }),
{
}

/// When a community is opened, each of its text channels was read as far as was noted, and no other
/// channel was read.
pub proof fn cursors_are_remembered(
    channels: Seq<ChannelModel>,
    cursors: Map<ChannelId, MessageId>,
    id: ChannelId,
)
    ensures
        remembered(channels, cursors).dom().contains(id) <==> cursors.dom().contains(id) && exists|
            i: int,
        |
            0 <= i < channels.len() && (#[trigger] channels[i]).id == id && channels[i].kind is Text,
        remembered(channels, cursors).dom().contains(id) ==> remembered(channels, cursors)[id]
            == cursors[id],
    decreases channels.len(),
{
    if channels.len() > 0 {
        let before = channels.drop_last();
        let last = channels.last();
        cursors_are_remembered(before, cursors, id);
        assert(channels[channels.len() - 1] == last);
        if exists|i: int|
            0 <= i < channels.len() && (#[trigger] channels[i]).id == id && channels[i].kind
                is Text {
            let i = choose|i: int|
                0 <= i < channels.len() && (#[trigger] channels[i]).id == id && channels[i].kind
                    is Text;
            if i < before.len() {
                assert(before[i] == channels[i]);
            }
        }
        if exists|i: int|
            0 <= i < before.len() && (#[trigger] before[i]).id == id && before[i].kind is Text {
            let i = choose|i: int|
                0 <= i < before.len() && (#[trigger] before[i]).id == id && before[i].kind is Text;
            assert(channels[i] == before[i]);
        }
    }
}

/// A community opens with its snapshot, the own address and what was read.
pub proof fn communities_open_where_they_were_left(
    replica: ReplicaModel,
    local_member: MemberId,
    address: Seq<char>,
    state: CommunityView,
    channel: ChannelId,
)
    requires
        first_seen(replica, local_member, address, state),
    ensures
        state.local_address == address,
        state.local_member == local_member,
        (exists|i: int|
            0 <= i < state.channels.len() && (#[trigger] state.channels[i]).id == channel
                && state.channels[i].kind is Text) && replica.cursors.dom().contains(channel)
            ==> state.last_read.dom().contains(channel) && state.last_read[channel]
            == replica.cursors[channel],
        exists|snapshot: Snapshot| #[trigger]
            shows(replica, snapshot) && state.messages == projected(snapshot, local_member).messages
                && state.attachments == projected(snapshot, local_member).attachments
                && state.channels == projected(snapshot, local_member).channels && state.members
                == projected(snapshot, local_member).members,
{
    let snapshot = choose|snapshot: Snapshot| #[trigger]
        shows(replica, snapshot) && state == seen_of(snapshot, replica, local_member, address);
    cursors_are_remembered(
        projected(snapshot, local_member).channels,
        replica.cursors,
        channel,
    );
    assert(shows(replica, snapshot));
}

} // verus!
