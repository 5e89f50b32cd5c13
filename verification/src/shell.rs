//! What a user's window does: which communities are open, what is asked of their sessions, and what is
//! shown.
//!
//! Paths are compared as texts.

use vstd::prelude::*;

use crate::audio::{copy_of, said, texts, VoiceDeviceNames};
use crate::community::MemberId;
use crate::config::{AppConfig, ConfigModel};
use crate::fault::{fault_kind_text, FaultModel};
use crate::forms::AskModel;
use crate::model::{
    ChannelId, ChannelKind, ChannelModel, Event, MessageId, Snapshot, TextModel, VoicePresence,
    MAX_VOICE_PARTICIPANTS,
};
use crate::outcome::EventModel;
use crate::session::{voice_after, SessionCommand, SessionUpdate, VoiceState, VoiceUpdate};
use crate::sorted::sorted_keys;
use crate::state::{
    channel_views, diagnostic_views, is_latest_item, latest_is, latest_of, seat_views, seated,
    voice_room_available, ChannelState, CommunityAccess, CommunityState, CommunityView, MemberState,
    MemberView,
};
use crate::text::same_text;

verus! {

/// What is shown while no community is.
#[derive(Clone, Copy, Debug, PartialEq, Eq, Structural)]
pub enum Onboarding {
    Choice,
    Create,
    Join,
    Recover,
    Opening,
}

/// What is shown on top of a community.
#[derive(Clone, Copy, Debug, PartialEq, Eq)]
pub enum Overlay {
    Settings,
    CreateChannel(ChannelKind),
    Member(MemberId),
    ConfirmRemove(MemberId),
}

/// A session that the window has: of the community that is shown, of the one that the voice is in
/// while another is shown, or of the one that was just opened.
#[derive(Clone, Copy, Debug, PartialEq, Eq, Structural)]
pub enum Slot {
    Current,
    Background,
    Fresh,
}

/// What becomes of the session of the community that was shown: there was none, it stays in the
/// background, it is closed, or it is closed without waiting for what comes of it.
#[derive(Clone, Copy, Debug, PartialEq, Eq, Structural)]
pub enum Former {
    Absent,
    Parked,
    Closed,
    Released,
}

/// When the error of an order is shown: in any case, where nothing failed before it, or never.
#[derive(Clone, Copy, Debug, PartialEq, Eq, Structural)]
pub enum Heed {
    Always,
    Otherwise,
    Never,
}

/// What the window has done, in order. Where something failed, the devices are not handed on to another
/// session, a name is not remembered and an overlay is not closed; the other orders are carried out all
/// the same.
#[derive(Debug)]
pub enum Order {
    Ask { slot: Slot, command: SessionCommand },
    UseDevices { slot: Slot, heed: Heed },
    AlsoUseDevices(Slot),
    CloseBackground,
    Arrive { from: Slot, former: Former },
    SaveConfig(Heed),
    CopyText(String),
    RefreshLater,
    RememberName(String),
    CloseOverlay,
    ScanDevices,
    ReadAttachment { path: String, channel: ChannelId },
}

/// What an order says.
pub enum OrderModel {
    Ask { slot: Slot, command: AskModel },
    UseDevices { slot: Slot, heed: Heed },
    AlsoUseDevices(Slot),
    CloseBackground,
    Arrive { from: Slot, former: Former },
    SaveConfig(Heed),
    CopyText(Seq<char>),
    RefreshLater,
    RememberName(Seq<char>),
    CloseOverlay,
    ScanDevices,
    ReadAttachment { path: Seq<char>, channel: ChannelId },
}

impl View for Order {
    type V = OrderModel;

    open spec fn view(&self) -> OrderModel {
        match self {
            Order::Ask { slot, command } => OrderModel::Ask { slot: *slot, command: command@ },
            Order::UseDevices { slot, heed } => OrderModel::UseDevices { slot: *slot, heed: *heed },
            Order::AlsoUseDevices(slot) => OrderModel::AlsoUseDevices(*slot),
            Order::CloseBackground => OrderModel::CloseBackground,
            Order::Arrive { from, former } => OrderModel::Arrive { from: *from, former: *former },
            Order::SaveConfig(heed) => OrderModel::SaveConfig(*heed),
            Order::CopyText(text) => OrderModel::CopyText(text@),
            Order::RefreshLater => OrderModel::RefreshLater,
            Order::RememberName(name) => OrderModel::RememberName(name@),
            Order::CloseOverlay => OrderModel::CloseOverlay,
            Order::ScanDevices => OrderModel::ScanDevices,
            Order::ReadAttachment { path, channel } => OrderModel::ReadAttachment {
                path: path@,
                channel: *channel,
            },
        }
    }
}

impl OrderModel {
    /// Whether the order is carried out, after something before it failed or did not.
    pub open spec fn due(self, failed: bool) -> bool {
        match self {
            OrderModel::AlsoUseDevices(_) => !failed,
            OrderModel::RememberName(_) => !failed,
            OrderModel::CloseOverlay => !failed,
            _ => true,
        }
    }

    /// When the order's error is shown.
    pub open spec fn heed(self) -> Heed {
        match self {
            OrderModel::UseDevices { heed, .. } => heed,
            OrderModel::SaveConfig(heed) => heed,
            _ => Heed::Always,
        }
    }
}

impl Order {
    /// Whether the order is carried out, after something before it failed or did not.
    pub fn is_due(&self, failed: bool) -> (due: bool)
        ensures
            due == self@.due(failed),
    {
        match self {
            Order::AlsoUseDevices(_) => !failed,
            Order::RememberName(_) => !failed,
            Order::CloseOverlay => !failed,
            _ => true,
        }
    }

    /// When the order's error is shown.
    pub fn heed(&self) -> (heed: Heed)
        ensures
            heed == self@.heed(),
    {
        match self {
            Order::UseDevices { heed, .. } => *heed,
            Order::SaveConfig(heed) => *heed,
            _ => Heed::Always,
        }
    }
}

/// The error to show once another order failed.
pub open spec fn heard(shown: Option<Seq<char>>, error: Seq<char>, heed: Heed) -> Option<Seq<char>> {
    match heed {
        Heed::Always => Some(error),
        Heed::Otherwise => if shown is Some {
            shown
        } else {
            Some(error)
        },
        Heed::Never => shown,
    }
}

/// Chooses the error to show once another order failed.
pub fn hear(shown: Option<String>, error: String, heed: Heed) -> (next: Option<String>)
    ensures
        said(next) == heard(said(shown), error@, heed),
{
    match heed {
        Heed::Always => Some(error),
        Heed::Otherwise => if shown.is_some() {
            shown
        } else {
            Some(error)
        },
        Heed::Never => shown,
    }
}

/// What orders say.
pub open spec fn orders(list: Seq<Order>) -> Seq<OrderModel> {
    list.map_values(|order: Order| order@)
}

/// No orders.
pub open spec fn none() -> Seq<OrderModel> {
    Seq::empty()
}

pub(crate) fn give(list: &mut Vec<Order>, order: Order)
    ensures
        orders(final(list)@) == orders(old(list)@).push(order@),
{
    let ghost before = list@;
    list.push(order);
    assert(orders(list@) =~= orders(before).push(order@));
}

pub(crate) fn append(list: &mut Vec<Order>, more: Vec<Order>)
    ensures
        orders(final(list)@) == orders(old(list)@) + orders(more@),
{
    let ghost before = list@;
    let ghost added = more@;
    let mut more: Vec<Order> = more;
    list.append(&mut more);
    assert(orders(list@) =~= orders(before) + orders(added));
}

pub(crate) fn nothing() -> (list: Vec<Order>)
    ensures
        orders(list@) == none(),
{
    let list: Vec<Order> = Vec::new();
    assert(orders(list@) =~= none());
    list
}

pub(crate) fn just(order: Order) -> (list: Vec<Order>)
    ensures
        orders(list@) == seq![order@],
{
    let mut list: Vec<Order> = Vec::new();
    list.push(order);
    assert(orders(list@) =~= seq![order@]);
    list
}

/// A user's window. Paths are compared as texts: whoever hands one over spells it in one way first, so
/// that two paths with the same components are the same text.
#[derive(Debug)]
pub struct Shell {
    pub config: AppConfig,
    pub community_paths: Vec<String>,
    pub current_path: Option<String>,
    pub state: Option<CommunityState>,
    pub background: Option<(String, CommunityState)>,
    pub voice_origin: Option<String>,
    pub pending_voice: Option<(String, ChannelId)>,
    pub voice: VoiceState,
    pub invite: Option<String>,
    pub onboarding: Onboarding,
    pub open_generation: u64,
    pub preview: bool,
    pub overlay: Option<Overlay>,
    pub switching_community: bool,
    pub audio_devices: VoiceDeviceNames,
    pub load_error: Option<String>,
}

/// What a window is: the community that is shown and its path, the community that the voice is in
/// while another is shown, where the voice is, and where it is to go next.
#[verifier::ext_equal]
pub struct ShellModel {
    pub config: ConfigModel,
    pub community_paths: Seq<Seq<char>>,
    pub current_path: Option<Seq<char>>,
    pub state: Option<CommunityView>,
    pub background: Option<(Seq<char>, CommunityView)>,
    pub voice_origin: Option<Seq<char>>,
    pub pending_voice: Option<(Seq<char>, ChannelId)>,
    pub voice: VoiceState,
    pub invite: Option<Seq<char>>,
    pub onboarding: Onboarding,
    pub open_generation: u64,
    pub preview: bool,
    pub overlay: Option<Overlay>,
    pub switching_community: bool,
    pub inputs: Seq<Seq<char>>,
    pub outputs: Seq<Seq<char>>,
    pub load_error: Option<Seq<char>>,
}

/// What is seen of a community, if one is open.
pub open spec fn seen(state: Option<CommunityState>) -> Option<CommunityView> {
    match state {
        Some(state) => Some(state@),
        None => None,
    }
}

/// What is seen of a community in the background, if there is one.
pub open spec fn seen_behind(background: Option<(String, CommunityState)>) -> Option<
    (Seq<char>, CommunityView),
> {
    match background {
        Some((path, state)) => Some((path@, state@)),
        None => None,
    }
}

/// Where the voice is to go.
pub open spec fn awaited(pending: Option<(String, ChannelId)>) -> Option<(Seq<char>, ChannelId)> {
    match pending {
        Some((path, channel)) => Some((path@, channel)),
        None => None,
    }
}

impl View for Shell {
    type V = ShellModel;

    open spec fn view(&self) -> ShellModel {
        ShellModel {
            config: self.config@,
            community_paths: texts(self.community_paths@),
            current_path: said(self.current_path),
            state: seen(self.state),
            background: seen_behind(self.background),
            voice_origin: said(self.voice_origin),
            pending_voice: awaited(self.pending_voice),
            voice: self.voice,
            invite: said(self.invite),
            onboarding: self.onboarding,
            open_generation: self.open_generation,
            preview: self.preview,
            overlay: self.overlay,
            switching_community: self.switching_community,
            inputs: texts(self.audio_devices.input@),
            outputs: texts(self.audio_devices.output@),
            load_error: said(self.load_error),
        }
    }
}

/// What a fault says, in one line.
pub open spec fn fault_line(fault: FaultModel) -> Seq<char> {
    fault_kind_text(fault.kind) + ": "@ + fault.message
}

/// The channel of the item that an event tells of.
pub open spec fn item_channel(event: EventModel) -> Option<ChannelId> {
    match event {
        EventModel::TextStored { author, text } => Some(text.channel_id),
        EventModel::AttachmentStored { author, attachment } => Some(attachment.channel_id),
        _ => None,
    }
}

/// Whether an event tells that a member left a channel.
pub open spec fn tells_leaving(
    event: EventModel,
    member: MemberId,
    channel: Option<ChannelId>,
) -> bool {
    match event {
        EventModel::VoicePresence { channel: left, member: who, state: VoicePresence::Left } => who
            == member && channel == Some(left),
        _ => false,
    }
}

/// Whether access ended.
pub open spec fn access_ended(before: CommunityView, after: CommunityView) -> bool {
    !(before.access is Removed) && after.access is Removed
}

/// The kind of a channel in a list.
pub open spec fn kind_of(channels: Seq<ChannelModel>, id: ChannelId) -> Option<ChannelKind>
    decreases channels.len(),
{
    if channels.len() == 0 {
        None
    } else if channels[0].id == id {
        Some(channels[0].kind)
    } else {
        kind_of(channels.drop_first(), id)
    }
}

/// Who is shown in a voice channel.
pub open spec fn room_of(state: CommunityView, channel: ChannelId) -> Seq<(MemberView, bool)> {
    seated(state.members, state.voice, sorted_keys(state.voice), channel)
}

/// Whether a voice channel takes the local member.
pub open spec fn has_room(state: CommunityView, channel: ChannelId) -> bool {
    room_of(state, channel).len() < MAX_VOICE_PARTICIPANTS || exists|i: int|
        0 <= i < room_of(state, channel).len() && (#[trigger] room_of(state, channel)[i]).0.id
            == state.local_member
}

impl ShellModel {
    /// Whether a community is in the background.
    pub open spec fn is_behind(self, path: Seq<char>) -> bool {
        match self.background {
            Some((stored, _)) => stored == path,
            None => false,
        }
    }

    /// The session of a community, where it has one.
    pub open spec fn slot_of(self, path: Seq<char>) -> Option<Slot> {
        if self.current_path == Some(path) {
            if self.state is Some {
                Some(Slot::Current)
            } else {
                None
            }
        } else if self.is_behind(path) {
            Some(Slot::Background)
        } else {
            None
        }
    }

    /// The session that the voice is in.
    pub open spec fn voice_slot(self) -> Option<Slot> {
        match self.voice_origin {
            Some(path) => self.slot_of(path),
            None => None,
        }
    }

    /// A request to the session that the voice is in.
    pub open spec fn to_voice(self, command: AskModel) -> Seq<OrderModel> {
        match self.voice_slot() {
            Some(slot) => seq![OrderModel::Ask { slot, command }],
            None => none(),
        }
    }

    /// The request to remember that the latest item of the selected channel was read.
    pub open spec fn marking(self) -> Seq<OrderModel> {
        match self.state {
            Some(state) => match latest_of(state, state.selected_channel) {
                Some(message) => seq![
                    OrderModel::Ask {
                        slot: Slot::Current,
                        command: AskModel::MarkRead {
                            channel: state.selected_channel,
                            message,
                        },
                    },
                ],
                None => none(),
            },
            None => none(),
        }
    }
}

impl ShellModel {
    /// The window once the voice of a community changed.
    pub open spec fn voiced(self, source: Seq<char>, update: VoiceUpdate) -> (
        ShellModel,
        Seq<OrderModel>,
    ) {
        let ended = update is Disconnected || update is Failed;
        let heard = ShellModel { voice: voice_after(self.voice, update), ..self };
        if !ended || self.voice_origin != Some(source) {
            (heard, none())
        } else {
            let closing = self.is_behind(source);
            let freed = ShellModel {
                voice_origin: None,
                background: if closing {
                    None
                } else {
                    self.background
                },
                pending_voice: None,
                ..heard
            };
            let closed = if closing {
                seq![OrderModel::CloseBackground]
            } else {
                none()
            };
            match self.pending_voice {
                Some((target, channel)) => if self.current_path == Some(target) && self.state
                    is Some {
                    (
                        ShellModel { voice_origin: Some(target), ..freed },
                        closed.push(
                            OrderModel::Ask {
                                slot: Slot::Current,
                                command: AskModel::JoinVoice(channel),
                            },
                        ),
                    )
                } else {
                    (freed, closed)
                },
                None => (freed, closed),
            }
        }
    }

    /// The window once what is seen of the community that is shown changed.
    pub open spec fn seeing(self, state: CommunityView) -> ShellModel {
        ShellModel { state: Some(state), ..self }
    }

    /// The window once what is seen of the community in the background changed.
    pub open spec fn seeing_behind(self, state: CommunityView) -> ShellModel {
        match self.background {
            Some((path, _)) => ShellModel { background: Some((path, state)), ..self },
            None => self,
        }
    }

    /// The requests to leave the voice, where it is to be left.
    pub open spec fn leaving_if(self, leave: bool) -> Seq<OrderModel> {
        if leave {
            self.to_voice(AskModel::LeaveVoice)
        } else {
            none()
        }
    }

    /// The window once an event of a community came in.
    pub open spec fn told(self, source: Seq<char>, event: EventModel, now: u64) -> (
        ShellModel,
        Seq<OrderModel>,
    ) {
        let here = self.current_path == Some(source);
        let speaking = if event is VoiceReceived {
            seq![OrderModel::RefreshLater]
        } else {
            none()
        };
        if here && self.state is Some {
            let before = self.state->0;
            let after = before.applied(event, now);
            let next = self.seeing(after);
            let leave = self.voice_origin == Some(source) && (tells_leaving(
                event,
                before.local_member,
                self.voice.channel,
            ) || access_ended(before, after));
            let read = item_channel(event) == Some(before.selected_channel);
            (
                next,
                next.leaving_if(leave) + speaking + if read {
                    next.marking()
                } else {
                    none()
                },
            )
        } else if self.is_behind(source) {
            let before = (self.background->0).1;
            let after = before.applied(event, now);
            let next = self.seeing_behind(after);
            let leave = self.voice_origin == Some(source) && access_ended(before, after);
            (next, next.leaving_if(leave) + speaking)
        } else {
            (self, speaking)
        }
    }

    /// The window once a snapshot of a community came in.
    pub open spec fn shown_anew(self, source: Seq<char>, snapshot: Snapshot) -> (
        ShellModel,
        Seq<OrderModel>,
    ) {
        let here = self.current_path == Some(source);
        if here && self.state is Some {
            let before = self.state->0;
            let after = before.replaced(snapshot);
            let next = self.seeing(after);
            let leave = self.voice_origin == Some(source) && access_ended(before, after);
            (next, next.leaving_if(leave) + next.marking())
        } else if self.is_behind(source) {
            let before = (self.background->0).1;
            let after = before.replaced(snapshot);
            let next = self.seeing_behind(after);
            let leave = self.voice_origin == Some(source) && access_ended(before, after);
            (
                next,
                next.leaving_if(leave) + if here {
                    next.marking()
                } else {
                    none()
                },
            )
        } else {
            (self, none())
        }
    }

    /// The window once a session told something.
    pub open spec fn updated(self, source: Seq<char>, update: SessionUpdate, now: u64) -> (
        ShellModel,
        Seq<OrderModel>,
    ) {
        let here = self.current_path == Some(source);
        match update {
            SessionUpdate::Event(event) => match event@ {
                EventModel::Fault(fault) => (
                    ShellModel { load_error: Some(fault_line(fault)), ..self },
                    none(),
                ),
                _ => self.told(source, event@, now),
            },
            SessionUpdate::Snapshot(snapshot) => self.shown_anew(source, snapshot),
            SessionUpdate::CommandFailed(error) => (
                ShellModel { load_error: Some(error@), ..self },
                none(),
            ),
            SessionUpdate::InviteReady(invite) => (
                ShellModel { invite: Some(invite@), load_error: None, ..self },
                seq![OrderModel::CopyText(invite@)],
            ),
            SessionUpdate::ReadStored { channel, message } => (
                if here && self.state is Some {
                    self.seeing(self.state->0.reading(channel, message))
                } else if self.is_behind(source) {
                    self.seeing_behind((self.background->0).1.reading(channel, message))
                } else {
                    self
                },
                none(),
            ),
            SessionUpdate::Diagnostics(peers) => (
                if here && self.state is Some {
                    self.seeing(self.state->0.diagnosed(diagnostic_views(peers@)))
                } else if self.is_behind(source) {
                    self.seeing_behind((self.background->0).1.diagnosed(diagnostic_views(peers@)))
                } else {
                    self
                },
                none(),
            ),
            SessionUpdate::Voice(update) => self.voiced(source, update),
        }
    }

    /// The window once a channel was selected.
    pub open spec fn selecting(self, channel: ChannelId) -> (ShellModel, Seq<OrderModel>) {
        match self.state {
            None => (self, none()),
            Some(state) => {
                let is_voice = kind_of(state.channels, channel) == Some(ChannelKind::Voice);
                if is_voice && !has_room(state, channel) {
                    (
                        ShellModel { load_error: Some("voice room is full (4/4)"@), ..self },
                        none(),
                    )
                } else {
                    let next = self.seeing(state.selecting(channel));
                    let (moved, asked) = if is_voice && self.voice.channel != Some(channel) {
                        next.going_to(channel)
                    } else {
                        (next, none())
                    };
                    (moved, asked + moved.marking())
                }
            },
        }
    }

    /// The window once the voice is to go to a channel of the community that is shown: straight away, or
    /// once the voice left the community that it is in.
    pub open spec fn going_to(self, channel: ChannelId) -> (ShellModel, Seq<OrderModel>) {
        if self.voice.channel is Some && self.voice_origin != self.current_path {
            match (self.current_path, self.voice_origin) {
                (Some(target), Some(origin)) => (
                    ShellModel { pending_voice: Some((target, channel)), ..self },
                    match self.slot_of(origin) {
                        Some(slot) => seq![
                            OrderModel::Ask { slot, command: AskModel::LeaveVoice },
                        ],
                        None => none(),
                    },
                ),
                _ => (self, none()),
            }
        } else {
            match self.current_path {
                Some(path) => (
                    ShellModel { voice_origin: Some(path), ..self },
                    seq![
                        OrderModel::Ask {
                            slot: Slot::Current,
                            command: AskModel::JoinVoice(channel),
                        },
                    ],
                ),
                None => (self, none()),
            }
        }
    }
}

pub(crate) fn is_path(path: &Option<String>, other: &str) -> (is: bool)
    ensures
        is == (said(*path) == Some(other@)),
{
    match path {
        Some(path) => same_text(path.as_str(), other),
        None => false,
    }
}

fn same_paths(a: &Option<String>, b: &Option<String>) -> (same: bool)
    ensures
        same == (said(*a) == said(*b)),
{
    match b {
        Some(b) => is_path(a, b.as_str()),
        None => a.is_none(),
    }
}

fn is_voice_channel(channels: &Vec<ChannelState>, id: ChannelId) -> (voice: bool)
    ensures
        voice == (kind_of(channel_views(channels@), id) == Some(ChannelKind::Voice)),
{
    let ghost views = channel_views(channels@);
    let mut i: usize = 0;
    assert(views.skip(0) =~= views);
    while i < channels.len()
        invariant
            i <= channels@.len(),
            views == channel_views(channels@),
            kind_of(views, id) == kind_of(views.skip(i as int), id),
        decreases channels@.len() - i,
    {
        assert(views[i as int] == channels@[i as int]@);
        assert(views.skip(i as int)[0] == views[i as int]);
        assert(views.skip(i as int).drop_first() =~= views.skip(i + 1));
        if channels[i].id == id {
            return channels[i].kind == ChannelKind::Voice;
        }
        i += 1;
    }
    false
}

fn takes_local(state: &CommunityState, channel: ChannelId) -> (takes: bool)
    ensures
        takes == has_room(state@, channel),
{
    let seats: Vec<(MemberState, bool)> = state.voice_members(channel);
    let ghost room = room_of(state@, channel);
    let mut present: bool = false;
    let mut i: usize = 0;
    while i < seats.len()
        invariant
            i <= seats@.len(),
            room == room_of(state@, channel),
            seat_views(seats@) == room,
            present == exists|j: int|
                0 <= j < i && (#[trigger] room[j]).0.id == state@.local_member,
        decreases seats@.len() - i,
    {
        assert(room[i as int] == (seats@[i as int].0@, seats@[i as int].1));
        if seats[i].0.id == state.local_member {
            present = true;
        }
        i += 1;
    }
    voice_room_available(seats.len(), present)
}

impl Shell {
    fn slot_of(&self, path: &str) -> (slot: Option<Slot>)
        ensures
            slot == self@.slot_of(path@),
    {
        if is_path(&self.current_path, path) {
            if self.state.is_some() {
                Some(Slot::Current)
            } else {
                None
            }
        } else if self.is_behind(path) {
            Some(Slot::Background)
        } else {
            None
        }
    }

    pub(crate) fn is_behind(&self, path: &str) -> (behind: bool)
        ensures
            behind == self@.is_behind(path@),
    {
        match &self.background {
            Some(background) => same_text(background.0.as_str(), path),
            None => false,
        }
    }

    fn to_voice(&self, command: SessionCommand) -> (list: Vec<Order>)
        ensures
            orders(list@) == self@.to_voice(command@),
    {
        let slot: Option<Slot> = match &self.voice_origin {
            Some(path) => self.slot_of(path.as_str()),
            None => None,
        };
        match slot {
            Some(slot) => just(Order::Ask { slot, command }),
            None => nothing(),
        }
    }

    /// Leaves the voice.
    pub fn leave_voice(&self) -> (list: Vec<Order>)
        ensures
            orders(list@) == self@.to_voice(AskModel::LeaveVoice),
    {
        self.to_voice(SessionCommand::LeaveVoice)
    }

    /// Mutes or unmutes.
    pub fn toggle_voice_mute(&self) -> (list: Vec<Order>)
        ensures
            orders(list@) == self@.to_voice(AskModel::SetVoiceMuted(!self@.voice.muted)),
    {
        self.to_voice(SessionCommand::SetVoiceMuted(!self.voice.is_muted()))
    }

    /// Deafens or undeafens.
    pub fn toggle_voice_deafened(&self) -> (list: Vec<Order>)
        ensures
            orders(list@) == self@.to_voice(AskModel::SetVoiceDeafened(!self@.voice.deafened)),
    {
        self.to_voice(SessionCommand::SetVoiceDeafened(!self.voice.is_deafened()))
    }

    /// Remembers that the latest item of the selected channel was read.
    pub fn mark_selected_read(&self) -> (list: Vec<Order>)
        ensures
            orders(list@) == self@.marking(),
    {
        match &self.state {
            Some(state) => {
                let channel: ChannelId = state.selected_channel;
                match state.latest_item(channel) {
                    Some(message) => just(
                        Order::Ask {
                            slot: Slot::Current,
                            command: SessionCommand::MarkRead { channel, message },
                        },
                    ),
                    None => nothing(),
                }
            },
            None => nothing(),
        }
    }

    /// Takes what a community's session told of the voice.
    pub fn apply_voice_update(&mut self, source: &str, update: VoiceUpdate) -> (list: Vec<Order>)
        ensures
            old(self)@.voiced(source@, update) == (final(self)@, orders(list@)),
    {
        let ended: bool = matches!(update, VoiceUpdate::Disconnected | VoiceUpdate::Failed { .. });
        let ghost before = self@;
        self.voice.apply(update);
        if !ended || !is_path(&self.voice_origin, source) {
            return nothing();
        }
        self.voice_origin = None;
        let mut list: Vec<Order> = nothing();
        if self.is_behind(source) {
            self.background = None;
            give(&mut list, Order::CloseBackground);
            assert(orders(list@) =~= seq![OrderModel::CloseBackground]);
        }
        let pending: Option<(String, ChannelId)> = self.pending_voice.take();
        match pending {
            Some((target, channel)) => {
                if is_path(&self.current_path, target.as_str()) && self.state.is_some() {
                    self.voice_origin = Some(target);
                    give(
                        &mut list,
                        Order::Ask {
                            slot: Slot::Current,
                            command: SessionCommand::JoinVoice(channel),
                        },
                    );
                }
            },
            None => {},
        }
        list
    }

    fn leave_if(&self, leave: bool) -> (list: Vec<Order>)
        ensures
            orders(list@) == self@.leaving_if(leave),
    {
        if leave {
            self.leave_voice()
        } else {
            nothing()
        }
    }

    fn hear(&mut self, source: &str, event: Event, now: u64) -> (list: Vec<Order>)
        requires
            !(event@ is Fault),
        ensures
            old(self)@.told(source@, event@, now) == (final(self)@, orders(list@)),
    {
        let here: bool = is_path(&self.current_path, source);
        let voiced: bool = is_path(&self.voice_origin, source);
        let speaking: bool = matches!(event, Event::VoiceReceived(_));
        let item: Option<ChannelId> = match &event {
            Event::TextStored(authored) => Some(authored.message().channel_id()),
            Event::AttachmentStored(authored) => Some(authored.attachment().channel_id()),
            _ => None,
        };
        assert(item == item_channel(event@));
        if here && self.state.is_some() {
            let mut leave: bool = false;
            let mut read: bool = false;
            match &mut self.state {
                Some(state) => {
                    let access: CommunityAccess = state.access();
                    let left: bool = match &event {
                        Event::VoicePresence { channel, member, state: VoicePresence::Left } => {
                            *member == state.local_member() && match self.voice.channel {
                                Some(joined) => joined == *channel,
                                None => false,
                            }
                        },
                        _ => false,
                    };
                    read = match item {
                        Some(channel) => channel == state.selected_channel,
                        None => false,
                    };
                    state.apply(event, now);
                    leave = voiced && (left || (access != CommunityAccess::Removed && state.access()
                        == CommunityAccess::Removed));
                },
                None => {},
            }
            let mut list: Vec<Order> = self.leave_if(leave);
            if speaking {
                give(&mut list, Order::RefreshLater);
            }
            if read {
                let marked: Vec<Order> = self.mark_selected_read();
                append(&mut list, marked);
            }
            assert(orders(list@) =~= old(self)@.told(source@, event@, now).1);
            list
        } else if self.is_behind(source) {
            let mut leave: bool = false;
            match &mut self.background {
                Some(background) => {
                    let access: CommunityAccess = background.1.access();
                    background.1.apply(event, now);
                    leave = voiced && access != CommunityAccess::Removed && background.1.access()
                        == CommunityAccess::Removed;
                },
                None => {},
            }
            let mut list: Vec<Order> = self.leave_if(leave);
            if speaking {
                give(&mut list, Order::RefreshLater);
            }
            assert(orders(list@) =~= old(self)@.told(source@, event@, now).1);
            list
        } else if speaking {
            just(Order::RefreshLater)
        } else {
            nothing()
        }
    }
}

impl Shell {
    fn show_anew(&mut self, source: &str, snapshot: &Snapshot) -> (list: Vec<Order>)
        ensures
            old(self)@.shown_anew(source@, *snapshot) == (final(self)@, orders(list@)),
    {
        let here: bool = is_path(&self.current_path, source);
        let voiced: bool = is_path(&self.voice_origin, source);
        if here && self.state.is_some() {
            let mut leave: bool = false;
            match &mut self.state {
                Some(state) => {
                    let access: CommunityAccess = state.access();
                    state.replace_snapshot(snapshot);
                    leave = voiced && access != CommunityAccess::Removed && state.access()
                        == CommunityAccess::Removed;
                },
                None => {},
            }
            let mut list: Vec<Order> = self.leave_if(leave);
            let marked: Vec<Order> = self.mark_selected_read();
            append(&mut list, marked);
            list
        } else if self.is_behind(source) {
            let mut leave: bool = false;
            match &mut self.background {
                Some(background) => {
                    let access: CommunityAccess = background.1.access();
                    background.1.replace_snapshot(snapshot);
                    leave = voiced && access != CommunityAccess::Removed && background.1.access()
                        == CommunityAccess::Removed;
                },
                None => {},
            }
            let mut list: Vec<Order> = self.leave_if(leave);
            if here {
                let marked: Vec<Order> = self.mark_selected_read();
                append(&mut list, marked);
            }
            assert(orders(list@) =~= old(self)@.shown_anew(source@, *snapshot).1);
            list
        } else {
            nothing()
        }
    }

    /// Takes what a community's session told; `now` is the time.
    pub fn apply_session_update(&mut self, source: &str, update: SessionUpdate, now: u64) -> (list:
        Vec<Order>)
        ensures
            old(self)@.updated(source@, update, now) == (final(self)@, orders(list@)),
    {
        match update {
            SessionUpdate::Event(event) => {
                match event {
                    Event::Fault(fault) => {
                        self.load_error = Some(fault.to_text());
                        nothing()
                    },
                    event => self.hear(source, event, now),
                }
            },
            SessionUpdate::Snapshot(snapshot) => self.show_anew(source, &snapshot),
            SessionUpdate::CommandFailed(error) => {
                self.load_error = Some(error);
                nothing()
            },
            SessionUpdate::InviteReady(invite) => {
                let copy: String = invite.clone();
                self.invite = Some(invite);
                self.load_error = None;
                just(Order::CopyText(copy))
            },
            SessionUpdate::ReadStored { channel, message } => {
                if is_path(&self.current_path, source) && self.state.is_some() {
                    match &mut self.state {
                        Some(state) => state.record_read(channel, message),
                        None => {},
                    }
                } else if self.is_behind(source) {
                    match &mut self.background {
                        Some(background) => background.1.record_read(channel, message),
                        None => {},
                    }
                }
                nothing()
            },
            SessionUpdate::Diagnostics(peers) => {
                if is_path(&self.current_path, source) && self.state.is_some() {
                    match &mut self.state {
                        Some(state) => state.apply_diagnostics(&peers),
                        None => {},
                    }
                } else if self.is_behind(source) {
                    match &mut self.background {
                        Some(background) => background.1.apply_diagnostics(&peers),
                        None => {},
                    }
                }
                nothing()
            },
            SessionUpdate::Voice(update) => self.apply_voice_update(source, update),
        }
    }

    fn go_to(&mut self, channel: ChannelId) -> (list: Vec<Order>)
        ensures
            old(self)@.going_to(channel) == (final(self)@, orders(list@)),
    {
        if self.voice.channel.is_some() && !same_paths(&self.voice_origin, &self.current_path) {
            let target: Option<String> = copy_of(&self.current_path);
            match (target, &self.voice_origin) {
                (Some(target), Some(origin)) => {
                    let slot: Option<Slot> = self.slot_of(origin.as_str());
                    self.pending_voice = Some((target, channel));
                    match slot {
                        Some(slot) => just(
                            Order::Ask { slot, command: SessionCommand::LeaveVoice },
                        ),
                        None => nothing(),
                    }
                },
                _ => nothing(),
            }
        } else {
            match &self.current_path {
                Some(path) => {
                    self.voice_origin = Some(path.clone());
                    just(
                        Order::Ask {
                            slot: Slot::Current,
                            command: SessionCommand::JoinVoice(channel),
                        },
                    )
                },
                None => nothing(),
            }
        }
    }

    /// Selects a channel; the voice follows into a voice channel that takes it.
    pub fn select_channel(&mut self, channel: ChannelId) -> (list: Vec<Order>)
        ensures
            old(self)@.selecting(channel) == (final(self)@, orders(list@)),
    {
        let mut is_voice: bool = false;
        match &mut self.state {
            Some(state) => {
                is_voice = is_voice_channel(&state.channels, channel);
                if is_voice && !takes_local(state, channel) {
                    self.load_error = Some("voice room is full (4/4)".to_owned());
                    return nothing();
                }
                state.select_channel(channel);
            },
            None => {
                return nothing();
            },
        }
        let follows: bool = is_voice && match self.voice.channel {
            Some(joined) => joined != channel,
            None => true,
        };
        let mut list: Vec<Order> = if follows {
            self.go_to(channel)
        } else {
            nothing()
        };
        let marked: Vec<Order> = self.mark_selected_read();
        append(&mut list, marked);
        list
    }
}

/// Whether every request goes to a session that the window has.
pub open spec fn all_reach(shell: ShellModel, list: Seq<OrderModel>) -> bool {
    forall|i: int|
        0 <= i < list.len() ==> match #[trigger] list[i] {
            OrderModel::Ask { slot: Slot::Current, command } => shell.state is Some,
            OrderModel::Ask { slot: Slot::Background, command } => shell.background is Some,
            OrderModel::Ask { slot: Slot::Fresh, command } => false,
            _ => true,
        }
}

/// Whatever a session tells, the requests that follow go to sessions that the window has.
pub proof fn updates_ask_sessions_that_are_there(
    shell: ShellModel,
    source: Seq<char>,
    update: SessionUpdate,
    now: u64,
)
    ensures
        ({
            let (next, list) = shell.updated(source, update, now);
            all_reach(next, list)
        }),
{
}

/// Whatever channel is selected, the requests that follow go to sessions that the window has.
pub proof fn selections_ask_sessions_that_are_there(shell: ShellModel, channel: ChannelId)
    ensures
        ({
            let (next, list) = shell.selecting(channel);
            all_reach(next, list)
        }),
{
}

/// Where the community that the voice is in ends the local member's access, the voice is left.
pub proof fn removal_leaves_the_voice(
    shell: ShellModel,
    source: Seq<char>,
    event: EventModel,
    now: u64,
)
    requires
        shell.current_path == Some(source),
        shell.voice_origin == Some(source),
        shell.state is Some,
        access_ended(shell.state->0, shell.state->0.applied(event, now)),
    ensures
        shell.told(source, event, now).1.len() > 0,
        shell.told(source, event, now).1[0] == (OrderModel::Ask {
            slot: Slot::Current,
            command: AskModel::LeaveVoice,
        }),
{
}

/// The voice stays where it is while the user looks at other text channels.
pub proof fn voice_survives_browsing(shell: ShellModel, channel: ChannelId)
    requires
        shell.state is Some,
        kind_of(shell.state->0.channels, channel) != Some(ChannelKind::Voice),
    ensures
        shell.selecting(channel).0.voice == shell.voice,
        shell.selecting(channel).0.voice_origin == shell.voice_origin,
        shell.selecting(channel).0.pending_voice == shell.pending_voice,
{
}

/// What is told of the community that is shown changes what is shown of it, and of no other one;
/// what is told of the one in the background changes that one alone; and what is told of a community
/// that the window does not have changes nothing.
pub proof fn events_reach_their_community(
    shell: ShellModel,
    source: Seq<char>,
    event: EventModel,
    now: u64,
)
    ensures
        ({
            let (after, list) = shell.told(source, event, now);
            let here = shell.current_path == Some(source) && shell.state is Some;
            let behind = shell.background matches Some((path, _)) && path == source;
            &&& here ==> after == (ShellModel {
                state: Some(shell.state->0.applied(event, now)),
                ..shell
            })
            &&& !here && behind ==> after == (ShellModel {
                background: Some((source, (shell.background->0).1.applied(event, now))),
                ..shell
            })
            &&& !here && !behind ==> after == shell
        }),
{
}

/// A new item in the channel that the user looks at is marked as read, up to the latest item there;
/// one in another channel is not.
pub proof fn shown_items_are_read(
    shell: ShellModel,
    source: Seq<char>,
    author: MemberId,
    text: TextModel,
    now: u64,
    latest: MessageId,
)
    requires
        shell.current_path == Some(source),
        shell.state is Some,
        shell.voice_origin != Some(source),
    ensures
        ({
            let event = EventModel::TextStored { author, text };
            let state = shell.state->0;
            let (after, list) = shell.told(source, event, now);
            &&& text.channel_id != state.selected_channel ==> list.len() == 0
            &&& text.channel_id == state.selected_channel && is_latest_item(
                state.applied(event, now),
                state.selected_channel,
                Some(latest),
            ) ==> list == seq![
                OrderModel::Ask {
                    slot: Slot::Current,
                    command: AskModel::MarkRead { channel: state.selected_channel, message: latest },
                },
            ]
        }),
{
    let event = EventModel::TextStored { author, text };
    let state = shell.state->0;
    let after = state.applied(event, now);
    if text.channel_id == state.selected_channel && is_latest_item(
        after,
        state.selected_channel,
        Some(latest),
    ) {
        latest_is(after, state.selected_channel, Some(latest));
        let list = shell.told(source, event, now).1;
        assert(list =~= seq![
            OrderModel::Ask {
                slot: Slot::Current,
                command: AskModel::MarkRead { channel: state.selected_channel, message: latest },
            },
        ]);
    }
}

/// Where a community says that the local member left the voice channel that it is in, the voice is
/// left.
pub proof fn leaving_elsewhere_leaves_here(
    shell: ShellModel,
    source: Seq<char>,
    channel: ChannelId,
    now: u64,
)
    requires
        shell.current_path == Some(source),
        shell.voice_origin == Some(source),
        shell.state is Some,
        shell.voice.channel == Some(channel),
    ensures
        ({
            let event = EventModel::VoicePresence {
                channel,
                member: shell.state->0.local_member,
                state: VoicePresence::Left,
            };
            let list = shell.told(source, event, now).1;
            list.len() > 0 && list[0] == (OrderModel::Ask {
                slot: Slot::Current,
                command: AskModel::LeaveVoice,
            })
        }),
{
}

/// A failed command is shown and changes nothing else; an invite is shown and copied; a fault is
/// shown with its kind; and what was read is noted where it was read.
pub proof fn answers_are_shown(
    shell: ShellModel,
    source: Seq<char>,
    text: String,
    channel: ChannelId,
    message: MessageId,
    now: u64,
)
    ensures
        shell.updated(source, SessionUpdate::CommandFailed(text), now) == (
            ShellModel { load_error: Some(text@), ..shell },
            Seq::<OrderModel>::empty(),
        ),
        shell.updated(source, SessionUpdate::InviteReady(text), now) == (
            ShellModel { invite: Some(text@), load_error: None, ..shell },
            seq![OrderModel::CopyText(text@)],
        ),
        shell.current_path == Some(source) && shell.state is Some ==> shell.updated(
            source,
            SessionUpdate::ReadStored { channel, message },
            now,
        ).0 == (ShellModel {
            state: Some(shell.state->0.reading(channel, message)),
            ..shell
        }),
{
}

proof fn kinds_of_channels(channels: Seq<ChannelModel>, id: ChannelId, i: int)
    requires
        0 <= i < channels.len(),
        channels[i].id == id,
        forall|j: int| 0 <= j < i ==> (#[trigger] channels[j]).id != id,
    ensures
        kind_of(channels, id) == Some(channels[i].kind),
    decreases channels.len(),
{
    if i > 0 {
        assert(channels[0].id != id);
        let rest = channels.drop_first();
        assert forall|j: int| 0 <= j < i - 1 implies (#[trigger] rest[j]).id != id by {
            assert(rest[j] == channels[j + 1]);
        }
        kinds_of_channels(rest, id, i - 1);
    }
}

/// Whoever selects a text channel looks at it, and nothing is asked but to mark it as read.
pub proof fn selecting_a_text_channel_shows_it(shell: ShellModel, channel: ChannelId, i: int)
    requires
        shell.state is Some,
        0 <= i < shell.state->0.channels.len(),
        shell.state->0.channels[i].id == channel,
        shell.state->0.channels[i].kind is Text,
        forall|j: int|
            0 <= j < i ==> (#[trigger] shell.state->0.channels[j]).id != channel,
    ensures
        ({
            let (after, list) = shell.selecting(channel);
            &&& after.state is Some && after.state->0.selected_channel == channel
            &&& after == (ShellModel { state: after.state, ..shell })
            &&& forall|k: int|
                0 <= k < list.len() ==> match #[trigger] list[k] {
                    OrderModel::Ask {
                        slot: Slot::Current,
                        command: AskModel::MarkRead { channel: read, .. },
                    } => read == channel,
                    _ => false,
                }
        }),
{
    kinds_of_channels(shell.state->0.channels, channel, i);
}

/// Whoever selects a voice channel with room, and is in none, joins it; whoever is in a channel of
/// another community leaves that one first, and joins once it has left; and where there is no room
/// and the user is not in it, the user is told.
pub proof fn selecting_a_voice_channel_joins_it(
    shell: ShellModel,
    path: Seq<char>,
    channel: ChannelId,
    i: int,
)
    requires
        shell.state is Some,
        shell.current_path == Some(path),
        0 <= i < shell.state->0.channels.len(),
        shell.state->0.channels[i].id == channel,
        shell.state->0.channels[i].kind is Voice,
        forall|j: int|
            0 <= j < i ==> (#[trigger] shell.state->0.channels[j]).id != channel,
    ensures
        ({
            let (after, list) = shell.selecting(channel);
            let room = room_of(shell.state->0, channel);
            let there = exists|k: int|
                0 <= k < room.len() && (#[trigger] room[k]).0.id == shell.state->0.local_member;
            &&& room.len() < 4 && shell.voice.channel is None ==> after.voice_origin == Some(path)
                && list.len() > 0 && list[0] == (OrderModel::Ask {
                slot: Slot::Current,
                command: AskModel::JoinVoice(channel),
            })
            &&& room.len() < 4 && shell.voice.channel is Some && shell.voice.channel != Some(
                channel,
            ) && (shell.voice_origin matches Some(origin) && origin != path && shell.is_behind(origin)) ==> after.pending_voice == Some(
                (path, channel),
            ) && list.len() > 0 && list[0] == (OrderModel::Ask {
                slot: Slot::Background,
                command: AskModel::LeaveVoice,
            })
            &&& room.len() >= 4 && !there ==> after == (ShellModel {
                load_error: Some("voice room is full (4/4)"@),
                ..shell
            }) && list.len() == 0
        }),
{
    kinds_of_channels(shell.state->0.channels, channel, i);
}

/// Once the voice is over, it belongs to no community; a community that was kept in the background
/// for its sake alone is closed; and whoever waited to join elsewhere joins there.
pub proof fn the_voice_ends_where_it_was(
    shell: ShellModel,
    source: Seq<char>,
    target: Seq<char>,
    channel: ChannelId,
)
    requires
        shell.voice_origin == Some(source),
    ensures
        ({
            let (after, list) = shell.voiced(source, VoiceUpdate::Disconnected);
            let behind = shell.background matches Some((path, _)) && path == source;
            &&& after.voice.channel is None && after.voice.phase is Disconnected
            &&& after.pending_voice is None
            &&& behind ==> after.background is None && list.contains(OrderModel::CloseBackground)
            &&& !behind ==> after.background == shell.background
            &&& shell.pending_voice is None ==> after.voice_origin is None
            &&& shell.pending_voice == Some((target, channel)) && shell.current_path == Some(target)
                && shell.state is Some ==> after.voice_origin == Some(target) && list.contains(
                OrderModel::Ask { slot: Slot::Current, command: AskModel::JoinVoice(channel) },
            )
            &&& after.state == shell.state && after.current_path == shell.current_path
        }),
{
    let (after, list) = shell.voiced(source, VoiceUpdate::Disconnected);
    if shell.background matches Some((path, _)) && path == source {
        assert(list[0] == OrderModel::CloseBackground);
    }
    if shell.pending_voice == Some((target, channel)) && shell.current_path == Some(target)
        && shell.state is Some {
        assert(list[list.len() - 1] == (OrderModel::Ask {
            slot: Slot::Current,
            command: AskModel::JoinVoice(channel),
        }));
    }
}

/// What is asked of the voice goes to the community that it is in: to the one that is shown, or to
/// the one in the background.
pub proof fn the_voice_is_asked_where_it_is(
    shell: ShellModel,
    path: Seq<char>,
    command: AskModel,
)
    requires
        shell.voice_origin == Some(path),
    ensures
        shell.current_path == Some(path) && shell.state is Some ==> shell.to_voice(command) == seq![
            OrderModel::Ask { slot: Slot::Current, command },
        ],
        shell.current_path != Some(path) && (shell.background matches Some((stored, _)) && stored
            == path) ==> shell.to_voice(command) == seq![
            OrderModel::Ask { slot: Slot::Background, command },
        ],
{
}

} // verus!
