//! What a user does in the window: opening communities, and the forms and buttons.

use vstd::prelude::*;

use crate::address::{invite_read, CommunityInvite};
use crate::audio::{said, texts, VoiceDeviceConfig, VoiceDeviceNames};
use crate::community::{MemberId, MembershipChange};
use crate::config::{connectivity_choice, connectivity_mode, ConfigModel};
use crate::forms::{
    address_typed, backup_objection, channel_named, check_backup, cycle_device, is_typed,
    member_hex, next_device, read_command, trim, trimmed_of, type_address, type_channel_named,
    AskModel, Typed, TypedModel, MIN_PASSPHRASE_CHARS,
};
use crate::model::{
    attachment_error_text, attachment_objection, display_name_error_text, display_name_objection,
    message_error_text, text_objection, Attachment, AttachmentModel, ChannelId, ChannelKind,
    ChannelModel, Command, DisplayName, MessageId, TextMessage, TextModel, MAX_ATTACHMENT_BYTES,
};
use crate::session::SessionCommand;
use crate::shell::{
    append, give, is_path, just, none, nothing, orders, Former, Heed, Onboarding, Order, OrderModel,
    Overlay, Shell, ShellModel, Slot,
};
use crate::state::{
    channel_views, ChannelState, CommunityAccess, CommunityState, CommunityView, ConnectivityMode,
};
use crate::text::{chars_of, hex, same_text};

verus! {

/// How a community is to be opened.
#[derive(Debug)]
pub enum OpenAction {
    Create { path: String, name: DisplayName },
    Join { path: String, name: DisplayName, invite: CommunityInvite, invite_text: String },
    Recover { path: String, backup: String, passphrase: String },
}

/// What such an action says.
pub enum OpenModel {
    Create { path: Seq<char>, name: Seq<char> },
    Join {
        path: Seq<char>,
        name: Seq<char>,
        community: Seq<u8>,
        owner: Seq<u8>,
        address: Seq<char>,
        invite_text: Seq<char>,
    },
    Recover { path: Seq<char>, backup: Seq<char>, passphrase: Seq<char> },
}

impl View for OpenAction {
    type V = OpenModel;

    open spec fn view(&self) -> OpenModel {
        match self {
            OpenAction::Create { path, name } => OpenModel::Create { path: path@, name: name@ },
            OpenAction::Join { path, name, invite, invite_text } => OpenModel::Join {
                path: path@,
                name: name@,
                community: invite@.community_id@,
                owner: invite@.owner_address.member@,
                address: invite@.owner_address.encoded,
                invite_text: invite_text@,
            },
            OpenAction::Recover { path, backup, passphrase } => OpenModel::Recover {
                path: path@,
                backup: backup@,
                passphrase: passphrase@,
            },
        }
    }
}

/// The fields with which a community is opened.
#[derive(Debug)]
pub struct Fields {
    pub name: String,
    pub data_dir: String,
    pub invite: String,
    pub backup: String,
    pub passphrase: String,
}

/// What the fields ask on a screen, or what is wrong with them; nothing where the screen asks nothing.
pub open spec fn asked_to_open(screen: Onboarding, fields: Fields) -> Option<
    Result<OpenModel, Seq<char>>,
> {
    let name = trimmed_of(fields.name@);
    let path = trimmed_of(fields.data_dir@);
    let invite_text = trimmed_of(fields.invite@);
    let backup = trimmed_of(fields.backup@);
    if path.len() == 0 {
        Some(Err("choose a community data directory"@))
    } else {
        match screen {
            Onboarding::Create => Some(
                match display_name_objection(name) {
                    Some(error) => Err(display_name_error_text(error)),
                    None => Ok(OpenModel::Create { path, name }),
                },
            ),
            Onboarding::Join => Some(
                match display_name_objection(name) {
                    Some(error) => Err(display_name_error_text(error)),
                    None => match invite_read(invite_text) {
                        Err(error) => Err("invalid community invite: "@ + error),
                        Ok((community, owner, address)) => Ok(
                            OpenModel::Join { path, name, community, owner, address, invite_text },
                        ),
                    },
                },
            ),
            Onboarding::Recover => Some(
                if backup.len() == 0 {
                    Err("choose an identity backup"@)
                } else if fields.passphrase@.len() < MIN_PASSPHRASE_CHARS {
                    Err("backup passphrase must contain at least 12 characters"@)
                } else {
                    Ok(OpenModel::Recover { path, backup, passphrase: fields.passphrase@ })
                },
            ),
            _ => None,
        }
    }
}

fn read_fields(screen: Onboarding, fields: Fields) -> (asked: Option<Result<OpenAction, String>>)
    ensures
        match (asked, asked_to_open(screen, fields)) {
            (Some(Ok(action)), Some(Ok(wanted))) => action@ == wanted,
            (Some(Err(error)), Some(Err(wanted))) => error@ == wanted,
            (None, None) => true,
            _ => false,
        },
{
    let name: String = trim(fields.name.as_str());
    let path: String = trim(fields.data_dir.as_str());
    let invite_text: String = trim(fields.invite.as_str());
    let backup: String = trim(fields.backup.as_str());
    if chars_of(path.as_str()).len() == 0 {
        return Some(Err("choose a community data directory".to_owned()));
    }
    match screen {
        Onboarding::Create => match DisplayName::new(name.as_str()) {
            Ok(name) => Some(Ok(OpenAction::Create { path, name })),
            Err(error) => Some(Err(error.text().to_owned())),
        },
        Onboarding::Join => match DisplayName::new(name.as_str()) {
            Ok(name) => match CommunityInvite::from_text(invite_text.as_str()) {
                Ok(invite) => Some(Ok(OpenAction::Join { path, name, invite, invite_text })),
                Err(error) => Some(Err(error.to_text())),
            },
            Err(error) => Some(Err(error.text().to_owned())),
        },
        Onboarding::Recover => {
            if chars_of(backup.as_str()).len() == 0 {
                Some(Err("choose an identity backup".to_owned()))
            } else if chars_of(fields.passphrase.as_str()).len() < MIN_PASSPHRASE_CHARS {
                Some(Err("backup passphrase must contain at least 12 characters".to_owned()))
            } else {
                Some(Ok(OpenAction::Recover { path, backup, passphrase: fields.passphrase }))
            }
        },
        _ => None,
    }
}

/// An attempt to open a community: what is to be done and how, its number, and the screen to go back
/// to where it fails.
#[derive(Debug)]
pub struct Attempt {
    pub action: OpenAction,
    pub connectivity: ConnectivityMode,
    pub generation: u64,
    pub previous: Onboarding,
}

/// A community that was opened: what is seen of it, where it is, the name that the local member is to
/// have, and the invite that led to it.
#[derive(Debug)]
pub struct Opened {
    pub state: CommunityState,
    pub path: String,
    pub name: Option<DisplayName>,
    pub invite: Option<String>,
}

/// What a name says, if there is one.
pub open spec fn named(name: Option<DisplayName>) -> Option<Seq<char>> {
    match name {
        Some(name) => Some(name@),
        None => None,
    }
}

impl ShellModel {
    /// The window with another complaint, or without one.
    pub open spec fn complaining(self, error: Option<Seq<char>>) -> ShellModel {
        ShellModel { load_error: error, ..self }
    }

    /// What becomes of the community that is shown when another takes its place.
    pub open spec fn former(self, otherwise: Former) -> Former {
        if self.current_path is Some && self.state is Some {
            if self.voice_origin == self.current_path {
                Former::Parked
            } else {
                otherwise
            }
        } else {
            Former::Absent
        }
    }

    /// The window with another community shown: the one that was shown goes to the background while the
    /// voice is in it.
    pub open spec fn arrived(self, path: Seq<char>, state: CommunityView) -> ShellModel {
        ShellModel {
            current_path: Some(path),
            state: Some(state),
            background: if self.former(Former::Closed) is Parked {
                Some((self.current_path->0, self.state->0))
            } else {
                self.background
            },
            ..self
        }
    }

    /// The window once an attempt started.
    pub open spec fn attempting(self) -> ShellModel {
        ShellModel {
            open_generation: if self.open_generation == u64::MAX {
                0
            } else {
                (self.open_generation + 1) as u64
            },
            onboarding: Onboarding::Opening,
            load_error: None,
            ..self
        }
    }

    /// The window once an attempt succeeded.
    pub open spec fn entered(
        self,
        path: Seq<char>,
        state: CommunityView,
        name: Option<Seq<char>>,
        invite: Option<Seq<char>>,
    ) -> (ShellModel, Seq<OrderModel>) {
        let asked = match name {
            Some(name) => seq![
                OrderModel::Ask { slot: Slot::Fresh, command: AskModel::SetDisplayName(name) },
            ],
            None => none(),
        };
        let next = ShellModel {
            community_paths: if self.community_paths.contains(path) {
                self.community_paths
            } else {
                self.community_paths.push(path)
            },
            config: ConfigModel {
                last_data_dir: Some(path),
                last_invite: invite,
                default_name: if name is Some {
                    name
                } else {
                    self.config.default_name
                },
                ..self.config
            },
            load_error: None,
            onboarding: Onboarding::Choice,
            switching_community: false,
            ..self.arrived(path, state)
        };
        (
            next,
            asked.push(
                OrderModel::UseDevices { slot: Slot::Fresh, heed: Heed::Otherwise },
            ).push(
                OrderModel::Arrive { from: Slot::Fresh, former: self.former(Former::Released) },
            ).push(OrderModel::SaveConfig(Heed::Otherwise)) + next.marking(),
        )
    }

    /// The window once it went to another community.
    pub open spec fn switched(self, path: Seq<char>, state: CommunityView, from: Slot) -> (
        ShellModel,
        Seq<OrderModel>,
    ) {
        let next = ShellModel {
            invite: None,
            config: ConfigModel {
                last_data_dir: Some(path),
                last_invite: if self.config.last_data_dir == Some(path) {
                    self.config.last_invite
                } else {
                    None
                },
                ..self.config
            },
            ..self.arrived(path, state)
        };
        (
            next,
            seq![
                OrderModel::UseDevices { slot: from, heed: Heed::Always },
                OrderModel::Arrive { from, former: self.former(Former::Closed) },
            ] + next.marking() + seq![OrderModel::SaveConfig(Heed::Always)],
        )
    }

    /// What comes of an attempt to open a community, once it is over.
    pub open spec fn finished(
        self,
        generation: u64,
        previous: Onboarding,
        outcome: Result<Opened, String>,
    ) -> (ShellModel, Seq<OrderModel>) {
        if self.open_generation != generation || !(self.onboarding is Opening) {
            (self, none())
        } else {
            match outcome {
                Ok(opened) => self.entered(
                    opened.path@,
                    opened.state@,
                    named(opened.name),
                    said(opened.invite),
                ),
                Err(error) => (
                    ShellModel { onboarding: previous, load_error: Some(error@), ..self },
                    none(),
                ),
            }
        }
    }

    /// What comes of a switch to another community, which was opened for it where the window did
    /// not have it.
    pub open spec fn switched_to(
        self,
        path: Seq<char>,
        opened: Option<Result<CommunityState, String>>,
    ) -> (ShellModel, Seq<OrderModel>) {
        if self.current_path == Some(path) {
            (self, none())
        } else if self.is_behind(path) {
            (ShellModel { background: None, ..self }).switched(
                path,
                (self.background->0).1,
                Slot::Background,
            )
        } else {
            match opened {
                Some(Ok(state)) => self.switched(path, state@, Slot::Fresh),
                Some(Err(error)) => (self.complaining(Some(error@)), none()),
                None => (self, none()),
            }
        }
    }

    /// The window once a request to the community that is shown was made, or was refused because none
    /// is.
    pub open spec fn asking(self, command: AskModel) -> (ShellModel, Seq<OrderModel>) {
        if self.state is Some {
            (
                self.complaining(None),
                seq![OrderModel::Ask { slot: Slot::Current, command }],
            )
        } else {
            (self.complaining(Some("no Community is open"@)), none())
        }
    }

    /// The window once a name was asked for.
    pub open spec fn naming(self, name: Seq<char>) -> (ShellModel, Seq<OrderModel>) {
        let (next, asked) = self.asking(AskModel::SetDisplayName(name));
        if self.state is Some {
            (next, asked.push(OrderModel::RememberName(name)))
        } else {
            (next, asked)
        }
    }

    /// The window once a line that starts with a slash was read.
    pub open spec fn commanded(self, typed: TypedModel) -> (ShellModel, Seq<OrderModel>) {
        match typed {
            TypedModel::Leave => (self, self.to_voice(AskModel::LeaveVoice)),
            TypedModel::Mute => (
                self,
                self.to_voice(AskModel::SetVoiceMuted(!self.voice.muted)),
            ),
            _ => match self.state {
                None => (self, none()),
                Some(state) => match typed {
                    TypedModel::Name(name) => self.naming(name),
                    TypedModel::Ask(command) => self.asking(command),
                    TypedModel::Attach(path) => (
                        self.complaining(None),
                        seq![
                            OrderModel::ReadAttachment { path, channel: state.selected_channel },
                        ],
                    ),
                    TypedModel::Complaint(text) => (self.complaining(Some(text)), none()),
                    _ => (self, none()),
                },
            },
        }
    }
}

fn lists_path(paths: &Vec<String>, path: &str) -> (lists: bool)
    ensures
        lists == texts(paths@).contains(path@),
{
    let ghost all = texts(paths@);
    let mut i: usize = 0;
    while i < paths.len()
        invariant
            i <= paths@.len(),
            all == texts(paths@),
            forall|j: int| 0 <= j < i ==> #[trigger] all[j] != path@,
        decreases paths@.len() - i,
    {
        assert(all[i as int] == paths@[i as int]@);
        if same_text(paths[i].as_str(), path) {
            return true;
        }
        i += 1;
    }
    false
}

impl Shell {
    fn arrive(&mut self, path: String, state: CommunityState, otherwise: Former) -> (former: Former)
        requires
            !(otherwise is Parked),
        ensures
            final(self)@ == old(self)@.arrived(path@, state@),
            former == old(self)@.former(otherwise),
    {
        let old_path: Option<String> = self.current_path.take();
        let old_state: Option<CommunityState> = self.state.take();
        let former: Former = match (old_path, old_state) {
            (Some(old_path), Some(old_state)) => {
                if is_path(&self.voice_origin, old_path.as_str()) {
                    self.background = Some((old_path, old_state));
                    Former::Parked
                } else {
                    otherwise
                }
            },
            _ => Former::Absent,
        };
        self.current_path = Some(path);
        self.state = Some(state);
        former
    }

    /// Starts to open a community with what the fields say.
    pub fn open_from_onboarding(&mut self, fields: Fields) -> (attempt: Option<Attempt>)
        ensures
            match asked_to_open(old(self)@.onboarding, fields) {
                Some(Ok(wanted)) => attempt matches Some(attempt) && attempt.action@ == wanted
                    && attempt.connectivity == connectivity_choice(old(self)@.config.relay_only)
                    && attempt.previous == old(self)@.onboarding && final(self)@
                    == old(self)@.attempting() && attempt.generation
                    == old(self)@.attempting().open_generation,
                Some(Err(error)) => attempt is None && final(self)@ == old(self)@.complaining(
                    Some(error),
                ),
                None => attempt is None && final(self)@ == old(self)@,
            },
    {
        match read_fields(self.onboarding, fields) {
            Some(Ok(action)) => {
                let previous: Onboarding = self.onboarding;
                self.open_generation = self.open_generation.wrapping_add(1);
                self.onboarding = Onboarding::Opening;
                self.load_error = None;
                Some(
                    Attempt {
                        action,
                        connectivity: connectivity_mode(self.config.relay_only),
                        generation: self.open_generation,
                        previous,
                    },
                )
            },
            Some(Err(error)) => {
                self.load_error = Some(error);
                None
            },
            None => None,
        }
    }

    /// Takes what came of an attempt; one that is not the last is not heard.
    pub fn finish_opening(
        &mut self,
        generation: u64,
        previous: Onboarding,
        outcome: Result<Opened, String>,
    ) -> (list: Vec<Order>)
        ensures
            old(self)@.finished(generation, previous, outcome) == (final(self)@, orders(list@)),
    {
        if self.open_generation != generation || self.onboarding != Onboarding::Opening {
            return nothing();
        }
        match outcome {
            Ok(opened) => self.enter(opened),
            Err(error) => {
                self.onboarding = previous;
                self.load_error = Some(error);
                nothing()
            },
        }
    }

    fn enter(&mut self, opened: Opened) -> (list: Vec<Order>)
        ensures
            old(self)@.entered(
                opened.path@,
                opened.state@,
                named(opened.name),
                said(opened.invite),
            ) == (final(self)@, orders(list@)),
    {
        let ghost before = self@;
        let ghost whole = opened;
        let path: String = opened.path;
        let mut list: Vec<Order> = nothing();
        match opened.name {
            Some(name) => {
                self.config.default_name = Some(name.as_str().to_owned());
                give(
                    &mut list,
                    Order::Ask {
                        slot: Slot::Fresh,
                        command: SessionCommand::Execute(Command::SetDisplayName(name)),
                    },
                );
            },
            None => {},
        }
        give(&mut list, Order::UseDevices { slot: Slot::Fresh, heed: Heed::Otherwise });
        if !lists_path(&self.community_paths, path.as_str()) {
            let ghost paths = self.community_paths@;
            self.community_paths.push(path.clone());
            assert(texts(self.community_paths@) =~= texts(paths).push(path@));
        }
        self.config.last_data_dir = Some(path.clone());
        self.config.last_invite = opened.invite;
        let former: Former = self.arrive(path, opened.state, Former::Released);
        give(&mut list, Order::Arrive { from: Slot::Fresh, former });
        give(&mut list, Order::SaveConfig(Heed::Otherwise));
        self.load_error = None;
        self.onboarding = Onboarding::Choice;
        self.switching_community = false;
        let marked: Vec<Order> = self.mark_selected_read();
        append(&mut list, marked);
        proof {
            let (next, wanted) = before.entered(
                whole.path@,
                whole.state@,
                named(whole.name),
                said(whole.invite),
            );
            assert(self@ =~= next);
            assert(orders(list@) =~= wanted);
        }
        list
    }

    /// Whether another community has to be opened before the window goes to it.
    pub fn opens_on_switch(&self, path: &str) -> (opens: bool)
        ensures
            opens == (self@.current_path != Some(path@) && !self@.is_behind(path@)),
    {
        !is_path(&self.current_path, path) && !self.is_behind(path)
    }

    /// Goes to another community: to the one in the background, or else to the one that was opened.
    pub fn switch_community(
        &mut self,
        path: String,
        opened: Option<Result<CommunityState, String>>,
    ) -> (
    list: Vec<Order>)
        ensures
            old(self)@.switched_to(path@, opened) == (final(self)@, orders(list@)),
    {
        if is_path(&self.current_path, path.as_str()) {
            return nothing();
        }
        if self.is_behind(path.as_str()) {
            match self.background.take() {
                Some((_, state)) => {
                    return self.go_over(path, state, Slot::Background);
                },
                None => {
                    return nothing();
                },
            }
        }
        match opened {
            Some(Ok(state)) => self.go_over(path, state, Slot::Fresh),
            Some(Err(error)) => {
                self.load_error = Some(error);
                nothing()
            },
            None => nothing(),
        }
    }

    fn go_over(&mut self, path: String, state: CommunityState, from: Slot) -> (list: Vec<Order>)
        ensures
            old(self)@.switched(path@, state@, from) == (final(self)@, orders(list@)),
    {
        let ghost before = self@;
        let mut list: Vec<Order> = just(Order::UseDevices { slot: from, heed: Heed::Always });
        let stays: bool = is_path(&self.config.last_data_dir, path.as_str());
        self.config.last_data_dir = Some(path.clone());
        if !stays {
            self.config.last_invite = None;
        }
        self.invite = None;
        let ghost (wanted, asked) = before.switched(path@, state@, from);
        let former: Former = self.arrive(path, state, Former::Closed);
        give(&mut list, Order::Arrive { from, former });
        let marked: Vec<Order> = self.mark_selected_read();
        append(&mut list, marked);
        give(&mut list, Order::SaveConfig(Heed::Always));
        assert(self@ =~= wanted);
        assert(orders(list@) =~= asked);
        list
    }

    /// Complains.
    pub fn complain(&mut self, error: String)
        ensures
            final(self)@ == old(self)@.complaining(Some(error@)),
    {
        self.load_error = Some(error);
    }

    fn ask(&mut self, command: SessionCommand) -> (list: Vec<Order>)
        ensures
            old(self)@.asking(command@) == (final(self)@, orders(list@)),
    {
        if self.state.is_some() {
            self.load_error = None;
            just(Order::Ask { slot: Slot::Current, command })
        } else {
            self.load_error = Some("no Community is open".to_owned());
            nothing()
        }
    }

    fn name_local(&mut self, name: DisplayName) -> (list: Vec<Order>)
        ensures
            old(self)@.naming(name@) == (final(self)@, orders(list@)),
    {
        let text: String = name.as_str().to_owned();
        let open: bool = self.state.is_some();
        let mut list: Vec<Order> = self.ask(
            SessionCommand::Execute(Command::SetDisplayName(name)),
        );
        if open {
            give(&mut list, Order::RememberName(text));
        }
        list
    }

    /// Runs a line that starts with a slash; `id` names the channel that it may create.
    pub fn run_command(&mut self, input: &str, id: ChannelId) -> (list: Vec<Order>)
        ensures
            exists|typed: TypedModel| #[trigger]
                is_typed(input@, id, typed) && old(self)@.commanded(typed) == (
                    final(self)@,
                    orders(list@),
                ),
    {
        let typed: Typed = read_command(input, id);
        let ghost model = typed@;
        assert(is_typed(input@, id, model));
        match typed {
            Typed::Leave => self.leave_voice(),
            Typed::Mute => self.toggle_voice_mute(),
            Typed::Name(name) => {
                if self.state.is_none() {
                    return nothing();
                }
                self.name_local(name)
            },
            Typed::Ask(command) => {
                if self.state.is_none() {
                    return nothing();
                }
                self.ask(command)
            },
            Typed::Attach(path) => {
                let channel: ChannelId = match &self.state {
                    Some(state) => state.selected_channel,
                    None => {
                        return nothing();
                    },
                };
                self.load_error = None;
                just(Order::ReadAttachment { path, channel })
            },
            Typed::Complaint(text) => {
                if self.state.is_some() {
                    self.load_error = Some(text);
                }
                nothing()
            },
        }
    }
}

/// Whether a channel in a list is a text channel with this name.
pub open spec fn has_text_channel(channels: Seq<ChannelModel>, id: ChannelId) -> bool {
    exists|i: int|
        0 <= i < channels.len() && (#[trigger] channels[i]).id == id && channels[i].kind is Text
}

fn is_text_channel(channels: &Vec<ChannelState>, id: ChannelId) -> (is_text: bool)
    ensures
        is_text == has_text_channel(channel_views(channels@), id),
{
    let ghost views = channel_views(channels@);
    let mut i: usize = 0;
    while i < channels.len()
        invariant
            i <= channels@.len(),
            views == channel_views(channels@),
            forall|j: int|
                0 <= j < i ==> !((#[trigger] views[j]).id == id && views[j].kind is Text),
        decreases channels@.len() - i,
    {
        assert(views[i as int] == channels@[i as int]@);
        if channels[i].id == id && channels[i].kind == ChannelKind::Text {
            return true;
        }
        i += 1;
    }
    false
}

impl ShellModel {
    /// The window once a text was sent to the selected channel: only a text channel takes it.
    pub open spec fn posting(
        self,
        id: MessageId,
        body: Seq<char>,
    ) -> (ShellModel, Seq<OrderModel>) {
        match self.state {
            None => (self, none()),
            Some(state) => if !has_text_channel(state.channels, state.selected_channel) {
                (self, none())
            } else {
                match text_objection(body) {
                    Some(error) => (self.complaining(Some(message_error_text(error))), none()),
                    None => (
                        self,
                        seq![
                            OrderModel::Ask {
                                slot: Slot::Current,
                                command: AskModel::PostText(
                                    TextModel { id, channel_id: state.selected_channel, body },
                                ),
                            },
                        ],
                    ),
                }
            },
        }
    }

    /// The window once a request that closes what is on top was made.
    pub open spec fn asking_on_top(self, command: AskModel) -> (ShellModel, Seq<OrderModel>) {
        let (next, asked) = self.asking(command);
        if self.state is Some {
            (next, asked.push(OrderModel::CloseOverlay))
        } else {
            (next, asked)
        }
    }

    /// The requests to use the chosen devices, and to remember the choice.
    pub open spec fn using_devices(self) -> Seq<OrderModel> {
        let current = if self.state is Some {
            seq![OrderModel::UseDevices { slot: Slot::Current, heed: Heed::Always }]
        } else {
            none()
        };
        let all = if self.background is Some {
            current.push(OrderModel::AlsoUseDevices(Slot::Background))
        } else {
            current
        };
        all.push(OrderModel::SaveConfig(Heed::Otherwise))
    }

    /// Whether the local member owns the community that is shown.
    pub open spec fn owns(self) -> bool {
        match self.state {
            Some(state) => exists|i: int|
                0 <= i < state.members.len() && (#[trigger] state.members[i]).is_local
                    && state.members[i].is_owner,
            None => false,
        }
    }
}

/// What the window shows.
#[derive(Clone, Copy, Debug, PartialEq, Eq, Structural)]
pub enum Screen {
    Onboarding,
    Access(CommunityAccess),
    Community,
}

impl Shell {
    /// Sends what was typed: a line that starts with a slash is run, any other is posted. `id` names the
    /// text, and `channel` the channel that a line may create.
    pub fn send_text(&mut self, body: &str, id: MessageId, channel: ChannelId) -> (list: Vec<Order>)
        ensures
            if body@.len() > 0 && body@[0] == '/' {
                exists|typed: TypedModel| #[trigger]
                    is_typed(body@, channel, typed) && old(self)@.commanded(typed) == (
                        final(self)@,
                        orders(list@),
                    )
            } else {
                old(self)@.posting(id, body@) == (final(self)@, orders(list@))
            },
    {
        let chars: Vec<char> = chars_of(body);
        if chars.len() > 0 && chars[0] == '/' {
            return self.run_command(body, channel);
        }
        let selected: ChannelId = match &self.state {
            Some(state) => {
                if !is_text_channel(&state.channels, state.selected_channel) {
                    return nothing();
                }
                state.selected_channel
            },
            None => {
                return nothing();
            },
        };
        match TextMessage::in_channel(id, selected, body) {
            Ok(message) => just(
                Order::Ask {
                    slot: Slot::Current,
                    command: SessionCommand::Execute(Command::PostText(message)),
                },
            ),
            Err(error) => {
                self.load_error = Some(error.text().to_owned());
                nothing()
            },
        }
    }

    /// Gives the local member a name.
    pub fn save_display_name(&mut self, value: &str) -> (list: Vec<Order>)
        ensures
            match display_name_objection(value@) {
                Some(error) => final(self)@ == old(self)@.complaining(
                    Some(display_name_error_text(error)),
                ) && orders(list@) == none(),
                None => old(self)@.naming(value@) == (final(self)@, orders(list@)),
            },
    {
        match DisplayName::new(value) {
            Ok(name) => self.name_local(name),
            Err(error) => {
                self.load_error = Some(error.text().to_owned());
                nothing()
            },
        }
    }

    /// Remembers the name that the local member was given.
    pub fn remember_name(&mut self, name: String) -> (list: Vec<Order>)
        ensures
            final(self)@ == (ShellModel {
                config: ConfigModel { default_name: Some(name@), ..old(self)@.config },
                ..old(self)@
            }),
            orders(list@) == seq![OrderModel::SaveConfig(Heed::Always)],
    {
        self.config.default_name = Some(name);
        just(Order::SaveConfig(Heed::Always))
    }

    fn run(&mut self, typed: Typed) -> (list: Vec<Order>)
        requires
            typed@ is Ask || typed@ is Complaint,
        ensures
            match typed@ {
                TypedModel::Ask(command) => old(self)@.asking(command) == (
                    final(self)@,
                    orders(list@),
                ),
                TypedModel::Complaint(text) => final(self)@ == old(self)@.complaining(Some(text))
                    && orders(list@) == none(),
                _ => true,
            },
    {
        match typed {
            Typed::Ask(command) => self.ask(command),
            Typed::Complaint(text) => {
                self.load_error = Some(text);
                nothing()
            },
            _ => nothing(),
        }
    }

    /// Connects to a peer.
    pub fn connect_from_settings(&mut self, address: &str) -> (list: Vec<Order>)
        ensures
            match address_typed(trimmed_of(address@)) {
                TypedModel::Ask(command) => old(self)@.asking(command) == (
                    final(self)@,
                    orders(list@),
                ),
                TypedModel::Complaint(text) => final(self)@ == old(self)@.complaining(Some(text))
                    && orders(list@) == none(),
                _ => false,
            },
    {
        let trimmed: String = trim(address);
        let typed: Typed = type_address(trimmed.as_str());
        self.run(typed)
    }

    /// Writes a backup of the identity.
    pub fn export_backup(&mut self, path: &str, passphrase: String, confirmation: &str) -> (list:
        Vec<Order>)
        ensures
            match backup_objection(path@, passphrase@, confirmation@) {
                Some(error) => final(self)@ == old(self)@.complaining(Some(error)) && orders(list@)
                    == none(),
                None => old(self)@.asking(
                    AskModel::ExportIdentity { path: trimmed_of(path@), passphrase: passphrase@ },
                ) == (final(self)@, orders(list@)),
            },
    {
        match check_backup(path, passphrase.as_str(), confirmation) {
            Ok(path) => self.ask(SessionCommand::ExportIdentity { path, passphrase }),
            Err(error) => {
                self.load_error = Some(error);
                nothing()
            },
        }
    }

    /// Creates a channel with this name.
    pub fn create_channel_from_overlay(&mut self, name: &str, kind: ChannelKind, id: ChannelId) -> (
    list: Vec<Order>)
        ensures
            match channel_named(id, name@, kind) {
                TypedModel::Ask(command) => old(self)@.asking_on_top(command) == (
                    final(self)@,
                    orders(list@),
                ),
                TypedModel::Complaint(text) => final(self)@ == old(self)@.complaining(Some(text))
                    && orders(list@) == none(),
                _ => false,
            },
    {
        match type_channel_named(id, name, kind) {
            Typed::Ask(command) => self.ask_on_top(command),
            Typed::Complaint(text) => {
                self.load_error = Some(text);
                nothing()
            },
            _ => nothing(),
        }
    }

    fn ask_on_top(&mut self, command: SessionCommand) -> (list: Vec<Order>)
        ensures
            old(self)@.asking_on_top(command@) == (final(self)@, orders(list@)),
    {
        let open: bool = self.state.is_some();
        let mut list: Vec<Order> = self.ask(command);
        if open {
            give(&mut list, Order::CloseOverlay);
        }
        list
    }

    /// Removes a member.
    pub fn remove_member(&mut self, member: MemberId) -> (list: Vec<Order>)
        ensures
            old(self)@.asking_on_top(
                AskModel::ChangeMembership(MembershipChange::Remove(member)),
            ) == (final(self)@, orders(list@)),
    {
        self.ask_on_top(
            SessionCommand::Execute(Command::ChangeMembership(MembershipChange::Remove(member))),
        )
    }

    /// Admits a member.
    pub fn admit_member(&mut self, member: MemberId) -> (list: Vec<Order>)
        ensures
            old(self)@.asking(AskModel::ChangeMembership(MembershipChange::Admit(member))) == (
                final(self)@,
                orders(list@),
            ),
    {
        self.ask(
            SessionCommand::Execute(Command::ChangeMembership(MembershipChange::Admit(member))),
        )
    }

    /// Admits a member that only keeps what others write.
    pub fn admit_availability_peer(&mut self, member: MemberId) -> (list: Vec<Order>)
        ensures
            old(self)@.asking(
                AskModel::ChangeMembership(MembershipChange::AdmitAvailability(member)),
            ) == (final(self)@, orders(list@)),
    {
        self.ask(
            SessionCommand::Execute(
                Command::ChangeMembership(MembershipChange::AdmitAvailability(member)),
            ),
        )
    }

    /// Shows a member no longer as waiting.
    pub fn dismiss_member(&mut self, member: MemberId)
        ensures
            final(self)@ == (match old(self)@.state {
                Some(state) => old(self)@.seeing(
                    CommunityView {
                        pending_members: state.pending_members.remove(member),
                        ..state
                    },
                ),
                None => old(self)@,
            }),
    {
        match &mut self.state {
            Some(state) => state.dismiss_pending(member),
            None => {},
        }
    }

    /// Forgets an attachment.
    pub fn forget_attachment(&self, author: MemberId, id: MessageId) -> (list: Vec<Order>)
        ensures
            orders(list@) == (if self@.state is Some {
                seq![
                    OrderModel::Ask {
                        slot: Slot::Current,
                        command: AskModel::ForgetAttachment { author, id },
                    },
                ]
            } else {
                none()
            }),
    {
        if self.state.is_some() {
            just(
                Order::Ask {
                    slot: Slot::Current,
                    command: SessionCommand::Execute(Command::ForgetAttachment { author, id }),
                },
            )
        } else {
            nothing()
        }
    }

    /// The channel that takes a file: the selected one, where it is a text channel.
    pub fn attachment_channel(&mut self) -> (channel: Option<ChannelId>)
        ensures
            match old(self)@.state {
                None => channel is None && final(self)@ == old(self)@,
                Some(state) => if has_text_channel(state.channels, state.selected_channel) {
                    channel == Some(state.selected_channel) && final(self)@ == old(self)@
                } else {
                    channel is None && final(self)@ == old(self)@.complaining(
                        Some("attachments belong in text channels"@),
                    )
                },
            },
    {
        match &self.state {
            Some(state) => {
                if is_text_channel(&state.channels, state.selected_channel) {
                    Some(state.selected_channel)
                } else {
                    self.load_error = Some("attachments belong in text channels".to_owned());
                    None
                }
            },
            None => None,
        }
    }

    /// Shares a file that was read, or complains that it was not.
    pub fn share_attachment(&mut self, attachment: Result<Attachment, String>) -> (list: Vec<Order>)
        ensures
            match attachment {
                Ok(attachment) => old(self)@.asking(AskModel::ShareAttachment(attachment@)) == (
                    final(self)@,
                    orders(list@),
                ),
                Err(error) => final(self)@ == old(self)@.complaining(Some(error@)) && orders(list@)
                    == none(),
            },
    {
        match attachment {
            Ok(attachment) => self.ask(
                SessionCommand::Execute(Command::ShareAttachment(attachment)),
            ),
            Err(error) => {
                self.load_error = Some(error);
                nothing()
            },
        }
    }

    /// Copies the invite, or asks for one.
    pub fn copy_invite(&self) -> (list: Vec<Order>)
        ensures
            orders(list@) == (match self@.invite {
                Some(invite) => seq![OrderModel::CopyText(invite)],
                None => if self@.state is Some {
                    seq![
                        OrderModel::Ask { slot: Slot::Current, command: AskModel::RequestInvite },
                    ]
                } else {
                    none()
                },
            }),
    {
        match &self.invite {
            Some(invite) => just(Order::CopyText(invite.clone())),
            None => {
                if self.state.is_some() {
                    just(
                        Order::Ask { slot: Slot::Current, command: SessionCommand::RequestInvite },
                    )
                } else {
                    nothing()
                }
            },
        }
    }

    /// Copies where the local node is reached, where that is known.
    pub fn copy_peer_address(&self) -> (list: Vec<Order>)
        ensures
            orders(list@) == (match self@.state {
                Some(state) => if state.local_address.len() > 0 {
                    seq![OrderModel::CopyText(state.local_address)]
                } else {
                    none()
                },
                None => none(),
            }),
    {
        match &self.state {
            Some(state) => {
                if chars_of(state.local_address()).len() > 0 {
                    just(Order::CopyText(state.local_address().to_owned()))
                } else {
                    nothing()
                }
            },
            None => nothing(),
        }
    }

    /// Copies a member's name.
    pub fn copy_member_id(&self, member: MemberId) -> (list: Vec<Order>)
        ensures
            orders(list@) == seq![OrderModel::CopyText(hex(member@))],
    {
        just(Order::CopyText(member_hex(member)))
    }

    /// Shows a screen.
    pub fn show_onboarding(&mut self, screen: Onboarding)
        ensures
            final(self)@ == (ShellModel { onboarding: screen, load_error: None, ..old(self)@ }),
    {
        self.onboarding = screen;
        self.load_error = None;
    }

    /// Puts something on top.
    pub fn open_overlay(&mut self, overlay: Overlay) -> (list: Vec<Order>)
        ensures
            final(self)@ == (ShellModel {
                overlay: Some(overlay),
                load_error: None,
                ..old(self)@
            }),
            orders(list@) == (if overlay is Settings {
                seq![OrderModel::ScanDevices]
            } else {
                none()
            }),
    {
        self.overlay = Some(overlay);
        self.load_error = None;
        match overlay {
            Overlay::Settings => just(Order::ScanDevices),
            _ => nothing(),
        }
    }

    /// Takes away what is on top.
    pub fn close_overlay(&mut self)
        ensures
            final(self)@ == (ShellModel { overlay: None, load_error: None, ..old(self)@ }),
    {
        self.overlay = None;
        self.load_error = None;
    }

    /// Lets the user choose another community.
    pub fn switch_to_onboarding(&mut self)
        ensures
            final(self)@ == (ShellModel {
                overlay: None,
                onboarding: Onboarding::Choice,
                switching_community: true,
                load_error: None,
                ..old(self)@
            }),
    {
        self.overlay = None;
        self.onboarding = Onboarding::Choice;
        self.switching_community = true;
        self.load_error = None;
    }

    /// Goes back to the community that is shown.
    pub fn cancel_community_switch(&mut self)
        ensures
            final(self)@ == (ShellModel {
                switching_community: false,
                load_error: None,
                ..old(self)@
            }),
    {
        self.switching_community = false;
        self.load_error = None;
    }

    /// Chooses how the next node is reached.
    pub fn toggle_relay_only(&mut self) -> (list: Vec<Order>)
        ensures
            final(self)@ == (ShellModel {
                config: ConfigModel {
                    relay_only: !old(self)@.config.relay_only,
                    ..old(self)@.config
                },
                load_error: None,
                ..old(self)@
            }),
            orders(list@) == seq![OrderModel::SaveConfig(Heed::Always)],
    {
        self.config.relay_only = !self.config.relay_only;
        self.load_error = None;
        just(Order::SaveConfig(Heed::Always))
    }

    /// Takes the devices that there are.
    pub fn devices_scanned(&mut self, scan: Result<VoiceDeviceNames, String>)
        ensures
            final(self)@ == (match scan {
                Ok(devices) => ShellModel {
                    inputs: texts(devices.input@),
                    outputs: texts(devices.output@),
                    load_error: None,
                    ..old(self)@
                },
                Err(error) => old(self)@.complaining(Some(error@)),
            }),
    {
        match scan {
            Ok(devices) => {
                self.audio_devices = devices;
                self.load_error = None;
            },
            Err(error) => {
                self.load_error = Some(error);
            },
        }
    }

    fn use_devices(&self) -> (list: Vec<Order>)
        ensures
            orders(list@) == self@.using_devices(),
    {
        let mut list: Vec<Order> = nothing();
        if self.state.is_some() {
            give(&mut list, Order::UseDevices { slot: Slot::Current, heed: Heed::Always });
            assert(orders(list@) =~= seq![
                OrderModel::UseDevices { slot: Slot::Current, heed: Heed::Always },
            ]);
        }
        if self.background.is_some() {
            give(&mut list, Order::AlsoUseDevices(Slot::Background));
        }
        give(&mut list, Order::SaveConfig(Heed::Otherwise));
        list
    }

    /// Chooses the next input device.
    pub fn cycle_voice_input(&mut self) -> (list: Vec<Order>)
        ensures
            final(self)@ == (ShellModel {
                config: ConfigModel {
                    voice_input_device: next_device(
                        old(self)@.config.voice_input_device,
                        old(self)@.inputs,
                    ),
                    ..old(self)@.config
                },
                load_error: None,
                ..old(self)@
            }),
            orders(list@) == old(self)@.using_devices(),
    {
        let current: Option<&str> = match &self.config.voice_input_device {
            Some(name) => Some(name.as_str()),
            None => None,
        };
        let next: Option<String> = cycle_device(current, &self.audio_devices.input);
        self.config.voice_input_device = next;
        self.load_error = None;
        self.use_devices()
    }

    /// Chooses the next output device.
    pub fn cycle_voice_output(&mut self) -> (list: Vec<Order>)
        ensures
            final(self)@ == (ShellModel {
                config: ConfigModel {
                    voice_output_device: next_device(
                        old(self)@.config.voice_output_device,
                        old(self)@.outputs,
                    ),
                    ..old(self)@.config
                },
                load_error: None,
                ..old(self)@
            }),
            orders(list@) == old(self)@.using_devices(),
    {
        let current: Option<&str> = match &self.config.voice_output_device {
            Some(name) => Some(name.as_str()),
            None => None,
        };
        let next: Option<String> = cycle_device(current, &self.audio_devices.output);
        self.config.voice_output_device = next;
        self.load_error = None;
        self.use_devices()
    }

    /// The chosen devices.
    pub fn voice_device_config(&self) -> (devices: VoiceDeviceConfig)
        ensures
            said(devices.input_device) == self@.config.voice_input_device,
            said(devices.output_device) == self@.config.voice_output_device,
    {
        self.config.voice_devices()
    }

    /// Whether the local member owns the community that is shown.
    pub fn is_owner(&self) -> (owns: bool)
        ensures
            owns == self@.owns(),
    {
        match &self.state {
            Some(state) => {
                let ghost views = state@.members;
                let mut i: usize = 0;
                while i < state.members.len()
                    invariant
                        i <= state.members@.len(),
                        views == state@.members,
                        self@.state == Some(state@),
                        forall|j: int|
                            0 <= j < i ==> !((#[trigger] views[j]).is_local && views[j].is_owner),
                    decreases state.members@.len() - i,
                {
                    assert(views[i as int] == state.members@[i as int]@);
                    if state.members[i].is_local && state.members[i].is_owner {
                        return true;
                    }
                    i += 1;
                }
                false
            },
            None => false,
        }
    }

    /// What the button in the header says.
    pub fn badge(&self) -> (badge: &'static str)
        ensures
            badge@ == (if self@.owns() {
                "copy invite"@
            } else if self@.state is Some {
                "connected"@
            } else {
                "design preview"@
            }),
    {
        if self.is_owner() {
            "copy invite"
        } else if self.state.is_some() {
            "connected"
        } else {
            "design preview"
        }
    }

    /// What the window shows.
    pub fn screen(&self) -> (screen: Screen)
        ensures
            screen == (if (self@.state is None || self@.switching_community) && !self@.preview {
                Screen::Onboarding
            } else {
                match self@.state {
                    Some(state) => if !self@.preview && !(state.access is Active) {
                        Screen::Access(state.access)
                    } else {
                        Screen::Community
                    },
                    None => Screen::Community,
                }
            }),
    {
        if (self.state.is_none() || self.switching_community) && !self.preview {
            return Screen::Onboarding;
        }
        match &self.state {
            Some(state) => {
                let access: CommunityAccess = state.access();
                if !self.preview && access != CommunityAccess::Active {
                    Screen::Access(access)
                } else {
                    Screen::Community
                }
            },
            None => Screen::Community,
        }
    }
}

/// The voice stays where it is while the user goes to another community: the session that it is in goes
/// to the background, and is still asked.
pub proof fn voice_survives_switching(
    shell: ShellModel,
    here: Seq<char>,
    path: Seq<char>,
    state: CommunityView,
    from: Slot,
)
    requires
        shell.current_path == Some(here),
        shell.state is Some,
        shell.voice_origin == Some(here),
        path != here,
    ensures
        shell.switched(path, state, from).0.voice == shell.voice,
        shell.switched(path, state, from).0.voice_slot() == Some(Slot::Background),
{
}

/// An attempt that is not the last one is not heard: a later one has another number, up to the number
/// of attempts that can be told apart.
pub proof fn attempts_are_told_apart(shell: ShellModel)
    ensures
        shell.attempting().open_generation != shell.open_generation,
{
}

/// What is wrong with a file before it is read: whether it is a file, how long it is, and its name, which
/// is missing where it is no text.
pub open spec fn file_objection(is_file: bool, length: u64, named: bool) -> Option<Seq<char>> {
    if !is_file || length > MAX_ATTACHMENT_BYTES {
        Some("attachment must be a regular file up to 8 MiB"@)
    } else if !named {
        Some("attachment name is invalid"@)
    } else {
        None
    }
}

/// The name under which a file may be read and shared.
pub fn check_file<'a>(is_file: bool, length: u64, name: Option<&'a str>) -> (verdict: Result<
    &'a str,
    String,
>)
    ensures
        match verdict {
            Ok(text) => file_objection(is_file, length, name is Some) is None && name == Some(text),
            Err(text) => file_objection(is_file, length, name is Some) == Some(text@),
        },
{
    if !is_file || length > MAX_ATTACHMENT_BYTES as u64 {
        return Err("attachment must be a regular file up to 8 MiB".to_owned());
    }
    match name {
        Some(name) => Ok(name),
        None => Err("attachment name is invalid".to_owned()),
    }
}

/// The attachment that a file becomes.
pub fn attachment_of_file(
    id: MessageId,
    channel_id: ChannelId,
    name: &str,
    bytes: Vec<u8>,
) -> (attachment: Result<Attachment, String>)
    ensures
        match attachment {
            Ok(attachment) => attachment@ == (AttachmentModel {
                id,
                channel_id,
                name: name@,
                bytes: bytes@,
            }) && attachment_objection(name@, bytes@) is None,
            Err(text) => attachment_objection(name@, bytes@) matches Some(error) && text@
                == attachment_error_text(error),
        },
{
    match Attachment::new(id, channel_id, name, bytes) {
        Ok(attachment) => Ok(attachment),
        Err(error) => Err(error.text().to_owned()),
    }
}

/// An attempt that is still awaited leads into the community that was opened; one that failed leads
/// back to where it was made, with the reason; and one that is no longer awaited leads nowhere.
pub proof fn attempts_lead_where_they_should(
    shell: ShellModel,
    generation: u64,
    previous: Onboarding,
    opened: Opened,
    error: String,
)
    ensures
        ({
            let awaited = shell.open_generation == generation && shell.onboarding is Opening;
            let (entered, list) = shell.finished(generation, previous, Ok(opened));
            let (back, quiet) = shell.finished(generation, previous, Err(error));
            &&& !awaited ==> entered == shell && back == shell && list.len() == 0 && quiet.len() == 0
            &&& awaited ==> {
                &&& entered.current_path == Some(opened.path@)
                &&& entered.state == Some(opened.state@)
                &&& entered.community_paths.contains(opened.path@)
                &&& entered.config.last_data_dir == Some(opened.path@)
                &&& entered.config.last_invite == said(opened.invite)
                &&& entered.load_error is None
                &&& entered.onboarding is Choice
                &&& !entered.switching_community
                &&& opened.name matches Some(name) ==> entered.config.default_name == Some(name@)
                    && list.len() > 0 && list[0] == (OrderModel::Ask {
                    slot: Slot::Fresh,
                    command: AskModel::SetDisplayName(name@),
                })
                &&& opened.name is None ==> entered.config.default_name
                    == shell.config.default_name
                &&& back == (ShellModel {
                    onboarding: previous,
                    load_error: Some(error@),
                    ..shell
                })
                &&& quiet.len() == 0
            }
        }),
{
    let paths = if shell.community_paths.contains(opened.path@) {
        shell.community_paths
    } else {
        shell.community_paths.push(opened.path@)
    };
    if !shell.community_paths.contains(opened.path@) {
        assert(paths[paths.len() - 1] == opened.path@);
    }
}

/// Every community that was listed stays listed when another one is opened.
pub proof fn communities_stay_listed(
    shell: ShellModel,
    path: Seq<char>,
    state: CommunityView,
    name: Option<Seq<char>>,
    invite: Option<Seq<char>>,
    other: Seq<char>,
)
    requires
        shell.community_paths.contains(other),
    ensures
        shell.entered(path, state, name, invite).0.community_paths.contains(other),
{
    let i = shell.community_paths.index_of(other);
    let paths = shell.entered(path, state, name, invite).0.community_paths;
    assert(paths[i] == other);
}

/// A switch shows the other community: the one in the background as it was kept, any other one as it
/// was opened. A switch to where the user is changes nothing, and one that failed is told.
pub proof fn switches_show_the_other_community(
    shell: ShellModel,
    path: Seq<char>,
    state: CommunityState,
    error: String,
)
    ensures
        shell.current_path == Some(path) ==> shell.switched_to(path, Some(Ok(state))) == (
            shell,
            Seq::<OrderModel>::empty(),
        ),
        shell.current_path != Some(path) ==> ({
            let (after, list) = shell.switched_to(path, Some(Ok(state)));
            let behind = shell.background matches Some((stored, _)) && stored == path;
            &&& after.current_path == Some(path)
            &&& behind ==> after.state == Some((shell.background->0).1)
            &&& !behind ==> after.state == Some(state@)
            &&& after.config.last_data_dir == Some(path)
            &&& after.invite is None
            &&& after.voice == shell.voice && after.voice_origin == shell.voice_origin
            &&& after.community_paths == shell.community_paths
            &&& !behind ==> ({
                let (kept, quiet) = shell.switched_to(path, Some(Err(error)));
                kept == (ShellModel { load_error: Some(error@), ..shell }) && quiet.len() == 0
            })
        }),
{
}

/// The community that a user leaves stays in the background as long as the voice is in it, and only
/// then.
pub proof fn communities_stay_for_their_voice(
    shell: ShellModel,
    here: Seq<char>,
    path: Seq<char>,
    state: CommunityView,
)
    requires
        shell.current_path == Some(here),
        shell.state is Some,
        path != here,
    ensures
        ({
            let after = shell.arrived(path, state);
            &&& shell.voice_origin == Some(here) ==> after.background == Some(
                (here, shell.state->0),
            )
            &&& shell.voice_origin != Some(here) ==> after.background == shell.background
            &&& after.state == Some(state) && after.current_path == Some(path)
        }),
{
}

/// A text that a user sends goes to the channel that it looks at, under the name that it was given
/// and as it was typed; a text that cannot be sent is not, and where it is the text's fault the user
/// is told.
pub proof fn sent_texts_go_to_the_selected_channel(
    shell: ShellModel,
    id: MessageId,
    body: Seq<char>,
    i: int,
)
    requires
        shell.state is Some,
        0 <= i < shell.state->0.channels.len(),
        shell.state->0.channels[i].id == shell.state->0.selected_channel,
        shell.state->0.channels[i].kind is Text,
    ensures
        text_objection(body) is None ==> shell.posting(id, body) == (
            shell,
            seq![
                OrderModel::Ask {
                    slot: Slot::Current,
                    command: AskModel::PostText(
                        TextModel { id, channel_id: shell.state->0.selected_channel, body },
                    ),
                },
            ],
        ),
        text_objection(body) matches Some(error) ==> shell.posting(id, body) == (
            ShellModel { load_error: Some(message_error_text(error)), ..shell },
            Seq::<OrderModel>::empty(),
        ),
{
    assert(has_text_channel(shell.state->0.channels, shell.state->0.selected_channel));
}

/// What a user asks for goes to the community that is shown; where none is, the user is told.
pub proof fn requests_go_to_the_shown_community(shell: ShellModel, command: AskModel)
    ensures
        shell.state is Some ==> shell.asking(command) == (
            ShellModel { load_error: None, ..shell },
            seq![OrderModel::Ask { slot: Slot::Current, command }],
        ),
        shell.state is None ==> shell.asking(command).1.len() == 0 && shell.asking(
            command,
        ).0.load_error is Some,
{
}

/// A community is opened with what the form says, without the white space around it: to found one, a
/// name; to join one, a name and an invite; to recover one, a backup and its passphrase.
pub proof fn forms_open_what_they_say(fields: Fields)
    requires
        trimmed_of(fields.data_dir@).len() > 0,
    ensures
        ({
            let name = trimmed_of(fields.name@);
            let path = trimmed_of(fields.data_dir@);
            let invite_text = trimmed_of(fields.invite@);
            let backup = trimmed_of(fields.backup@);
            &&& display_name_objection(name) is None ==> asked_to_open(
                Onboarding::Create,
                fields,
            ) == Some(Ok::<OpenModel, Seq<char>>(OpenModel::Create { path, name }))
            &&& display_name_objection(name) is None ==> match invite_read(invite_text) {
                Ok((community, owner, address)) => asked_to_open(Onboarding::Join, fields) == Some(
                    Ok::<OpenModel, Seq<char>>(
                        OpenModel::Join { path, name, community, owner, address, invite_text },
                    ),
                ),
                Err(_) => asked_to_open(Onboarding::Join, fields) matches Some(Err(_)),
            }
            &&& display_name_objection(name) is Some ==> (asked_to_open(
                Onboarding::Create,
                fields,
            ) matches Some(Err(_))) && (asked_to_open(Onboarding::Join, fields) matches Some(
                Err(_),
            ))
            &&& backup.len() > 0 && fields.passphrase@.len() >= 12 ==> asked_to_open(
                Onboarding::Recover,
                fields,
            ) == Some(
                Ok::<OpenModel, Seq<char>>(
                    OpenModel::Recover { path, backup, passphrase: fields.passphrase@ },
                ),
            )
            &&& backup.len() == 0 || fields.passphrase@.len() < 12 ==> (asked_to_open(
                Onboarding::Recover,
                fields,
            ) matches Some(Err(_)))
        }),
{
}

} // verus!
