//! What the panels of the window say and offer.

use vstd::prelude::*;

use crate::audio::said;
use crate::community::{MemberId, MemberRole};
use crate::connection::{ConnectionPathDiagnostic, ConnectionPathKind};
use crate::forms::member_hex;
use crate::launch::{channel_called, channel_name};
use crate::model::{ChannelId, ChannelKind, ChannelModel, MAX_VOICE_PARTICIPANTS};
use crate::names::Seat;
use crate::session::voice_status;
use crate::shell::{is_path, Onboarding, Overlay, Shell, ShellModel};
use crate::sorted::sorted_keys;
use crate::state::{
    connection_label, counted, find_member, first_member, online_among, path_name, paths_to,
    seat_views, seated, CommunityAccess, CommunityState, CommunityView, MemberState, MemberView,
    SPEAKING_NANOS,
};
use crate::text::{chars_of, decimal, hex, push_decimal, push_text, same_text, text_between};

verus! {

/// What a form of the opening screen asks for.
#[derive(Clone, Copy, Debug, PartialEq, Eq, Structural)]
pub enum Asked {
    Name,
    DataDir,
    Invite,
    Backup,
    Passphrase,
}

/// What the opening screen shows.
#[derive(Debug)]
pub enum Entrance {
    /// The ways into a community, what connections are allowed, and whether there is a way back.
    Choices { transport: &'static str, way_back: bool },
    /// A community is being opened.
    Busy(&'static str),
    /// A form: its title, what its button says, and what it asks for.
    Form { title: &'static str, submit: &'static str, asks: Vec<Asked> },
}

/// What is read on the opening screen.
pub enum EntranceModel {
    Choices { transport: Seq<char>, way_back: bool },
    Busy(Seq<char>),
    Form { title: Seq<char>, submit: Seq<char>, asks: Seq<Asked> },
}

impl View for Entrance {
    type V = EntranceModel;

    open spec fn view(&self) -> EntranceModel {
        match self {
            Entrance::Choices { transport, way_back } => EntranceModel::Choices {
                transport: transport@,
                way_back: *way_back,
            },
            Entrance::Busy(text) => EntranceModel::Busy(text@),
            Entrance::Form { title, submit, asks } => EntranceModel::Form {
                title: title@,
                submit: submit@,
                asks: asks@,
            },
        }
    }
}

impl ShellModel {
    /// What the opening screen shows.
    pub open spec fn entrance(self) -> EntranceModel {
        match self.onboarding {
            Onboarding::Choice => EntranceModel::Choices {
                transport: if self.config.relay_only {
                    "transport: relay only ✓"@
                } else {
                    "transport: automatic (direct + relay)"@
                },
                way_back: self.switching_community,
            },
            Onboarding::Opening => EntranceModel::Busy(
                "opening encrypted Community… keep this window open"@,
            ),
            Onboarding::Create => EntranceModel::Form {
                title: "create a Community"@,
                submit: "create"@,
                asks: seq![Asked::Name, Asked::DataDir],
            },
            Onboarding::Join => EntranceModel::Form {
                title: "join a Community"@,
                submit: "join"@,
                asks: seq![Asked::Name, Asked::DataDir, Asked::Invite],
            },
            Onboarding::Recover => EntranceModel::Form {
                title: "recover an identity"@,
                submit: "recover"@,
                asks: seq![Asked::DataDir, Asked::Backup, Asked::Passphrase],
            },
        }
    }
}

impl Shell {
    /// What the opening screen shows.
    pub fn entrance(&self) -> (shown: Entrance)
        ensures
            shown@ == self@.entrance(),
    {
        match self.onboarding {
            Onboarding::Choice => Entrance::Choices {
                transport: if self.config.relay_only {
                    "transport: relay only ✓"
                } else {
                    "transport: automatic (direct + relay)"
                },
                way_back: self.switching_community,
            },
            Onboarding::Opening => Entrance::Busy(
                "opening encrypted Community… keep this window open",
            ),
            Onboarding::Create => {
                let asks: Vec<Asked> = vec![Asked::Name, Asked::DataDir];
                assert(asks@ =~= seq![Asked::Name, Asked::DataDir]);
                Entrance::Form { title: "create a Community", submit: "create", asks }
            },
            Onboarding::Join => {
                let asks: Vec<Asked> = vec![Asked::Name, Asked::DataDir, Asked::Invite];
                assert(asks@ =~= seq![Asked::Name, Asked::DataDir, Asked::Invite]);
                Entrance::Form { title: "join a Community", submit: "join", asks }
            },
            Onboarding::Recover => {
                let asks: Vec<Asked> = vec![Asked::DataDir, Asked::Backup, Asked::Passphrase];
                assert(asks@ =~= seq![Asked::DataDir, Asked::Backup, Asked::Passphrase]);
                Entrance::Form { title: "recover an identity", submit: "recover", asks }
            },
        }
    }
}

/// What is said to a member that has no access, first in short: nothing to one that has.
pub fn access_notice(access: CommunityAccess) -> (notice: Option<(&'static str, &'static str)>)
    ensures
        match access {
            CommunityAccess::Waiting => notice matches Some(notice) && notice.0@
                == "⧖ waiting for admission"@ && notice.1@
                == "Request sent — the owner must be online to admit you. You can safely close this window and reconnect with the same data directory."@,
            CommunityAccess::Removed => notice matches Some(notice) && notice.0@
                == "your access ended"@ && notice.1@
                == "History already stored on this device remains available in its data directory."@,
            CommunityAccess::Active => notice is None,
        },
{
    match access {
        CommunityAccess::Waiting => Some(
            (
                "⧖ waiting for admission",
                "Request sent — the owner must be online to admit you. You can safely close this window and reconnect with the same data directory.",
            ),
        ),
        CommunityAccess::Removed => Some(
            (
                "your access ended",
                "History already stored on this device remains available in its data directory.",
            ),
        ),
        CommunityAccess::Active => None,
    }
}

/// A path to a peer, as it is shown.
#[derive(Debug, PartialEq, Eq)]
pub struct PathLine {
    pub text: String,
    pub selected: bool,
}

/// What the panel above the window shows.
#[derive(Debug)]
pub enum Panel {
    /// The settings: what connections are allowed, and the devices in use.
    Settings { transport: &'static str, input: String, output: String },
    /// A form for a new channel.
    CreateChannel { title: &'static str, kind: ChannelKind },
    /// A member.
    Member {
        name: String,
        availability: bool,
        fingerprint: String,
        paths: Vec<PathLine>,
        removable: bool,
    },
    /// The question whether a member is to be removed.
    ConfirmRemove { member: MemberId, fingerprint: String },
}

/// What is read on the panel.
pub enum PanelModel {
    Settings { transport: Seq<char>, input: Seq<char>, output: Seq<char> },
    CreateChannel { title: Seq<char>, kind: ChannelKind },
    Member {
        name: Seq<char>,
        availability: bool,
        fingerprint: Seq<char>,
        paths: Seq<(Seq<char>, bool)>,
        removable: bool,
    },
    ConfirmRemove { member: MemberId, fingerprint: Seq<char> },
}

/// The lines as they are read.
pub open spec fn path_lines(list: Seq<PathLine>) -> Seq<(Seq<char>, bool)> {
    list.map_values(|line: PathLine| (line.text@, line.selected))
}

impl View for Panel {
    type V = PanelModel;

    open spec fn view(&self) -> PanelModel {
        match self {
            Panel::Settings { transport, input, output } => PanelModel::Settings {
                transport: transport@,
                input: input@,
                output: output@,
            },
            Panel::CreateChannel { title, kind } => PanelModel::CreateChannel {
                title: title@,
                kind: *kind,
            },
            Panel::Member { name, availability, fingerprint, paths, removable } => PanelModel::Member {
                name: name@,
                availability: *availability,
                fingerprint: fingerprint@,
                paths: path_lines(paths@),
                removable: *removable,
            },
            Panel::ConfirmRemove { member, fingerprint } => PanelModel::ConfirmRemove {
                member: *member,
                fingerprint: fingerprint@,
            },
        }
    }
}

/// What is said of a device: its name, or that the system chooses.
pub open spec fn device_line(label: Seq<char>, device: Option<Seq<char>>) -> Seq<char> {
    label + match device {
        Some(name) => name,
        None => "system default"@,
    }
}

/// What is said of a path.
pub open spec fn path_line(kind: ConnectionPathKind, selected: bool, millis: u64) -> (
    Seq<char>,
    bool,
) {
    (
        path_name(kind) + decimal(millis as nat) + "ms"@ + if selected {
            " · selected"@
        } else {
            Seq::empty()
        },
        selected,
    )
}

/// The member of this name, if it is shown.
pub open spec fn shown_member(
    state: Option<CommunityView>,
    member: MemberId,
) -> Option<MemberView> {
    match state {
        Some(state) => match first_member(state.members, member) {
            Some(i) => Some(state.members[i]),
            None => None,
        },
        None => None,
    }
}

impl ShellModel {
    /// What is shown of a member. Only the owner may remove a member, and not itself.
    pub open spec fn member_panel(self, member: MemberId) -> PanelModel {
        let shown = shown_member(self.state, member);
        PanelModel::Member {
            name: match shown {
                Some(shown) => shown.name,
                None => "unknown member"@,
            },
            availability: shown matches Some(shown) && shown.role is Availability,
            fingerprint: hex(member@),
            paths: match self.state {
                Some(state) => paths_to(state.diagnostics, member).map_values(
                    |path: ConnectionPathDiagnostic|
                        path_line(path.kind, path.selected, path.rtt_ms()),
                ),
                None => Seq::empty(),
            },
            removable: shown matches Some(shown) && !shown.is_local && self.owns(),
        }
    }

    /// What the panel above the window shows.
    pub open spec fn panel(self) -> Option<PanelModel> {
        match self.overlay {
            Some(Overlay::Settings) => Some(
                PanelModel::Settings {
                    transport: if self.config.relay_only {
                        "relay-only transport on next open ✓"@
                    } else {
                        "automatic transport on next open"@
                    },
                    input: device_line("input · "@, self.config.voice_input_device),
                    output: device_line("output · "@, self.config.voice_output_device),
                },
            ),
            Some(Overlay::CreateChannel(kind)) => Some(
                PanelModel::CreateChannel {
                    title: match kind {
                        ChannelKind::Text => "create text channel"@,
                        ChannelKind::Voice => "create voice channel"@,
                    },
                    kind,
                },
            ),
            Some(Overlay::Member(member)) => Some(self.member_panel(member)),
            Some(Overlay::ConfirmRemove(member)) => Some(
                PanelModel::ConfirmRemove { member, fingerprint: hex(member@) },
            ),
            None => None,
        }
    }
}

fn device_text(label: &str, device: &Option<String>) -> (text: String)
    ensures
        text@ == device_line(label@, said(*device)),
{
    let mut text: String = label.to_owned();
    match device {
        Some(name) => push_text(&mut text, name.as_str()),
        None => push_text(&mut text, "system default"),
    }
    text
}

fn path_texts(paths: &Vec<(ConnectionPathKind, bool, u64)>) -> (lines: Vec<PathLine>)
    ensures
        path_lines(lines@) == paths@.map_values(
            |path: (ConnectionPathKind, bool, u64)| path_line(path.0, path.1, path.2),
        ),
{
    let ghost wanted = paths@.map_values(
        |path: (ConnectionPathKind, bool, u64)| path_line(path.0, path.1, path.2),
    );
    let mut lines: Vec<PathLine> = Vec::new();
    let mut i: usize = 0;
    while i < paths.len()
        invariant
            i <= paths@.len(),
            wanted.len() == paths@.len(),
            forall|k: int|
                0 <= k < wanted.len() ==> #[trigger] wanted[k] == path_line(
                    paths@[k].0,
                    paths@[k].1,
                    paths@[k].2,
                ),
            path_lines(lines@) == wanted.take(i as int),
        decreases paths@.len() - i,
    {
        let (kind, selected, millis): (ConnectionPathKind, bool, u64) = paths[i];
        let mut text: String = connection_label(Some((kind, millis)));
        if selected {
            push_text(&mut text, " · selected");
        }
        let line: PathLine = PathLine { text, selected };
        assert((line.text@, line.selected) == wanted[i as int]) by {
            if !selected {
                assert(line.text@ + Seq::<char>::empty() =~= line.text@);
            }
        }
        let ghost before = lines@;
        lines.push(line);
        assert(path_lines(lines@) =~= path_lines(before).push(wanted[i as int]));
        assert(wanted.take(i + 1) =~= wanted.take(i as int).push(wanted[i as int]));
        i += 1;
    }
    assert(wanted.take(i as int) =~= wanted);
    lines
}

impl Shell {
    fn member_panel(&self, member: MemberId) -> (panel: Panel)
        ensures
            panel@ == self@.member_panel(member),
    {
        let mut name: String = "unknown member".to_owned();
        let mut availability: bool = false;
        let mut removable: bool = false;
        let mut paths: Vec<PathLine> = Vec::new();
        match &self.state {
            Some(state) => {
                match find_member(&state.members, member) {
                    Some(place) => {
                        assert(state@.members[place as int] == state.members@[place as int]@);
                        name = state.members[place].name.clone();
                        availability = state.members[place].role == MemberRole::Availability;
                        removable = !state.members[place].is_local && self.is_owner();
                    },
                    None => {},
                }
                paths = path_texts(&state.peer_paths(member));
                assert(path_lines(paths@) =~= paths_to(state@.diagnostics, member).map_values(
                    |path: ConnectionPathDiagnostic|
                        path_line(path.kind, path.selected, path.rtt_ms()),
                ));
            },
            None => {
                assert(path_lines(paths@) =~= Seq::empty());
            },
        }
        Panel::Member { name, availability, fingerprint: member_hex(member), paths, removable }
    }

    /// What the panel above the window shows, if there is one.
    pub fn panel(&self) -> (panel: Option<Panel>)
        ensures
            match (panel, self@.panel()) {
                (Some(panel), Some(wanted)) => panel@ == wanted,
                (None, None) => true,
                _ => false,
            },
    {
        match self.overlay {
            Some(Overlay::Settings) => Some(
                Panel::Settings {
                    transport: if self.config.relay_only {
                        "relay-only transport on next open ✓"
                    } else {
                        "automatic transport on next open"
                    },
                    input: device_text("input · ", &self.config.voice_input_device),
                    output: device_text("output · ", &self.config.voice_output_device),
                },
            ),
            Some(Overlay::CreateChannel(kind)) => Some(
                Panel::CreateChannel {
                    title: match kind {
                        ChannelKind::Text => "create text channel",
                        ChannelKind::Voice => "create voice channel",
                    },
                    kind,
                },
            ),
            Some(Overlay::Member(member)) => Some(self.member_panel(member)),
            Some(Overlay::ConfirmRemove(member)) => Some(
                Panel::ConfirmRemove { member, fingerprint: member_hex(member) },
            ),
            None => None,
        }
    }
}

/// A channel in the sidebar: its place in the list of channels, whether it is selected, how much in
/// it is unread, and how many members are in it, where it is a voice channel.
#[derive(Clone, Copy, Debug, PartialEq, Eq)]
pub struct ChannelRow {
    pub index: usize,
    pub active: bool,
    pub unread: usize,
    pub occupancy: Option<usize>,
}

impl ChannelRow {
    /// Whether nobody else can join the channel.
    pub fn is_full(&self) -> (full: bool)
        ensures
            full == (self.occupancy matches Some(count) && count >= MAX_VOICE_PARTICIPANTS),
    {
        match self.occupancy {
            Some(count) => count >= MAX_VOICE_PARTICIPANTS,
            None => false,
        }
    }
}

/// What is said beside a member in a voice channel.
#[derive(Clone, Copy, Debug, PartialEq, Eq, Structural)]
pub enum VoiceNote {
    MicOff,
    Speaking,
    Quiet,
}

/// A member in a voice channel: who it is, whether it was heard just now, and what is said beside
/// it.
#[derive(Debug, PartialEq, Eq)]
pub struct VoiceRow {
    pub member: MemberState,
    pub lit: bool,
    pub note: VoiceNote,
}

/// A voice channel in the sidebar, with the members in it.
#[derive(Debug, PartialEq, Eq)]
pub struct VoiceGroup {
    pub row: ChannelRow,
    pub seats: Vec<VoiceRow>,
}

/// A community in the sidebar: its place in the list of paths, whether it is shown, and whether the
/// voice comes from there.
#[derive(Clone, Copy, Debug, PartialEq, Eq, Structural)]
pub struct CommunityRow {
    pub index: usize,
    pub active: bool,
    pub voice: bool,
}

/// The communities and the channels in the sidebar, and whether channels can be made.
#[derive(Debug)]
pub struct Tree {
    pub communities: Vec<CommunityRow>,
    pub creates: bool,
    pub texts: Vec<ChannelRow>,
    pub voices: Vec<VoiceGroup>,
}

/// What is said of the voice below the sidebar.
#[derive(Debug)]
pub struct Dock {
    pub channel: String,
    pub connected: bool,
    pub status: String,
    pub mute: &'static str,
    pub deafen: &'static str,
}

/// The sidebar; without a community there is no tree.
#[derive(Debug)]
pub struct Sidebar {
    pub tree: Option<Tree>,
    pub local_name: String,
    pub dock: Option<Dock>,
}

/// The places of the channels of a kind.
pub open spec fn places_of(channels: Seq<ChannelModel>, kind: ChannelKind) -> Seq<int>
    decreases channels.len(),
{
    if channels.len() == 0 {
        Seq::empty()
    } else {
        let before = places_of(channels.drop_last(), kind);
        if channels.last().kind == kind {
            before.push(channels.len() - 1)
        } else {
            before
        }
    }
}

/// The members in a voice channel, and whether each is muted.
pub open spec fn seats_in(state: CommunityView, channel: ChannelId) -> Seq<(MemberView, bool)> {
    seated(state.members, state.voice, sorted_keys(state.voice), channel)
}

/// Whether a row shows the channel at a place.
pub open spec fn shows_channel(state: CommunityView, place: int, row: ChannelRow) -> bool {
    let channel = state.channels[place];
    &&& row.index == place
    &&& row.active == (state.selected_channel == channel.id)
    &&& row.unread == counted(state.unread(channel.id))
    &&& match channel.kind {
        ChannelKind::Text => row.occupancy is None,
        ChannelKind::Voice => row.occupancy matches Some(count) && count == seats_in(
            state,
            channel.id,
        ).len(),
    }
}

/// Whether a member was heard in a channel just now.
pub open spec fn heard_now(
    state: CommunityView,
    channel: ChannelId,
    member: MemberId,
    now: u64,
) -> bool {
    let seat = Seat { channel, member };
    state.speaking.dom().contains(seat) && now - state.speaking[seat] < SPEAKING_NANOS
}

/// Whether a row shows a member in a voice channel.
pub open spec fn shows_seat(
    state: CommunityView,
    channel: ChannelId,
    seat: (MemberView, bool),
    now: u64,
    row: VoiceRow,
) -> bool {
    &&& row.member@ == seat.0
    &&& row.lit == heard_now(state, channel, seat.0.id, now)
    &&& row.note == (if seat.1 {
        VoiceNote::MicOff
    } else if row.lit {
        VoiceNote::Speaking
    } else {
        VoiceNote::Quiet
    })
}

/// Whether rows show the members in a voice channel, in order.
pub open spec fn shows_seats(
    state: CommunityView,
    channel: ChannelId,
    now: u64,
    rows: Seq<VoiceRow>,
) -> bool {
    let seats = seats_in(state, channel);
    rows.len() == seats.len() && forall|i: int|
        0 <= i < rows.len() ==> shows_seat(state, channel, seats[i], now, #[trigger] rows[i])
}

/// Whether rows show the text channels, in order.
pub open spec fn shows_texts(state: CommunityView, rows: Seq<ChannelRow>) -> bool {
    let places = places_of(state.channels, ChannelKind::Text);
    rows.len() == places.len() && forall|i: int|
        0 <= i < rows.len() ==> shows_channel(state, places[i], #[trigger] rows[i])
}

/// Whether a group shows the voice channel at a place and the members in it.
pub open spec fn shows_group(
    state: CommunityView,
    place: int,
    now: u64,
    group: VoiceGroup,
) -> bool {
    shows_channel(state, place, group.row) && shows_seats(
        state,
        state.channels[place].id,
        now,
        group.seats@,
    )
}

/// Whether groups show the voice channels, in order.
pub open spec fn shows_voices(state: CommunityView, now: u64, groups: Seq<VoiceGroup>) -> bool {
    let places = places_of(state.channels, ChannelKind::Voice);
    groups.len() == places.len() && forall|i: int|
        0 <= i < groups.len() ==> shows_group(state, places[i], now, #[trigger] groups[i])
}

/// Whether rows show the communities, in order.
pub open spec fn shows_communities(shell: ShellModel, rows: Seq<CommunityRow>) -> bool {
    rows == Seq::new(
        shell.community_paths.len(),
        |i: int|
            CommunityRow {
                index: i as usize,
                active: shell.current_path == Some(shell.community_paths[i]),
                voice: shell.voice_origin == Some(shell.community_paths[i]),
            },
    )
}

/// The name of the local member, as it is shown.
pub open spec fn local_name_in(members: Seq<MemberView>) -> Option<Seq<char>>
    decreases members.len(),
{
    if members.len() == 0 {
        None
    } else if members[0].is_local {
        Some(members[0].name)
    } else {
        local_name_in(members.drop_first())
    }
}

impl ShellModel {
    /// The community that is open under this path.
    pub open spec fn state_for(self, path: Seq<char>) -> Option<CommunityView> {
        if self.current_path == Some(path) {
            self.state
        } else {
            match self.background {
                Some((behind, state)) => if behind == path {
                    Some(state)
                } else {
                    None
                },
                None => None,
            }
        }
    }

    /// What the channel is called that the voice is in.
    pub open spec fn voice_room_name(self) -> Seq<char> {
        let found = match (self.voice.channel, self.voice_origin) {
            (Some(channel), Some(origin)) => match self.state_for(origin) {
                Some(state) => channel_called(state.channels, channel),
                None => None,
            },
            _ => None,
        };
        match found {
            Some(name) => name,
            None => "lounge"@,
        }
    }

    /// Whether something is said of the voice below the sidebar.
    pub open spec fn docks(self) -> bool {
        self.state is None || self.voice.channel is Some
    }
}

/// Whether a dock says what the voice does.
pub open spec fn shows_dock(shell: ShellModel, dock: Dock) -> bool {
    &&& dock.channel@ == shell.voice_room_name()
    &&& dock.connected == (shell.voice.phase is Connected)
    &&& dock.status@ == voice_status(shell.voice)
    &&& dock.mute@ == (if shell.voice.muted {
        "unmute"@
    } else {
        "mute"@
    })
    &&& dock.deafen@ == (if shell.voice.deafened {
        "undeafen"@
    } else {
        "deafen"@
    })
}

/// Whether a tree shows the communities and the channels.
pub open spec fn shows_tree(shell: ShellModel, state: CommunityView, now: u64, tree: Tree) -> bool {
    &&& shows_communities(shell, tree.communities@)
    &&& tree.creates == shell.owns()
    &&& shows_texts(state, tree.texts@)
    &&& shows_voices(state, now, tree.voices@)
}

/// Whether a sidebar shows what is open.
pub open spec fn shows_sidebar(shell: ShellModel, now: u64, sidebar: Sidebar) -> bool {
    &&& match (shell.state, sidebar.tree) {
        (Some(state), Some(tree)) => shows_tree(shell, state, now, tree),
        (None, None) => true,
        _ => false,
    }
    &&& sidebar.local_name@ == (match shell.state {
        Some(state) => match local_name_in(state.members) {
            Some(name) => name,
            None => "maren"@,
        },
        None => "maren"@,
    })
    &&& match sidebar.dock {
        Some(dock) => shell.docks() && shows_dock(shell, dock),
        None => !shell.docks(),
    }
}

fn channel_row(state: &CommunityState, index: usize) -> (row: ChannelRow)
    requires
        index < state.channels@.len(),
    ensures
        shows_channel(state@, index as int, row),
{
    assert(state@.channels[index as int] == state.channels@[index as int]@);
    let id: ChannelId = state.channels[index].id;
    let occupancy: Option<usize> = match state.channels[index].kind {
        ChannelKind::Text => None,
        ChannelKind::Voice => {
            let seats: Vec<(MemberState, bool)> = state.voice_members(id);
            assert(seat_views(seats@).len() == seats@.len());
            Some(seats.len())
        },
    };
    ChannelRow {
        index,
        active: state.selected_channel == id,
        unread: state.unread_count(id),
        occupancy,
    }
}

fn text_rows(state: &CommunityState) -> (rows: Vec<ChannelRow>)
    ensures
        shows_texts(state@, rows@),
{
    let ghost channels = state@.channels;
    let mut rows: Vec<ChannelRow> = Vec::new();
    let mut i: usize = 0;
    assert(channels.take(0) =~= Seq::<ChannelModel>::empty());
    while i < state.channels.len()
        invariant
            i <= state.channels@.len(),
            channels == state@.channels,
            rows@.len() == places_of(channels.take(i as int), ChannelKind::Text).len(),
            forall|k: int|
                0 <= k < rows@.len() ==> shows_channel(
                    state@,
                    places_of(channels.take(i as int), ChannelKind::Text)[k],
                    #[trigger] rows@[k],
                ),
        decreases state.channels@.len() - i,
    {
        assert(channels[i as int] == state.channels@[i as int]@);
        assert(channels.take(i + 1).drop_last() =~= channels.take(i as int));
        assert(channels.take(i + 1).last() == channels[i as int]);
        if state.channels[i].kind == ChannelKind::Text {
            rows.push(channel_row(state, i));
        }
        i += 1;
    }
    assert(channels.take(i as int) =~= channels);
    rows
}

fn seat_rows(state: &CommunityState, channel: ChannelId, now: u64) -> (rows: Vec<VoiceRow>)
    ensures
        shows_seats(state@, channel, now, rows@),
{
    let seats: Vec<(MemberState, bool)> = state.voice_members(channel);
    let ghost views = seat_views(seats@);
    let mut rows: Vec<VoiceRow> = Vec::new();
    let mut i: usize = 0;
    while i < seats.len()
        invariant
            i <= seats@.len(),
            views == seat_views(seats@),
            rows@.len() == i,
            forall|k: int|
                0 <= k < i ==> shows_seat(state@, channel, views[k], now, #[trigger] rows@[k]),
        decreases seats@.len() - i,
    {
        assert(views[i as int] == (seats@[i as int].0@, seats@[i as int].1));
        let lit: bool = state.is_speaking(channel, seats[i].0.id, now);
        let note: VoiceNote = if seats[i].1 {
            VoiceNote::MicOff
        } else if lit {
            VoiceNote::Speaking
        } else {
            VoiceNote::Quiet
        };
        rows.push(VoiceRow { member: seats[i].0.clone(), lit, note });
        i += 1;
    }
    rows
}

fn voice_groups(state: &CommunityState, now: u64) -> (groups: Vec<VoiceGroup>)
    ensures
        shows_voices(state@, now, groups@),
{
    let ghost channels = state@.channels;
    let mut groups: Vec<VoiceGroup> = Vec::new();
    let mut i: usize = 0;
    assert(channels.take(0) =~= Seq::<ChannelModel>::empty());
    while i < state.channels.len()
        invariant
            i <= state.channels@.len(),
            channels == state@.channels,
            groups@.len() == places_of(channels.take(i as int), ChannelKind::Voice).len(),
            forall|k: int|
                0 <= k < groups@.len() ==> shows_group(
                    state@,
                    places_of(channels.take(i as int), ChannelKind::Voice)[k],
                    now,
                    #[trigger] groups@[k],
                ),
        decreases state.channels@.len() - i,
    {
        assert(channels[i as int] == state.channels@[i as int]@);
        assert(channels.take(i + 1).drop_last() =~= channels.take(i as int));
        assert(channels.take(i + 1).last() == channels[i as int]);
        if state.channels[i].kind == ChannelKind::Voice {
            let row: ChannelRow = channel_row(state, i);
            let seats: Vec<VoiceRow> = seat_rows(state, state.channels[i].id, now);
            groups.push(VoiceGroup { row, seats });
        }
        i += 1;
    }
    assert(channels.take(i as int) =~= channels);
    groups
}

impl Shell {
    fn community_rows(&self) -> (rows: Vec<CommunityRow>)
        ensures
            shows_communities(self@, rows@),
    {
        let ghost paths = self@.community_paths;
        let mut rows: Vec<CommunityRow> = Vec::new();
        let mut i: usize = 0;
        while i < self.community_paths.len()
            invariant
                i <= self.community_paths@.len(),
                paths == self@.community_paths,
                rows@.len() == i,
                forall|k: int|
                    0 <= k < i ==> #[trigger] rows@[k] == (CommunityRow {
                        index: k as usize,
                        active: self@.current_path == Some(paths[k]),
                        voice: self@.voice_origin == Some(paths[k]),
                    }),
            decreases self.community_paths@.len() - i,
        {
            assert(paths[i as int] == self.community_paths@[i as int]@);
            rows.push(
                CommunityRow {
                    index: i,
                    active: is_path(&self.current_path, self.community_paths[i].as_str()),
                    voice: is_path(&self.voice_origin, self.community_paths[i].as_str()),
                },
            );
            i += 1;
        }
        assert(rows@ =~= Seq::new(
            paths.len(),
            |k: int|
                CommunityRow {
                    index: k as usize,
                    active: self@.current_path == Some(paths[k]),
                    voice: self@.voice_origin == Some(paths[k]),
                },
        ));
        rows
    }

    fn local_name(&self) -> (name: String)
        ensures
            name@ == (match self@.state {
                Some(state) => match local_name_in(state.members) {
                    Some(name) => name,
                    None => "maren"@,
                },
                None => "maren"@,
            }),
    {
        match &self.state {
            Some(state) => {
                let ghost views = state@.members;
                let mut i: usize = 0;
                assert(views.skip(0) =~= views);
                while i < state.members.len()
                    invariant
                        i <= state.members@.len(),
                        views == state@.members,
                        self@.state == Some(state@),
                        local_name_in(views) == local_name_in(views.skip(i as int)),
                    decreases state.members@.len() - i,
                {
                    assert(views[i as int] == state.members@[i as int]@);
                    assert(views.skip(i as int)[0] == views[i as int]);
                    assert(views.skip(i as int).drop_first() =~= views.skip(i + 1));
                    if state.members[i].is_local {
                        return state.members[i].name.clone();
                    }
                    i += 1;
                }
                "maren".to_owned()
            },
            None => "maren".to_owned(),
        }
    }

    fn voice_room_name(&self) -> (name: String)
        ensures
            name@ == self@.voice_room_name(),
    {
        let mut found: Option<String> = None;
        match (self.voice.channel, &self.voice_origin) {
            (Some(channel), Some(origin)) => {
                if is_path(&self.current_path, origin.as_str()) {
                    match &self.state {
                        Some(state) => {
                            found = channel_name(&state.channels, channel);
                        },
                        None => {},
                    }
                } else {
                    match &self.background {
                        Some((behind, state)) => {
                            if same_text(behind.as_str(), origin.as_str()) {
                                found = channel_name(&state.channels, channel);
                            }
                        },
                        None => {},
                    }
                }
            },
            _ => {},
        }
        match found {
            Some(name) => name,
            None => "lounge".to_owned(),
        }
    }

    fn dock(&self) -> (dock: Option<Dock>)
        ensures
            match dock {
                Some(dock) => self@.docks() && shows_dock(self@, dock),
                None => !self@.docks(),
            },
    {
        if self.state.is_some() && self.voice.channel.is_none() {
            return None;
        }
        Some(
            Dock {
                channel: self.voice_room_name(),
                connected: self.voice.is_connected(),
                status: self.voice.status().to_owned(),
                mute: if self.voice.is_muted() {
                    "unmute"
                } else {
                    "mute"
                },
                deafen: if self.voice.is_deafened() {
                    "undeafen"
                } else {
                    "deafen"
                },
            },
        )
    }

    /// The sidebar, at a time in nanoseconds.
    pub fn sidebar(&self, now: u64) -> (sidebar: Sidebar)
        ensures
            shows_sidebar(self@, now, sidebar),
    {
        let tree: Option<Tree> = match &self.state {
            Some(state) => Some(
                Tree {
                    communities: self.community_rows(),
                    creates: self.is_owner(),
                    texts: text_rows(state),
                    voices: voice_groups(state, now),
                },
            ),
            None => None,
        };
        Sidebar { tree, local_name: self.local_name(), dock: self.dock() }
    }
}

/// Whether the selected channel is a voice channel.
pub open spec fn in_voice_room(state: CommunityView) -> bool {
    exists|i: int|
        0 <= i < state.channels.len() && (#[trigger] state.channels[i]).id == state.selected_channel
            && state.channels[i].kind is Voice
}

fn is_in_voice_room(state: &CommunityState) -> (voice: bool)
    ensures
        voice == in_voice_room(state@),
{
    let ghost views = state@.channels;
    let mut i: usize = 0;
    while i < state.channels.len()
        invariant
            i <= state.channels@.len(),
            views == state@.channels,
            forall|k: int|
                0 <= k < i ==> !((#[trigger] views[k]).id == state@.selected_channel
                    && views[k].kind is Voice),
        decreases state.channels@.len() - i,
    {
        assert(views[i as int] == state.channels@[i as int]@);
        if state.channels[i].id == state.selected_channel && state.channels[i].kind
            == ChannelKind::Voice {
            return true;
        }
        i += 1;
    }
    false
}

impl Shell {
    /// What is said in the middle of the window where a voice channel is selected.
    pub fn room_line(&self) -> (line: Option<String>)
        ensures
            match (self@.state, line) {
                (Some(state), Some(line)) => in_voice_room(state) && line@ == decimal(
                    seats_in(state, state.selected_channel).len(),
                ) + "/"@ + decimal(MAX_VOICE_PARTICIPANTS as nat) + " participants · "@ + voice_status(
                    self@.voice,
                ),
                (Some(state), None) => !in_voice_room(state),
                (None, line) => line is None,
            },
    {
        let state: &CommunityState = match &self.state {
            Some(state) => state,
            None => {
                return None;
            },
        };
        if !is_in_voice_room(state) {
            return None;
        }
        let seats: Vec<(MemberState, bool)> = state.voice_members(state.selected_channel);
        assert(seat_views(seats@).len() == seats@.len());
        let mut line: String = String::new();
        push_decimal(&mut line, seats.len() as u64);
        assert(line@ =~= decimal(seats@.len() as nat));
        push_text(&mut line, "/");
        push_decimal(&mut line, MAX_VOICE_PARTICIPANTS as u64);
        push_text(&mut line, " participants · ");
        push_text(&mut line, self.voice.status());
        Some(line)
    }

    /// How many members are there, out of how many.
    pub fn awake_line(&self) -> (line: Option<String>)
        ensures
            match (self@.state, line) {
                (Some(state), Some(line)) => line@ == decimal(
                    online_among(state.members, state.online, state.local_member),
                ) + "/"@ + decimal(state.members.len()) + " awake"@,
                (None, None) => true,
                _ => false,
            },
    {
        match &self.state {
            Some(state) => {
                let mut line: String = String::new();
                push_decimal(&mut line, state.online_count() as u64);
                assert(line@ =~= decimal(
                    online_among(state@.members, state@.online, state@.local_member),
                ));
                push_text(&mut line, "/");
                push_decimal(&mut line, state.members.len() as u64);
                push_text(&mut line, " awake");
                Some(line)
            },
            None => None,
        }
    }
}

/// The name of a member that asks to be let in, in short.
pub fn knock_label(member: MemberId) -> (label: String)
    ensures
        label@ == hex(member@).take(12) + "…"@,
{
    let whole: String = member_hex(member);
    let chars: Vec<char> = chars_of(whole.as_str());
    let mut label: String = text_between(&chars, 0, 12);
    assert(label@ =~= hex(member@).take(12));
    push_text(&mut label, "…");
    label
}

/// The letter that stands for a name.
pub fn initial(name: &str) -> (letter: char)
    ensures
        letter == (if name@.len() > 0 {
            name@[0]
        } else {
            '?'
        }),
{
    let chars: Vec<char> = chars_of(name);
    if chars.len() > 0 {
        chars[0]
    } else {
        '?'
    }
}

proof fn places_are(channels: Seq<ChannelModel>, kind: ChannelKind, place: int)
    ensures
        places_of(channels, kind).contains(place) <==> 0 <= place < channels.len()
            && channels[place].kind == kind,
        forall|i: int, j: int|
            0 <= i < j < places_of(channels, kind).len() ==> #[trigger] places_of(channels, kind)[i]
                < #[trigger] places_of(channels, kind)[j],
        forall|i: int|
            0 <= i < places_of(channels, kind).len() ==> #[trigger] places_of(channels, kind)[i]
                < channels.len(),
    decreases channels.len(),
{
    if channels.len() > 0 {
        let before = channels.drop_last();
        places_are(before, kind, place);
        let some = places_of(before, kind);
        let all = places_of(channels, kind);
        if some.contains(place) {
            let k = some.index_of(place);
            assert(all[k] == place);
            assert(before[place] == channels[place]);
        }
        if channels.last().kind == kind {
            assert(all[all.len() - 1] == channels.len() - 1);
            if all.contains(place) && !some.contains(place) {
                let k = all.index_of(place);
                if k < some.len() {
                    assert(some[k] == place);
                }
            }
        }
        if 0 <= place < before.len() {
            assert(before[place] == channels[place]);
        }
        assert forall|i: int, j: int| 0 <= i < j < all.len() implies #[trigger] all[i]
            < #[trigger] all[j] by {
            assert(all[i] == some[i]);
            if j < some.len() {
                assert(all[j] == some[j]);
            }
        }
        assert forall|i: int| 0 <= i < all.len() implies #[trigger] all[i] < channels.len() by {
            if i < some.len() {
                assert(all[i] == some[i]);
            }
        }
    }
}

/// The sidebar lists every text channel once and in order, and says of each whether the user looks
/// at it and how much in it is unread.
pub proof fn sidebars_list_every_text_channel(
    shell: ShellModel,
    now: u64,
    sidebar: Sidebar,
    place: int,
)
    requires
        shows_sidebar(shell, now, sidebar),
        shell.state is Some,
    ensures
        sidebar.tree is Some,
        ({
            let state = shell.state->0;
            let rows = sidebar.tree->0.texts@;
            &&& (exists|i: int| 0 <= i < rows.len() && (#[trigger] rows[i]).index == place) <==> 0
                <= place < state.channels.len() && state.channels[place].kind is Text
            &&& forall|i: int, j: int|
                0 <= i < j < rows.len() ==> (#[trigger] rows[i]).index < (#[trigger] rows[j]).index
            &&& forall|i: int|
                0 <= i < rows.len() ==> {
                    let row = #[trigger] rows[i];
                    let id = state.channels[row.index as int].id;
                    &&& row.active <==> state.selected_channel == id
                    &&& state.unread(id) <= usize::MAX ==> row.unread == state.unread(id)
                }
        }),
{
    let state = shell.state->0;
    let rows = sidebar.tree->0.texts@;
    let places = places_of(state.channels, ChannelKind::Text);
    places_are(state.channels, ChannelKind::Text, place);
    assert forall|i: int| 0 <= i < rows.len() implies (#[trigger] rows[i]).index == places[i] by {
        assert(shows_channel(state, places[i], rows[i]));
    }
    if places.contains(place) {
        let i = places.index_of(place);
        assert(rows[i].index == place);
    }
    assert forall|i: int| 0 <= i < rows.len() implies {
        let row = #[trigger] rows[i];
        let id = state.channels[row.index as int].id;
        &&& row.active <==> state.selected_channel == id
        &&& state.unread(id) <= usize::MAX ==> row.unread == state.unread(id)
    } by {
        assert(shows_channel(state, places[i], rows[i]));
    }
}

/// The sidebar lists every voice channel with the members that are in it, each as it is: muted,
/// speaking or quiet.
pub proof fn sidebars_list_every_voice_channel(
    shell: ShellModel,
    now: u64,
    sidebar: Sidebar,
    place: int,
)
    requires
        shows_sidebar(shell, now, sidebar),
        shell.state is Some,
    ensures
        sidebar.tree is Some,
        ({
            let state = shell.state->0;
            let groups = sidebar.tree->0.voices@;
            &&& (exists|i: int| 0 <= i < groups.len() && (#[trigger] groups[i]).row.index == place)
                <==> 0 <= place < state.channels.len() && state.channels[place].kind is Voice
            &&& forall|i: int|
                0 <= i < groups.len() ==> {
                    let group = #[trigger] groups[i];
                    let id = state.channels[group.row.index as int].id;
                    let seats = seated(state.members, state.voice, sorted_keys(state.voice), id);
                    &&& group.seats@.len() == seats.len()
                    &&& group.row.occupancy == Some(seats.len() as usize)
                    &&& forall|k: int|
                        0 <= k < seats.len() ==> {
                            let row = #[trigger] group.seats@[k];
                            &&& row.member@ == seats[k].0
                            &&& seats[k].1 ==> row.note is MicOff
                            &&& !seats[k].1 ==> (row.note is Speaking <==> state.speaks(
                                Seat { channel: id, member: seats[k].0.id },
                                now,
                            ))
                        }
                }
        }),
{
    let state = shell.state->0;
    let groups = sidebar.tree->0.voices@;
    let places = places_of(state.channels, ChannelKind::Voice);
    places_are(state.channels, ChannelKind::Voice, place);
    assert forall|i: int| 0 <= i < groups.len() implies (#[trigger] groups[i]).row.index
        == places[i] by {
        assert(shows_group(state, places[i], now, groups[i]));
    }
    if places.contains(place) {
        let i = places.index_of(place);
        assert(groups[i].row.index == place);
    }
    assert forall|i: int| 0 <= i < groups.len() implies {
        let group = #[trigger] groups[i];
        let id = state.channels[group.row.index as int].id;
        let seats = seated(state.members, state.voice, sorted_keys(state.voice), id);
        &&& group.seats@.len() == seats.len()
        &&& group.row.occupancy == Some(seats.len() as usize)
        &&& forall|k: int|
            0 <= k < seats.len() ==> {
                let row = #[trigger] group.seats@[k];
                &&& row.member@ == seats[k].0
                &&& seats[k].1 ==> row.note is MicOff
                &&& !seats[k].1 ==> (row.note is Speaking <==> state.speaks(
                    Seat { channel: id, member: seats[k].0.id },
                    now,
                ))
            }
    } by {
        assert(shows_group(state, places[i], now, groups[i]));
        places_are(state.channels, ChannelKind::Voice, places[i]);
        assert(places.contains(places[i]));
        let group = groups[i];
        let id = state.channels[places[i]].id;
        let seats = seats_in(state, id);
        assert forall|k: int| 0 <= k < seats.len() implies {
            let row = #[trigger] group.seats@[k];
            &&& row.member@ == seats[k].0
            &&& seats[k].1 ==> row.note is MicOff
            &&& !seats[k].1 ==> (row.note is Speaking <==> state.speaks(
                Seat { channel: id, member: seats[k].0.id },
                now,
            ))
        } by {
            assert(shows_seat(state, id, seats[k], now, group.seats@[k]));
        }
    }
}

/// The sidebar lists every community, in order, and says of each whether it is shown and whether the
/// voice is in it; channels are created by the owner alone; and the voice is docked where there is
/// one.
pub proof fn sidebars_list_every_community(
    shell: ShellModel,
    now: u64,
    sidebar: Sidebar,
    i: int,
)
    requires
        shows_sidebar(shell, now, sidebar),
        shell.state is Some,
        0 <= i < shell.community_paths.len() <= usize::MAX,
    ensures
        ({
            let tree = sidebar.tree->0;
            &&& tree.communities@.len() == shell.community_paths.len()
            &&& tree.communities@[i].index == i
            &&& tree.communities@[i].active <==> shell.current_path == Some(
                shell.community_paths[i],
            )
            &&& tree.communities@[i].voice <==> shell.voice_origin == Some(
                shell.community_paths[i],
            )
            &&& tree.creates <==> exists|k: int|
                0 <= k < shell.state->0.members.len() && (
                #[trigger] shell.state->0.members[k]).is_local
                    && shell.state->0.members[k].is_owner
            &&& sidebar.dock is Some <==> shell.voice.channel is Some
        }),
{
}

/// A member's panel offers its removal to the owner, and never that of the user itself.
pub proof fn owners_remove_others(shell: ShellModel, member: MemberId, i: int)
    requires
        shell.state is Some,
        0 <= i < shell.state->0.members.len(),
        first_member(shell.state->0.members, member) == Some(i),
    ensures
        match shell.member_panel(member) {
            PanelModel::Member { name, availability, fingerprint, removable, .. } => {
                &&& name == shell.state->0.members[i].name
                &&& availability <==> shell.state->0.members[i].role is Availability
                &&& fingerprint == hex(member@)
                &&& removable <==> !shell.state->0.members[i].is_local && exists|k: int|
                    0 <= k < shell.state->0.members.len() && (
                    #[trigger] shell.state->0.members[k]).is_local
                        && shell.state->0.members[k].is_owner
            },
            _ => false,
        },
{
}

} // verus!
