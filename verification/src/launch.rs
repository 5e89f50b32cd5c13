//! How the window starts: what the arguments ask, and what is shown first.

use vstd::prelude::*;

use crate::audio::{copy_of, said, texts, VoiceDeviceNames};
use crate::config::{AppConfig, ConfigModel};
use crate::model::{ChannelId, ChannelModel};
use crate::session::{silent, VoiceState};
use crate::shell::{
    append, give, none, nothing, orders, seen, Heed, Onboarding, Order, OrderModel, Shell, ShellModel,
    Slot,
};
use crate::state::{channel_views, ChannelState, CommunityState, CommunityView};
use crate::text::same_text;

verus! {

/// What the arguments ask: to create a community, to join one, to show an example, or to open
/// communities that are already there, which may be the one that was open last.
#[derive(Debug)]
pub enum Launch {
    Create { path: String },
    Join { path: String, invite: String },
    Preview,
    Existing { paths: Vec<String>, remembered: bool },
}

/// What a launch says.
pub enum LaunchModel {
    Create { path: Seq<char> },
    Join { path: Seq<char>, invite: Seq<char> },
    Preview,
    Existing { paths: Seq<Seq<char>>, remembered: bool },
}

impl View for Launch {
    type V = LaunchModel;

    open spec fn view(&self) -> LaunchModel {
        match self {
            Launch::Create { path } => LaunchModel::Create { path: path@ },
            Launch::Join { path, invite } => LaunchModel::Join { path: path@, invite: invite@ },
            Launch::Preview => LaunchModel::Preview,
            Launch::Existing { paths, remembered } => LaunchModel::Existing {
                paths: texts(paths@),
                remembered: *remembered,
            },
        }
    }
}

/// What arguments ask; `last` is the community that was open last.
pub open spec fn launch_of(args: Seq<Seq<char>>, last: Option<Seq<char>>) -> LaunchModel {
    if args.len() == 2 && args[0] == "--create"@ {
        LaunchModel::Create { path: args[1] }
    } else if args.len() == 3 && args[0] == "--join"@ {
        LaunchModel::Join { path: args[1], invite: args[2] }
    } else if args.len() == 1 && args[0] == "--preview"@ {
        LaunchModel::Preview
    } else if args.len() == 0 {
        LaunchModel::Existing {
            paths: match last {
                Some(path) => seq![path],
                None => Seq::empty(),
            },
            remembered: true,
        }
    } else {
        LaunchModel::Existing { paths: args, remembered: false }
    }
}

fn copies(list: &Vec<String>) -> (copy: Vec<String>)
    ensures
        texts(copy@) == texts(list@),
{
    let mut copy: Vec<String> = Vec::new();
    let mut i: usize = 0;
    while i < list.len()
        invariant
            i <= list@.len(),
            copy@.len() == i,
            forall|j: int| 0 <= j < i ==> (#[trigger] copy@[j])@ == list@[j]@,
        decreases list@.len() - i,
    {
        copy.push(list[i].clone());
        i += 1;
    }
    assert(texts(copy@) =~= texts(list@));
    copy
}

/// Reads the arguments.
pub fn read_arguments(args: &Vec<String>, config: &AppConfig) -> (launch: Launch)
    ensures
        launch@ == launch_of(texts(args@), config@.last_data_dir),
{
    let ghost said_args = texts(args@);
    assert(forall|i: int| 0 <= i < args@.len() ==> said_args[i] == (#[trigger] args@[i])@);
    if args.len() == 2 && same_text(args[0].as_str(), "--create") {
        Launch::Create { path: args[1].clone() }
    } else if args.len() == 3 && same_text(args[0].as_str(), "--join") {
        Launch::Join { path: args[1].clone(), invite: args[2].clone() }
    } else if args.len() == 1 && same_text(args[0].as_str(), "--preview") {
        Launch::Preview
    } else if args.len() == 0 {
        let mut paths: Vec<String> = Vec::new();
        match copy_of(&config.last_data_dir) {
            Some(path) => {
                paths.push(path);
                assert(texts(paths@) =~= seq![path@]);
            },
            None => {
                assert(texts(paths@) =~= Seq::<Seq<char>>::empty());
            },
        }
        Launch::Existing { paths, remembered: true }
    } else {
        Launch::Existing { paths: copies(args), remembered: false }
    }
}

impl AppConfig {
    /// Remembers a community that was opened: the last invite stays where none is given.
    pub fn remember(&mut self, path: Option<String>, invite: Option<Option<String>>)
        ensures
            final(self)@ == (ConfigModel {
                last_data_dir: said(path),
                last_invite: match invite {
                    Some(invite) => said(invite),
                    None => old(self)@.last_invite,
                },
                ..old(self)@
            }),
    {
        self.last_data_dir = path;
        match invite {
            Some(invite) => {
                self.last_invite = invite;
            },
            None => {},
        }
    }
}

impl ShellModel {
    /// The window at its start.
    pub open spec fn started(
        opened: Result<Option<CommunityView>, Seq<char>>,
        paths: Seq<Seq<char>>,
        config: ConfigModel,
        preview: bool,
    ) -> ShellModel {
        ShellModel {
            config,
            community_paths: paths,
            current_path: if opened == Ok::<Option<CommunityView>, Seq<char>>(None) || paths.len()
                == 0 {
                None
            } else {
                Some(paths[0])
            },
            state: match opened {
                Ok(state) => state,
                Err(_) => None,
            },
            background: None,
            voice_origin: None,
            pending_voice: None,
            voice: silent(),
            invite: None,
            onboarding: Onboarding::Choice,
            open_generation: 0,
            preview,
            overlay: None,
            switching_community: false,
            inputs: Seq::empty(),
            outputs: Seq::empty(),
            load_error: match opened {
                Ok(_) => None,
                Err(error) => Some(error),
            },
        }
    }
}

/// What came of opening the first community.
pub open spec fn first_outcome(opened: Result<Option<CommunityState>, String>) -> Result<
    Option<CommunityView>,
    Seq<char>,
> {
    match opened {
        Ok(state) => Ok(seen(state)),
        Err(error) => Err(error@),
    }
}

/// The name of the first channel with this id.
pub open spec fn channel_called(channels: Seq<ChannelModel>, id: ChannelId) -> Option<Seq<char>>
    decreases channels.len(),
{
    if channels.len() == 0 {
        None
    } else if channels[0].id == id {
        Some(channels[0].name)
    } else {
        channel_called(channels.drop_first(), id)
    }
}

/// The name of the first channel with this id.
pub fn channel_name(channels: &Vec<ChannelState>, id: ChannelId) -> (name: Option<String>)
    ensures
        said(name) == channel_called(channel_views(channels@), id),
{
    let ghost views = channel_views(channels@);
    let mut i: usize = 0;
    assert(views.skip(0) =~= views);
    while i < channels.len()
        invariant
            i <= channels@.len(),
            views == channel_views(channels@),
            channel_called(views, id) == channel_called(views.skip(i as int), id),
        decreases channels@.len() - i,
    {
        assert(views[i as int] == channels@[i as int]@);
        assert(views.skip(i as int)[0] == views[i as int]);
        assert(views.skip(i as int).drop_first() =~= views.skip(i + 1));
        if channels[i].id == id {
            return Some(channels[i].name.clone());
        }
        i += 1;
    }
    None
}

impl Shell {
    /// The window at its start, and what it has done first.
    pub fn new(
        opened: Result<Option<CommunityState>, String>,
        community_paths: Vec<String>,
        config: AppConfig,
        preview: bool,
    ) -> (started: (Shell, Vec<Order>))
        ensures
            started.0@ == ShellModel::started(
                first_outcome(opened),
                texts(community_paths@),
                config@,
                preview,
            ),
            orders(started.1@) == (if started.0@.state is Some {
                seq![
                    OrderModel::UseDevices { slot: Slot::Current, heed: Heed::Never },
                ] + started.0@.marking()
            } else {
                none()
            }),
    {
        let first: Option<String> = if community_paths.len() > 0 {
            assert(texts(community_paths@)[0] == community_paths@[0]@);
            Some(community_paths[0].clone())
        } else {
            None
        };
        let ghost wanted = ShellModel::started(
            first_outcome(opened),
            texts(community_paths@),
            config@,
            preview,
        );
        let mut current_path: Option<String> = first;
        let mut state: Option<CommunityState> = None;
        let mut load_error: Option<String> = None;
        match opened {
            Ok(Some(community)) => {
                state = Some(community);
            },
            Ok(None) => {
                current_path = None;
            },
            Err(error) => {
                load_error = Some(error);
            },
        }
        let shell: Shell = Shell {
            config,
            community_paths,
            current_path,
            state,
            background: None,
            voice_origin: None,
            pending_voice: None,
            voice: VoiceState::default(),
            invite: None,
            onboarding: Onboarding::Choice,
            open_generation: 0,
            preview,
            overlay: None,
            switching_community: false,
            audio_devices: VoiceDeviceNames::default(),
            load_error,
        };
        assert(texts(shell.audio_devices.input@) =~= Seq::<Seq<char>>::empty());
        assert(texts(shell.audio_devices.output@) =~= Seq::<Seq<char>>::empty());
        assert(shell@ =~= wanted);
        let mut list: Vec<Order> = nothing();
        if shell.state.is_some() {
            give(&mut list, Order::UseDevices { slot: Slot::Current, heed: Heed::Never });
            let marked: Vec<Order> = shell.mark_selected_read();
            append(&mut list, marked);
            assert(orders(list@) =~= seq![
                OrderModel::UseDevices { slot: Slot::Current, heed: Heed::Never },
            ] + shell@.marking());
        }
        (shell, list)
    }

    /// What the selected channel is called.
    pub fn selected_channel_name(&self) -> (name: String)
        ensures
            name@ == (match self@.state {
                Some(state) => match channel_called(state.channels, state.selected_channel) {
                    Some(name) => name,
                    None => "general"@,
                },
                None => "general"@,
            }),
    {
        let found: Option<String> = match &self.state {
            Some(state) => channel_name(&state.channels, state.selected_channel),
            None => None,
        };
        match found {
            Some(name) => name,
            None => "general".to_owned(),
        }
    }
}

/// What a user asks for when it starts the program is what is done: a community is created or joined
/// at the path that it names, or those that it names are opened, or else the last one.
pub proof fn arguments_say_what_is_opened(
    path: Seq<char>,
    invite: Seq<char>,
    args: Seq<Seq<char>>,
    last: Option<Seq<char>>,
)
    ensures
        launch_of(seq!["--create"@, path], last) == (LaunchModel::Create { path }),
        launch_of(seq!["--join"@, path, invite], last) == (LaunchModel::Join { path, invite }),
        launch_of(seq!["--preview"@], last) is Preview,
        args.len() > 0 && args[0] != "--create"@ && args[0] != "--join"@ && args[0] != "--preview"@
            ==> launch_of(args, last) == (LaunchModel::Existing { paths: args, remembered: false }),
        last matches Some(known) ==> launch_of(Seq::empty(), last) == (LaunchModel::Existing {
            paths: seq![known],
            remembered: true,
        }),
        last is None ==> launch_of(Seq::empty(), last) == (LaunchModel::Existing {
            paths: Seq::empty(),
            remembered: true,
        }),
{
    reveal_strlit("--create");
    reveal_strlit("--join");
    reveal_strlit("--preview");
    assert("--create"@.len() == 8 && "--join"@.len() == 6 && "--preview"@.len() == 9);
}

/// A channel goes by the name of the first entry with its identity, and by none where there is none.
pub proof fn channels_go_by_their_names(channels: Seq<ChannelModel>, id: ChannelId, i: int)
    ensures
        0 <= i < channels.len() && channels[i].id == id && (forall|j: int|
            0 <= j < i ==> (#[trigger] channels[j]).id != id) ==> channel_called(channels, id)
            == Some(channels[i].name),
        (forall|j: int| 0 <= j < channels.len() ==> (#[trigger] channels[j]).id != id)
            ==> channel_called(channels, id) is None,
    decreases channels.len(),
{
    if channels.len() > 0 {
        let rest = channels.drop_first();
        channels_go_by_their_names(rest, id, i - 1);
        assert(forall|j: int| 0 <= j < rest.len() ==> (#[trigger] rest[j]) == channels[j + 1]);
    }
}

/// A window starts with what was opened: at the first path where there is a community, with the
/// reason where there is none, and always in silence.
pub proof fn windows_start_with_what_was_opened(
    state: CommunityView,
    error: Seq<char>,
    paths: Seq<Seq<char>>,
    config: ConfigModel,
    preview: bool,
)
    ensures
        ({
            let shown = ShellModel::started(Ok(Some(state)), paths, config, preview);
            let empty = ShellModel::started(Ok(None), paths, config, preview);
            let failed = ShellModel::started(Err(error), paths, config, preview);
            &&& shown.state == Some(state) && shown.load_error is None
            &&& paths.len() > 0 ==> shown.current_path == Some(paths[0])
            &&& empty.state is None && empty.current_path is None && empty.load_error is None
            &&& failed.state is None && failed.load_error == Some(error)
            &&& shown.community_paths == paths && shown.config == config && shown.preview == preview
            &&& shown.voice.channel is None && shown.voice.phase is Disconnected
            &&& shown.voice_origin is None && shown.background is None
            &&& shown.onboarding is Choice
        }),
{
}

} // verus!
