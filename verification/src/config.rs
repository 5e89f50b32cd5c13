//! What a user's application remembers.

use vstd::prelude::*;

use crate::audio::{copy_of, said, VoiceDeviceConfig};
use crate::state::ConnectivityMode;

verus! {

/// What the application remembers.
#[derive(Debug, PartialEq, Eq)]
pub struct AppConfig {
    pub default_name: Option<String>,
    pub last_data_dir: Option<String>,
    pub last_invite: Option<String>,
    pub relay_only: bool,
    pub voice_input_device: Option<String>,
    pub voice_output_device: Option<String>,
}

/// What is remembered.
pub struct ConfigModel {
    pub default_name: Option<Seq<char>>,
    pub last_data_dir: Option<Seq<char>>,
    pub last_invite: Option<Seq<char>>,
    pub relay_only: bool,
    pub voice_input_device: Option<Seq<char>>,
    pub voice_output_device: Option<Seq<char>>,
}

impl View for AppConfig {
    type V = ConfigModel;

    open spec fn view(&self) -> ConfigModel {
        ConfigModel {
            default_name: said(self.default_name),
            last_data_dir: said(self.last_data_dir),
            last_invite: said(self.last_invite),
            relay_only: self.relay_only,
            voice_input_device: said(self.voice_input_device),
            voice_output_device: said(self.voice_output_device),
        }
    }
}

impl Clone for AppConfig {
    fn clone(&self) -> (copy: Self)
        ensures
            copy@ == self@,
    {
        AppConfig {
            default_name: copy_of(&self.default_name),
            last_data_dir: copy_of(&self.last_data_dir),
            last_invite: copy_of(&self.last_invite),
            relay_only: self.relay_only,
            voice_input_device: copy_of(&self.voice_input_device),
            voice_output_device: copy_of(&self.voice_output_device),
        }
    }
}

/// Nothing is remembered.
pub open spec fn nothing_remembered() -> AppConfig {
    AppConfig {
        default_name: None,
        last_data_dir: None,
        last_invite: None,
        relay_only: false,
        voice_input_device: None,
        voice_output_device: None,
    }
}

/// What is remembered, of the file and its backup.
pub open spec fn recovery(file: Option<AppConfig>, backup: Option<AppConfig>) -> AppConfig {
    match (file, backup) {
        (Some(file), _) => file,
        (None, Some(backup)) => backup,
        (None, None) => nothing_remembered(),
    }
}

impl Default for AppConfig {
    fn default() -> (config: Self)
        ensures
            config == nothing_remembered(),
    {
        AppConfig {
            default_name: None,
            last_data_dir: None,
            last_invite: None,
            relay_only: false,
            voice_input_device: None,
            voice_output_device: None,
        }
    }
}

impl AppConfig {
    /// What was remembered: what the file says, or else what its backup says, or else nothing.
    pub fn recovered(file: Option<AppConfig>, backup: Option<AppConfig>) -> (config: Self)
        ensures
            config == recovery(file, backup),
    {
        match file {
            Some(file) => file,
            None => match backup {
                Some(backup) => backup,
                None => AppConfig::default(),
            },
        }
    }

    /// How the node is reached.
    pub fn connectivity_mode(&self) -> (mode: ConnectivityMode)
        ensures
            mode == connectivity_choice(self.relay_only),
    {
        connectivity_mode(self.relay_only)
    }

    /// The devices for voice.
    pub fn voice_devices(&self) -> (devices: VoiceDeviceConfig)
        ensures
            said(devices.input_device) == said(self.voice_input_device),
            said(devices.output_device) == said(self.voice_output_device),
    {
        VoiceDeviceConfig {
            input_device: copy_of(&self.voice_input_device),
            output_device: copy_of(&self.voice_output_device),
        }
    }
}

/// How a node is reached, as a user chose.
pub open spec fn connectivity_choice(relay_only: bool) -> ConnectivityMode {
    if relay_only {
        ConnectivityMode::RelayOnly
    } else {
        ConnectivityMode::Wan
    }
}

/// How a node is reached, as a user chose.
pub fn connectivity_mode(relay_only: bool) -> (mode: ConnectivityMode)
    ensures
        mode == connectivity_choice(relay_only),
{
    if relay_only {
        ConnectivityMode::RelayOnly
    } else {
        ConnectivityMode::Wan
    }
}

/// The file counts where it can be read, its backup where only that can, and nothing is remembered
/// where neither can.
pub proof fn files_come_before_backups(
    file: AppConfig,
    backup: Option<AppConfig>,
    other: AppConfig,
)
    ensures
        recovery(Some(file), backup) == file,
        recovery(None, Some(other)) == other,
        recovery(None, None) == nothing_remembered(),
        nothing_remembered().last_data_dir is None && nothing_remembered().last_invite is None
            && nothing_remembered().default_name is None && !nothing_remembered().relay_only
            && nothing_remembered().voice_input_device is None
            && nothing_remembered().voice_output_device is None,
{
}

/// Whoever wants relays alone gets relays alone, and nobody else does.
pub proof fn relays_are_used_alone_on_request(relay_only: bool)
    ensures
        connectivity_choice(relay_only) is RelayOnly <==> relay_only,
        connectivity_choice(relay_only) is Wan <==> !relay_only,
{
}

} // verus!
