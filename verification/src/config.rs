//! The model of noalbs's `config.json`.
use std::collections::HashMap;

use vstd::prelude::*;

verus! {

/// The whole `config.json`.
#[derive(Debug, Clone, PartialEq)]
pub struct Config {
    pub user: User,
    pub switcher: Switcher,
    pub software: SoftwareConnection,
    pub chat: Option<Chat>,
    pub optional_scenes: OptionalScenes,
    pub optional_options: OptionalOptions,
}

#[derive(Debug, Clone, PartialEq)]
pub struct User {
    pub id: Option<i64>,
    pub name: String,
    pub password_hash: Option<String>,
}

#[derive(Debug, Clone, PartialEq)]
pub struct Switcher {
    pub bitrate_switcher_enabled: bool,
    pub only_switch_when_streaming: bool,
    pub instantly_switch_on_recover: bool,
    pub auto_switch_notification: bool,
    pub retry_attempts: u8,
    pub triggers: Triggers,
    pub switching_scenes: SwitchingScenes,
    pub stream_servers: Vec<StreamServerEntry>,
}

#[derive(Debug, Clone, PartialEq)]
pub struct Triggers {
    pub low: Option<u32>,
    pub rtt: Option<u32>,
    pub offline: Option<u32>,
    pub rtt_offline: Option<u32>,
}

#[derive(Debug, Clone, PartialEq)]
pub struct SwitchingScenes {
    pub normal: String,
    pub low: String,
    pub offline: String,
}

#[derive(Debug, Clone, PartialEq)]
pub enum SoftwareConnection {
    Obs(ObsConfig),
}

#[derive(Debug, Clone, PartialEq)]
pub struct ObsConfig {
    pub host: String,
    pub password: Option<String>,
    pub port: u16,
    pub collections: Option<HashMap<String, CollectionPair>>,
}

#[derive(Debug, Clone, PartialEq)]
pub struct CollectionPair {
    pub profile: String,
    pub collection: String,
}

#[derive(Debug, Clone, PartialEq)]
pub struct OptionalScenes {
    pub starting: Option<String>,
    pub ending: Option<String>,
    pub privacy: Option<String>,
    pub refresh: Option<String>,
}

impl Default for OptionalScenes {
    fn default() -> (r: Self)
        ensures
            r.starting is None,
            r.ending is None,
            r.privacy is None,
            r.refresh is None,
    {
        OptionalScenes { starting: None, ending: None, privacy: None, refresh: None }
    }
}

#[derive(Debug, Clone, PartialEq)]
pub struct OptionalOptions {
    pub twitch_transcoding_check: bool,
    pub twitch_transcoding_retries: u64,
    pub twitch_transcoding_delay_seconds: u64,
    pub offline_timeout: Option<u32>,
    pub record_while_streaming: bool,
    pub switch_to_starting_scene_on_stream_start: bool,
    pub switch_from_starting_scene_to_live_scene: bool,
}

impl Default for OptionalOptions {
    fn default() -> (r: Self)
        ensures
            !r.twitch_transcoding_check,
            r.twitch_transcoding_retries == 5,
            r.twitch_transcoding_delay_seconds == 15,
            r.offline_timeout is None,
            !r.record_while_streaming,
            !r.switch_to_starting_scene_on_stream_start,
            !r.switch_from_starting_scene_to_live_scene,
    {
        Self {
            twitch_transcoding_check: false,
            twitch_transcoding_retries: 5,
            twitch_transcoding_delay_seconds: 15,
            offline_timeout: None,
            record_while_streaming: false,
            switch_to_starting_scene_on_stream_start: false,
            switch_from_starting_scene_to_live_scene: false,
        }
    }
}

// ── Stream server types ────────────────────────────────────────────────────────

#[derive(Debug, Clone, PartialEq)]
pub struct StreamServerEntry {
    pub stream_server: StreamServerKind,
    pub name: String,
    pub priority: Option<i32>,
    pub override_scenes: Option<SwitchingScenes>,
    pub depends_on: Option<DependsOn>,
    pub enabled: bool,
}

/// A stream server entry is enabled unless it says otherwise.
pub fn default_true() -> (r: bool)
    ensures
        r,
{
    true
}

#[derive(Debug, Clone, PartialEq)]
pub struct DependsOn {
    pub name: String,
    pub backup_scenes: SwitchingScenes,
}

/// Auth used by NodeMediaServer and Mediamtx.
#[derive(Debug, Clone, PartialEq)]
pub struct ServerAuth {
    pub username: String,
    pub password: String,
}

/// The kinds of stream server noalbs can poll, each with its own settings.
#[derive(Debug, Clone, PartialEq)]
pub enum StreamServerKind {
    Nginx(NginxConfig),
    NodeMediaServer(NodeMediaServerConfig),
    Nimble(NimbleConfig),
    SrtLiveServer(SrtLiveServerConfig),
    Belabox(BelaboxConfig),
    Mediamtx(MediamtxConfig),
    Rist(RistConfig),
    Xiu(XiuConfig),
    OpenIrl(OpenIrlConfig),
    Irlhosting(IrlhostingConfig),
}

#[derive(Debug, Clone, PartialEq)]
pub struct NginxConfig {
    pub stats_url: String,
    pub application: String,
    pub key: String,
}

#[derive(Debug, Clone, PartialEq)]
pub struct NodeMediaServerConfig {
    pub stats_url: String,
    pub application: String,
    pub key: String,
    pub auth: Option<ServerAuth>,
}

#[derive(Debug, Clone, PartialEq)]
pub struct NimbleConfig {
    pub stats_url: String,
    pub id: String,
    pub application: String,
    pub key: String,
}

#[derive(Debug, Clone, PartialEq)]
pub struct SrtLiveServerConfig {
    pub stats_url: String,
    pub publisher: String,
    pub api_key: Option<String>,
}

#[derive(Debug, Clone, PartialEq)]
pub struct BelaboxConfig {
    pub stats_url: String,
    pub publisher: String,
}

#[derive(Debug, Clone, PartialEq)]
pub struct MediamtxConfig {
    pub stats_url: String,
    pub auth: Option<ServerAuth>,
}

#[derive(Debug, Clone, PartialEq)]
pub struct RistConfig {
    pub stats_url: String,
}

#[derive(Debug, Clone, PartialEq)]
pub struct XiuConfig {
    pub stats_url: String,
    pub application: String,
    pub key: String,
}

#[derive(Debug, Clone, PartialEq)]
pub struct OpenIrlConfig {
    pub stats_url: String,
}

#[derive(Debug, Clone, PartialEq)]
pub struct IrlhostingConfig {
    pub stats_url: String,
    pub application: Option<String>,
    pub key: Option<String>,
    pub publisher: Option<String>,
}

// ── Chat types ─────────────────────────────────────────────────────────────────

/// The chat bot's settings; every field has a default.
#[derive(Debug, Clone, PartialEq)]
pub struct Chat {
    pub platform: ChatPlatform,
    pub username: String,
    pub admins: Vec<String>,
    pub ignore_users: Vec<String>,
    pub language: String,
    pub prefix: String,
    pub enable_public_commands: bool,
    pub enable_mod_commands: bool,
    pub enable_auto_stop_stream_on_host_or_raid: bool,
    pub announce_raid_on_auto_stop: bool,
    pub commands: Option<HashMap<String, CommandInfo>>,
}

impl Default for Chat {
    fn default() -> (r: Self)
        ensures
            r.platform is Twitch,
            r.username@ == Seq::<char>::empty(),
            r.admins@.len() == 0,
            r.ignore_users@.len() == 0,
            r.language@ == "EN"@,
            r.prefix@ == "!"@,
            r.enable_public_commands,
            r.enable_mod_commands,
            !r.enable_auto_stop_stream_on_host_or_raid,
            !r.announce_raid_on_auto_stop,
            r.commands is None,
    {
        Self {
            platform: ChatPlatform::Twitch,
            username: String::new(),
            admins: Vec::new(),
            ignore_users: Vec::new(),
            language: String::from_str("EN"),
            prefix: String::from_str("!"),
            enable_public_commands: true,
            enable_mod_commands: true,
            enable_auto_stop_stream_on_host_or_raid: false,
            announce_raid_on_auto_stop: false,
            commands: None,
        }
    }
}

/// The chat platform: Twitch, or Kick with its ids.
#[derive(Debug, Clone, PartialEq)]
pub enum ChatPlatform {
    Twitch,
    Kick(KickConfig),
}

#[derive(Debug, Clone, PartialEq)]
pub struct KickConfig {
    pub channel_id: Option<usize>,
    pub chatroom_id: Option<usize>,
    pub use_irlproxy: Option<bool>,
}

/// Per-command permission and alias overrides.
#[derive(Debug, Clone, PartialEq)]
pub struct CommandInfo {
    pub permission: Option<String>,
    pub user_permissions: Option<Vec<String>>,
    pub alias: Option<Vec<String>>,
}

impl Default for CommandInfo {
    fn default() -> (r: Self)
        ensures
            r.permission is None,
            r.user_permissions is None,
            r.alias is None,
    {
        CommandInfo { permission: None, user_permissions: None, alias: None }
    }
}

} // verus!
