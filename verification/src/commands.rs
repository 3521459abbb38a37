//! The decisions behind the GUI's commands: which files they use, what they
//! record in the settings and what they offer. The commands themselves, which
//! read and write files and run noalbs, call these.
use vstd::prelude::*;

use crate::binary::{is_update_available, normalize_tag, normalized, update_available};
use crate::config::Config;
use crate::error::AppError;
use crate::fs_path::{join, parent, FsPath, PathView};
use crate::settings::{BinarySource, Settings, SettingsView};
use crate::status::NoalbsStatus;

verus! {

/// What saving the config reports: the config as parsed and whether noalbs
/// is running (so the GUI can offer a restart).
pub struct SaveConfigResult {
    pub config: Config,
    pub running: bool,
}

/// Everything the dashboard shows at once.
pub struct DashboardSnapshot {
    pub running: bool,
    pub uptime_secs: Option<u64>,
    pub version: Option<String>,
    pub status: NoalbsStatus,
}

/// The directory that holds `config.json` and `.env`: the working directory
/// if one is set, else the directory of the binary.
pub open spec fn data_dir(s: SettingsView) -> Option<PathView> {
    match s.working_dir {
        Some(d) => Some(d),
        None => match s.binary_path {
            Some(b) => parent(b),
            None => None,
        },
    }
}

/// The message of the error when there is no such directory.
pub open spec fn no_dir_message() -> Seq<char> {
    "no working directory or binary path set"@
}

/// The file `name` in the data directory, or the error `Other` that says
/// there is none.
pub open spec fn data_file(s: SettingsView, name: Seq<char>, r: Result<FsPath, AppError>) -> bool {
    match r {
        Ok(p) => (data_dir(s) matches Some(d) && p@ == join(d, name)),
        Err(e) => data_dir(s) is None && (e matches AppError::Other(m) && m@ == no_dir_message()),
    }
}

fn data_file_path(s: &Settings, name: &str) -> (r: Result<FsPath, AppError>)
    ensures
        data_file(s@, name@, r),
{
    let dir = match &s.working_dir {
        Some(d) => Some(d.copy()),
        None => match &s.binary_path {
            Some(b) => b.parent(),
            None => None,
        },
    };
    match dir {
        Some(d) => Ok(d.join(name)),
        None => Err(AppError::Other(String::from_str("no working directory or binary path set"))),
    }
}

/// Where `config.json` lives.
pub fn config_path(s: &Settings) -> (r: Result<FsPath, AppError>)
    ensures
        data_file(s@, "config.json"@, r),
{
    data_file_path(s, "config.json")
}

/// Where `.env` lives.
pub fn env_path(s: &Settings) -> (r: Result<FsPath, AppError>)
    ensures
        data_file(s@, ".env"@, r),
{
    data_file_path(s, ".env")
}

/// The relative path `.`.
pub open spec fn current_dir() -> PathView {
    PathView { root: Seq::empty(), parts: seq!["."@] }
}

/// The directory noalbs runs in: the working directory if one is set, else
/// the binary's directory, else `.`.
pub open spec fn launch_dir(s: SettingsView, binary: PathView) -> PathView {
    match s.working_dir {
        Some(d) => d,
        None => match parent(binary) {
            Some(p) => p,
            None => current_dir(),
        },
    }
}

/// The binary to run and the directory to run it in, or `BinaryMissing`
/// when no binary is set.
pub fn launch_plan(s: &Settings) -> (r: Result<(FsPath, FsPath), AppError>)
    ensures
        match r {
            Ok((b, c)) => s@.binary_path == Some(b@) && c@ == launch_dir(s@, b@),
            Err(e) => s@.binary_path is None && e is BinaryMissing,
        },
{
    let binary = match &s.binary_path {
        Some(b) => b.copy(),
        None => {
            return Err(AppError::BinaryMissing);
        },
    };
    let cwd = match &s.working_dir {
        Some(d) => d.copy(),
        None => match binary.parent() {
            Some(p) => p,
            None => {
                let mut parts: Vec<String> = Vec::new();
                parts.push(String::from_str("."));
                let p = FsPath { root: String::new(), parts };
                assert(p@.parts =~= seq!["."@]);
                p
            },
        },
    };
    Ok((binary, cwd))
}

/// Where a downloaded binary goes: the directory of the current binary, so
/// that the `config.json` and `.env` next to it stay in use, or
/// `default_dir` for a first install.
pub fn download_dir(s: &Settings, default_dir: &FsPath) -> (r: FsPath)
    ensures
        r@ == match s@.binary_path {
            Some(b) => match parent(b) {
                Some(p) => p,
                None => default_dir@,
            },
            None => default_dir@,
        },
{
    match &s.binary_path {
        Some(b) => match b.parent() {
            Some(p) => p,
            None => default_dir.copy(),
        },
        None => default_dir.copy(),
    }
}

/// Records a downloaded binary and the version of the release it came from;
/// the binary is then managed automatically again.
pub fn record_download(s: &mut Settings, binary: FsPath, tag: &str)
    ensures
        final(s)@ == (SettingsView {
            binary_source: BinarySource::Auto,
            binary_path: Some(binary@),
            installed_version: Some(normalized(tag@)),
            ..old(s)@
        }),
{
    s.binary_source = BinarySource::Auto;
    s.binary_path = Some(binary);
    let v = normalize_tag(tag);
    s.installed_version = Some(String::from_str(v));
}

/// Switches to a binary chosen by hand; its version is then unknown.
pub fn use_manual_binary(s: &mut Settings, path: FsPath)
    ensures
        final(s)@ == (SettingsView {
            binary_source: BinarySource::Manual,
            binary_path: Some(path@),
            installed_version: None,
            ..old(s)@
        }),
{
    s.binary_source = BinarySource::Manual;
    s.binary_path = Some(path);
    s.installed_version = None;
}

/// The tag to offer as an update: the latest tag, unless an installed
/// version is known and the latest is not newer than it.
pub open spec fn offered_update(installed: Option<Seq<char>>, latest_tag: Seq<char>) -> Option<
    Seq<char>,
> {
    match installed {
        Some(v) => if !update_available(latest_tag, v) {
            None
        } else {
            Some(latest_tag)
        },
        None => Some(latest_tag),
    }
}

/// Returns the newer tag if an update is available, else None.
pub fn update_offer(installed: &Option<String>, latest_tag: &str) -> (r: Option<String>)
    ensures
        match r {
            Some(t) => offered_update(
                match installed {
                    Some(v) => Some(v@),
                    None => None,
                },
                latest_tag@,
            ) == Some(t@),
            None => offered_update(
                match installed {
                    Some(v) => Some(v@),
                    None => None,
                },
                latest_tag@,
            ) is None,
        },
{
    match installed {
        Some(v) => {
            if !is_update_available(latest_tag, v.as_str()) {
                None
            } else {
                Some(String::from_str(latest_tag))
            }
        },
        None => Some(String::from_str(latest_tag)),
    }
}

} // verus!
