//! The GUI's own settings.
use vstd::prelude::*;

use crate::fs_path::{FsPath, PathView};

verus! {

/// Where the noalbs binary comes from.
#[derive(Debug, Clone, Copy, PartialEq, Eq, Structural)]
pub enum BinarySource {
    Auto,
    Manual,
}

/// The colour theme of the window.
#[derive(Debug, Clone, Copy, PartialEq, Eq, Structural)]
pub enum Theme {
    System,
    Light,
    Dark,
}

impl Default for Theme {
    fn default() -> (r: Self)
        ensures
            r == Theme::System,
    {
        Theme::System
    }
}

/// The GUI's settings.
#[derive(Debug, Clone, PartialEq, Eq)]
pub struct Settings {
    pub binary_source: BinarySource,
    pub binary_path: Option<FsPath>,
    pub installed_version: Option<String>,
    pub working_dir: Option<FsPath>,
    pub check_updates_on_startup: bool,
    pub theme: Theme,
}

/// The settings with their paths and texts as sequences.
pub struct SettingsView {
    pub binary_source: BinarySource,
    pub binary_path: Option<PathView>,
    pub installed_version: Option<Seq<char>>,
    pub working_dir: Option<PathView>,
    pub check_updates_on_startup: bool,
    pub theme: Theme,
}

/// The view of an optional path.
pub open spec fn opt_path(p: Option<FsPath>) -> Option<PathView> {
    match p {
        Some(q) => Some(q@),
        None => None,
    }
}

impl View for Settings {
    type V = SettingsView;

    open spec fn view(&self) -> SettingsView {
        SettingsView {
            binary_source: self.binary_source,
            binary_path: opt_path(self.binary_path),
            installed_version: match self.installed_version {
                Some(s) => Some(s@),
                None => None,
            },
            working_dir: opt_path(self.working_dir),
            check_updates_on_startup: self.check_updates_on_startup,
            theme: self.theme,
        }
    }
}

impl Default for Settings {
    fn default() -> (r: Self)
        ensures
            r@ == (SettingsView {
                binary_source: BinarySource::Auto,
                binary_path: None,
                installed_version: None,
                working_dir: None,
                check_updates_on_startup: true,
                theme: Theme::System,
            }),
    {
        Settings {
            binary_source: BinarySource::Auto,
            binary_path: None,
            installed_version: None,
            working_dir: None,
            check_updates_on_startup: true,
            theme: Theme::System,
        }
    }
}

} // verus!
