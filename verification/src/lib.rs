//! A verified core for a desktop companion of the NOALBS bitrate switcher.
use vstd::prelude::*;

pub mod archive;
pub mod binary;
pub mod commands;
pub mod config;
pub mod env_file;
pub mod error;
pub mod fs_path;
pub mod env_laws;
pub mod laws;
pub mod process;
pub mod settings;
pub mod status;
pub mod text;

verus! {

} // verus!
