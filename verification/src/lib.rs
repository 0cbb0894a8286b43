//! Cleaning up files that Syncthing has finished syncing: the decisions behind
//! the `tidysync` tool, with their contracts.
use vstd::prelude::*;

pub mod apikey;
pub mod cli;
pub mod client;
pub mod config;
pub mod lockfile;
pub mod mover;
pub mod text;
pub mod tray;
pub mod watcher;
pub mod types;
