//! The command line, as the program's entry point receives it.
use vstd::prelude::*;

verus! {

/// The parsed command line.
pub struct CLI {
    /// Base URL of the Syncthing REST API.
    pub url: String,
    /// `--api-key`, or `SYNCTHING_API_KEY` from the environment.
    pub api_key: Option<String>,
    /// `--config`: where the configuration file lives.
    pub config: Option<String>,
    /// `--tray`: run as a system tray application.
    pub tray: bool,
    pub command: Option<Command>,
}

/// The subcommands.
#[derive(Debug, Clone, Copy, PartialEq, Eq)]
pub enum Command {
    Ping,
    Status,
    Folders,
    Devices,
    Watch,
    Config,
}

} // verus!
