//! The command line: the configuration file, the debug switch, and what to do.
use vstd::prelude::*;

verus! {

/// The command line.
#[derive(Debug, Clone)]
pub struct Cli {
    /// The configuration file.
    pub config: String,
    /// Whether to log at debug level.
    pub debug: bool,
    /// What to do.
    pub command: Commands,
}

/// What the tool is asked to do.
#[derive(Debug, Clone)]
pub enum Commands {
    /// Run the server.
    Server,
    /// Send one command to the server: an action (list, enable, disable, create, delete,
    /// status), its parameters, and a reply timeout in seconds.
    Client { action: String, params: Vec<String>, timeout: Option<u64> },
    /// Write a default configuration for a platform.
    Init { platform: String },
    /// Ask the server for the firewall's state.
    Status,
}

} // verus!
