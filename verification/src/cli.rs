//! The command line: the subcommands that the program understands. Parsing the
//! arguments is the application's business.

use vstd::prelude::*;

verus! {

/// The parsed command line; without a subcommand the program shows the status.
#[derive(Debug)]
pub struct Args {
    pub command: Option<Command>,
}

/// Available subcommands.
#[derive(Debug)]
pub enum Command {
    /// Start the daemon (background by default).
    Daemon {
        /// Run in foreground with logs visible.
        foreground: bool,
    },
    /// Show daemon status, uptime, and current audio output.
    Status { json: bool },
    /// Stop the daemon gracefully.
    Shutdown,
    /// List available PipeWire audio outputs.
    ListSinks { json: bool },
    /// Show all open windows (tracked vs untracked).
    ListWindows { json: bool },
    /// Check the configuration file (no daemon needed).
    Validate,
    /// Test a regex pattern against all windows (`app_id` and title).
    TestRule { pattern: String, json: bool },
    /// Set the audio output (by description, node name, or position).
    SetSink { sink: String },
    /// Cycle to the next configured sink.
    NextSink,
    /// Cycle to the previous configured sink.
    PrevSink,
    /// Terminal user interface.
    Tui,
}

} // verus!
