//! The command-line model for open-here.  The unverified shell parses the
//! actual arguments and hands over values of these types.

use crate::server;
use vstd::prelude::*;

verus! {

/// Parsed command-line arguments.
#[derive(Debug)]
pub struct Args {
    /// How many `-v` occurrences were given; each raises log verbosity one
    /// step.
    pub verbosity: u8,
    /// The sub-command to execute.
    pub command: Command,
}

/// The commands open-here can execute.
#[derive(Debug)]
pub enum Command {
    /// Start the open-here server.
    Server(server::Config),
    /// Open a target.
    Open { target: String },
}

} // verus!
