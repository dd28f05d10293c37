//! The commands the game accepts from its operator. Parsing the actual
//! command line is presentation-layer work and happens outside the core;
//! these types carry the parsed result.

use vstd::prelude::*;

verus! {

/// One operator command.
#[derive(Clone, Copy, Debug, PartialEq, Eq, Structural)]
pub enum Commands {
    /// Start a new game.
    New,
    /// Continue the existing game.
    Continue,
    /// Retry a specific level.
    Retry { level: u32 },
    /// Display game statistics.
    Stats,
}

/// The parsed invocation: a command, or none to show the banner and help.
#[derive(Clone, Copy, Debug, PartialEq, Eq, Structural)]
pub struct Cli {
    pub command: Option<Commands>,
}

} // verus!
