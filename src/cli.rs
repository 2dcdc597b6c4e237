//! The command line of the program, as plain values.

use vstd::prelude::*;

verus! {

/// The command line: an optional subcommand.
#[derive(Clone, Debug, PartialEq, Eq)]
pub struct Cli {
    pub command: Option<Commands>,
}

/// The subcommands of the program.
#[derive(Clone, Debug, PartialEq, Eq)]
pub enum Commands {
    /// Parse the game in `input` and write its report to `output`, or print it.
    Parse { input: Option<String>, output: Option<String> },
}

} // verus!
