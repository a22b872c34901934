//! The command-line options of the shell.

use vstd::prelude::*;
use crate::profile::Mode;

verus! {

/// The mode named on the command line.
#[derive(Debug, Clone, Copy, PartialEq, Eq, Structural)]
pub enum ShellMode {
    Kids,
    Agent,
    Admin,
}

impl ShellMode {
    /// The execution mode it names.
    pub fn to_mode(self) -> (r: Mode)
        ensures
            r == match self {
                ShellMode::Kids => Mode::Kids,
                ShellMode::Agent => Mode::Agent,
                ShellMode::Admin => Mode::Admin,
            },
    {
        match self {
            ShellMode::Kids => Mode::Kids,
            ShellMode::Agent => Mode::Agent,
            ShellMode::Admin => Mode::Admin,
        }
    }
}

/// The command-line options.
#[derive(Debug, Clone)]
pub struct Args {
    /// Execution mode (Admin by default).
    pub mode: ShellMode,
    /// Profile name.
    pub profile: Option<String>,
    /// Configuration file, overriding discovery.
    pub config: Option<String>,
    /// Whether language-model features are off for the session.
    pub no_llm: bool,
    /// A single command to run without the interactive shell.
    pub command: Option<String>,
}

} // verus!
