//! State the shell language keeps: the current execution mode.

use vstd::prelude::*;
use crate::profile::Mode;

verus! {

/// The current execution mode of the shell.
#[derive(Debug, Clone, Copy)]
pub struct ShellMode(pub Mode);

impl Default for ShellMode {
    /// Admin mode.
    fn default() -> (r: Self)
        ensures
            r.0 == Mode::Admin,
    {
        ShellMode(Mode::Admin)
    }
}

} // verus!
