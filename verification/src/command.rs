//! The abstract action produced by interpreting one line of input.

use vstd::prelude::*;

use crate::world::LocKey;

verus! {

/// The sole output of the interpreter; consumed once by the executor.
#[derive(Debug, Copy, Clone, PartialEq, Eq, Structural)]
pub enum Cmd {
    /// Travel to the named location (resolved against the current
    /// location's connections).
    GoTo(LocKey),
    /// End the session.
    Exit,
    /// Report the current clock value.
    CheckTime,
    /// Let time pass.
    Wait,
}

} // verus!
