//! `pop`: drop the newest stored session.

use vstd::prelude::*;

verus! {

/// Removes the newest session.
#[derive(Debug, PartialEq, Eq, Structural)]
pub struct PopCommand {}

impl PopCommand {
    /// The position of the session that the command removes: the newest.
    pub fn session_index(&self) -> (n: u32)
        ensures
            n == 0,
    {
        0
    }
}

} // verus!
