//! `drop`: drop one stored session.

use vstd::prelude::*;

verus! {

/// Removes the session at a position, 0 being the newest.
#[derive(Debug, PartialEq, Eq, Structural)]
pub struct DropCommand {
    session_index: u32,
}

impl DropCommand {
    /// The position of the session that the command removes.
    pub closed spec fn index(&self) -> u32 {
        self.session_index
    }

    /// The command that removes the session at `session_index`.
    pub fn new(session_index: u32) -> (r: Self)
        ensures
            r.index() == session_index,
    {
        DropCommand { session_index }
    }

    /// The position of the session that the command removes.
    pub fn session_index(&self) -> (n: u32)
        ensures
            n == self.index(),
    {
        self.session_index
    }
}

} // verus!
