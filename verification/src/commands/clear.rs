//! `clear`: drop every stored session.

use vstd::prelude::*;

verus! {

/// Removes the whole store.
#[derive(Debug, PartialEq, Eq, Structural)]
pub struct ClearCommand {}

} // verus!
