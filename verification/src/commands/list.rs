//! `list`: show every stored session, the newest first.

use crate::session::display::{listing_line, render_line};
use crate::session::{description_text, whole_seconds_between, MetaData, Timestamp};
use vstd::prelude::*;

verus! {

/// Shows the stored sessions.
#[derive(Debug, PartialEq, Eq, Structural)]
pub struct ListCommand {}

impl ListCommand {
    /// The lines of the listing at the instant `now`, one for each of
    /// `sessions`, which come newest first: the line at position `i` shows
    /// the handle `replay@{i}`.
    pub fn list(sessions: &[MetaData], now: &Timestamp) -> (r: Vec<String>)
        ensures
            r@.len() == sessions@.len(),
            forall|i: int|
                0 <= i < r@.len() ==> (#[trigger] r@[i])@ == listing_line(
                    i,
                    description_text(sessions@[i].description),
                    sessions@[i].first_lines(),
                    whole_seconds_between(sessions@[i].timestamp, *now),
                ),
    {
        let mut out: Vec<String> = Vec::new();
        let mut index: usize = 0;
        while index < sessions.len()
            invariant
                index <= sessions@.len(),
                out@.len() == index,
                forall|i: int|
                    0 <= i < out@.len() ==> (#[trigger] out@[i])@ == listing_line(
                        i,
                        description_text(sessions@[i].description),
                        sessions@[i].first_lines(),
                        whole_seconds_between(sessions@[i].timestamp, *now),
                    ),
            decreases sessions@.len() - index,
        {
            let meta = &sessions[index];
            out.push(render_line(index, meta, meta.timestamp.seconds_until(now)));
            index += 1;
        }
        out
    }
}

} // verus!
