//! `record`: record a new session.

use crate::args::{is_integer, is_integer_text};
use crate::pty::RecordConfig;
use crate::text::chars_of;
use vstd::prelude::*;
use vstd::string::*;

verus! {

/// The least and the greatest number of characters of a description.
pub const MIN_DESCRIPTION: usize = 10;

pub const MAX_DESCRIPTION: usize = 80;

/// What is said of a description that is too short.
pub open spec fn too_short_text() -> Seq<char> {
    "Session description is too short (min 10 chars)"@
}

/// What is said of a description that is too long.
pub open spec fn too_long_text() -> Seq<char> {
    "Session description is too long (max 80 chars)"@
}

/// What is said of a description that is a whole number.
pub open spec fn integer_text() -> Seq<char> {
    "Session description cannot be an integer"@
}

/// Why `s` cannot describe a session, or `None` where it can: a
/// description has 10 to 80 characters and is no whole number, whatever the
/// size of that number.
pub open spec fn description_fault(s: Seq<char>) -> Option<Seq<char>> {
    if s.len() < 10 {
        Some(too_short_text())
    } else if s.len() > 80 {
        Some(too_long_text())
    } else if is_integer_text(s) {
        Some(integer_text())
    } else {
        None
    }
}

/// Starts a recording.
#[derive(Debug, PartialEq, Eq)]
pub struct RecordCommand {
    session_description: Option<String>,
    no_compression: bool,
}

impl RecordCommand {
    /// What the user says of the session.
    pub closed spec fn description(&self) -> Option<String> {
        self.session_description
    }

    /// Whether the session is stored as plain JSON.
    pub closed spec fn plain(&self) -> bool {
        self.no_compression
    }

    /// The command that records a session described by `desc`.
    pub fn new(desc: Option<String>, no_compression: bool) -> (r: Self)
        ensures
            r.description() == desc,
            r.plain() == no_compression,
    {
        RecordCommand { session_description: desc, no_compression }
    }

    /// Accepts `s` as the description of a session, or says why it cannot
    /// be one.
    pub fn validate_session_description(s: &str) -> (r: Result<String, String>)
        ensures
            match description_fault(s@) {
                Some(why) => r is Err && r.unwrap_err()@ == why,
                None => r is Ok && r.unwrap()@ == s@,
            },
    {
        let chars = chars_of(s);
        if chars.len() < MIN_DESCRIPTION {
            return Err(String::from_str("Session description is too short (min 10 chars)"));
        }
        if chars.len() > MAX_DESCRIPTION {
            return Err(String::from_str("Session description is too long (max 80 chars)"));
        }
        if is_integer(chars.as_slice()) {
            return Err(String::from_str("Session description cannot be an integer"));
        }
        Ok(String::from_str(s))
    }

    /// How the run of the shell is recorded: its input is kept, under the
    /// command's description and in the command's storage form.
    pub fn config(&self) -> (r: RecordConfig)
        ensures
            r.record_input,
            r.session_description == self.description(),
            r.no_compression == self.plain(),
    {
        RecordConfig {
            record_input: true,
            session_description: self.session_description.clone(),
            no_compression: self.no_compression,
        }
    }
}

} // verus!
