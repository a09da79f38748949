//! The errors that the library reports.

use vstd::prelude::*;
use vstd::string::*;

verus! {

/// What `core::str::from_utf8` reports of bytes that are not UTF-8.
#[verifier::external_type_specification]
#[verifier::external_body]
pub struct ExUtf8Error(core::str::Utf8Error);

/// What an operation on bytes that may fail reports.
#[verifier::external_type_specification]
#[verifier::external_body]
pub struct ExIoError(std::io::Error);

/// A failure of one of the library's operations.
#[derive(Debug)]
pub enum ReplayError {
    /// The session store cannot serve the request; the text says why.
    SessionError(String),
    /// A submitted line is not valid UTF-8.
    Utf8(core::str::Utf8Error),
    /// Stored bytes could not be compressed or expanded.
    Io(std::io::Error),
}

pub type ReplayResult<T> = Result<T, ReplayError>;

/// The text reported when the index holds no entry at all.
pub open spec fn no_entries_text() -> Seq<char> {
    "No replay entries found"@
}

/// The text reported when the index holds entries, but not the one asked for.
pub open spec fn out_of_range_text() -> Seq<char> {
    "Replay index out of range"@
}

/// The `Display` text of a `Utf8Error`.
#[verifier::external_body]
fn utf8_error_text(e: &core::str::Utf8Error) -> (r: String) {
    format!("{}", e)
}

/// The `Display` text of an `io::Error`.
#[verifier::external_body]
fn io_error_text(e: &std::io::Error) -> (r: String) {
    format!("{}", e)
}

/// The text reported when a session's time cannot be written down.
pub open spec fn time_text() -> Seq<char> {
    "Session time is out of range"@
}

impl ReplayError {
    /// What the user is told of this error: the kind of the error, then its
    /// own text.
    pub fn message(&self) -> (r: String)
        ensures
            match self {
                ReplayError::SessionError(m) => r@ == "Session error: "@ + m@,
                ReplayError::Utf8(_) => r@.len() >= 13 && r@.subrange(0, 13) == "UTF-8 error: "@,
                ReplayError::Io(_) => r@.len() >= 10 && r@.subrange(0, 10) == "IO error: "@,
            },
    {
        match self {
            ReplayError::SessionError(m) => {
                let mut out = String::from_str("Session error: ");
                out.append(m.as_str());
                out
            },
            ReplayError::Utf8(e) => {
                let mut out = String::from_str("UTF-8 error: ");
                proof {
                    reveal_strlit("UTF-8 error: ");
                }
                let detail = utf8_error_text(e);
                out.append(detail.as_str());
                assert(out@.subrange(0, 13) =~= "UTF-8 error: "@);
                out
            },
            ReplayError::Io(e) => {
                let mut out = String::from_str("IO error: ");
                proof {
                    reveal_strlit("IO error: ");
                }
                let detail = io_error_text(e);
                out.append(detail.as_str());
                assert(out@.subrange(0, 10) =~= "IO error: "@);
                out
            },
        }
    }

    /// True of a session error that carries exactly `text`.
    pub open spec fn is_session_error(&self, text: Seq<char>) -> bool {
        match self {
            ReplayError::SessionError(m) => m@ == text,
            _ => false,
        }
    }

    /// The error of an index without entries.
    pub fn no_entries() -> (e: Self)
        ensures
            e.is_session_error(no_entries_text()),
    {
        ReplayError::SessionError(String::from_str("No replay entries found"))
    }

    /// The error of a session whose time no calendar holds.
    pub fn time_out_of_range() -> (e: Self)
        ensures
            e.is_session_error(time_text()),
    {
        ReplayError::SessionError(String::from_str("Session time is out of range"))
    }

    /// The error of a position past the oldest entry.
    pub fn out_of_range() -> (e: Self)
        ensures
            e.is_session_error(out_of_range_text()),
    {
        ReplayError::SessionError(String::from_str("Replay index out of range"))
    }
}

/// The two texts differ, so a caller can tell the two conditions apart.
pub proof fn lemma_texts_differ()
    ensures
        no_entries_text() != out_of_range_text(),
{
    reveal_strlit("No replay entries found");
    reveal_strlit("Replay index out of range");
    assert(no_entries_text()[0] == 'N');
    assert(out_of_range_text()[0] == 'R');
}

} // verus!
