//! Recorded sessions and the store that keeps them.

pub mod display;
pub mod index;
pub mod storage;

use crate::errors::{ReplayError, ReplayResult};
use crate::text::{append_bytes, decode_lossy, remove_char, text_of, without_char};
use sha2::Digest;
use vstd::prelude::*;
use vstd::string::*;
use vstd::utf8::*;

verus! {

/// A point in time, in UTC: whole seconds since 1970-01-01T00:00:00Z and the
/// nanoseconds within that second.
#[derive(Clone, Copy, Debug, PartialEq, Eq, Structural)]
pub struct Timestamp {
    pub secs: i64,
    pub nanos: u32,
}

/// Nanoseconds in one second.
pub const NANOS_PER_SECOND: i128 = 1_000_000_000;

/// Nanoseconds from `then` to `now`; negative where `now` is the earlier.
pub open spec fn nanos_between(then: Timestamp, now: Timestamp) -> int {
    (now.secs - then.secs) * 1_000_000_000 + (now.nanos - then.nanos)
}

/// Whole seconds from `then` to `now`, rounded towards zero.
pub open spec fn whole_seconds_between(then: Timestamp, now: Timestamp) -> int {
    if nanos_between(then, now) >= 0 {
        nanos_between(then, now) / 1_000_000_000
    } else {
        -((-nanos_between(then, now)) / 1_000_000_000)
    }
}

impl Timestamp {
    /// The current time, where the system clock gives one that can be
    /// counted from 1970.
    pub fn now() -> (r: Option<Timestamp>)
        ensures
            r is Some ==> r.unwrap().secs >= 0 && r.unwrap().nanos < 1_000_000_000,
    {
        system_time()
    }

    /// Whole seconds from this instant to `later`, rounded towards zero;
    /// negative where `later` is the earlier.
    pub fn seconds_until(&self, later: &Timestamp) -> (r: i128)
        ensures
            r == whole_seconds_between(*self, *later),
    {
        let secs: i128 = later.secs as i128 - self.secs as i128;
        let nanos: i128 = later.nanos as i128 - self.nanos as i128;
        let total: i128 = secs * NANOS_PER_SECOND + nanos;
        if total >= 0 {
            total / NANOS_PER_SECOND
        } else {
            -((-total) / NANOS_PER_SECOND)
        }
    }
}

/// The SHA-256 digest of `data`.
pub uninterp spec fn sha256(data: Seq<u8>) -> Seq<u8>;

/// The RFC 3339 text of the instant `secs` seconds and `nanos` nanoseconds
/// after the epoch, or `None` where the calendar cannot hold that instant.
pub uninterp spec fn rfc3339(secs: i64, nanos: u32) -> Option<Seq<char>>;

/// `sha2::Sha256::digest`: the digest is a function of the data alone and is
/// 32 bytes long.
#[verifier::external_body]
fn sha256_digest(data: &[u8]) -> (r: Vec<u8>)
    ensures
        r@ == sha256(data@),
        r@.len() == 32,
{
    sha2::Sha256::digest(data).to_vec()
}

/// `chrono::DateTime::from_timestamp` followed by `to_rfc3339`: the text is a
/// function of the two numbers alone, and there is none where
/// `from_timestamp` refuses them.
#[verifier::external_body]
fn format_rfc3339(secs: i64, nanos: u32) -> (r: Option<String>)
    ensures
        r is Some <==> rfc3339(secs, nanos) is Some,
        r is Some ==> r.unwrap()@ == rfc3339(secs, nanos).unwrap(),
{
    match chrono::DateTime::from_timestamp(secs, nanos) {
        Some(t) => Some(t.to_rfc3339()),
        None => None,
    }
}

/// `std::time::SystemTime::now`, as the time that has passed since
/// 1970-01-01T00:00:00Z: whole seconds, and less than a second in
/// nanoseconds. There is no result where the clock stands before that
/// instant or the seconds do not fit in 64 bits.
#[verifier::external_body]
fn system_time() -> (r: Option<Timestamp>)
    ensures
        r is Some ==> r.unwrap().secs >= 0 && r.unwrap().nanos < 1_000_000_000,
{
    match std::time::SystemTime::now().duration_since(std::time::UNIX_EPOCH) {
        Ok(since) => match i64::try_from(since.as_secs()) {
            Ok(secs) => Some(Timestamp { secs, nanos: since.subsec_nanos() }),
            Err(_) => None,
        },
        Err(_) => None,
    }
}

/// `whoami::username`: the login name of the user who runs the process.
#[verifier::external_body]
fn current_username() -> (r: String) {
    whoami::username()
}

/// The lower-case hexadecimal digit of a number below 16.
pub open spec fn hex_digit(n: u8) -> char {
    if n < 10 {
        (48 + n) as char
    } else {
        (87 + n) as char
    }
}

/// Two lower-case hexadecimal digits for each byte of `bytes`.
pub open spec fn hex_lower(bytes: Seq<u8>) -> Seq<char> {
    Seq::new(
        2 * bytes.len(),
        |i: int| if i % 2 == 0 {
            hex_digit(bytes[i / 2] / 16)
        } else {
            hex_digit(bytes[i / 2] % 16)
        },
    )
}

/// True of an id that fills one index record: 64 lower-case hexadecimal
/// digits, which take 64 bytes.
pub open spec fn fills_a_record(id: Seq<char>) -> bool {
    &&& id.len() == 64
    &&& forall|i: int| 0 <= i < 64 ==> is_lower_hex(#[trigger] id[i])
    &&& encode_utf8(id).len() == 64
}

/// True of the characters `0` to `9` and `a` to `f`.
pub open spec fn is_lower_hex(c: char) -> bool {
    ('0' <= c && c <= '9') || ('a' <= c && c <= 'f')
}

fn hex_digit_of(n: u8) -> (c: char)
    requires
        n < 16,
    ensures
        c == hex_digit(n),
        is_lower_hex(c),
{
    if n < 10 {
        (48 + n) as char
    } else {
        (87 + n) as char
    }
}

/// `bytes` in lower-case hexadecimal.
pub fn to_hex_lower(bytes: &[u8]) -> (r: String)
    ensures
        r@ == hex_lower(bytes@),
        r@.len() == 2 * bytes@.len(),
        forall|i: int| 0 <= i < r@.len() ==> is_lower_hex(#[trigger] r@[i]),
{
    let mut out = String::new();
    let mut i: usize = 0;
    while i < bytes.len()
        invariant
            i <= bytes@.len(),
            out@ == hex_lower(bytes@.subrange(0, i as int)),
            forall|k: int| 0 <= k < out@.len() ==> is_lower_hex(#[trigger] out@[k]),
        decreases bytes@.len() - i,
    {
        let b = bytes[i];
        let ghost before = out@;
        out.push(hex_digit_of(b / 16));
        out.push(hex_digit_of(b % 16));
        i += 1;
        assert(out@ =~= hex_lower(bytes@.subrange(0, i as int))) by {
            let now = bytes@.subrange(0, i as int);
            let prev = bytes@.subrange(0, i - 1);
            assert forall|k: int| 0 <= k < 2 * now.len() implies out@[k] == hex_lower(now)[k] by {
                if k < 2 * prev.len() {
                    assert(out@[k] == before[k]);
                    assert(prev[k / 2] == now[k / 2]);
                }
            }
        }
    }
    assert(bytes@.subrange(0, bytes@.len() as int) =~= bytes@);
    out
}

/// The bytes that a session's id is the digest of: the user, the description
/// where there is one, and the time as text, one after the other.
pub open spec fn id_preimage(user: Seq<char>, description: Option<Seq<char>>, stamp: Seq<char>) -> Seq<u8> {
    encode_utf8(user) + match description {
        Some(d) => encode_utf8(d),
        None => Seq::<u8>::empty(),
    } + encode_utf8(stamp)
}

/// The id of a session with these three fields, where the time has a text.
pub open spec fn session_id(
    user: Seq<char>,
    description: Option<Seq<char>>,
    timestamp: Timestamp,
) -> Option<Seq<char>> {
    match rfc3339(timestamp.secs, timestamp.nanos) {
        Some(stamp) => Some(hex_lower(sha256(id_preimage(user, description, stamp)))),
        None => None,
    }
}

/// The description of a session, as plain text.
pub open spec fn description_text(description: Option<String>) -> Option<Seq<char>> {
    match description {
        Some(d) => Some(d@),
        None => None,
    }
}

/// Two sessions made of the same user, description and time have the same
/// id.
pub proof fn lemma_id_is_stable(
    user1: Seq<char>,
    description1: Option<Seq<char>>,
    timestamp1: Timestamp,
    user2: Seq<char>,
    description2: Option<Seq<char>>,
    timestamp2: Timestamp,
)
    requires
        user1 == user2,
        description1 == description2,
        timestamp1 == timestamp2,
    ensures
        session_id(user1, description1, timestamp1) == session_id(
            user2,
            description2,
            timestamp2,
        ),
{
}

/// An id is 64 lower-case hexadecimal digits: the width of one index record.
pub proof fn lemma_id_width(digest: Seq<u8>)
    requires
        digest.len() == 32,
    ensures
        hex_lower(digest).len() == 64,
        forall|i: int| 0 <= i < 64 ==> is_lower_hex(#[trigger] hex_lower(digest)[i]),
{
    assert forall|i: int| 0 <= i < 64 implies is_lower_hex(#[trigger] hex_lower(digest)[i]) by {
        let b = digest[i / 2];
        lemma_hex_digit_is_hex((b / 16) as u8);
        lemma_hex_digit_is_hex((b % 16) as u8);
    }
}

/// Sixty-four hexadecimal digits take sixty-four bytes: the width of one
/// index record.
pub proof fn lemma_hex_fills_a_record(id: Seq<char>)
    requires
        id.len() == 64,
        forall|i: int| 0 <= i < 64 ==> is_lower_hex(#[trigger] id[i]),
    ensures
        encode_utf8(id).len() == 64,
{
    assert(is_ascii_chars(id)) by {
        assert forall|i: int| 0 <= i < id.len() implies '\0' <= #[trigger] id[i] <= '\u{7f}' by {
            assert(is_lower_hex(id[i]));
        }
    }
    is_ascii_chars_encode_utf8(id);
}

proof fn lemma_hex_digit_is_hex(n: u8)
    requires
        n < 16,
    ensures
        is_lower_hex(hex_digit(n)),
{
}

/// The id does not tell where the user ends and the description begins: a
/// user `u + d` without description and a user `u` with description `d` give
/// the same id at the same time.
pub proof fn lemma_id_ignores_field_boundary(u: Seq<char>, d: Seq<char>, timestamp: Timestamp)
    ensures
        session_id(u + d, None, timestamp) == session_id(u, Some(d), timestamp),
{
    match rfc3339(timestamp.secs, timestamp.nanos) {
        Some(stamp) => {
            lemma_encode_concat(u, d);
            assert(id_preimage(u + d, None, stamp) =~= id_preimage(u, Some(d), stamp));
        },
        None => {},
    }
}

/// UTF-8 encodes a concatenation piece by piece.
pub proof fn lemma_encode_concat(a: Seq<char>, b: Seq<char>)
    ensures
        encode_utf8(a + b) == encode_utf8(a) + encode_utf8(b),
    decreases a.len(),
{
    if a.len() == 0 {
        assert(a + b =~= b);
        assert(encode_utf8(a) =~= Seq::<u8>::empty());
        assert(encode_utf8(a) + encode_utf8(b) =~= encode_utf8(b));
    } else {
        assert((a + b).drop_first() =~= a.drop_first() + b);
        lemma_encode_concat(a.drop_first(), b);
        assert((a + b)[0] == a[0]);
        assert(encode_utf8(a + b) =~= encode_utf8(a) + encode_utf8(b));
    }
}

/// A recorded session: who recorded it and when, and the lines that were
/// submitted, in order.
#[derive(Debug)]
pub struct Session {
    pub description: Option<String>,
    pub id: String,
    pub timestamp: Timestamp,
    pub user: String,
    pub commands: Vec<String>,
}

/// What a session holds, as plain values.
pub struct SessionView {
    pub description: Option<Seq<char>>,
    pub id: Seq<char>,
    pub timestamp: Timestamp,
    pub user: Seq<char>,
    pub lines: Seq<Seq<char>>,
}

/// True when the id of `v` is the one that its user, description and time
/// give.
pub open spec fn own_id(v: SessionView) -> bool {
    Some(v.id) == session_id(v.user, v.description, v.timestamp)
}

/// What an optional session holds, as plain values.
pub open spec fn session_view(session: Option<Session>) -> Option<SessionView> {
    match session {
        Some(s) => Some(s@),
        None => None,
    }
}

impl View for Session {
    type V = SessionView;

    open spec fn view(&self) -> SessionView {
        SessionView {
            description: description_text(self.description),
            id: self.id@,
            timestamp: self.timestamp,
            user: self.user@,
            lines: lines_of(self.commands@),
        }
    }
}

/// The lines of `commands`, each as plain text.
pub open spec fn lines_of(commands: Seq<String>) -> Seq<Seq<char>> {
    Seq::new(commands.len(), |i: int| commands[i]@)
}

impl Session {
    /// The recorded lines, each as plain text.
    pub open spec fn lines(&self) -> Seq<Seq<char>> {
        lines_of(self.commands@)
    }

    /// True when the id is the one that the user, the description and the
    /// time give.
    pub open spec fn has_own_id(&self) -> bool {
        own_id(self@)
    }

    /// The id of a session with these three fields: the SHA-256 digest of the
    /// user, the description and the RFC 3339 time, in lower-case
    /// hexadecimal. `None` where the time has no RFC 3339 text.
    pub fn generate_id(description: &Option<String>, timestamp: &Timestamp, user: &str) -> (r:
        Option<String>)
        ensures
            r is Some <==> session_id(user@, description_text(*description), *timestamp) is Some,
            r is Some ==> Some(r.unwrap()@) == session_id(
                user@,
                description_text(*description),
                *timestamp,
            ),
            r is Some ==> r.unwrap()@.len() == 64,
            r is Some ==> forall|i: int| 0 <= i < 64 ==> is_lower_hex(#[trigger] r.unwrap()@[i]),
            r is Some ==> encode_utf8(r.unwrap()@).len() == 64,
    {
        let stamp = match format_rfc3339(timestamp.secs, timestamp.nanos) {
            Some(stamp) => stamp,
            None => {
                return None;
            },
        };
        let mut data: Vec<u8> = Vec::new();
        append_bytes(&mut data, user.as_bytes());
        match description {
            Some(d) => {
                append_bytes(&mut data, d.as_str().as_bytes());
            },
            None => {},
        }
        append_bytes(&mut data, stamp.as_str().as_bytes());
        assert(data@ =~= id_preimage(user@, description_text(*description), stamp@));
        let digest = sha256_digest(data.as_slice());
        let id = to_hex_lower(digest.as_slice());
        proof {
            lemma_hex_fills_a_record(id@);
        }
        Some(id)
    }

    /// A session without commands, recorded by `user` at `timestamp`. `None`
    /// where the time has no RFC 3339 text.
    pub fn with_identity(description: Option<String>, user: String, timestamp: Timestamp) -> (r:
        Option<Self>)
        ensures
            r is Some <==> rfc3339(timestamp.secs, timestamp.nanos) is Some,
            r is Some ==> {
                let s = r.unwrap();
                &&& s.description == description
                &&& s.user == user
                &&& s.timestamp == timestamp
                &&& s.commands@.len() == 0
                &&& s.has_own_id()
                &&& fills_a_record(s.id@)
                &&& s@.lines == Seq::<Seq<char>>::empty()
            },
    {
        match Self::generate_id(&description, &timestamp, user.as_str()) {
            Some(id) => Some(Session { commands: Vec::new(), id, description, timestamp, user }),
            None => None,
        }
    }

    /// A session without commands, recorded now by the user who runs the
    /// process. Where the system clock gives no time that the calendar
    /// holds, there is no session.
    pub fn new(description: Option<String>) -> (r: ReplayResult<Self>)
        ensures
            r is Ok ==> {
                let s = r.unwrap();
                &&& s.description == description
                &&& s.commands@.len() == 0
                &&& s@.lines == Seq::<Seq<char>>::empty()
                &&& s.has_own_id()
                &&& fills_a_record(s.id@)
            },
            r is Err ==> r.unwrap_err().is_session_error(crate::errors::time_text()),
    {
        let user = current_username();
        let timestamp = match Timestamp::now() {
            Some(timestamp) => timestamp,
            None => {
                return Err(ReplayError::time_out_of_range());
            },
        };
        match Self::with_identity(description, user, timestamp) {
            Some(session) => Ok(session),
            None => Err(ReplayError::time_out_of_range()),
        }
    }

    /// Appends one line: `cmd_raw` decoded as UTF-8, with U+FFFD in place of
    /// what is not UTF-8.
    pub fn add_command(&mut self, cmd_raw: Vec<u8>)
        ensures
            final(self).lines() == old(self).lines().push(text_of(cmd_raw@)),
            final(self)@ == (SessionView {
                lines: old(self)@.lines.push(text_of(cmd_raw@)),
                ..old(self)@
            }),
            valid_utf8(cmd_raw@) ==> final(self).lines().last() == decode_utf8(cmd_raw@),
            final(self).description == old(self).description,
            final(self).id == old(self).id,
            final(self).timestamp == old(self).timestamp,
            final(self).user == old(self).user,
    {
        let line = decode_lossy(cmd_raw.as_slice());
        self.commands.push(line);
        assert(self.lines() =~= old(self).lines().push(text_of(cmd_raw@)));
    }

    /// Takes the last line off and returns it; `None` where there is none.
    pub fn remove_last_command(&mut self) -> (r: Option<String>)
        ensures
            old(self).lines().len() == 0 ==> r is None && final(self).lines() == old(self).lines(),
            old(self).lines().len() > 0 ==> r is Some && r.unwrap()@ == old(self).lines().last()
                && final(self).lines() == old(self).lines().drop_last(),
            final(self)@ == (SessionView { lines: final(self).lines(), ..old(self)@ }),
            final(self).description == old(self).description,
            final(self).id == old(self).id,
            final(self).timestamp == old(self).timestamp,
            final(self).user == old(self).user,
    {
        let r = self.commands.pop();
        assert(old(self).lines().len() == 0 ==> self.lines() =~= old(self).lines());
        assert(old(self).lines().len() > 0 ==> self.lines() =~= old(self).lines().drop_last());
        r
    }

    /// The last line; `None` where there is none.
    pub fn get_last_command(&self) -> (r: Option<&String>)
        ensures
            self.lines().len() == 0 ==> r is None,
            self.lines().len() > 0 ==> r is Some && r.unwrap()@ == self.lines().last(),
    {
        self.commands.as_slice().last()
    }

    /// The lines, in the order in which they were submitted.
    pub fn iter_commands(&self) -> (r: Vec<&str>)
        ensures
            r@.len() == self.lines().len(),
            forall|i: int| 0 <= i < r@.len() ==> (#[trigger] r@[i])@ == self.lines()[i],
    {
        let mut out: Vec<&str> = Vec::new();
        let mut i: usize = 0;
        while i < self.commands.len()
            invariant
                i <= self.commands@.len(),
                out@.len() == i,
                forall|k: int| 0 <= k < i ==> (#[trigger] out@[k])@ == self.commands@[k]@,
            decreases self.commands@.len() - i,
        {
            out.push(self.commands[i].as_str());
            i += 1;
        }
        out
    }
}

/// What a listing shows of a stored session.
pub struct MetaData {
    pub description: Option<String>,
    pub timestamp: Timestamp,
    /// The first two recorded lines, without their carriage returns.
    pub first_commands: Vec<String>,
}

/// The first two of `lines`, each without its carriage returns.
pub open spec fn first_two(lines: Seq<Seq<char>>) -> Seq<Seq<char>> {
    Seq::new(
        if lines.len() < 2 {
            lines.len()
        } else {
            2
        },
        |i: int| without_char(lines[i], '\r'),
    )
}

/// The first two of `all`, each without its carriage returns.
pub fn first_two_commands(all: &[String]) -> (r: Vec<String>)
    ensures
        lines_of(r@) == first_two(lines_of(all@)),
{
    let mut out: Vec<String> = Vec::new();
    let mut i: usize = 0;
    while i < all.len() && i < 2
        invariant
            i <= all@.len(),
            i <= 2,
            out@.len() == i,
            forall|k: int| 0 <= k < i ==> (#[trigger] out@[k])@ == without_char(all@[k]@, '\r'),
        decreases all@.len() - i,
    {
        out.push(remove_char(all[i].as_str(), '\r'));
        i += 1;
    }
    assert(lines_of(out@) =~= first_two(lines_of(all@)));
    out
}

impl MetaData {
    /// The first recorded lines, each as plain text.
    pub open spec fn first_lines(&self) -> Seq<Seq<char>> {
        lines_of(self.first_commands@)
    }

    /// What a listing shows of `session`: its description, its time, and
    /// its first two lines without their carriage returns.
    pub fn from_session(session: &Session) -> (r: Self)
        ensures
            r.description == session.description,
            r.timestamp == session.timestamp,
            r.first_lines() == first_two(session.lines()),
    {
        MetaData {
            description: session.description.clone(),
            timestamp: session.timestamp,
            first_commands: first_two_commands(session.commands.as_slice()),
        }
    }
}

} // verus!
