//! The line that a listing shows for one stored session.

use crate::session::{MetaData, Timestamp};
use crate::text::{chars_of, decimal, joined, push_decimal, push_signed_decimal, string_of};
use vstd::prelude::*;
use vstd::string::*;

verus! {

/// Seconds in one minute, one hour and one day.
pub const MINUTE: i128 = 60;

pub const HOUR: i128 = 3600;

pub const DAY: i128 = 86400;

/// Number of characters that a listing shows after the session's handle.
pub const LISTING_WIDTH: usize = 50;

/// How long ago something happened, in the largest unit that is not zero.
pub open spec fn time_ago_text(seconds: int) -> Seq<char> {
    if seconds >= 86400 {
        decimal(seconds / 86400) + " days ago"@
    } else if seconds >= 3600 {
        decimal(seconds / 3600) + " hours ago"@
    } else if seconds >= 60 {
        decimal(seconds / 60) + " minutes ago"@
    } else {
        decimal(seconds) + " seconds ago"@
    }
}

/// `line` cut to `max_len` characters, with three dots where something was
/// cut off.
pub open spec fn truncated(line: Seq<char>, max_len: int) -> Seq<char> {
    if line.len() > max_len {
        line.subrange(0, max_len) + "..."@
    } else {
        line
    }
}

/// What a listing says of a session after its handle: its age, and its
/// description or, without one, its first commands.
pub open spec fn listing_body(
    description: Option<Seq<char>>,
    first_lines: Seq<Seq<char>>,
    seconds: int,
) -> Seq<char> {
    match description {
        Some(d) => time_ago_text(seconds) + ", message: "@ + d,
        None => time_ago_text(seconds) + ", commands: "@ + joined(first_lines, " | "@),
    }
}

/// The line of a listing for the session at position `index`.
pub open spec fn listing_line(
    index: int,
    description: Option<Seq<char>>,
    first_lines: Seq<Seq<char>>,
    seconds: int,
) -> Seq<char> {
    "replay@{"@ + decimal(index) + "}: "@ + truncated(
        listing_body(description, first_lines, seconds),
        50,
    )
}

/// A stored session's place in the listing and what the listing shows of it.
pub struct DisplayMeta {
    pub index: usize,
    pub meta: MetaData,
}

/// `parts` one after the other, with `separator` between each two.
pub fn join(parts: &[String], separator: &str) -> (r: String)
    ensures
        r@ == joined(crate::session::lines_of(parts@), separator@),
{
    let ghost lines = crate::session::lines_of(parts@);
    let mut out = String::new();
    let mut i: usize = 0;
    while i < parts.len()
        invariant
            i <= parts@.len(),
            lines == crate::session::lines_of(parts@),
            out@ == joined(lines.subrange(0, i as int), separator@),
        decreases parts@.len() - i,
    {
        proof {
            let next = lines.subrange(0, i + 1);
            assert(next.drop_last() =~= lines.subrange(0, i as int));
            assert(next.last() == parts@[i as int]@);
            if i == 0 {
                assert(next[0] == parts@[0]@);
            }
        }
        if i > 0 {
            out.append(separator);
        }
        out.append(parts[i].as_str());
        i += 1;
    }
    assert(lines.subrange(0, parts@.len() as int) =~= lines);
    out
}

/// The line of the listing for the session at position `index`, which is
/// `seconds` seconds old: its handle, then its age and its description or,
/// without one, its first commands, cut to 50 characters.
pub fn render_line(index: usize, meta: &MetaData, seconds: i128) -> (r: String)
    ensures
        r@ == listing_line(
            index as int,
            crate::session::description_text(meta.description),
            meta.first_lines(),
            seconds as int,
        ),
{
    let mut body = DisplayMeta::format_time_ago(seconds);
    match &meta.description {
        Some(desc) => {
            body.append(", message: ");
            body.append(desc.as_str());
        },
        None => {
            body.append(", commands: ");
            let commands = join(meta.first_commands.as_slice(), " | ");
            body.append(commands.as_str());
        },
    }
    let shown = DisplayMeta::truncate_description(body.as_str(), LISTING_WIDTH);
    let mut out = String::from_str("replay@{");
    push_decimal(&mut out, index as u128);
    out.append("}: ");
    out.append(shown.as_str());
    out
}

impl DisplayMeta {
    /// How long ago something happened that is `seconds` seconds old: in
    /// days where that is a day or more, else in hours, else in minutes, else
    /// in seconds.
    pub fn format_time_ago(seconds: i128) -> (r: String)
        ensures
            r@ == time_ago_text(seconds as int),
    {
        let mut out = String::new();
        if seconds >= DAY {
            push_signed_decimal(&mut out, seconds / DAY);
            out.append(" days ago");
        } else if seconds >= HOUR {
            push_signed_decimal(&mut out, seconds / HOUR);
            out.append(" hours ago");
        } else if seconds >= MINUTE {
            push_signed_decimal(&mut out, seconds / MINUTE);
            out.append(" minutes ago");
        } else {
            push_signed_decimal(&mut out, seconds);
            out.append(" seconds ago");
        }
        out
    }

    /// `line` cut to `max_len` characters, with `...` after them where
    /// `line` was longer.
    pub fn truncate_description(line: &str, max_len: usize) -> (r: String)
        ensures
            r@ == truncated(line@, max_len as int),
    {
        let chars = chars_of(line);
        if chars.len() > max_len {
            let mut out = string_of(vstd::slice::slice_subrange(chars.as_slice(), 0, max_len));
            out.append("...");
            out
        } else {
            string_of(chars.as_slice())
        }
    }

    /// The line of the listing for a session that is `seconds` seconds old.
    pub fn render(&self, seconds: i128) -> (r: String)
        ensures
            r@ == listing_line(
                self.index as int,
                crate::session::description_text(self.meta.description),
                self.meta.first_lines(),
                seconds as int,
            ),
    {
        render_line(self.index, &self.meta, seconds)
    }

    /// The line of the listing at the instant `now`.
    pub fn render_at(&self, now: &Timestamp) -> (r: String)
        ensures
            r@ == listing_line(
                self.index as int,
                crate::session::description_text(self.meta.description),
                self.meta.first_lines(),
                crate::session::whole_seconds_between(self.meta.timestamp, *now),
            ),
    {
        self.render(self.meta.timestamp.seconds_until(now))
    }

    /// The line of the listing now; `None` where the system clock gives no
    /// time.
    pub fn to_string(&self) -> (r: Option<String>)
        ensures
            r is Some ==> exists|now: Timestamp|
                r.unwrap()@ == listing_line(
                    self.index as int,
                    crate::session::description_text(self.meta.description),
                    self.meta.first_lines(),
                    crate::session::whole_seconds_between(self.meta.timestamp, now),
                ),
    {
        match Timestamp::now() {
            Some(now) => Some(self.render_at(&now)),
            None => None,
        }
    }
}

} // verus!
