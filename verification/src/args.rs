//! The texts that the command line hands over: session handles, whole
//! numbers and session descriptions.

use crate::text::chars_of;
use vstd::prelude::*;
use vstd::string::*;

verus! {

/// True of the characters `0` to `9`.
pub open spec fn is_digit(c: char) -> bool {
    '0' <= c && c <= '9'
}

/// True when every character of `s` is a decimal digit.
pub open spec fn all_digits(s: Seq<char>) -> bool {
    forall|i: int| 0 <= i < s.len() ==> is_digit(#[trigger] s[i])
}

/// The number that the decimal digits `s` write.
pub open spec fn digits_value(s: Seq<char>) -> nat
    decreases s.len(),
{
    if s.len() == 0 {
        0
    } else {
        digits_value(s.drop_last()) * 10 + (s.last() as nat - 48) as nat
    }
}

/// The number that `s` writes, where `s` is one digit or more and the number
/// is at most `limit`.
pub open spec fn bounded_number(s: Seq<char>, limit: nat) -> Option<nat> {
    if s.len() > 0 && all_digits(s) && digits_value(s) <= limit {
        Some(digits_value(s))
    } else {
        None
    }
}

/// The `u32` that `s` writes: digits, with or without a plus sign before
/// them.
pub open spec fn parsed_u32(s: Seq<char>) -> Option<u32> {
    let digits = if s.len() > 0 && s[0] == '+' {
        s.drop_first()
    } else {
        s
    };
    match bounded_number(digits, 0xFFFF_FFFF) {
        Some(n) => Some(n as u32),
        None => None,
    }
}

/// True when `s` writes a whole number of any size: one digit or more,
/// with or without a sign before them.
pub open spec fn is_integer_text(s: Seq<char>) -> bool {
    if s.len() > 0 && (s[0] == '+' || s[0] == '-') {
        s.len() > 1 && all_digits(s.drop_first())
    } else {
        s.len() > 0 && all_digits(s)
    }
}

/// A number does not get smaller when a digit is appended.
proof fn lemma_digits_grow(s: Seq<char>, upto: int)
    requires
        0 <= upto <= s.len(),
        all_digits(s),
    ensures
        digits_value(s.subrange(0, upto)) <= digits_value(s),
    decreases s.len() - upto,
{
    if upto < s.len() {
        let next = s.subrange(0, upto + 1);
        assert(next.drop_last() =~= s.subrange(0, upto));
        assert(is_digit(s[upto]));
        assert(next.last() == s[upto]);
        lemma_digits_grow(s, upto + 1);
    } else {
        assert(s.subrange(0, upto) =~= s);
    }
}

/// Whether every character of `s` is a decimal digit.
pub fn only_digits(s: &[char]) -> (b: bool)
    ensures
        b == all_digits(s@),
{
    let mut i: usize = 0;
    while i < s.len()
        invariant
            i <= s@.len(),
            forall|k: int| 0 <= k < i ==> is_digit(#[trigger] s@[k]),
        decreases s@.len() - i,
    {
        if s[i] < '0' || s[i] > '9' {
            assert(!is_digit(s@[i as int]));
            return false;
        }
        i += 1;
    }
    true
}

/// Whether `s` writes a whole number, whatever its size.
pub fn is_integer(s: &[char]) -> (b: bool)
    ensures
        b == is_integer_text(s@),
{
    if s.len() > 0 && (s[0] == '+' || s[0] == '-') {
        assert(s@.subrange(1, s@.len() as int) =~= s@.drop_first());
        s.len() > 1 && only_digits(vstd::slice::slice_subrange(s, 1, s.len()))
    } else {
        s.len() > 0 && only_digits(s)
    }
}

/// The number that `s` writes, where `s` is one digit or more and the
/// number is at most `limit`.
pub fn parse_digits(s: &[char], limit: u64) -> (r: Option<u64>)
    ensures
        match bounded_number(s@, limit as nat) {
            Some(n) => r == Some(n as u64),
            None => r is None,
        },
{
    if s.len() == 0 {
        return None;
    }
    let mut value: u64 = 0;
    let mut i: usize = 0;
    while i < s.len()
        invariant
            i <= s@.len(),
            all_digits(s@.subrange(0, i as int)),
            value == digits_value(s@.subrange(0, i as int)),
            value <= limit,
        decreases s@.len() - i,
    {
        let c = s[i];
        let ghost prefix = s@.subrange(0, i as int);
        let ghost next = s@.subrange(0, i + 1);
        proof {
            assert(next.drop_last() =~= prefix);
            assert(next.last() == c);
        }
        if c < '0' || c > '9' {
            assert(!is_digit(s@[i as int]));
            return None;
        }
        let grown: u128 = value as u128 * 10 + (c as u32 - 48) as u128;
        assert(all_digits(next)) by {
            assert forall|k: int| 0 <= k < next.len() implies is_digit(#[trigger] next[k]) by {
                if k < prefix.len() {
                    assert(next[k] == prefix[k]);
                }
            }
        }
        i += 1;
        if grown > limit as u128 {
            proof {
                if all_digits(s@) {
                    lemma_digits_grow(s@, i as int);
                }
            }
            return None;
        }
        value = grown as u64;
    }
    assert(s@.subrange(0, s@.len() as int) =~= s@);
    Some(value)
}

/// The `u32` that `s` writes.
pub fn parse_u32(s: &[char]) -> (r: Option<u32>)
    ensures
        r == parsed_u32(s@),
{
    let digits = if s.len() > 0 && s[0] == '+' {
        assert(s@.subrange(1, s@.len() as int) =~= s@.drop_first());
        vstd::slice::slice_subrange(s, 1, s.len())
    } else {
        s
    };
    match parse_digits(digits, 0xFFFF_FFFF) {
        Some(n) => Some(n as u32),
        None => None,
    }
}

/// The text that opens a session handle.
pub open spec fn handle_prefix() -> Seq<char> {
    seq!['r', 'e', 'p', 'l', 'a', 'y', '@', '{']
}

/// What stands between `replay@{` and `}` in the handle `s`; `None` where
/// `s` has not that shape.
pub open spec fn handle_body(s: Seq<char>) -> Option<Seq<char>> {
    if s.len() >= 9 && s.subrange(0, 8) == handle_prefix() && s.last() == '}' {
        Some(s.subrange(8, s.len() - 1))
    } else {
        None
    }
}

/// The position that the handle `s` names.
pub open spec fn handle_index(s: Seq<char>) -> Option<u32> {
    match handle_body(s) {
        Some(body) => parsed_u32(body),
        None => None,
    }
}

/// What is said of a text that has not the shape of a handle.
pub open spec fn bad_shape_text(s: Seq<char>) -> Seq<char> {
    "Session name must be of the form replay@{index}, got '"@ + s + "'"@
}

/// What is said of a handle whose position is no number.
pub open spec fn bad_index_text(s: Seq<char>) -> Seq<char> {
    "Invalid session index in '"@ + s + "'"@
}

/// The position that the handle `s` names. A handle is `replay@{`, a whole
/// number that fits in 32 bits, and `}`; any other text is refused with a
/// message that quotes it.
pub fn parse_session_index(s: &str) -> (r: Result<u32, String>)
    ensures
        match handle_body(s@) {
            Some(body) => match parsed_u32(body) {
                Some(n) => r == Ok::<u32, String>(n),
                None => r is Err && r.unwrap_err()@ == bad_index_text(s@),
            },
            None => r is Err && r.unwrap_err()@ == bad_shape_text(s@),
        },
{
    let chars = chars_of(s);
    let n = chars.len();
    let prefix: [char; 8] = ['r', 'e', 'p', 'l', 'a', 'y', '@', '{'];
    let mut shaped = n >= 9 && chars[n - 1] == '}';
    let mut i: usize = 0;
    while shaped && i < 8
        invariant
            n == chars@.len(),
            i <= 8,
            shaped ==> n >= 9 && chars@[n - 1] == '}',
            shaped ==> forall|k: int| 0 <= k < i ==> chars@[k] == handle_prefix()[k],
            !shaped ==> handle_body(chars@) is None,
            prefix@ == handle_prefix(),
        decreases 8 - i + (if shaped { 1int } else { 0int }),
    {
        if chars[i] != prefix[i] {
            assert(chars@.subrange(0, 8)[i as int] != handle_prefix()[i as int]);
            shaped = false;
        } else {
            i += 1;
        }
    }
    if !shaped {
        let mut msg = String::from_str("Session name must be of the form replay@{index}, got '");
        msg.append(s);
        msg.append("'");
        return Err(msg);
    }
    assert(chars@.subrange(0, 8) =~= handle_prefix());
    let body = vstd::slice::slice_subrange(chars.as_slice(), 8, n - 1);
    match parse_u32(body) {
        Some(index) => Ok(index),
        None => {
            let mut msg = String::from_str("Invalid session index in '");
            msg.append(s);
            msg.append("'");
            Err(msg)
        },
    }
}

} // verus!
