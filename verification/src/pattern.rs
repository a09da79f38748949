//! Regular expressions, as the `regex` crate matches them.

use vstd::prelude::*;
use vstd::string::*;

verus! {

/// Whether `pattern` finds a match anywhere in `text`; `None` where `pattern`
/// is no regular expression.
pub uninterp spec fn regex_is_match(pattern: Seq<char>, text: Seq<char>) -> Option<bool>;

/// `text` with every non-overlapping match of `pattern` replaced by what
/// `replacement` expands to, `$` followed by a name or a number standing for
/// a capture group; `None` where `pattern` is no regular expression.
pub uninterp spec fn regex_replace_all(
    pattern: Seq<char>,
    text: Seq<char>,
    replacement: Seq<char>,
) -> Option<Seq<char>>;

/// `regex::Regex::new` followed by `Regex::is_match`: the answer is a
/// function of the pattern and the text alone.
#[verifier::external_body]
pub(crate) fn is_match(pattern: &str, text: &str) -> (r: Option<bool>)
    ensures
        r == regex_is_match(pattern@, text@),
{
    match regex::Regex::new(pattern) {
        Ok(re) => Some(re.is_match(text)),
        Err(_) => None,
    }
}

/// `regex::Regex::new` followed by `Regex::replace_all`, which expands the
/// `$` references of the replacement: the new text is a function of the
/// pattern, the text and the replacement alone.
#[verifier::external_body]
pub(crate) fn replace_all(pattern: &str, text: &str, replacement: &str) -> (r: Option<String>)
    ensures
        r is Some <==> regex_replace_all(pattern@, text@, replacement@) is Some,
        r is Some ==> r.unwrap()@ == regex_replace_all(pattern@, text@, replacement@).unwrap(),
{
    match regex::Regex::new(pattern) {
        Ok(re) => Some(re.replace_all(text, replacement).into_owned()),
        Err(_) => None,
    }
}

/// `text` without the matches of `pattern`, or `text` itself where `pattern`
/// is no regular expression.
pub open spec fn without_matches(pattern: Seq<char>, text: Seq<char>) -> Seq<char> {
    match regex_replace_all(pattern, text, Seq::<char>::empty()) {
        Some(cleaned) => cleaned,
        None => text,
    }
}

/// What is left of `text` given what the replacement of the matches gave.
pub fn cleaned_or_same(text: &str, replaced: Option<String>) -> (r: String)
    ensures
        r@ == match replaced {
            Some(cleaned) => cleaned@,
            None => text@,
        },
{
    match replaced {
        Some(cleaned) => cleaned,
        None => String::from_str(text),
    }
}

/// Removes every match of `pattern` from `text`.
pub fn strip_matches(pattern: &str, text: &str) -> (r: String)
    ensures
        r@ == without_matches(pattern@, text@),
{
    proof {
        reveal_strlit("");
        assert(""@ =~= Seq::<char>::empty());
    }
    cleaned_or_same(text, replace_all(pattern, text, ""))
}

} // verus!
