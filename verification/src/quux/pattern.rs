//! Regular-expression matching, done by the `regex` crate.
//!
//! Nothing in this file is proved. Each function here makes a call into
//! `regex` and states only that what comes back is a fixed function of
//! what went in, under a name; the rest of the library reasons from that.
//! What a pattern matches is for `regex` to say.

use regex::Regex;
use vstd::prelude::*;

verus! {

#[verifier::external_type_specification]
#[verifier::external_body]
pub struct ExRegexError(regex::Error);

/// Whether `regex` finds a match of `pattern` anywhere in `text`;
/// `None` where `regex` rejects the pattern.
pub uninterp spec fn regex_is_match(pattern: Seq<char>, text: Seq<char>) -> Option<bool>;

/// For each of the successive non-overlapping matches that `regex` finds
/// of `pattern` in `text`, in their order: the part of `text` that capture
/// group `group` matched, or `None` where the pattern has no such group or
/// the group took no part in that match. `None` as a whole where `regex`
/// rejects the pattern.
pub uninterp spec fn regex_group_texts(pattern: Seq<char>, group: nat, text: Seq<char>) -> Option<
    Seq<Option<Seq<char>>>,
>;

/// Compiles `pattern` with `regex::Regex::new` and asks `Regex::is_match`
/// whether it matches anywhere in `text`. The answer is trusted to depend
/// on the pattern and the text alone. The error is the one that
/// `Regex::new` gives for a pattern it rejects.
#[verifier::external_body]
pub(crate) fn is_match(pattern: &str, text: &str) -> (r: Result<bool, regex::Error>)
    ensures
        r matches Ok(found) ==> regex_is_match(pattern@, text@) == Some(found),
        r is Err ==> regex_is_match(pattern@, text@) is None,
{
    Ok(Regex::new(pattern)?.is_match(text))
}

/// Compiles `pattern` with `regex::Regex::new`, walks the matches that
/// `Regex::captures_iter` yields for `text`, and copies out of each what
/// `Captures::get` holds for `group`. The list is trusted to depend on the
/// pattern, the group and the text alone. The error is the one that
/// `Regex::new` gives for a pattern it rejects.
#[verifier::external_body]
pub(crate) fn group_texts(pattern: &str, group: usize, text: &str) -> (r: Result<
    Vec<Option<String>>,
    regex::Error,
>)
    ensures
        r matches Ok(found) ==> regex_group_texts(pattern@, group as nat, text@) == Some(
            found.deep_view(),
        ),
        r is Err ==> regex_group_texts(pattern@, group as nat, text@) is None,
{
    let re = Regex::new(pattern)?;
    Ok(re.captures_iter(text).map(|c| c.get(group).map(|m| m.as_str().to_owned())).collect())
}

} // verus!
