//! Regular expressions, as the `regex` crate reads and applies them.
//!
//! What a pattern matches is the business of that crate. This module names
//! its two answers, so that contracts can speak of them, and makes the call.

use vstd::prelude::*;

verus! {

/// Whether `regex::Regex::new` accepts `pattern`: it parses as a regular
/// expression and compiles within that crate's default size limit.
pub uninterp spec fn regex_compiles(pattern: Seq<char>) -> bool;

/// What `regex::Regex::replace_all` makes of `text` for the regular expression
/// compiled from `pattern`: every non-overlapping match exchanged for
/// `replacement`, in which `$name` and `$N` stand for capture groups.
pub uninterp spec fn regex_replaced(
    pattern: Seq<char>,
    text: Seq<char>,
    replacement: Seq<char>,
) -> Seq<char>;

/// Compiles `pattern` with `regex::Regex::new` and rewrites `text` with
/// `regex::Regex::replace_all`.
///
/// Assumed of the `regex` crate: the result is `None` exactly when `Regex::new`
/// returns an error, which depends on `pattern` alone; otherwise it holds the
/// text that `replace_all` returns, which depends on the three arguments
/// alone. Neither call panics.
#[verifier::external_body]
pub(crate) fn replace_all_matches(
    text: &str,
    pattern: &str,
    replacement: &str,
) -> (rewritten: Option<String>)
    ensures
        rewritten is Some <==> regex_compiles(pattern@),
        rewritten matches Some(s) ==> s@ == regex_replaced(pattern@, text@, replacement@),
{
    match regex::Regex::new(pattern) {
        Ok(re) => Some(re.replace_all(text, replacement).to_string()),
        Err(_) => None,
    }
}

} // verus!
