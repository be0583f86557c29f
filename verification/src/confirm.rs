//! The confirmation rule: which answers to the preview let the renames go
//! ahead.

use vstd::prelude::*;
use crate::text::{chars_of, push_range};

verus! {

/// What `char::is_whitespace` of std returns for `c`: whether `c` has the
/// Unicode property `White_Space`.
pub uninterp spec fn white_space(c: char) -> bool;

/// What `str::to_lowercase` of std returns for `text`: its lowercase
/// equivalent by the Unicode rules, which may differ from `text` in length.
pub uninterp spec fn lowercased(text: Seq<char>) -> Seq<char>;

/// `text` without its leading whitespace.
pub open spec fn trimmed_start(text: Seq<char>) -> Seq<char>
    decreases text.len(),
{
    if text.len() > 0 && white_space(text.first()) {
        trimmed_start(text.drop_first())
    } else {
        text
    }
}

/// `text` without its trailing whitespace.
pub open spec fn trimmed_end(text: Seq<char>) -> Seq<char>
    decreases text.len(),
{
    if text.len() > 0 && white_space(text.last()) {
        trimmed_end(text.drop_last())
    } else {
        text
    }
}

/// `text` without its leading and trailing whitespace.
pub open spec fn trimmed(text: Seq<char>) -> Seq<char> {
    trimmed_end(trimmed_start(text))
}

/// The word is `y` or `yes`.
pub open spec fn is_yes(word: Seq<char>) -> bool {
    word == "y"@ || word == "yes"@
}

/// The answer is affirmative: trimmed and in lowercase it reads `y` or `yes`.
pub open spec fn affirmative(answer: Seq<char>) -> bool {
    is_yes(lowercased(trimmed(answer)))
}

/// `char::is_whitespace` of std: whether `c` has the Unicode property
/// `White_Space`, which depends on `c` alone.
#[verifier::external_body]
pub(crate) fn is_whitespace(c: char) -> (space: bool)
    ensures
        space == white_space(c),
{
    c.is_whitespace()
}

/// Leading whitespace ends where the first other character stands.
proof fn lemma_trimmed_start(text: Seq<char>, start: int)
    requires
        0 <= start <= text.len(),
        forall|j: int| 0 <= j < start ==> white_space(text[j]),
        start < text.len() ==> !white_space(text[start]),
    ensures
        trimmed_start(text) == text.skip(start),
    decreases text.len(),
{
    if start > 0 {
        let rest = text.drop_first();
        assert forall|j: int| 0 <= j < start - 1 implies white_space(rest[j]) by {
            assert(rest[j] == text[j + 1]);
        }
        lemma_trimmed_start(rest, start - 1);
    }
}

/// Trailing whitespace begins behind the last other character.
proof fn lemma_trimmed_end(text: Seq<char>, end: int)
    requires
        0 <= end <= text.len(),
        forall|j: int| end <= j < text.len() ==> white_space(text[j]),
        0 < end ==> !white_space(text[end - 1]),
    ensures
        trimmed_end(text) == text.take(end),
    decreases text.len(),
{
    if end < text.len() {
        lemma_trimmed_end(text.drop_last(), end);
    }
}

/// `text` without the whitespace at both of its ends.
pub fn trim(text: &str) -> (inner: String)
    ensures
        inner@ == trimmed(text@),
{
    let chars = chars_of(text);
    let mut start: usize = 0;
    while start < chars.len() && is_whitespace(chars[start])
        invariant
            start <= chars.len(),
            forall|j: int| 0 <= j < start ==> white_space(chars@[j]),
        decreases chars.len() - start,
    {
        start += 1;
    }
    let mut end: usize = chars.len();
    while end > start && is_whitespace(chars[end - 1])
        invariant
            start <= end <= chars.len(),
            forall|j: int| end <= j < chars.len() ==> white_space(chars@[j]),
        decreases end,
    {
        end -= 1;
    }
    proof {
        lemma_trimmed_start(chars@, start as int);
        let rest = chars@.skip(start as int);
        assert forall|j: int| end - start <= j < rest.len() implies white_space(rest[j]) by {
            assert(rest[j] == chars@[start + j]);
        }
        lemma_trimmed_end(rest, end - start);
        assert(rest.take(end - start) == chars@.subrange(start as int, end as int));
    }
    let mut inner = String::new();
    push_range(&mut inner, &chars, start, end);
    inner
}

/// `str::to_lowercase` of std: the lowercase equivalent of `text`, which
/// depends on `text` alone.
#[verifier::external_body]
pub(crate) fn to_lowercase(text: &str) -> (lower: String)
    ensures
        lower@ == lowercased(text@),
{
    text.to_lowercase()
}

/// Whether `word` reads exactly `y` or `yes`.
pub fn is_yes_word(word: &str) -> (yes: bool)
    ensures
        yes == is_yes(word@),
{
    proof {
        reveal_strlit("y");
        reveal_strlit("yes");
    }
    let chars = chars_of(word);
    if chars.len() == 1 {
        let yes = chars[0] == 'y';
        assert(yes ==> word@ =~= "y"@);
        yes
    } else if chars.len() == 3 {
        let yes = chars[0] == 'y' && chars[1] == 'e' && chars[2] == 's';
        assert(yes ==> word@ =~= "yes"@);
        yes
    } else {
        false
    }
}

/// Whether `answer` confirms the plan: whether, trimmed and in lowercase, it
/// reads `y` or `yes`. Any other answer, an empty one too, declines.
pub fn is_affirmative(answer: &str) -> (yes: bool)
    ensures
        yes == affirmative(answer@),
{
    let inner = trim(answer);
    let lower = to_lowercase(inner.as_str());
    is_yes_word(lower.as_str())
}

} // verus!
