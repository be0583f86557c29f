//! The five name transformations.
//!
//! Each is a pure function from a name and its parameters to a new name,
//! specified over the characters of the name.

use vstd::prelude::*;
use vstd::string::*;
use crate::pattern::{regex_compiles, regex_replaced, replace_all_matches};
use crate::substitution::{removed, replaced};
use crate::text::{chars_of, occurs_at, occurs_at_index, push_char, push_range};

verus! {

/// `prefix` followed by `name`.
pub open spec fn prefixed(name: Seq<char>, prefix: Seq<char>) -> Seq<char> {
    prefix + name
}

/// `name` with `suffix` set in before its last `.`, or at its end where it has
/// no `.`.
pub open spec fn suffixed(name: Seq<char>, suffix: Seq<char>) -> Seq<char> {
    match name.index_of_last('.') {
        Some(dot) => name.take(dot) + suffix + name.skip(dot),
        None => name + suffix,
    }
}

/// A name without a `.` gets the suffix at its end.
pub proof fn lemma_suffixed_without_dot(name: Seq<char>, suffix: Seq<char>)
    requires
        !name.contains('.'),
    ensures
        suffixed(name, suffix) == name + suffix,
{
    name.index_of_last_ensures('.');
}

/// A name whose last `.` stands at `dot` gets the suffix there: before the
/// `.`, and behind what precedes it.
pub proof fn lemma_suffixed_at_last_dot(name: Seq<char>, suffix: Seq<char>, dot: int)
    requires
        0 <= dot < name.len(),
        name[dot] == '.',
        forall|j: int| dot < j < name.len() ==> name[j] != '.',
    ensures
        suffixed(name, suffix) == name.take(dot) + suffix + name.skip(dot),
{
    name.index_of_last_ensures('.');
}

/// The suffix lengthens the name by its own length, so that it changes the
/// name exactly where it is not empty.
pub proof fn lemma_suffixed_length(name: Seq<char>, suffix: Seq<char>)
    ensures
        suffixed(name, suffix).len() == name.len() + suffix.len(),
        suffixed(name, suffix) != name <==> suffix.len() > 0,
{
    name.index_of_last_ensures('.');
    if suffix.len() == 0 {
        assert(suffixed(name, suffix) =~= name);
    }
}

/// The prefixed name begins with the prefix and is as long as the two
/// together, so that the prefix changes the name exactly where it is not
/// empty.
pub proof fn lemma_prefixed_length(name: Seq<char>, prefix: Seq<char>)
    ensures
        prefix.is_prefix_of(prefixed(name, prefix)),
        prefixed(name, prefix).len() == prefix.len() + name.len(),
        prefixed(name, prefix) != name <==> prefix.len() > 0,
{
}

/// `name` rewritten by the regular expression `pattern`, or `name` itself where
/// `pattern` is no regular expression.
pub open spec fn regex_rewritten(
    name: Seq<char>,
    pattern: Seq<char>,
    replacement: Seq<char>,
) -> Seq<char> {
    if regex_compiles(pattern) {
        regex_replaced(pattern, name, replacement)
    } else {
        name
    }
}

/// Replaces every non-overlapping occurrence of `old` in `name` with `new`.
pub fn replace_string(name: &str, old: &str, new: &str) -> (renamed: String)
    ensures
        renamed@ == replaced(name@, old@, new@),
{
    let text = chars_of(name);
    let pattern = chars_of(old);
    let n: usize = text.len();
    let m: usize = pattern.len();
    let mut out = String::new();
    let mut i: usize = 0;
    assert(text@.skip(0) == text@);
    if m == 0 {
        while i < n
            invariant
                i <= n,
                n == text.len(),
                text@ == name@,
                old@.len() == 0,
                out@ + replaced(text@.skip(i as int), old@, new@) == replaced(
                    name@,
                    old@,
                    new@,
                ),
            decreases n - i,
        {
            proof {
                assert(text@.skip(i as int).skip(1) == text@.skip(i + 1));
            }
            out.append(new);
            push_char(&mut out, text[i]);
            i += 1;
        }
        out.append(new);
    } else {
        while i < n
            invariant
                i <= n,
                n == text.len(),
                m == pattern.len(),
                m > 0,
                text@ == name@,
                pattern@ == old@,
                out@ + replaced(text@.skip(i as int), old@, new@) == replaced(
                    name@,
                    old@,
                    new@,
                ),
            decreases n - i,
        {
            proof {
                let rest = text@.skip(i as int);
                assert(occurs_at(rest, old@, 0) == occurs_at(text@, old@, i as int)) by {
                    if i + m <= n {
                        assert(rest.subrange(0, m as int) == text@.subrange(i as int, i + m));
                    }
                }
                assert(rest.skip(1) == text@.skip(i + 1));
                if i + m <= n {
                    assert(rest.skip(m as int) == text@.skip(i + m));
                }
            }
            if occurs_at_index(&text, &pattern, i) {
                out.append(new);
                i += m;
            } else {
                push_char(&mut out, text[i]);
                i += 1;
            }
        }
    }
    out
}

/// Deletes every non-overlapping occurrence of `pattern` from `name`.
pub fn remove_string(name: &str, pattern: &str) -> (renamed: String)
    ensures
        renamed@ == removed(name@, pattern@),
{
    proof {
        reveal_strlit("");
        assert(""@ == Seq::<char>::empty());
    }
    replace_string(name, pattern, "")
}

/// Puts `prefix` before `name`.
pub fn add_prefix(name: &str, prefix: &str) -> (renamed: String)
    ensures
        renamed@ == prefixed(name@, prefix@),
        renamed@.len() == prefix@.len() + name@.len(),
        prefix@.is_prefix_of(renamed@),
{
    let mut renamed = String::from_str(prefix);
    renamed.append(name);
    renamed
}

/// Sets `suffix` in before the last `.` of `name`, or appends it where `name`
/// has no `.`.
pub fn add_suffix(name: &str, suffix: &str) -> (renamed: String)
    ensures
        renamed@ == suffixed(name@, suffix@),
        renamed@.len() == name@.len() + suffix@.len(),
{
    let text = chars_of(name);
    let mut behind: usize = text.len();
    while behind > 0 && text[behind - 1] != '.'
        invariant
            behind <= text.len(),
            forall|j: int| behind <= j < text.len() ==> text@[j] != '.',
        decreases behind,
    {
        behind -= 1;
    }
    let mut renamed = String::new();
    if behind > 0 {
        let dot: usize = behind - 1;
        proof {
            lemma_suffixed_at_last_dot(text@, suffix@, dot as int);
        }
        push_range(&mut renamed, &text, 0, dot);
        renamed.append(suffix);
        push_range(&mut renamed, &text, dot, text.len());
    } else {
        proof {
            lemma_suffixed_without_dot(text@, suffix@);
        }
        renamed.append(name);
        renamed.append(suffix);
    }
    renamed
}

/// The name that a regular-expression rewrite leaves: `rewritten` where the
/// pattern compiled, and `name` unchanged where it did not.
pub fn rewritten_or_unchanged(name: &str, rewritten: Option<String>) -> (renamed: String)
    ensures
        renamed@ == match rewritten {
            Some(s) => s@,
            None => name@,
        },
{
    match rewritten {
        Some(s) => s,
        None => String::from_str(name),
    }
}

/// Replaces every non-overlapping match of the regular expression `pattern` in
/// `name` with `replacement`. A pattern that does not compile leaves the name
/// unchanged.
pub fn regex_replace(name: &str, pattern: &str, replacement: &str) -> (renamed: String)
    ensures
        renamed@ == regex_rewritten(name@, pattern@, replacement@),
        !regex_compiles(pattern@) ==> renamed@ == name@,
{
    let rewritten = replace_all_matches(name, pattern, replacement);
    rewritten_or_unchanged(name, rewritten)
}

} // verus!
