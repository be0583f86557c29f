//! Literal substitution: what it means to exchange every occurrence of a
//! pattern in a name, and what holds of the result.

use vstd::prelude::*;
use crate::text::{occurs, occurs_at};

verus! {

/// `text` with every occurrence of `old` exchanged for `new`, scanning from
/// the left and resuming behind each occurrence found, so that the
/// occurrences exchanged do not overlap.
///
/// An empty `old` occurs before every character and at the end.
pub open spec fn replaced(text: Seq<char>, old: Seq<char>, new: Seq<char>) -> Seq<char>
    decreases text.len(),
{
    if text.len() == 0 {
        if old.len() == 0 {
            new
        } else {
            text
        }
    } else if old.len() == 0 {
        new + text.take(1) + replaced(text.skip(1), old, new)
    } else if occurs_at(text, old, 0) {
        new + replaced(text.skip(old.len() as int), old, new)
    } else {
        text.take(1) + replaced(text.skip(1), old, new)
    }
}

/// `text` with every occurrence of `pattern` deleted.
pub open spec fn removed(text: Seq<char>, pattern: Seq<char>) -> Seq<char> {
    replaced(text, pattern, Seq::empty())
}

/// The stretches of `text` that lie between the occurrences of `pattern`
/// which the scan of [`replaced`] finds: before the first occurrence, between
/// one and the next, and behind the last.
pub open spec fn pieces(text: Seq<char>, pattern: Seq<char>) -> Seq<Seq<char>>
    decreases text.len(),
{
    if text.len() == 0 || pattern.len() == 0 {
        seq![text]
    } else if occurs_at(text, pattern, 0) {
        seq![Seq::empty()] + pieces(text.skip(pattern.len() as int), pattern)
    } else {
        let rest = pieces(text.skip(1), pattern);
        seq![text.take(1) + rest.first()] + rest.drop_first()
    }
}

/// The `parts` in order, with `separator` between each two neighbours.
pub open spec fn joined(parts: Seq<Seq<char>>, separator: Seq<char>) -> Seq<char>
    decreases parts.len(),
{
    if parts.len() == 0 {
        Seq::empty()
    } else if parts.len() == 1 {
        parts.first()
    } else {
        parts.first() + separator + joined(parts.drop_first(), separator)
    }
}

/// No character of `a` is a character of `b`.
pub open spec fn share_no_character(a: Seq<char>, b: Seq<char>) -> bool {
    forall|i: int, j: int| 0 <= i < a.len() && 0 <= j < b.len() ==> a[i] != b[j]
}

/// A text in which `old` does not occur is left as it is.
pub proof fn lemma_replace_without_occurrence(text: Seq<char>, old: Seq<char>, new: Seq<char>)
    requires
        !occurs(text, old),
    ensures
        replaced(text, old, new) == text,
    decreases text.len(),
{
    lemma_empty_occurs(text, old);
    if text.len() > 0 {
        let rest = text.skip(1);
        assert forall|at: int| !occurs_at(rest, old, at) by {
            if occurs_at(rest, old, at) {
                assert(text.subrange(at + 1, at + 1 + old.len()) == rest.subrange(
                    at,
                    at + old.len(),
                ));
                assert(occurs_at(text, old, at + 1));
            }
        }
        lemma_replace_without_occurrence(rest, old, new);
    }
}

/// The empty pattern occurs in every text.
proof fn lemma_empty_occurs(text: Seq<char>, pattern: Seq<char>)
    ensures
        pattern.len() == 0 ==> occurs_at(text, pattern, 0) && occurs(text, pattern),
{
    if pattern.len() == 0 {
        assert(text.subrange(0, 0) == pattern);
        assert(occurs_at(text, pattern, 0));
    }
}

/// An occurrence in the tail of a text is an occurrence in the text.
proof fn lemma_occurs_in_tail(text: Seq<char>, pattern: Seq<char>)
    requires
        text.len() > 0,
        occurs(text, pattern),
        !occurs_at(text, pattern, 0),
    ensures
        occurs(text.skip(1), pattern),
{
    let at: int = choose|at: int| occurs_at(text, pattern, at);
    assert(text.skip(1).subrange(at - 1, at - 1 + pattern.len()) == text.subrange(
        at,
        at + pattern.len(),
    ));
    assert(occurs_at(text.skip(1), pattern, at - 1));
}

/// A replacement by something longer never shortens the name, and lengthens
/// it where `old` occurs; a replacement by something shorter never lengthens
/// it, and shortens it where `old` occurs.
pub proof fn lemma_replace_length(text: Seq<char>, old: Seq<char>, new: Seq<char>)
    ensures
        new.len() >= old.len() ==> replaced(text, old, new).len() >= text.len(),
        new.len() <= old.len() ==> replaced(text, old, new).len() <= text.len(),
        occurs(text, old) && new.len() > old.len() ==> replaced(text, old, new).len()
            > text.len(),
        occurs(text, old) && new.len() < old.len() ==> replaced(text, old, new).len()
            < text.len(),
    decreases text.len(),
{
    if old.len() == 0 {
        if text.len() > 0 {
            lemma_replace_length(text.skip(1), old, new);
        }
    } else if text.len() == 0 {
        assert forall|at: int| !occurs_at(text, old, at) by {}
    } else if occurs_at(text, old, 0) {
        lemma_replace_length(text.skip(old.len() as int), old, new);
    } else {
        lemma_replace_length(text.skip(1), old, new);
        if occurs(text, old) {
            lemma_occurs_in_tail(text, old);
        }
    }
}

/// A replacement changes the name exactly where `old` occurs in it and `new`
/// differs from `old`.
pub proof fn lemma_replace_changes_exactly_when(text: Seq<char>, old: Seq<char>, new: Seq<char>)
    ensures
        replaced(text, old, new) != text <==> occurs(text, old) && new != old,
    decreases text.len(),
{
    if !occurs(text, old) {
        lemma_replace_without_occurrence(text, old, new);
    } else if new == old {
        lemma_replace_by_itself(text, old);
    } else if new.len() != old.len() {
        lemma_replace_length(text, old, new);
    } else if old.len() == 0 {
        assert(new =~= old);
    } else if occurs_at(text, old, 0) {
        let out = replaced(text, old, new);
        assert(out.subrange(0, new.len() as int) == new);
    } else {
        lemma_occurs_in_tail(text, old);
        lemma_replace_changes_exactly_when(text.skip(1), old, new);
        let inner = replaced(text.skip(1), old, new);
        if text.take(1) + inner == text {
            assert(inner == (text.take(1) + inner).skip(1));
        }
    }
}

/// Where `old` occurs in the name, `new` occurs in the result.
pub proof fn lemma_replace_puts_new(text: Seq<char>, old: Seq<char>, new: Seq<char>)
    requires
        occurs(text, old),
    ensures
        occurs(replaced(text, old, new), new),
    decreases text.len(),
{
    let out = replaced(text, old, new);
    let at: int = choose|at: int| occurs_at(text, old, at);
    if old.len() == 0 || occurs_at(text, old, 0) {
        assert(out.subrange(0, new.len() as int) == new);
        assert(occurs_at(out, new, 0));
    } else {
        let rest = text.skip(1);
        assert(rest.subrange(at - 1, at - 1 + old.len()) == text.subrange(at, at + old.len()));
        assert(occurs_at(rest, old, at - 1));
        lemma_replace_puts_new(rest, old, new);
        let inner = replaced(rest, old, new);
        let found: int = choose|found: int| occurs_at(inner, new, found);
        assert(out.subrange(found + 1, found + 1 + new.len()) == inner.subrange(
            found,
            found + new.len(),
        ));
        assert(occurs_at(out, new, found + 1));
    }
}

/// Removing a single character leaves no occurrence of it.
pub proof fn lemma_remove_single_character(text: Seq<char>, pattern: Seq<char>)
    requires
        pattern.len() == 1,
    ensures
        !occurs(removed(text, pattern), pattern),
    decreases text.len(),
{
    let out = removed(text, pattern);
    if text.len() == 0 {
    } else if occurs_at(text, pattern, 0) {
        lemma_remove_single_character(text.skip(1), pattern);
    } else {
        let inner = removed(text.skip(1), pattern);
        lemma_remove_single_character(text.skip(1), pattern);
        assert forall|at: int| !occurs_at(out, pattern, at) by {
            if occurs_at(out, pattern, at) {
                if at == 0 {
                    assert(text.subrange(0, 1) == pattern);
                } else {
                    assert(inner.subrange(at - 1, at) == out.subrange(at, at + 1));
                    assert(occurs_at(inner, pattern, at - 1));
                }
            }
        }
    }
}

/// At the head of the result either stands the head of the name, copied, or
/// a first `new` with what was copied before it.
proof fn lemma_head_copied_or_cut(text: Seq<char>, old: Seq<char>, new: Seq<char>, len: int)
    requires
        old.len() > 0,
        0 <= len <= replaced(text, old, new).len(),
    ensures
        ({
            ||| len <= text.len() && replaced(text, old, new).take(len) == text.take(len)
            ||| exists|cut: int|
                0 <= cut < len && #[trigger] occurs_at(replaced(text, old, new), new, cut)
        }),
    decreases text.len(),
{
    let out = replaced(text, old, new);
    if len == 0 {
    } else if text.len() == 0 {
    } else if occurs_at(text, old, 0) {
        assert(out.subrange(0, new.len() as int) == new);
        assert(occurs_at(out, new, 0));
    } else {
        let inner = replaced(text.skip(1), old, new);
        lemma_head_copied_or_cut(text.skip(1), old, new, len - 1);
        if len - 1 <= text.skip(1).len() && inner.take(len - 1) == text.skip(1).take(len - 1) {
            assert(out.take(len) == text.take(1) + inner.take(len - 1));
        } else {
            let cut: int = choose|cut: int| 0 <= cut < len - 1 && occurs_at(inner, new, cut);
            assert(out.subrange(cut + 1, cut + 1 + new.len()) == inner.subrange(
                cut,
                cut + new.len(),
            ));
            assert(occurs_at(out, new, cut + 1));
        }
    }
}

/// `old` and `new` overlap: one lies in the other, or an end of one is a
/// beginning of the other. An empty text lies in every other.
pub open spec fn overlap(old: Seq<char>, new: Seq<char>) -> bool {
    ||| occurs(new, old)
    ||| occurs(old, new)
    ||| exists|len: int|
        0 < len < new.len() && len < old.len() && #[trigger] new.skip(new.len() - len)
            == old.take(len)
    ||| exists|len: int|
        0 < len < new.len() && len < old.len() && #[trigger] new.take(len) == old.skip(
            old.len() - len,
        )
}

/// Two texts that are not empty and have no character in common do not
/// overlap.
pub proof fn lemma_unrelated_texts_do_not_overlap(old: Seq<char>, new: Seq<char>)
    requires
        old.len() > 0,
        new.len() > 0,
        share_no_character(old, new),
    ensures
        !overlap(old, new),
{
    assert forall|at: int| !occurs_at(new, old, at) by {
        if occurs_at(new, old, at) {
            assert(new.subrange(at, at + old.len())[0] == old[0]);
        }
    }
    assert forall|at: int| !occurs_at(old, new, at) by {
        if occurs_at(old, new, at) {
            assert(old.subrange(at, at + new.len())[0] == new[0]);
        }
    }
    assert forall|len: int| 0 < len < new.len() && len < old.len() implies #[trigger] new.skip(
        new.len() - len,
    ) != old.take(len) by {
        assert(new.skip(new.len() - len)[0] == new[new.len() - len]);
    }
    assert forall|len: int| 0 < len < new.len() && len < old.len() implies #[trigger] new.take(
        len,
    ) != old.skip(old.len() - len) by {
        assert(new.take(len)[0] == new[0]);
    }
}

/// Where `old` and `new` do not overlap, the result holds no occurrence of
/// `old`.
pub proof fn lemma_replace_leaves_no_old(text: Seq<char>, old: Seq<char>, new: Seq<char>)
    requires
        !overlap(old, new),
    ensures
        !occurs(replaced(text, old, new), old),
    decreases text.len(),
{
    let out = replaced(text, old, new);
    let m: int = old.len() as int;
    let n: int = new.len() as int;
    assert(m > 0 && n > 0) by {
        lemma_empty_occurs(new, old);
        lemma_empty_occurs(old, new);
    }
    if text.len() == 0 {
    } else if occurs_at(text, old, 0) {
        let inner = replaced(text.skip(m), old, new);
        lemma_replace_leaves_no_old(text.skip(m), old, new);
        assert forall|at: int| !occurs_at(out, old, at) by {
            if occurs_at(out, old, at) {
                let found = out.subrange(at, at + m);
                if at >= n {
                    assert(inner.subrange(at - n, at - n + m) == found);
                    assert(occurs_at(inner, old, at - n));
                } else if at + m <= n {
                    assert(new.subrange(at, at + m) == found);
                    assert(occurs_at(new, old, at));
                } else if at == 0 {
                    assert forall|j: int| 0 <= j < n implies old[j] == new[j] by {}
                    assert(old.subrange(0, n) == new);
                    assert(occurs_at(old, new, 0));
                } else {
                    let len: int = n - at;
                    assert forall|j: int| 0 <= j < len implies new[at + j] == old[j] by {}
                    assert(new.skip(n - len) == old.take(len));
                }
            }
        }
    } else {
        let rest = text.skip(1);
        let inner = replaced(rest, old, new);
        lemma_replace_leaves_no_old(rest, old, new);
        assert forall|at: int| !occurs_at(out, old, at) by {
            if occurs_at(out, old, at) {
                let found = out.subrange(at, at + m);
                if at > 0 {
                    assert(inner.subrange(at - 1, at - 1 + m) == found);
                    assert(occurs_at(inner, old, at - 1));
                } else {
                    lemma_head_copied_or_cut(rest, old, new, m - 1);
                    if m - 1 <= rest.len() && inner.take(m - 1) == rest.take(m - 1) {
                        assert forall|j: int| 0 <= j < m implies text[j] == old[j] by {
                            if j > 0 {
                                assert(inner.take(m - 1)[j - 1] == rest.take(m - 1)[j - 1]);
                            }
                        }
                        assert(text.subrange(0, m) == old);
                    } else {
                        let cut: int = choose|cut: int|
                            0 <= cut < m - 1 && occurs_at(inner, new, cut);
                        let copy = inner.subrange(cut, cut + n);
                        if cut + 1 + n <= m {
                            assert forall|j: int| 0 <= j < n implies old[cut + 1 + j]
                                == new[j] by {
                                assert(copy[j] == new[j]);
                            }
                            assert(old.subrange(cut + 1, cut + 1 + n) == new);
                            assert(occurs_at(old, new, cut + 1));
                        } else {
                            let len: int = m - (cut + 1);
                            assert forall|j: int| 0 <= j < len implies new[j] == old[m - len
                                + j] by {
                                assert(copy[j] == new[j]);
                            }
                            assert(new.take(len) == old.skip(m - len));
                        }
                    }
                }
            }
        }
    }
}

/// The first piece is a head of the text, and there is always one.
proof fn lemma_first_piece(text: Seq<char>, pattern: Seq<char>)
    ensures
        pieces(text, pattern).len() > 0,
        pieces(text, pattern).first().is_prefix_of(text),
    decreases text.len(),
{
    if text.len() == 0 || pattern.len() == 0 {
    } else if occurs_at(text, pattern, 0) {
    } else {
        lemma_first_piece(text.skip(1), pattern);
        let rest = pieces(text.skip(1), pattern);
        let head = text.take(1) + rest.first();
        assert forall|j: int| 0 <= j < head.len() implies head[j] == text[j] by {}
    }
}

/// The name is its pieces with the pattern between them.
pub proof fn lemma_pieces_join_to_text(text: Seq<char>, pattern: Seq<char>)
    requires
        pattern.len() > 0,
    ensures
        joined(pieces(text, pattern), pattern) == text,
{
    lemma_pieces_join_to_replaced(text, pattern, pattern);
    lemma_replace_by_itself(text, pattern);
}

/// Exchanging a pattern for itself changes nothing.
pub proof fn lemma_replace_by_itself(text: Seq<char>, pattern: Seq<char>)
    ensures
        replaced(text, pattern, pattern) == text,
    decreases text.len(),
{
    if text.len() == 0 {
    } else if pattern.len() == 0 {
        lemma_replace_by_itself(text.skip(1), pattern);
    } else if occurs_at(text, pattern, 0) {
        let m: int = pattern.len() as int;
        lemma_replace_by_itself(text.skip(m), pattern);
    } else {
        lemma_replace_by_itself(text.skip(1), pattern);
    }
}

/// The result of a replacement is the pieces of the name with `new` between
/// them: `new` stands wherever the scan found `old`, and the rest of the name
/// stands as it was.
pub proof fn lemma_pieces_join_to_replaced(text: Seq<char>, old: Seq<char>, new: Seq<char>)
    requires
        old.len() > 0,
    ensures
        joined(pieces(text, old), new) == replaced(text, old, new),
    decreases text.len(),
{
    let parts = pieces(text, old);
    if text.len() == 0 {
    } else if occurs_at(text, old, 0) {
        let tail = text.skip(old.len() as int);
        lemma_pieces_join_to_replaced(tail, old, new);
        lemma_first_piece(tail, old);
        assert(parts.drop_first() == pieces(tail, old));
    } else {
        let tail = text.skip(1);
        let rest = pieces(tail, old);
        lemma_pieces_join_to_replaced(tail, old, new);
        lemma_first_piece(tail, old);
        assert(parts.drop_first() == rest.drop_first());
    }
}

/// No piece holds an occurrence of the pattern: where the pattern occurs in
/// what a removal leaves, it lies across a place where an occurrence was taken
/// out.
pub proof fn lemma_pieces_hold_no_occurrence(text: Seq<char>, pattern: Seq<char>, i: int)
    requires
        pattern.len() > 0,
        0 <= i < pieces(text, pattern).len(),
    ensures
        !occurs(pieces(text, pattern)[i], pattern),
    decreases text.len(),
{
    let parts = pieces(text, pattern);
    let m: int = pattern.len() as int;
    if text.len() == 0 {
    } else if occurs_at(text, pattern, 0) {
        if i > 0 {
            lemma_pieces_hold_no_occurrence(text.skip(m), pattern, i - 1);
        }
    } else {
        let tail = text.skip(1);
        let rest = pieces(tail, pattern);
        lemma_first_piece(tail, pattern);
        if i > 0 {
            lemma_pieces_hold_no_occurrence(tail, pattern, i);
        } else {
            lemma_pieces_hold_no_occurrence(tail, pattern, 0);
            lemma_first_piece(text, pattern);
            let head = parts[0];
            assert forall|at: int| !occurs_at(head, pattern, at) by {
                if occurs_at(head, pattern, at) {
                    if at == 0 {
                        assert forall|j: int| 0 <= j < m implies text[j] == pattern[j] by {}
                        assert(text.subrange(0, m) == pattern);
                    } else {
                        assert(rest.first().subrange(at - 1, at - 1 + m) == head.subrange(
                            at,
                            at + m,
                        ));
                        assert(occurs_at(rest.first(), pattern, at - 1));
                    }
                }
            }
        }
    }
}

} // verus!
