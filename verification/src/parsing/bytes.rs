//! Comparing and searching byte strings.

use vstd::prelude::*;

verus! {

/// Whether `text` holds `pattern` at `pos`, entirely inside `text`.
pub open spec fn holds_at(text: Seq<u8>, pos: int, pattern: Seq<u8>) -> bool {
    &&& 0 <= pos
    &&& pos + pattern.len() <= text.len()
    &&& text.subrange(pos, pos + pattern.len()) == pattern
}

/// Whether `pattern` occurs in `text` at some position in `from..upto`.
pub open spec fn occurs_before(text: Seq<u8>, from: int, upto: int, pattern: Seq<u8>) -> bool {
    exists|p: int| from <= p < upto && #[trigger] holds_at(text, p, pattern)
}

/// Whether the two byte strings are the same.
pub fn same_bytes(a: &[u8], b: &[u8]) -> (same: bool)
    ensures
        same == (a@ == b@),
{
    if a.len() != b.len() {
        return false;
    }
    let mut i: usize = 0;
    while i < a.len()
        invariant
            i <= a.len(),
            a.len() == b.len(),
            forall|j: int| 0 <= j < i ==> a@[j] == b@[j],
        decreases a.len() - i,
    {
        if a[i] != b[i] {
            return false;
        }
        i += 1;
    }
    assert(a@ =~= b@);
    true
}

/// Whether `text` holds `pattern` at `pos`.
pub fn matches_at(text: &[u8], pos: usize, pattern: &[u8]) -> (hit: bool)
    ensures
        hit == holds_at(text@, pos as int, pattern@),
{
    if pos > text.len() || pattern.len() > text.len() - pos {
        return false;
    }
    let mut i: usize = 0;
    while i < pattern.len()
        invariant
            i <= pattern.len(),
            pos + pattern.len() <= text.len(),
            forall|j: int| 0 <= j < i ==> text@[pos + j] == pattern@[j],
        decreases pattern.len() - i,
    {
        if text[pos + i] != pattern[i] {
            assert(text@.subrange(pos as int, pos + pattern.len())[i as int] != pattern@[i as int]);
            return false;
        }
        i += 1;
    }
    assert(text@.subrange(pos as int, pos + pattern.len()) =~= pattern@);
    true
}

/// The first position at or after `from` where `text` holds `pattern`; the
/// length of `text` where it holds it nowhere from there on.
pub open spec fn first_at(text: Seq<u8>, from: int, pattern: Seq<u8>) -> int
    decreases text.len() - from,
{
    if from >= text.len() {
        text.len() as int
    } else if holds_at(text, from, pattern) {
        from
    } else {
        first_at(text, from + 1, pattern)
    }
}

/// The first position at or after `from` where `text` holds `pattern`.
pub fn find_from(text: &[u8], from: usize, pattern: &[u8]) -> (found: Option<usize>)
    ensures
        found == if first_at(text@, from as int, pattern@) < text@.len() {
            Some(first_at(text@, from as int, pattern@) as usize)
        } else {
            None
        },
        found matches Some(p) ==> from <= p && p + pattern@.len() <= text@.len() && p
            == first_at(text@, from as int, pattern@),
{
    let mut p: usize = from;
    while p < text.len()
        invariant
            from <= p,
            first_at(text@, from as int, pattern@) == first_at(text@, p as int, pattern@),
        decreases text.len() - p,
    {
        if matches_at(text, p, pattern) {
            return Some(p);
        }
        p += 1;
    }
    None
}

} // verus!
