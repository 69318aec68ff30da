//! Small operations on text, counted in characters.

use vstd::prelude::*;
use vstd::std_specs::iter::IteratorSpec;
use vstd::string::*;

verus! {

/// Whether the two texts hold the same characters.
pub fn text_eq(left: &str, right: &str) -> (same: bool)
    ensures
        same == (left@ == right@),
{
    let mut rest = right.chars();
    let ghost mut seen: int = 0;
    for c in it: left.chars()
        invariant
            it.seq() == left@,
            seen == it.index(),
            seen <= right@.len(),
            rest.remaining() == right@.skip(seen),
            rest.obeys_prophetic_iter_laws(),
            left@.take(seen) == right@.take(seen),
    {
        match rest.next() {
            Some(d) => {
                if c != d {
                    return false;
                }
                proof {
                    assert(right@.skip(seen).drop_first() == right@.skip(seen + 1));
                    assert(left@.take(seen + 1) == left@.take(seen).push(c));
                    assert(right@.take(seen + 1) == right@.take(seen).push(d));
                    seen = seen + 1;
                }
            },
            None => {
                return false;
            },
        }
    }
    let last = rest.next();
    assert(left@.take(seen) == left@);
    last.is_none()
}

/// The place of the first `needle` in `text`, counted in characters.
pub fn find_char(text: &str, needle: char) -> (place: Option<usize>)
    ensures
        match place {
            Some(at) => text@.index_of_first(needle) == Some(at as int),
            None => text@.index_of_first(needle) is None,
        },
{
    let count: usize = text.unicode_len();
    let mut at: usize = 0;
    for c in it: text.chars()
        invariant
            count == text@.len(),
            at == it.index(),
            it.seq() == text@,
            forall|j: int| 0 <= j < at ==> text@[j] != needle,
    {
        if c == needle {
            proof {
                text@.index_of_first_ensures(needle);
                assert(text@[at as int] == needle);
            }
            return Some(at);
        }
        at = at + 1;
    }
    proof {
        text@.index_of_first_ensures(needle);
    }
    None
}

/// Whether `text` begins with the characters of `start`.
pub fn starts_with(text: &str, start: &str) -> (begins: bool)
    ensures
        begins == start@.is_prefix_of(text@),
{
    let mut rest = text.chars();
    let ghost mut seen: int = 0;
    for c in it: start.chars()
        invariant
            it.seq() == start@,
            seen == it.index(),
            seen <= text@.len(),
            rest.remaining() == text@.skip(seen),
            rest.obeys_prophetic_iter_laws(),
            start@.take(seen) == text@.take(seen),
    {
        match rest.next() {
            Some(d) => {
                if c != d {
                    assert(start@[seen] != text@[seen]);
                    return false;
                }
                proof {
                    assert(text@.skip(seen).drop_first() == text@.skip(seen + 1));
                    assert(start@.take(seen + 1) == start@.take(seen).push(c));
                    assert(text@.take(seen + 1) == text@.take(seen).push(d));
                    seen = seen + 1;
                }
            },
            None => {
                return false;
            },
        }
    }
    assert(start@.take(seen) == start@);
    assert(text@.subrange(0, seen) == text@.take(seen));
    true
}

} // verus!
