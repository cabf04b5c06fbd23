//! Matching of whole paths: `*` for any run of bytes and `?` for any one byte of a component, `**`
//! for any run of bytes across components.

use vstd::prelude::*;

use crate::wildcard::{ANY_ONE, STAR};

verus! {

/// `/`
pub const SLASH: u8 = 47;

/// The pattern begins with `**`.
pub open spec fn crosses(pattern: Seq<u8>) -> bool {
    pattern.len() > 1 && pattern[0] == STAR && pattern[1] == STAR
}

/// `pattern` describes the whole path. Only `**` and a `/` itself describe a `/`.
pub open spec fn matches_path(pattern: Seq<u8>, path: Seq<u8>) -> bool
    decreases pattern.len(), path.len(),
{
    if pattern.len() == 0 {
        path.len() == 0
    } else if crosses(pattern) {
        matches_path(pattern.skip(2), path) || (path.len() > 0 && matches_path(
            pattern,
            path.skip(1),
        ))
    } else if pattern[0] == STAR {
        matches_path(pattern.skip(1), path) || (path.len() > 0 && path[0] != SLASH && matches_path(
            pattern,
            path.skip(1),
        ))
    } else {
        path.len() > 0 && describes_byte(pattern[0], path[0]) && matches_path(
            pattern.skip(1),
            path.skip(1),
        )
    }
}

/// A pattern byte other than `*` describes the byte `b` of a path.
pub open spec fn describes_byte(p: u8, b: u8) -> bool {
    p == b || (p == ANY_ONE && b != SLASH)
}

/// Which ends of the path the rest of a pattern describes.
spec fn is_row(row: Seq<bool>, end: bool, pattern: Seq<u8>, path: Seq<u8>) -> bool {
    &&& row.len() == path.len()
    &&& forall|v: int| 0 <= v < path.len() ==> #[trigger] row[v] == matches_path(pattern, path.skip(v))
    &&& end == matches_path(pattern, Seq::empty())
}

/// The row for a pattern with one more element at its front; `next` belongs to the pattern without
/// its first byte, `later` to the one without its first two bytes.
fn row_before(
    pattern: &[u8],
    at: usize,
    path: &[u8],
    next: &Vec<bool>,
    next_end: bool,
    later: &Vec<bool>,
    later_end: bool,
) -> (r: (Vec<bool>, bool))
    requires
        at < pattern@.len(),
        is_row(next@, next_end, pattern@.skip(at + 1), path@),
        at + 1 < pattern@.len() ==> is_row(later@, later_end, pattern@.skip(at + 2), path@),
    ensures
        is_row(r.0@, r.1, pattern@.skip(at as int), path@),
{
    let ghost rest = pattern@.skip(at as int);
    let c: u8 = pattern[at];
    let both: bool = c == STAR && at + 1 < pattern.len() && pattern[at + 1] == STAR;
    let end: bool = if both {
        later_end
    } else {
        c == STAR && next_end
    };
    proof {
        assert(rest.skip(1) =~= pattern@.skip(at + 1));
        if at + 1 < pattern@.len() {
            assert(rest.skip(2) =~= pattern@.skip(at + 2));
        }
        assert(both == crosses(rest));
    }
    let mut row: Vec<bool> = vec![false; path.len()];
    let mut v: usize = path.len();
    while v > 0
        invariant
            v <= path@.len(),
            at < pattern@.len(),
            c == pattern@[at as int],
            rest == pattern@.skip(at as int),
            rest.skip(1) == pattern@.skip(at + 1),
            at + 1 < pattern@.len() ==> rest.skip(2) == pattern@.skip(at + 2),
            both == crosses(rest),
            end == matches_path(rest, Seq::empty()),
            is_row(next@, next_end, pattern@.skip(at + 1), path@),
            at + 1 < pattern@.len() ==> is_row(later@, later_end, pattern@.skip(at + 2), path@),
            row@.len() == path@.len(),
            forall|w: int|
                v <= w < path@.len() ==> #[trigger] row@[w] == matches_path(rest, path@.skip(w)),
        decreases v,
    {
        let i: usize = v - 1;
        let b: u8 = path[i];
        let ghost here = path@.skip(i as int);
        proof {
            assert(here.skip(1) =~= path@.skip(v as int));
            if v == path@.len() {
                assert(path@.skip(v as int) =~= Seq::empty());
            }
        }
        let same: bool = if v < path.len() {
            row[v]
        } else {
            end
        };
        let hit: bool = if both {
            later[i] || same
        } else if c == STAR {
            next[i] || (b != SLASH && same)
        } else {
            let following: bool = if v < path.len() {
                next[v]
            } else {
                next_end
            };
            (c == b || (c == ANY_ONE && b != SLASH)) && following
        };
        row.set(i, hit);
        v = i;
    }
    (row, end)
}

/// Decide `matches_path` row by row, from the end of the pattern.
pub fn path_matches(pattern: &[u8], path: &[u8]) -> (r: bool)
    ensures
        r == matches_path(pattern@, path@),
{
    let mut next: Vec<bool> = vec![false; path.len()];
    let mut next_end: bool = true;
    let mut later: Vec<bool> = vec![false; path.len()];
    let mut later_end: bool = true;
    let mut at: usize = pattern.len();
    proof {
        assert(pattern@.skip(at as int) =~= Seq::empty());
    }
    while at > 0
        invariant
            at <= pattern@.len(),
            is_row(next@, next_end, pattern@.skip(at as int), path@),
            at < pattern@.len() ==> is_row(later@, later_end, pattern@.skip(at + 1), path@),
        decreases at,
    {
        let (row, end) = row_before(pattern, at - 1, path, &next, next_end, &later, later_end);
        later = next;
        later_end = next_end;
        next = row;
        next_end = end;
        at -= 1;
    }
    proof {
        assert(pattern@.skip(0) =~= pattern@);
        assert(path@.skip(0) =~= path@);
        if path@.len() == 0 {
            assert(path@ =~= Seq::empty());
        }
    }
    if path.len() > 0 {
        next[0]
    } else {
        next_end
    }
}

/// How many components a path goes down.
pub open spec fn slashes(s: Seq<u8>) -> nat
    decreases s.len(),
{
    if s.len() == 0 {
        0
    } else {
        slashes(s.skip(1)) + if s[0] == SLASH {
            1nat
        } else {
            0nat
        }
    }
}

/// Somewhere in the pattern stands `**`.
pub open spec fn has_double_star(pattern: Seq<u8>) -> bool {
    exists|i: int|
        0 <= i < pattern.len() - 1 && #[trigger] pattern[i] == STAR && pattern[i + 1] == STAR
}

/// Without `**` a pattern describes only paths with exactly its own slashes: neither `*` nor `?`
/// leaves its component.
pub proof fn wildcards_stay_in_their_component(pattern: Seq<u8>, path: Seq<u8>)
    requires
        !has_double_star(pattern),
        matches_path(pattern, path),
    ensures
        slashes(path) == slashes(pattern),
    decreases pattern.len(), path.len(),
{
    if pattern.len() > 0 {
        let rest = pattern.skip(1);
        assert(!has_double_star(rest)) by {
            if has_double_star(rest) {
                let i = choose|i: int|
                    0 <= i < rest.len() - 1 && #[trigger] rest[i] == STAR && rest[i + 1] == STAR;
                assert(pattern[i + 1] == STAR && pattern[i + 1 + 1] == STAR);
            }
        }
        assert(!crosses(pattern)) by {
            if crosses(pattern) {
                assert(pattern[0] == STAR && pattern[1] == STAR);
            }
        }
        if pattern[0] == STAR {
            if matches_path(rest, path) {
                wildcards_stay_in_their_component(rest, path);
            } else {
                wildcards_stay_in_their_component(pattern, path.skip(1));
            }
        } else {
            wildcards_stay_in_their_component(rest, path.skip(1));
        }
    }
}

/// `**` at the end describes everything below.
pub proof fn double_star_matches_everything_below(path: Seq<u8>)
    ensures
        matches_path(seq![STAR, STAR], path),
    decreases path.len(),
{
    reveal_with_fuel(matches_path, 2);
    let both = seq![STAR, STAR];
    assert(both.skip(2).len() == 0);
    if path.len() > 0 {
        double_star_matches_everything_below(path.skip(1));
    }
}

} // verus!
