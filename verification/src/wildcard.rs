//! Matching with `*` for any run of bytes and `?` for any one byte.

use vstd::prelude::*;

verus! {

/// `*`
pub const STAR: u8 = 42;

/// `?`
pub const ANY_ONE: u8 = 63;

/// `pattern` describes the whole of `value`.
pub open spec fn matches_wildcard(pattern: Seq<u8>, value: Seq<u8>) -> bool
    decreases pattern.len(), value.len(),
{
    if pattern.len() == 0 {
        value.len() == 0
    } else if pattern[0] == STAR {
        matches_wildcard(pattern.skip(1), value) || (value.len() > 0 && matches_wildcard(
            pattern,
            value.skip(1),
        ))
    } else {
        value.len() > 0 && one_matches(pattern[0], value[0]) && matches_wildcard(
            pattern.skip(1),
            value.skip(1),
        )
    }
}

/// A pattern byte other than `*` describes the byte `b`.
pub open spec fn one_matches(p: u8, b: u8) -> bool {
    p == ANY_ONE || p == b
}

/// A leading `*` takes up any number of bytes.
proof fn lemma_star_absorbs(pattern: Seq<u8>, value: Seq<u8>, n: int)
    requires
        pattern.len() > 0,
        pattern[0] == STAR,
        0 <= n <= value.len(),
        matches_wildcard(pattern, value.skip(n)),
    ensures
        matches_wildcard(pattern, value),
    decreases n,
{
    if n > 0 {
        let t = value.skip(1);
        assert(t.skip(n - 1) =~= value.skip(n));
        lemma_star_absorbs(pattern, t, n - 1);
    } else {
        assert(value.skip(0) =~= value);
    }
}

/// What a leading `*` leaves is some suffix of the value.
proof fn lemma_star_leaves(pattern: Seq<u8>, value: Seq<u8>) -> (n: int)
    requires
        pattern.len() > 0,
        pattern[0] == STAR,
        matches_wildcard(pattern, value),
    ensures
        0 <= n <= value.len(),
        matches_wildcard(pattern.skip(1), value.skip(n)),
    decreases value.len(),
{
    if matches_wildcard(pattern.skip(1), value) {
        assert(value.skip(0) =~= value);
        0
    } else {
        let k = lemma_star_leaves(pattern, value.skip(1));
        assert(value.skip(1).skip(k) =~= value.skip(k + 1));
        k + 1
    }
}

/// The first `n` bytes of the pattern hold no `*` and describe the first `n` bytes of the value.
pub open spec fn literal_run(pattern: Seq<u8>, value: Seq<u8>, n: int) -> bool {
    &&& 0 <= n <= pattern.len()
    &&& n <= value.len()
    &&& forall|i: int|
        0 <= i < n ==> #[trigger] pattern[i] != STAR && one_matches(pattern[i], value[i])
}

proof fn lemma_literal_run(pattern: Seq<u8>, value: Seq<u8>, n: int)
    requires
        literal_run(pattern, value, n),
    ensures
        matches_wildcard(pattern, value) == matches_wildcard(pattern.skip(n), value.skip(n)),
    decreases n,
{
    if n > 0 {
        let p = pattern.skip(1);
        let v = value.skip(1);
        assert(pattern[0] != STAR);
        assert forall|i: int| 0 <= i < n - 1 implies #[trigger] p[i] != STAR && one_matches(
            p[i],
            v[i],
        ) by {
            assert(p[i] == pattern[i + 1]);
        }
        lemma_literal_run(p, v, n - 1);
        assert(p.skip(n - 1) =~= pattern.skip(n));
        assert(v.skip(n - 1) =~= value.skip(n));
    } else {
        assert(pattern.skip(0) =~= pattern);
        assert(value.skip(0) =~= value);
    }
}

/// A pattern whose first `n` bytes hold no `*` takes up the first `n` bytes of any value it describes.
proof fn lemma_run_forced(pattern: Seq<u8>, value: Seq<u8>, n: int)
    requires
        0 <= n <= pattern.len(),
        forall|i: int| 0 <= i < n ==> #[trigger] pattern[i] != STAR,
        matches_wildcard(pattern, value),
    ensures
        literal_run(pattern, value, n),
    decreases n,
{
    if n > 0 {
        let p = pattern.skip(1);
        let v = value.skip(1);
        assert(pattern[0] != STAR);
        assert forall|i: int| 0 <= i < n - 1 implies #[trigger] p[i] != STAR by {
            assert(p[i] == pattern[i + 1]);
        }
        lemma_run_forced(p, v, n - 1);
        assert forall|i: int| 0 <= i < n implies #[trigger] pattern[i] != STAR && one_matches(
            pattern[i],
            value[i],
        ) by {
            if i > 0 {
                assert(p[i - 1] == pattern[i]);
                assert(v[i - 1] == value[i]);
            }
        }
    }
}

/// Where a run of literals after a `*` has been taken up and another `*` follows, the earlier one
/// needs no second try.
proof fn lemma_next_star(pattern: Seq<u8>, value: Seq<u8>, s: int, sv: int, p: int, v: int)
    requires
        0 <= s < p < pattern.len(),
        0 <= sv <= v <= value.len(),
        p - s - 1 == v - sv,
        pattern[s] == STAR,
        pattern[p] == STAR,
        literal_run(pattern.skip(s + 1), value.skip(sv), v - sv),
    ensures
        matches_wildcard(pattern.skip(s), value.skip(sv)) == matches_wildcard(
            pattern.skip(p),
            value.skip(v),
        ),
{
    let run = v - sv;
    let ps = pattern.skip(s);
    let p1 = pattern.skip(s + 1);
    assert(ps.skip(1) =~= p1);
    lemma_literal_run(p1, value.skip(sv), run);
    assert(p1.skip(run) =~= pattern.skip(p));
    assert(value.skip(sv).skip(run) =~= value.skip(v));
    if matches_wildcard(ps, value.skip(sv)) {
        let k = lemma_star_leaves(ps, value.skip(sv));
        let w = value.skip(sv).skip(k);
        lemma_run_forced(p1, w, run);
        lemma_literal_run(p1, w, run);
        assert(w.skip(run) =~= value.skip(v).skip(k));
        lemma_star_absorbs(pattern.skip(p), value.skip(v), k);
    }
}

/// Where a run of literals after a `*` breaks off, the `*` has to take up one more byte.
proof fn lemma_retry(pattern: Seq<u8>, value: Seq<u8>, s: int, sv: int, p: int, v: int)
    requires
        0 <= s < p <= pattern.len(),
        0 <= sv <= v < value.len(),
        p - s - 1 == v - sv,
        pattern[s] == STAR,
        literal_run(pattern.skip(s + 1), value.skip(sv), v - sv),
        p < pattern.len() ==> pattern[p] != STAR && !one_matches(pattern[p], value[v]),
    ensures
        matches_wildcard(pattern.skip(s), value.skip(sv)) == matches_wildcard(
            pattern.skip(s),
            value.skip(sv + 1),
        ),
{
    let run = v - sv;
    let ps = pattern.skip(s);
    let p1 = pattern.skip(s + 1);
    assert(ps.skip(1) =~= p1);
    lemma_literal_run(p1, value.skip(sv), run);
    assert(p1.skip(run) =~= pattern.skip(p));
    assert(value.skip(sv).skip(run) =~= value.skip(v));
    assert(!matches_wildcard(pattern.skip(p), value.skip(v)));
    assert(value.skip(sv).skip(1) =~= value.skip(sv + 1));
}

/// At the end of the value only the last `*` could have taken up more, and it took up the least.
proof fn lemma_value_used_up(pattern: Seq<u8>, value: Seq<u8>, s: int, sv: int, p: int)
    requires
        0 <= s < p <= pattern.len(),
        0 <= sv <= value.len(),
        p - s - 1 == value.len() - sv,
        pattern[s] == STAR,
        literal_run(pattern.skip(s + 1), value.skip(sv), value.len() - sv),
    ensures
        matches_wildcard(pattern.skip(s), value.skip(sv)) == matches_wildcard(
            pattern.skip(p),
            value.skip(value.len() as int),
        ),
{
    let run = value.len() - sv;
    let ps = pattern.skip(s);
    let p1 = pattern.skip(s + 1);
    assert(ps.skip(1) =~= p1);
    lemma_literal_run(p1, value.skip(sv), run);
    assert(p1.skip(run) =~= pattern.skip(p));
    assert(value.skip(sv).skip(run) =~= value.skip(value.len() as int));
    if matches_wildcard(ps, value.skip(sv)) {
        let k = lemma_star_leaves(ps, value.skip(sv));
        let w = value.skip(sv).skip(k);
        lemma_run_forced(p1, w, run);
        assert(k == 0);
        assert(w =~= value.skip(sv));
    }
}

/// Decide `matches_wildcard` by scanning both texts once, going back only to the last `*`.
pub fn glob_matches(pattern: &[u8], value: &[u8]) -> (r: bool)
    ensures
        r == matches_wildcard(pattern@, value@),
{
    let mut p: usize = 0;
    let mut v: usize = 0;
    let mut star: Option<usize> = None;
    let mut star_value: usize = 0;
    assert(pattern@.skip(0) =~= pattern@);
    assert(value@.skip(0) =~= value@);
    while v < value.len()
        invariant
            p <= pattern@.len(),
            v <= value@.len(),
            star is None ==> matches_wildcard(pattern@, value@) == matches_wildcard(
                pattern@.skip(p as int),
                value@.skip(v as int),
            ),
            star matches Some(s) ==> {
                &&& s < p
                &&& star_value <= v
                &&& p - s - 1 == v - star_value
                &&& pattern@[s as int] == STAR
                &&& literal_run(
                    pattern@.skip(s + 1),
                    value@.skip(star_value as int),
                    v - star_value,
                )
                &&& matches_wildcard(pattern@, value@) == matches_wildcard(
                    pattern@.skip(s as int),
                    value@.skip(star_value as int),
                )
            },
        decreases
            value@.len() - (if star is Some {
                star_value as int
            } else {
                v as int
            }),
            pattern@.len() - (if star is Some {
                star->0 as int
            } else {
                -1
            }),
            value@.len() - v,
    {
        let ghost pp = pattern@.skip(p as int);
        let ghost vv = value@.skip(v as int);
        if p < pattern.len() && pattern[p] == STAR {
            proof {
                if let Some(s) = star {
                    lemma_next_star(
                        pattern@,
                        value@,
                        s as int,
                        star_value as int,
                        p as int,
                        v as int,
                    );
                }
            }
            star = Some(p);
            star_value = v;
            p += 1;
        } else if p < pattern.len() && (pattern[p] == ANY_ONE || pattern[p] == value[v]) {
            assert(pp.skip(1) =~= pattern@.skip(p + 1));
            assert(vv.skip(1) =~= value@.skip(v + 1));
            p += 1;
            v += 1;
            proof {
                if let Some(s) = star {
                    let run = pattern@.skip(s + 1);
                    let part = value@.skip(star_value as int);
                    let n = v - star_value;
                    assert forall|i: int| 0 <= i < n implies #[trigger] run[i] != STAR
                        && one_matches(run[i], part[i]) by {
                        if i == n - 1 {
                            assert(run[i] == pattern@[p - 1]);
                            assert(part[i] == value@[v - 1]);
                        }
                    }
                }
            }
        } else if let Some(s) = star {
            proof {
                lemma_retry(pattern@, value@, s as int, star_value as int, p as int, v as int);
            }
            p = s + 1;
            star_value += 1;
            v = star_value;
        } else {
            return false;
        }
    }
    proof {
        if let Some(s) = star {
            lemma_value_used_up(pattern@, value@, s as int, star_value as int, p as int);
        }
    }
    while p < pattern.len() && pattern[p] == STAR
        invariant
            p <= pattern@.len(),
            v == value@.len(),
            matches_wildcard(pattern@, value@) == matches_wildcard(
                pattern@.skip(p as int),
                value@.skip(v as int),
            ),
        decreases pattern@.len() - p,
    {
        assert(pattern@.skip(p as int).skip(1) =~= pattern@.skip(p + 1));
        p += 1;
    }
    p == pattern.len()
}

/// A joined pattern describes a value exactly when its halves describe the two parts of some cut.
pub proof fn wildcard_cut(a: Seq<u8>, b: Seq<u8>, value: Seq<u8>)
    ensures
        matches_wildcard(a + b, value) <==> exists|k: int|
            0 <= k <= value.len() && #[trigger] matches_wildcard(a, value.take(k))
                && matches_wildcard(b, value.skip(k)),
    decreases a.len(), value.len(),
{
    let whole = a + b;
    if a.len() == 0 {
        assert(whole =~= b);
        assert(value.skip(0) =~= value);
        if matches_wildcard(whole, value) {
            assert(matches_wildcard(a, value.take(0)));
        }
    } else {
        assert(whole.skip(1) =~= a.skip(1) + b);
        let rest = value.skip(1);
        if a[0] == STAR {
            wildcard_cut(a.skip(1), b, value);
            if value.len() > 0 {
                wildcard_cut(a, b, rest);
            }
            if matches_wildcard(whole, value) {
                if matches_wildcard(whole.skip(1), value) {
                    let k = choose|k: int|
                        0 <= k <= value.len() && #[trigger] matches_wildcard(
                            a.skip(1),
                            value.take(k),
                        ) && matches_wildcard(b, value.skip(k));
                    assert(matches_wildcard(a, value.take(k)));
                } else {
                    let k = choose|k: int|
                        0 <= k <= rest.len() && #[trigger] matches_wildcard(a, rest.take(k))
                            && matches_wildcard(b, rest.skip(k));
                    assert(value.take(k + 1).skip(1) =~= rest.take(k));
                    assert(rest.skip(k) =~= value.skip(k + 1));
                    assert(matches_wildcard(a, value.take(k + 1)));
                }
            }
            if exists|k: int|
                0 <= k <= value.len() && #[trigger] matches_wildcard(a, value.take(k))
                    && matches_wildcard(b, value.skip(k)) {
                let k = choose|k: int|
                    0 <= k <= value.len() && #[trigger] matches_wildcard(a, value.take(k))
                        && matches_wildcard(b, value.skip(k));
                if matches_wildcard(a.skip(1), value.take(k)) {
                    assert(matches_wildcard(whole.skip(1), value));
                } else {
                    assert(k > 0);
                    assert(value.take(k).skip(1) =~= rest.take(k - 1));
                    assert(rest.skip(k - 1) =~= value.skip(k));
                    assert(matches_wildcard(a, rest.take(k - 1)));
                    assert(matches_wildcard(whole, rest));
                }
            }
        } else {
            if value.len() > 0 {
                wildcard_cut(a.skip(1), b, rest);
            }
            if matches_wildcard(whole, value) {
                let k = choose|k: int|
                    0 <= k <= rest.len() && #[trigger] matches_wildcard(a.skip(1), rest.take(k))
                        && matches_wildcard(b, rest.skip(k));
                assert(value.take(k + 1).skip(1) =~= rest.take(k));
                assert(rest.skip(k) =~= value.skip(k + 1));
                assert(matches_wildcard(a, value.take(k + 1)));
            }
            if exists|k: int|
                0 <= k <= value.len() && #[trigger] matches_wildcard(a, value.take(k))
                    && matches_wildcard(b, value.skip(k)) {
                let k = choose|k: int|
                    0 <= k <= value.len() && #[trigger] matches_wildcard(a, value.take(k))
                        && matches_wildcard(b, value.skip(k));
                assert(k > 0);
                assert(value.take(k).skip(1) =~= rest.take(k - 1));
                assert(rest.skip(k - 1) =~= value.skip(k));
                assert(matches_wildcard(a.skip(1), rest.take(k - 1)));
                assert(matches_wildcard(whole.skip(1), rest));
            }
        }
    }
}

/// `*` alone describes every value.
pub proof fn star_matches_all(value: Seq<u8>)
    ensures
        matches_wildcard(seq![STAR], value),
    decreases value.len(),
{
    reveal_with_fuel(matches_wildcard, 2);
    let p = seq![STAR];
    if value.len() > 0 {
        star_matches_all(value.skip(1));
    } else {
        assert(p.skip(1).len() == 0);
    }
}

/// A pattern without wildcards describes exactly itself.
pub proof fn literal_matches_itself(pattern: Seq<u8>, value: Seq<u8>)
    requires
        forall|i: int| 0 <= i < pattern.len() ==> #[trigger] pattern[i] != STAR && pattern[i] != ANY_ONE,
    ensures
        matches_wildcard(pattern, value) <==> pattern == value,
    decreases pattern.len(),
{
    if pattern.len() == 0 {
        if value.len() == 0 {
            assert(pattern =~= value);
        }
    } else {
        assert(pattern[0] != STAR);
        if value.len() > 0 {
            let p = pattern.skip(1);
            assert forall|i: int| 0 <= i < p.len() implies #[trigger] p[i] != STAR && p[i]
                != ANY_ONE by {
                assert(p[i] == pattern[i + 1]);
            }
            literal_matches_itself(p, value.skip(1));
            assert(pattern =~= seq![pattern[0]] + p);
            assert(value =~= seq![value[0]] + value.skip(1));
        }
    }
}

proof fn lemma_one_byte(c: u8, value: Seq<u8>)
    requires
        c != STAR,
    ensures
        matches_wildcard(seq![c], value) <==> value.len() == 1 && one_matches(c, value[0]),
{
    reveal_with_fuel(matches_wildcard, 2);
    let p = seq![c];
    assert(p.skip(1).len() == 0);
}

/// How one more pattern byte extends what a pattern describes.
proof fn lemma_extend(pattern: Seq<u8>, c: u8, value: Seq<u8>)
    ensures
        c == STAR ==> (matches_wildcard(pattern.push(c), value) <==> matches_wildcard(pattern, value)
            || (value.len() > 0 && matches_wildcard(pattern.push(c), value.drop_last()))),
        c != STAR ==> (matches_wildcard(pattern.push(c), value) <==> value.len() > 0 && one_matches(
            c,
            value.last(),
        ) && matches_wildcard(pattern, value.drop_last())),
{
    let one = seq![c];
    assert(pattern.push(c) =~= pattern + one);
    wildcard_cut(pattern, one, value);
    assert(value.take(value.len() as int) =~= value);
    if c == STAR {
        if value.len() > 0 {
            let short = value.drop_last();
            wildcard_cut(pattern, one, short);
            if matches_wildcard(pattern.push(c), value) {
                let k = choose|k: int|
                    0 <= k <= value.len() && #[trigger] matches_wildcard(pattern, value.take(k))
                        && matches_wildcard(one, value.skip(k));
                if k < value.len() {
                    assert(short.take(k) =~= value.take(k));
                    star_matches_all(short.skip(k));
                    assert(matches_wildcard(pattern, short.take(k)));
                }
            }
            if matches_wildcard(pattern.push(c), short) {
                let k = choose|k: int|
                    0 <= k <= short.len() && #[trigger] matches_wildcard(pattern, short.take(k))
                        && matches_wildcard(one, short.skip(k));
                assert(short.take(k) =~= value.take(k));
                star_matches_all(value.skip(k));
                assert(matches_wildcard(pattern, value.take(k)));
            }
        } else if matches_wildcard(pattern.push(c), value) {
            let k = choose|k: int|
                0 <= k <= value.len() && #[trigger] matches_wildcard(pattern, value.take(k))
                    && matches_wildcard(one, value.skip(k));
            assert(value.take(k) =~= value);
        }
        if matches_wildcard(pattern, value) {
            star_matches_all(value.skip(value.len() as int));
            assert(matches_wildcard(pattern, value.take(value.len() as int)));
        }
    } else {
        if matches_wildcard(pattern.push(c), value) {
            let k = choose|k: int|
                0 <= k <= value.len() && #[trigger] matches_wildcard(pattern, value.take(k))
                    && matches_wildcard(one, value.skip(k));
            lemma_one_byte(c, value.skip(k));
            assert(k == value.len() - 1);
            assert(value.take(k) =~= value.drop_last());
            assert(value.skip(k)[0] == value.last());
        }
        if value.len() > 0 && one_matches(c, value.last()) && matches_wildcard(
            pattern,
            value.drop_last(),
        ) {
            let k = value.len() - 1;
            assert(value.take(k) =~= value.drop_last());
            assert(value.skip(k)[0] == value.last());
            lemma_one_byte(c, value.skip(k));
            assert(matches_wildcard(pattern, value.take(k)));
        }
    }
}

/// Decide `matches_wildcard` by dynamic programming over the prefixes of both texts.
pub fn wildcard_matches(pattern: &[u8], value: &[u8]) -> (r: bool)
    ensures
        r == matches_wildcard(pattern@, value@),
{
    if value.len() == usize::MAX {
        return glob_matches(pattern, value);
    }
    let n: usize = value.len() + 1;
    let mut previous: Vec<bool> = vec![false; n];
    previous.set(0, true);
    let mut k: usize = 0;
    assert(pattern@.take(0) =~= Seq::<u8>::empty());
    while k < pattern.len()
        invariant
            k <= pattern@.len(),
            n == value@.len() + 1,
            previous@.len() == n,
            forall|i: int|
                0 <= i < n ==> #[trigger] previous@[i] == matches_wildcard(
                    pattern@.take(k as int),
                    value@.take(i),
                ),
        decreases pattern@.len() - k,
    {
        let c: u8 = pattern[k];
        let ghost before = pattern@.take(k as int);
        let ghost after = pattern@.take(k + 1);
        assert(after =~= before.push(c));
        let mut current: Vec<bool> = vec![false; n];
        if c == STAR {
            let first: bool = previous[0];
            current.set(0, first);
        }
        proof {
            lemma_extend(before, c, value@.take(0));
        }
        let mut i: usize = 1;
        while i < n
            invariant
                1 <= i <= n,
                n == value@.len() + 1,
                previous@.len() == n,
                current@.len() == n,
                after == before.push(c),
                forall|j: int|
                    0 <= j < n ==> #[trigger] previous@[j] == matches_wildcard(
                        before,
                        value@.take(j),
                    ),
                forall|j: int|
                    0 <= j < i ==> #[trigger] current@[j] == matches_wildcard(after, value@.take(j)),
            decreases n - i,
        {
            proof {
                lemma_extend(before, c, value@.take(i as int));
                assert(value@.take(i as int).drop_last() =~= value@.take(i - 1));
                assert(value@.take(i as int).last() == value@[i - 1]);
            }
            let hit: bool = if c == STAR {
                previous[i] || current[i - 1]
            } else {
                previous[i - 1] && (c == ANY_ONE || c == value[i - 1])
            };
            current.set(i, hit);
            i += 1;
        }
        previous = current;
        k += 1;
    }
    assert(pattern@.take(pattern@.len() as int) =~= pattern@);
    assert(value@.take(value@.len() as int) =~= value@);
    previous[value.len()]
}

} // verus!
