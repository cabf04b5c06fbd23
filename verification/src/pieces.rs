//! Cutting text apart and putting it together: trimming, splitting, searching and replacing.

use vstd::prelude::*;
use vstd::slice::slice_subrange;

use crate::text::{is_white_space, white_space};

verus! {

/// `s` without its longest prefix of characters that satisfy `p`.
pub open spec fn drop_while(s: Seq<char>, p: spec_fn(char) -> bool) -> Seq<char>
    decreases s.len(),
{
    if s.len() > 0 && p(s[0]) {
        drop_while(s.skip(1), p)
    } else {
        s
    }
}

/// `s` without its longest suffix of characters that satisfy `p`.
pub open spec fn drop_end_while(s: Seq<char>, p: spec_fn(char) -> bool) -> Seq<char>
    decreases s.len(),
{
    if s.len() > 0 && p(s.last()) {
        drop_end_while(s.drop_last(), p)
    } else {
        s
    }
}

pub proof fn lemma_drop_while(s: Seq<char>, p: spec_fn(char) -> bool, n: int)
    requires
        0 <= n <= s.len(),
        forall|i: int| 0 <= i < n ==> p(#[trigger] s[i]),
        n < s.len() ==> !p(s[n]),
    ensures
        drop_while(s, p) == s.skip(n),
    decreases n,
{
    if n > 0 {
        assert(p(s[0]));
        let t = s.skip(1);
        assert forall|i: int| 0 <= i < n - 1 implies p(#[trigger] t[i]) by {
            assert(t[i] == s[i + 1]);
        }
        lemma_drop_while(t, p, n - 1);
        assert(t.skip(n - 1) =~= s.skip(n));
    } else {
        assert(s.skip(0) =~= s);
    }
}

pub proof fn lemma_drop_end_while(s: Seq<char>, p: spec_fn(char) -> bool, n: int)
    requires
        0 <= n <= s.len(),
        forall|i: int| n <= i < s.len() ==> p(#[trigger] s[i]),
        n > 0 ==> !p(s[n - 1]),
    ensures
        drop_end_while(s, p) == s.take(n),
    decreases s.len() - n,
{
    if n < s.len() {
        assert(p(s[s.len() - 1]));
        let t = s.drop_last();
        lemma_drop_end_while(t, p, n);
        assert(t.take(n) =~= s.take(n));
    } else {
        assert(s.take(n) =~= s);
    }
}

pub open spec fn white() -> spec_fn(char) -> bool {
    |c: char| is_white_space(c)
}

/// `s` without the white space at its two ends.
pub open spec fn trimmed(s: Seq<char>) -> Seq<char> {
    drop_end_while(drop_while(s, white()), white())
}

/// How much of a text goes when the characters of one kind are dropped at its start.
proof fn lemma_drop_while_skips(s: Seq<char>, p: spec_fn(char) -> bool) -> (n: int)
    ensures
        0 <= n <= s.len(),
        drop_while(s, p) == s.skip(n),
        n < s.len() ==> !p(s[n]),
    decreases s.len(),
{
    if s.len() > 0 && p(s[0]) {
        let m = lemma_drop_while_skips(s.skip(1), p);
        assert(s.skip(1).skip(m) =~= s.skip(m + 1));
        m + 1
    } else {
        assert(s.skip(0) =~= s);
        0
    }
}

/// How much of a text stays when the characters of one kind are dropped at its end.
pub proof fn lemma_drop_end_while_takes(s: Seq<char>, p: spec_fn(char) -> bool) -> (n: int)
    ensures
        0 <= n <= s.len(),
        drop_end_while(s, p) == s.take(n),
        n > 0 ==> !p(s[n - 1]),
    decreases s.len(),
{
    if s.len() > 0 && p(s.last()) {
        let m = lemma_drop_end_while_takes(s.drop_last(), p);
        assert(s.drop_last().take(m) =~= s.take(m));
        m
    } else {
        assert(s.take(s.len() as int) =~= s);
        s.len() as int
    }
}

/// A text that begins and ends with something else than white space stays as it is.
pub proof fn lemma_trimmed_fixed(s: Seq<char>)
    requires
        s.len() > 0 ==> !is_white_space(s[0]) && !is_white_space(s.last()),
    ensures
        trimmed(s) == s,
{
    lemma_drop_while(s, white(), 0);
    assert(s.skip(0) =~= s);
    lemma_drop_end_while(s, white(), s.len() as int);
    assert(s.take(s.len() as int) =~= s);
}

/// What trimming leaves lies in the text, begins and ends with something else than white space, and
/// stays as it is when it is trimmed again.
pub proof fn lemma_trimmed(s: Seq<char>)
    ensures
        trimmed(trimmed(s)) == trimmed(s),
        trimmed(s).len() > 0 ==> !is_white_space(trimmed(s)[0]) && !is_white_space(
            trimmed(s).last(),
        ),
        forall|c: char| trimmed(s).contains(c) ==> #[trigger] s.contains(c),
{
    let a = lemma_drop_while_skips(s, white());
    let t = s.skip(a);
    let b = lemma_drop_end_while_takes(t, white());
    let u = t.take(b);
    if u.len() > 0 {
        assert(u[0] == s[a]);
        assert(u.last() == t[b - 1]);
    }
    lemma_trimmed_fixed(u);
    assert forall|c: char| u.contains(c) implies #[trigger] s.contains(c) by {
        let i = choose|i: int| 0 <= i < u.len() && u[i] == c;
        assert(s[i + a] == c);
    }
}

pub fn trim(s: &[char]) -> (r: &[char])
    ensures
        r@ == trimmed(s@),
{
    let mut a: usize = 0;
    while a < s.len() && white_space(s[a])
        invariant
            a <= s@.len(),
            forall|i: int| 0 <= i < a ==> is_white_space(#[trigger] s@[i]),
        decreases s@.len() - a,
    {
        a += 1;
    }
    proof {
        lemma_drop_while(s@, white(), a as int);
    }
    let ghost t = s@.skip(a as int);
    let mut b: usize = s.len();
    while b > a && white_space(s[b - 1])
        invariant
            a <= b <= s@.len(),
            forall|i: int| b <= i < s@.len() ==> is_white_space(#[trigger] s@[i]),
        decreases b,
    {
        b -= 1;
    }
    proof {
        lemma_drop_end_while(t, white(), b - a);
        assert(t.take(b - a) =~= s@.subrange(a as int, b as int));
    }
    slice_subrange(s, a, b)
}

pub open spec fn only(c: char) -> spec_fn(char) -> bool {
    |x: char| x == c
}

/// `s` without the copies of `c` at its end.
pub fn trim_end_char(s: &[char], c: char) -> (r: &[char])
    ensures
        r@ == drop_end_while(s@, only(c)),
{
    let mut b: usize = s.len();
    while b > 0 && s[b - 1] == c
        invariant
            b <= s@.len(),
            forall|i: int| b <= i < s@.len() ==> #[trigger] s@[i] == c,
        decreases b,
    {
        b -= 1;
    }
    proof {
        lemma_drop_end_while(s@, only(c), b as int);
        assert(s@.take(b as int) =~= s@.subrange(0, b as int));
    }
    slice_subrange(s, 0, b)
}

/// `s` without the copies of `c` at its start.
pub fn trim_start_char(s: &[char], c: char) -> (r: &[char])
    ensures
        r@ == drop_while(s@, only(c)),
{
    let mut a: usize = 0;
    while a < s.len() && s[a] == c
        invariant
            a <= s@.len(),
            forall|i: int| 0 <= i < a ==> #[trigger] s@[i] == c,
        decreases s@.len() - a,
    {
        a += 1;
    }
    proof {
        lemma_drop_while(s@, only(c), a as int);
        assert(s@.skip(a as int) =~= s@.subrange(a as int, s@.len() as int));
    }
    slice_subrange(s, a, s.len())
}

/// `s` begins with `p`.
pub open spec fn has_prefix(s: Seq<char>, p: Seq<char>) -> bool {
    p.len() <= s.len() && s.take(p.len() as int) == p
}

pub fn starts_with(s: &[char], p: &[char]) -> (r: bool)
    ensures
        r == has_prefix(s@, p@),
{
    if p.len() > s.len() {
        return false;
    }
    let mut i: usize = 0;
    while i < p.len()
        invariant
            i <= p@.len() <= s@.len(),
            forall|j: int| 0 <= j < i ==> s@[j] == p@[j],
        decreases p@.len() - i,
    {
        if s[i] != p[i] {
            assert(s@.take(p@.len() as int)[i as int] != p@[i as int]);
            return false;
        }
        i += 1;
    }
    assert(s@.take(p@.len() as int) =~= p@);
    true
}

/// `s` without the copies of `p` at its start.
pub open spec fn drop_prefixes(s: Seq<char>, p: Seq<char>) -> Seq<char>
    decreases s.len(),
{
    if p.len() > 0 && has_prefix(s, p) {
        drop_prefixes(s.skip(p.len() as int), p)
    } else {
        s
    }
}

pub fn trim_start_text<'a>(s: &'a [char], p: &[char]) -> (r: &'a [char])
    requires
        p@.len() > 0,
    ensures
        r@ == drop_prefixes(s@, p@),
{
    let mut rest: &[char] = s;
    while starts_with(rest, p)
        invariant
            p@.len() > 0,
            drop_prefixes(rest@, p@) == drop_prefixes(s@, p@),
        decreases rest@.len(),
    {
        let ghost before = rest@;
        let n: usize = rest.len();
        rest = slice_subrange(rest, p.len(), n);
        assert(rest@ =~= before.skip(p@.len() as int));
    }
    rest
}

pub open spec fn count_of(s: Seq<char>, c: char) -> nat
    decreases s.len(),
{
    if s.len() == 0 {
        0
    } else {
        count_of(s.drop_last(), c) + if s.last() == c {
            1nat
        } else {
            0nat
        }
    }
}

pub fn count_char(s: &[char], c: char) -> (r: usize)
    ensures
        r == count_of(s@, c),
        r <= s@.len(),
{
    let mut n: usize = 0;
    let mut i: usize = 0;
    while i < s.len()
        invariant
            i <= s@.len(),
            n <= i,
            n == count_of(s@.take(i as int), c),
        decreases s@.len() - i,
    {
        assert(s@.take(i + 1).drop_last() =~= s@.take(i as int));
        if s[i] == c {
            n += 1;
        }
        i += 1;
    }
    assert(s@.take(s@.len() as int) =~= s@);
    n
}

/// The first position at or after the start where `s` holds a character of `seps`, else its length.
pub open spec fn first_of(s: Seq<char>, seps: Seq<char>) -> int
    decreases s.len(),
{
    if s.len() == 0 || seps.contains(s[0]) {
        0
    } else {
        1 + first_of(s.skip(1), seps)
    }
}

pub proof fn lemma_first_of(s: Seq<char>, seps: Seq<char>, n: int)
    requires
        0 <= n <= s.len(),
        forall|i: int| 0 <= i < n ==> !seps.contains(#[trigger] s[i]),
        n < s.len() ==> seps.contains(s[n]),
    ensures
        first_of(s, seps) == n,
    decreases n,
{
    if n > 0 {
        assert(!seps.contains(s[0]));
        let t = s.skip(1);
        assert forall|i: int| 0 <= i < n - 1 implies !seps.contains(#[trigger] t[i]) by {
            assert(t[i] == s[i + 1]);
        }
        lemma_first_of(t, seps, n - 1);
    }
}

pub proof fn lemma_first_of_bounds(s: Seq<char>, seps: Seq<char>)
    ensures
        0 <= first_of(s, seps) <= s.len(),
        first_of(s, seps) < s.len() ==> seps.contains(s[first_of(s, seps)]),
        forall|i: int| 0 <= i < first_of(s, seps) ==> !seps.contains(#[trigger] s[i]),
    decreases s.len(),
{
    if s.len() == 0 || seps.contains(s[0]) {
    } else {
        let t = s.skip(1);
        lemma_first_of_bounds(t, seps);
        assert forall|i: int| 0 <= i < first_of(s, seps) implies !seps.contains(#[trigger] s[i]) by {
            if i > 0 {
                assert(s[i] == t[i - 1]);
            }
        }
    }
}

pub fn contains_char(s: &[char], c: char) -> (r: bool)
    ensures
        r == s@.contains(c),
{
    let mut i: usize = 0;
    while i < s.len()
        invariant
            i <= s@.len(),
            forall|j: int| 0 <= j < i ==> #[trigger] s@[j] != c,
        decreases s@.len() - i,
    {
        if s[i] == c {
            assert(s@[i as int] == c);
            return true;
        }
        i += 1;
    }
    false
}

pub fn find_any(s: &[char], seps: &[char]) -> (r: usize)
    ensures
        r == first_of(s@, seps@),
        r <= s@.len(),
{
    let mut i: usize = 0;
    while i < s.len() && !contains_char(seps, s[i])
        invariant
            i <= s@.len(),
            forall|j: int| 0 <= j < i ==> !seps@.contains(#[trigger] s@[j]),
        decreases s@.len() - i,
    {
        i += 1;
    }
    proof {
        lemma_first_of(s@, seps@, i as int);
    }
    i
}

/// The pieces of `s` between the characters of `seps`; as many as there are separators, plus one.
pub open spec fn split_any(s: Seq<char>, seps: Seq<char>) -> Seq<Seq<char>>
    decreases s.len(),
{
    let i = first_of(s, seps);
    if 0 <= i < s.len() {
        seq![s.take(i)] + split_any(s.skip(i + 1), seps)
    } else {
        seq![s]
    }
}

/// The views of a vector of character vectors.
pub open spec fn views(v: Seq<Vec<char>>) -> Seq<Seq<char>> {
    v.map_values(|x: Vec<char>| x@)
}

pub fn copy_chars(s: &[char]) -> (r: Vec<char>)
    ensures
        r@ == s@,
{
    let mut out: Vec<char> = Vec::new();
    let mut i: usize = 0;
    while i < s.len()
        invariant
            i <= s@.len(),
            out@ == s@.take(i as int),
        decreases s@.len() - i,
    {
        out.push(s[i]);
        assert(s@.take(i + 1) =~= s@.take(i as int).push(s@[i as int]));
        i += 1;
    }
    assert(s@.take(s@.len() as int) =~= s@);
    out
}

pub fn split(s: &[char], seps: &[char]) -> (r: Vec<Vec<char>>)
    ensures
        views(r@) == split_any(s@, seps@),
        r@.len() > 0,
{
    let mut out: Vec<Vec<char>> = Vec::new();
    let mut rest: &[char] = s;
    assert(views(out@) + split_any(s@, seps@) =~= split_any(s@, seps@));
    loop
        invariant
            views(out@) + split_any(rest@, seps@) == split_any(s@, seps@),
        decreases rest@.len(),
    {
        let i: usize = find_any(rest, seps);
        let piece: Vec<char> = copy_chars(slice_subrange(rest, 0, i));
        let ghost before = out@;
        assert(piece@ =~= rest@.take(i as int));
        out.push(piece);
        assert(views(out@) =~= views(before).push(rest@.take(i as int)));
        if i < rest.len() {
            let n: usize = rest.len();
            let ghost whole = rest@;
            rest = slice_subrange(rest, i + 1, n);
            assert(rest@ =~= whole.skip(i + 1));
            assert(views(out@) + split_any(rest@, seps@) =~= views(before) + split_any(
                whole,
                seps@,
            ));
        } else {
            assert(rest@.take(i as int) =~= rest@);
            assert(views(out@) =~= views(before) + split_any(rest@, seps@));
            return out;
        }
    }
}

/// No piece between separators holds one.
pub proof fn lemma_pieces_hold_no_separator(s: Seq<char>, seps: Seq<char>, c: char)
    requires
        seps.contains(c),
    ensures
        forall|i: int|
            0 <= i < split_any(s, seps).len() ==> !(#[trigger] split_any(s, seps)[i]).contains(c),
    decreases s.len(),
{
    let n = first_of(s, seps);
    lemma_first_of_bounds(s, seps);
    let head = s.take(n);
    assert(!head.contains(c)) by {
        assert forall|i: int| 0 <= i < head.len() implies head[i] != c by {
            assert(!seps.contains(s[i]));
        }
    }
    if n < s.len() {
        let rest = split_any(s.skip(n + 1), seps);
        lemma_pieces_hold_no_separator(s.skip(n + 1), seps, c);
        let all = split_any(s, seps);
        assert forall|i: int| 0 <= i < all.len() implies !(#[trigger] all[i]).contains(c) by {
            if i > 0 {
                assert(all[i] == rest[i - 1]);
            }
        }
    } else {
        assert(s.take(n) =~= s);
    }
}

/// A text without separators is one piece.
pub proof fn lemma_one_piece(s: Seq<char>, seps: Seq<char>)
    requires
        forall|i: int| 0 <= i < s.len() ==> !seps.contains(#[trigger] s[i]),
    ensures
        split_any(s, seps) == seq![s],
{
    lemma_first_of(s, seps, s.len() as int);
}

/// A separator between two texts splits them apart.
pub proof fn split_at_separator(a: Seq<char>, c: char, b: Seq<char>, seps: Seq<char>)
    requires
        seps.contains(c),
    ensures
        split_any(a + seq![c] + b, seps) == split_any(a, seps) + split_any(b, seps),
    decreases a.len(),
{
    let whole = a + seq![c] + b;
    let i = first_of(a, seps);
    lemma_first_of_bounds(a, seps);
    assert(forall|j: int| 0 <= j < a.len() ==> #[trigger] whole[j] == a[j]);
    assert(whole[a.len() as int] == c);
    lemma_first_of(whole, seps, i);
    if i < a.len() {
        let rest = a.skip(i + 1);
        split_at_separator(rest, c, b, seps);
        assert(whole.skip(i + 1) =~= rest + seq![c] + b);
        assert(whole.take(i) =~= a.take(i));
        assert(split_any(whole, seps) =~= split_any(a, seps) + split_any(b, seps));
    } else {
        assert(whole.take(i) =~= a);
        assert(whole.skip(i + 1) =~= b);
        assert(split_any(whole, seps) =~= split_any(a, seps) + split_any(b, seps));
    }
}

/// A line without the carriage return at its end.
pub open spec fn without_return(s: Seq<char>) -> Seq<char> {
    if s.len() > 0 && s.last() == '\r' {
        s.drop_last()
    } else {
        s
    }
}

/// The lines of a text. A line ends at a line feed, before which one carriage return is dropped;
/// the last line need not end in one.
pub open spec fn text_lines(s: Seq<char>) -> Seq<Seq<char>> {
    let parts = split_any(s, seq!['\n']);
    let ended = parts.drop_last().map_values(|p: Seq<char>| without_return(p));
    if parts.last().len() == 0 {
        ended
    } else {
        ended.push(parts.last())
    }
}

pub fn lines(s: &[char]) -> (r: Vec<Vec<char>>)
    ensures
        views(r@) == text_lines(s@),
{
    let sep: [char; 1] = ['\n'];
    assert(sep@ =~= seq!['\n']);
    let parts: Vec<Vec<char>> = split(s, sep.as_slice());
    let n: usize = parts.len();
    let ghost all = views(parts@);
    let ghost ended = all.drop_last().map_values(|p: Seq<char>| without_return(p));
    let mut out: Vec<Vec<char>> = Vec::new();
    let mut i: usize = 0;
    assert(views(out@) =~= ended.take(0));
    while i + 1 < n
        invariant
            n == parts@.len(),
            n > 0,
            i < n,
            all == views(parts@),
            ended == all.drop_last().map_values(|p: Seq<char>| without_return(p)),
            views(out@) == ended.take(i as int),
        decreases n - i,
    {
        let k: usize = parts[i].len();
        let line: Vec<char> = if k > 0 && parts[i][k - 1] == '\r' {
            copy_chars(slice_subrange(&parts[i], 0, k - 1))
        } else {
            copy_chars(&parts[i])
        };
        assert(line@ =~= without_return(all[i as int]));
        let ghost before = out@;
        out.push(line);
        assert(views(out@) =~= views(before).push(line@));
        assert(ended.take(i + 1) =~= ended.take(i as int).push(ended[i as int]));
        i += 1;
    }
    assert(ended.take(i as int) =~= ended);
    assert(all.last() == parts@[i as int]@);
    if parts[i].len() > 0 {
        let ghost before = out@;
        out.push(copy_chars(&parts[i]));
        assert(views(out@) =~= views(before).push(all.last()));
    }
    out
}

/// `needle` occurs in `s` at position `i`.
pub open spec fn occurs_at(s: Seq<char>, needle: Seq<char>, i: int) -> bool {
    0 <= i && i + needle.len() <= s.len() && s.subrange(i, i + needle.len()) == needle
}

pub open spec fn contains_text(s: Seq<char>, needle: Seq<char>) -> bool {
    exists|i: int| occurs_at(s, needle, i)
}

pub fn contains(s: &[char], needle: &[char]) -> (r: bool)
    ensures
        r == contains_text(s@, needle@),
{
    if needle.len() > s.len() {
        return false;
    }
    let last: usize = s.len() - needle.len();
    let mut i: usize = 0;
    while i <= last
        invariant
            last == s@.len() - needle@.len(),
            i <= last + 1,
            forall|j: int| 0 <= j < i ==> !occurs_at(s@, needle@, j),
        decreases last + 1 - i,
    {
        let tail: &[char] = slice_subrange(s, i, s.len());
        assert(tail@.take(needle@.len() as int) =~= s@.subrange(i as int, i + needle@.len()));
        if starts_with(tail, needle) {
            assert(occurs_at(s@, needle@, i as int));
            return true;
        }
        assert(!occurs_at(s@, needle@, i as int));
        if i == last {
            return false;
        }
        i += 1;
    }
    false
}

pub fn extend_chars(out: &mut Vec<char>, s: &[char])
    ensures
        final(out)@ == old(out)@ + s@,
{
    let ghost start = out@;
    let mut i: usize = 0;
    while i < s.len()
        invariant
            i <= s@.len(),
            out@ == start + s@.take(i as int),
        decreases s@.len() - i,
    {
        out.push(s[i]);
        assert(start + s@.take(i + 1) =~= (start + s@.take(i as int)).push(s@[i as int]));
        i += 1;
    }
    assert(s@.take(s@.len() as int) =~= s@);
}

/// The parts one after another, with `sep` between each two of them.
pub open spec fn joined(parts: Seq<Seq<char>>, sep: Seq<char>) -> Seq<char>
    decreases parts.len(),
{
    if parts.len() == 0 {
        Seq::empty()
    } else if parts.len() == 1 {
        parts[0]
    } else {
        joined(parts.drop_last(), sep) + sep + parts.last()
    }
}

pub open spec fn texts(v: Seq<String>) -> Seq<Seq<char>> {
    v.map_values(|x: String| x@)
}

pub fn join(parts: &Vec<Vec<char>>, sep: &[char]) -> (r: Vec<char>)
    ensures
        r@ == joined(views(parts@), sep@),
{
    let mut out: Vec<char> = Vec::new();
    let mut i: usize = 0;
    while i < parts.len()
        invariant
            i <= parts@.len(),
            out@ == joined(views(parts@).take(i as int), sep@),
        decreases parts@.len() - i,
    {
        let ghost p = views(parts@);
        assert(p.take(i + 1).drop_last() =~= p.take(i as int));
        if i > 0 {
            extend_chars(&mut out, sep);
        }
        extend_chars(&mut out, &parts[i]);
        assert(p[i as int] == parts@[i as int]@);
        assert(out@ =~= joined(p.take(i + 1), sep@));
        i += 1;
    }
    assert(views(parts@).take(parts@.len() as int) =~= views(parts@));
    out
}

/// The pieces of a list that was put together with a comma and a space: after the first, each
/// begins with the space.
pub open spec fn spaced(parts: Seq<Seq<char>>) -> Seq<Seq<char>> {
    Seq::new(
        parts.len(),
        |i: int|
            if i == 0 {
                parts[i]
            } else {
                seq![' '] + parts[i]
            },
    )
}

/// No character of the text is a separator.
pub open spec fn holds_none_of(s: Seq<char>, seps: Seq<char>) -> bool {
    forall|i: int| 0 <= i < s.len() ==> !seps.contains(#[trigger] s[i])
}

/// A list that was put together with a comma and a space is split into its parts again.
pub proof fn lemma_list_splits(parts: Seq<Seq<char>>, seps: Seq<char>)
    requires
        parts.len() > 0,
        seps.contains(','),
        !seps.contains(' '),
        forall|i: int| 0 <= i < parts.len() ==> holds_none_of(#[trigger] parts[i], seps),
    ensures
        split_any(joined(parts, ", "@), seps) == spaced(parts),
    decreases parts.len(),
{
    reveal_strlit(", ");
    if parts.len() == 1 {
        assert(holds_none_of(parts[0], seps));
        lemma_one_piece(parts[0], seps);
        assert(spaced(parts) =~= seq![parts[0]]);
    } else {
        let front = parts.drop_last();
        let last = parts.last();
        assert forall|i: int| 0 <= i < front.len() implies holds_none_of(
            #[trigger] front[i],
            seps,
        ) by {
            assert(front[i] == parts[i]);
        }
        lemma_list_splits(front, seps);
        let tail = seq![' '] + last;
        assert(holds_none_of(parts[parts.len() - 1], seps));
        assert forall|i: int| 0 <= i < tail.len() implies !seps.contains(#[trigger] tail[i]) by {
            if i > 0 {
                assert(tail[i] == last[i - 1]);
            }
        }
        lemma_one_piece(tail, seps);
        split_at_separator(joined(front, ", "@), ',', tail, seps);
        assert(joined(parts, ", "@) =~= joined(front, ", "@) + seq![','] + tail);
        assert(spaced(parts) =~= spaced(front) + seq![tail]);
    }
}

/// Parts with one separator between each two of them are split apart again.
pub proof fn lemma_joined_splits(parts: Seq<Seq<char>>, c: char, seps: Seq<char>)
    requires
        parts.len() > 0,
        seps.contains(c),
        forall|i: int| 0 <= i < parts.len() ==> holds_none_of(#[trigger] parts[i], seps),
    ensures
        split_any(joined(parts, seq![c]), seps) == parts,
    decreases parts.len(),
{
    let last = parts.last();
    assert(holds_none_of(parts[parts.len() - 1], seps));
    lemma_one_piece(last, seps);
    if parts.len() == 1 {
        assert(parts =~= seq![last]);
    } else {
        let front = parts.drop_last();
        assert forall|i: int| 0 <= i < front.len() implies holds_none_of(
            #[trigger] front[i],
            seps,
        ) by {
            assert(front[i] == parts[i]);
        }
        lemma_joined_splits(front, c, seps);
        split_at_separator(joined(front, seq![c]), c, last, seps);
        assert(front + seq![last] =~= parts);
    }
}

/// What trimming leaves lies in one piece in the text.
pub proof fn lemma_trimmed_lies_in(s: Seq<char>) -> (r: (int, int))
    ensures
        0 <= r.0 <= r.1 <= s.len(),
        trimmed(s) == s.subrange(r.0, r.1),
{
    let n = lemma_drop_while_skips(s, white());
    let t = s.skip(n);
    let m = lemma_drop_end_while_takes(t, white());
    assert(t.take(m) =~= s.subrange(n, n + m));
    (n, n + m)
}

/// A space before a trimmed text goes when the text is trimmed.
pub proof fn lemma_trimmed_after_space(s: Seq<char>)
    requires
        s.len() > 0,
        trimmed(s) == s,
    ensures
        trimmed(seq![' '] + s) == s,
{
    lemma_trimmed(s);
    let t = seq![' '] + s;
    lemma_drop_while(t, white(), 1);
    assert(t.skip(1) =~= s);
    lemma_drop_end_while(s, white(), s.len() as int);
    assert(s.take(s.len() as int) =~= s);
}

} // verus!
