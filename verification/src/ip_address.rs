//! The text forms of IPv4 and IPv6 addresses.

use vstd::prelude::*;
use vstd::slice::slice_subrange;

use crate::numerals::{digits_value, is_digit, is_digits, read_digits};
use crate::pieces::{split, split_any, views};

verus! {

pub open spec fn dot() -> Seq<char> {
    seq!['.']
}

pub open spec fn colon() -> Seq<char> {
    seq![':']
}

/// One to three digits without a leading zero, at most 255.
pub open spec fn is_octet(s: Seq<char>) -> bool {
    &&& is_digits(s)
    &&& s.len() <= 3
    &&& (s.len() > 1 ==> s[0] != '0')
    &&& digits_value(s) <= 255
}

/// The four octets that a dotted text denotes.
pub open spec fn ipv4_octets(s: Seq<char>) -> Option<Seq<u8>> {
    let parts = split_any(s, dot());
    if parts.len() == 4 && is_octet(parts[0]) && is_octet(parts[1]) && is_octet(parts[2])
        && is_octet(parts[3]) {
        Some(
            seq![
                digits_value(parts[0]) as u8,
                digits_value(parts[1]) as u8,
                digits_value(parts[2]) as u8,
                digits_value(parts[3]) as u8,
            ],
        )
    } else {
        None
    }
}

fn read_octet(s: &[char]) -> (r: Option<u8>)
    ensures
        r is Some <==> is_octet(s@),
        r matches Some(n) ==> n == digits_value(s@),
{
    assert(s@.skip(0) =~= s@);
    if s.len() > 3 || (s.len() > 1 && s[0] == '0') {
        return None;
    }
    match read_digits(s, 0, 255) {
        Some(n) => Some(n as u8),
        None => None,
    }
}

pub fn parse_ipv4(s: &[char]) -> (r: Option<Vec<u8>>)
    ensures
        r is Some <==> ipv4_octets(s@) is Some,
        r matches Some(octets) ==> ipv4_octets(s@) == Some(octets@) && octets@.len() == 4,
{
    let sep: [char; 1] = ['.'];
    assert(sep@ =~= dot());
    let parts: Vec<Vec<char>> = split(s, sep.as_slice());
    if parts.len() != 4 {
        return None;
    }
    let ghost p = split_any(s@, dot());
    assert(p[0] == parts@[0]@ && p[1] == parts@[1]@ && p[2] == parts@[2]@ && p[3] == parts@[3]@);
    match (
        read_octet(&parts[0]),
        read_octet(&parts[1]),
        read_octet(&parts[2]),
        read_octet(&parts[3]),
    ) {
        (Some(a), Some(b), Some(c), Some(d)) => {
            let mut out: Vec<u8> = Vec::new();
            out.push(a);
            out.push(b);
            out.push(c);
            out.push(d);
            assert(out@ =~= ipv4_octets(s@)->0);
            Some(out)
        },
        _ => None,
    }
}

pub open spec fn is_hex(c: char) -> bool {
    is_digit(c) || 'a' <= c <= 'f' || 'A' <= c <= 'F'
}

pub open spec fn hex_value(c: char) -> nat {
    if is_digit(c) {
        (c as nat - '0' as nat) as nat
    } else if 'a' <= c <= 'f' {
        (c as nat - 'a' as nat + 10) as nat
    } else {
        (c as nat - 'A' as nat + 10) as nat
    }
}

pub open spec fn hex_number(s: Seq<char>) -> nat
    decreases s.len(),
{
    if s.len() == 0 {
        0
    } else {
        hex_number(s.drop_last()) * 16 + hex_value(s.last())
    }
}

/// One to four hexadecimal digits.
pub open spec fn is_group(s: Seq<char>) -> bool {
    &&& 1 <= s.len() <= 4
    &&& forall|i: int| 0 <= i < s.len() ==> is_hex(#[trigger] s[i])
}

fn read_group(s: &[char]) -> (r: Option<u16>)
    ensures
        r is Some <==> is_group(s@),
        r matches Some(n) ==> n == hex_number(s@),
{
    if s.len() == 0 || s.len() > 4 {
        return None;
    }
    let mut value: u32 = 0;
    let mut i: usize = 0;
    while i < s.len()
        invariant
            i <= s@.len() <= 4,
            value == hex_number(s@.take(i as int)),
            i == 0 ==> value == 0,
            i == 1 ==> value < 0x10,
            i == 2 ==> value < 0x100,
            i == 3 ==> value < 0x1000,
            i == 4 ==> value < 0x10000,
            forall|j: int| 0 <= j < i ==> is_hex(#[trigger] s@[j]),
        decreases s@.len() - i,
    {
        let c: char = s[i];
        let d: u32 = if '0' <= c && c <= '9' {
            c as u32 - 48
        } else if 'a' <= c && c <= 'f' {
            c as u32 - 97 + 10
        } else if 'A' <= c && c <= 'F' {
            c as u32 - 65 + 10
        } else {
            assert(!is_hex(s@[i as int]));
            return None;
        };
        assert(s@.take(i + 1).drop_last() =~= s@.take(i as int));
        value = value * 16 + d;
        i += 1;
    }
    assert(s@.take(s@.len() as int) =~= s@);
    Some(value as u16)
}

/// The words of groups separated by colons. The last one may be an IPv4 address, which stands for
/// two words.
pub open spec fn group_words(parts: Seq<Seq<char>>, dotted: bool) -> Option<Seq<u16>>
    decreases parts.len(),
{
    if parts.len() == 0 {
        Some(Seq::empty())
    } else {
        let last = parts.last();
        match group_words(parts.drop_last(), false) {
            None => None,
            Some(front) => if is_group(last) {
                Some(front.push(hex_number(last) as u16))
            } else if dotted && ipv4_octets(last) is Some {
                let o = ipv4_octets(last)->0;
                Some(front.push((o[0] * 256 + o[1]) as u16).push((o[2] * 256 + o[3]) as u16))
            } else {
                None
            },
        }
    }
}

/// The words of one side of `::`, or of a whole address without it.
pub open spec fn side_words(s: Seq<char>, dotted: bool) -> Option<Seq<u16>> {
    if s.len() == 0 {
        Some(Seq::empty())
    } else {
        group_words(split_any(s, colon()), dotted)
    }
}

/// The first position of `::`, or the length of the text.
pub open spec fn first_gap(s: Seq<char>) -> int
    decreases s.len(),
{
    if s.len() == 0 {
        0
    } else if s.len() >= 2 && s[0] == ':' && s[1] == ':' {
        0
    } else {
        1 + first_gap(s.skip(1))
    }
}

/// The eight words that a text denotes: all written out, or with one `::` for one or more zeros.
pub open spec fn ipv6_words(s: Seq<char>) -> Option<Seq<u16>> {
    let gap = first_gap(s);
    if gap >= s.len() {
        match side_words(s, true) {
            Some(w) => if s.len() > 0 && w.len() == 8 {
                Some(w)
            } else {
                None
            },
            None => None,
        }
    } else {
        match (side_words(s.take(gap), false), side_words(s.skip(gap + 2), true)) {
            (Some(head), Some(tail)) => if head.len() + tail.len() <= 7 {
                Some(head + Seq::new((8 - head.len() - tail.len()) as nat, |i: int| 0u16) + tail)
            } else {
                None
            },
            _ => None,
        }
    }
}

proof fn lemma_first_gap(s: Seq<char>, n: int)
    requires
        0 <= n <= s.len(),
        n < s.len() ==> n + 1 < s.len() && s[n] == ':' && s[n + 1] == ':',
        forall|i: int|
            0 <= i < n && i + 1 < s.len() ==> !(#[trigger] s[i] == ':' && s[i + 1] == ':'),
    ensures
        first_gap(s) == n,
    decreases n,
{
    if n > 0 {
        let t = s.skip(1);
        if s.len() >= 2 {
            assert(!(s[0] == ':' && s[1] == ':'));
        }
        assert forall|i: int| 0 <= i < n - 1 && i + 1 < t.len() implies !(#[trigger] t[i] == ':'
            && t[i + 1] == ':') by {
            assert(t[i] == s[i + 1] && t[i + 1] == s[i + 2]);
        }
        lemma_first_gap(t, n - 1);
    }
}

fn find_gap(s: &[char]) -> (r: usize)
    ensures
        r == first_gap(s@),
        r < s@.len() ==> r + 1 < s@.len(),
        r <= s@.len(),
{
    let mut i: usize = 0;
    while i < s.len()
        invariant
            i <= s@.len(),
            forall|j: int|
                0 <= j < i && j + 1 < s@.len() ==> !(#[trigger] s@[j] == ':' && s@[j + 1] == ':'),
        decreases s@.len() - i,
    {
        if s.len() - i >= 2 && s[i] == ':' && s[i + 1] == ':' {
            proof {
                lemma_first_gap(s@, i as int);
            }
            return i;
        }
        i += 1;
    }
    proof {
        lemma_first_gap(s@, i as int);
    }
    i
}

fn read_side(s: &[char], dotted: bool) -> (r: Option<Vec<u16>>)
    ensures
        r is Some <==> side_words(s@, dotted) is Some,
        r matches Some(w) ==> side_words(s@, dotted) == Some(w@),
{
    let mut out: Vec<u16> = Vec::new();
    if s.len() == 0 {
        assert(out@ =~= Seq::<u16>::empty());
        return Some(out);
    }
    let sep: [char; 1] = [':'];
    assert(sep@ =~= colon());
    let parts: Vec<Vec<char>> = split(s, sep.as_slice());
    let ghost all = views(parts@);
    let n: usize = parts.len();
    let mut i: usize = 0;
    assert(out@ =~= Seq::<u16>::empty());
    assert(all.take(0) =~= Seq::<Seq<char>>::empty());
    while i + 1 < n
        invariant
            n == parts@.len(),
            n > 0,
            i < n,
            all == views(parts@),
            all == split_any(s@, colon()),
            s@.len() > 0,
            group_words(all.take(i as int), false) == Some(out@),
        decreases n - i,
    {
        assert(all.take(i + 1).drop_last() =~= all.take(i as int));
        assert(all.take(i + 1).last() == parts@[i as int]@);
        match read_group(&parts[i]) {
            Some(word) => {
                out.push(word);
            },
            None => {
                proof {
                    assert(group_words(all.take(i + 1), false) is None);
                    lemma_front_fails(all, dotted, i + 1);
                }
                return None;
            },
        }
        i += 1;
    }
    assert(all.drop_last() =~= all.take(i as int));
    assert(all.last() == parts@[i as int]@);
    match read_group(&parts[i]) {
        Some(word) => {
            out.push(word);
            Some(out)
        },
        None => {
            if !dotted {
                return None;
            }
            match parse_ipv4(&parts[i]) {
                Some(o) => {
                    out.push(o[0] as u16 * 256 + o[1] as u16);
                    out.push(o[2] as u16 * 256 + o[3] as u16);
                    Some(out)
                },
                None => None,
            }
        },
    }
}

proof fn lemma_front_fails(parts: Seq<Seq<char>>, dotted: bool, n: int)
    requires
        0 <= n < parts.len(),
        group_words(parts.take(n), false) is None,
    ensures
        group_words(parts, dotted) is None,
    decreases parts.len() - n,
{
    let front = parts.drop_last();
    if n == parts.len() - 1 {
        assert(front =~= parts.take(n));
    } else {
        assert(front.take(n) =~= parts.take(n));
        lemma_front_fails(front, false, n);
    }
}

pub fn parse_ipv6(s: &[char]) -> (r: Option<Vec<u16>>)
    ensures
        r is Some <==> ipv6_words(s@) is Some,
        r matches Some(w) ==> ipv6_words(s@) == Some(w@) && w@.len() == 8,
{
    let gap: usize = find_gap(s);
    if gap >= s.len() {
        match read_side(s, true) {
            Some(w) => if s.len() > 0 && w.len() == 8 {
                Some(w)
            } else {
                None
            },
            None => None,
        }
    } else {
        let head_text: &[char] = slice_subrange(s, 0, gap);
        let tail_text: &[char] = slice_subrange(s, gap + 2, s.len());
        assert(head_text@ =~= s@.take(gap as int));
        assert(tail_text@ =~= s@.skip(gap + 2));
        match (read_side(head_text, false), read_side(tail_text, true)) {
            (Some(head), Some(tail)) => {
                if head.len() > 7 || tail.len() > 7 - head.len() {
                    return None;
                }
                let zeros: usize = 8 - head.len() - tail.len();
                let ghost h = head@;
                let ghost z = Seq::new(zeros as nat, |i: int| 0u16);
                let mut out: Vec<u16> = head;
                let mut i: usize = 0;
                assert(h + z.take(0) =~= h);
                while i < zeros
                    invariant
                        i <= zeros,
                        z == Seq::new(zeros as nat, |i: int| 0u16),
                        out@ == h + z.take(i as int),
                    decreases zeros - i,
                {
                    out.push(0);
                    assert(h + z.take(i + 1) =~= (h + z.take(i as int)).push(0u16));
                    i += 1;
                }
                assert(z.take(zeros as int) =~= z);
                let mut k: usize = 0;
                assert((h + z) + tail@.take(0) =~= h + z);
                while k < tail.len()
                    invariant
                        k <= tail@.len(),
                        out@ == h + z + tail@.take(k as int),
                    decreases tail@.len() - k,
                {
                    out.push(tail[k]);
                    assert(h + z + tail@.take(k + 1) =~= (h + z + tail@.take(k as int)).push(
                        tail@[k as int],
                    ));
                    k += 1;
                }
                assert(tail@.take(tail@.len() as int) =~= tail@);
                Some(out)
            },
            _ => None,
        }
    }
}

/// An address without a `:` is never an IPv6 address.
pub proof fn ipv6_needs_a_colon(s: Seq<char>)
    requires
        !s.contains(':'),
    ensures
        ipv6_words(s) is None,
{
    assert forall|i: int| 0 <= i < s.len() implies #[trigger] s[i] != ':' by {
        assert(s.contains(s[i]));
    }
    lemma_first_gap(s, s.len() as int);
    assert forall|i: int| 0 <= i < s.len() implies !colon().contains(#[trigger] s[i]) by {}
    crate::pieces::lemma_first_of(s, colon(), s.len() as int);
    reveal_with_fuel(group_words, 2);
    assert(split_any(s, colon()) =~= seq![s]);
    assert(seq![s].drop_last() =~= Seq::<Seq<char>>::empty());
}

} // verus!
