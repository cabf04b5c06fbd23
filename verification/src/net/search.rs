//! Name search over a remote tree: the query and what it matches.

use vstd::prelude::*;
use vstd::slice::slice_subrange;

use crate::net::error::NetError;
use crate::pieces::{
    contains, contains_text, copy_chars, drop_while, lemma_drop_while, trim, trimmed, views, white,
};
use crate::text::{
    any_control, byte_len, chars_of, has_control, is_white_space, lowercase, string_of,
    to_lowercase, utf8_len, white_space,
};

verus! {

pub const MAX_REMOTE_SEARCH_QUERY_BYTES: usize = 256;

pub const MAX_REMOTE_SEARCH_RESULTS: usize = 500;

pub const MAX_REMOTE_SEARCH_ENTRIES: usize = 20_000;

pub const MAX_REMOTE_SEARCH_DIRECTORIES: usize = 2_000;

pub const MAX_REMOTE_SEARCH_DEPTH: usize = 32;

/// The number of characters before the first white space.
pub open spec fn word_len(s: Seq<char>) -> nat
    decreases s.len(),
{
    if s.len() == 0 || is_white_space(s[0]) {
        0
    } else {
        1 + word_len(s.skip(1))
    }
}

proof fn lemma_word_len(s: Seq<char>, n: int)
    requires
        0 <= n <= s.len(),
        forall|i: int| 0 <= i < n ==> !is_white_space(#[trigger] s[i]),
        n < s.len() ==> is_white_space(s[n]),
    ensures
        word_len(s) == n,
    decreases n,
{
    if n > 0 {
        assert(!is_white_space(s[0]));
        let t = s.skip(1);
        assert forall|i: int| 0 <= i < n - 1 implies !is_white_space(#[trigger] t[i]) by {
            assert(t[i] == s[i + 1]);
        }
        lemma_word_len(t, n - 1);
    }
}

proof fn lemma_word_len_bound(s: Seq<char>)
    ensures
        word_len(s) <= s.len(),
        s.len() > 0 && !is_white_space(s[0]) ==> word_len(s) > 0,
    decreases s.len(),
{
    if s.len() > 0 && !is_white_space(s[0]) {
        lemma_word_len_bound(s.skip(1));
    }
}

proof fn lemma_drop_while_shrinks(s: Seq<char>, p: spec_fn(char) -> bool)
    ensures
        drop_while(s, p).len() <= s.len(),
        drop_while(s, p).len() > 0 ==> !p(drop_while(s, p)[0]),
    decreases s.len(),
{
    if s.len() > 0 && p(s[0]) {
        lemma_drop_while_shrinks(s.skip(1), p);
    }
}

/// The words of a text: its longest runs without white space.
pub open spec fn words(s: Seq<char>) -> Seq<Seq<char>>
    decreases s.len(),
{
    let t = drop_while(s, white());
    let n = word_len(t) as int;
    if t.len() == 0 || n == 0 || n > t.len() || t.len() > s.len() {
        Seq::empty()
    } else {
        seq![t.take(n)] + words(t.skip(n))
    }
}

pub fn split_words(s: &[char]) -> (r: Vec<Vec<char>>)
    ensures
        views(r@) == words(s@),
{
    let mut out: Vec<Vec<char>> = Vec::new();
    let mut rest: &[char] = s;
    assert(views(out@) + words(s@) =~= words(s@));
    loop
        invariant
            views(out@) + words(rest@) == words(s@),
        decreases rest@.len(),
    {
        let mut a: usize = 0;
        while a < rest.len() && white_space(rest[a])
            invariant
                a <= rest@.len(),
                forall|i: int| 0 <= i < a ==> is_white_space(#[trigger] rest@[i]),
            decreases rest@.len() - a,
        {
            a += 1;
        }
        let ghost t = rest@.skip(a as int);
        proof {
            lemma_drop_while(rest@, white(), a as int);
            lemma_drop_while_shrinks(rest@, white());
            lemma_word_len_bound(t);
        }
        if a == rest.len() {
            assert(words(rest@) =~= Seq::<Seq<char>>::empty());
            assert(views(out@) =~= words(s@));
            return out;
        }
        let mut b: usize = a;
        while b < rest.len() && !white_space(rest[b])
            invariant
                a <= b <= rest@.len(),
                forall|i: int| a <= i < b ==> !is_white_space(#[trigger] rest@[i]),
            decreases rest@.len() - b,
        {
            b += 1;
        }
        proof {
            assert forall|i: int| 0 <= i < b - a implies !is_white_space(#[trigger] t[i]) by {
                assert(t[i] == rest@[i + a]);
            }
            lemma_word_len(t, b - a);
        }
        let ghost before = out@;
        let ghost whole = rest@;
        let n: usize = rest.len();
        let word: Vec<char> = copy_chars(slice_subrange(rest, a, b));
        assert(word@ =~= t.take(b - a));
        out.push(word);
        assert(views(out@) =~= views(before).push(t.take(b - a)));
        rest = slice_subrange(rest, b, n);
        assert(rest@ =~= t.skip(b - a));
        assert(words(whole) =~= seq![t.take(b - a)] + words(rest@));
        assert(views(out@) + words(rest@) =~= views(before) + words(whole));
    }
}

/// A query is between two characters and 256 bytes long and holds no control character.
pub open spec fn query_allowed(query: Seq<char>) -> bool {
    &&& query.len() >= 2
    &&& utf8_len(query) <= MAX_REMOTE_SEARCH_QUERY_BYTES
    &&& !has_control(query)
}

pub fn normalize_remote_search_query(query: &str) -> (r: Result<String, NetError>)
    ensures
        r is Ok <==> query_allowed(trimmed(query@)),
        r matches Ok(q) ==> q@ == lowercase(trimmed(query@)),
        r matches Err(e) ==> e matches NetError::InvalidPath(m) && m@
            == "remote search requires at least 2 printable characters and at most 256 UTF-8 bytes"@,
{
    let chars: Vec<char> = chars_of(query);
    let trimmed_query: &[char] = trim(&chars);
    let text: String = string_of(trimmed_query);
    if trimmed_query.len() < 2 || byte_len(text.as_str()) > MAX_REMOTE_SEARCH_QUERY_BYTES
        || any_control(trimmed_query) {
        return Err(
            NetError::InvalidPath(
                "remote search requires at least 2 printable characters and at most 256 UTF-8 bytes".to_owned(),
            ),
        );
    }
    Ok(to_lowercase(text.as_str()))
}

/// Every word of the query occurs in the text.
pub open spec fn holds_every_word(text: Seq<char>, query: Seq<char>) -> bool {
    forall|i: int| 0 <= i < words(query).len() ==> contains_text(text, #[trigger] words(query)[i])
}

/// Whether every word of a query occurs in a text whose case has already been folded.
pub fn contains_every_word(text: &[char], query: &str) -> (r: bool)
    ensures
        r == holds_every_word(text@, query@),
{
    let chars: Vec<char> = chars_of(query);
    let terms: Vec<Vec<char>> = split_words(&chars);
    let mut i: usize = 0;
    while i < terms.len()
        invariant
            i <= terms@.len(),
            views(terms@) == words(query@),
            forall|j: int| 0 <= j < i ==> contains_text(text@, #[trigger] words(query@)[j]),
        decreases terms@.len() - i,
    {
        assert(words(query@)[i as int] == terms@[i as int]@);
        if !contains(text, &terms[i]) {
            return false;
        }
        i += 1;
    }
    true
}

/// A path matches a normalized query when its lower case holds every word.
pub fn remote_search_matches(path: &str, normalized_query: &str) -> (r: bool)
    ensures
        r == holds_every_word(lowercase(path@), normalized_query@),
{
    let lower: Vec<char> = chars_of(to_lowercase(path).as_str());
    contains_every_word(&lower, normalized_query)
}

} // verus!
