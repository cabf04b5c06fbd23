//! What the order of texts, their words and their parts mean.

use vstd::prelude::*;

use crate::lexical::lex_le;
use crate::net::search::{holds_every_word, word_len, words};
use crate::pieces::{contains_text, drop_while, lemma_drop_while, occurs_at, trimmed, white};
use crate::text::{ascii_lower, ascii_lowercase, is_white_space};

verus! {

/// Texts are ordered by the first character in which they differ; a text comes before its
/// continuations.
pub proof fn the_first_difference_decides(a: Seq<char>, b: Seq<char>, n: int)
    requires
        0 <= n <= a.len(),
        n <= b.len(),
        a.take(n) == b.take(n),
    ensures
        n == a.len() ==> lex_le(a, b),
        n < a.len() && n == b.len() ==> !lex_le(a, b),
        n < a.len() && n < b.len() && a[n] < b[n] ==> lex_le(a, b) && !lex_le(b, a),
        n < a.len() && n < b.len() && a[n] > b[n] ==> lex_le(b, a) && !lex_le(a, b),
    decreases n,
{
    if n > 0 {
        assert(a.take(n)[0] == b.take(n)[0]);
        assert(a.skip(1).take(n - 1) =~= b.skip(1).take(n - 1)) by {
            assert forall|i: int| 0 <= i < n - 1 implies a.skip(1)[i] == b.skip(1)[i] by {
                assert(a.take(n)[i + 1] == a[i + 1]);
                assert(b.take(n)[i + 1] == b[i + 1]);
            }
        }
        assert(a.take(n)[0] == a[0] && b.take(n)[0] == b[0]);
        if n < a.len() {
            assert(a.skip(1)[n - 1] == a[n]);
        }
        if n < b.len() {
            assert(b.skip(1)[n - 1] == b[n]);
        }
        the_first_difference_decides(a.skip(1), b.skip(1), n - 1);
    }
}

/// The words of a text come apart at white space: what stands before it without any is the first
/// word.
pub proof fn words_come_apart_at_white_space(word: Seq<char>, space: char, rest: Seq<char>)
    requires
        word.len() > 0,
        forall|i: int| 0 <= i < word.len() ==> !is_white_space(#[trigger] word[i]),
        is_white_space(space),
    ensures
        words(word + seq![space] + rest) == seq![word] + words(rest),
        words(word) == seq![word],
        words(seq![space] + rest) == words(rest),
        words(Seq::empty()).len() == 0,
{
    let text = word + seq![space] + rest;
    let n = word.len() as int;
    assert(text[0] == word[0]);
    assert(!is_white_space(word[0]));
    lemma_drop_while(text, white(), 0);
    assert(text.skip(0) =~= text);
    assert forall|i: int| 0 <= i < n implies !is_white_space(#[trigger] text[i]) by {
        assert(text[i] == word[i]);
    }
    lemma_word_length(text, n);
    assert(text.take(n) =~= word);
    assert(text.skip(n) =~= seq![space] + rest);
    let spaced = seq![space] + rest;
    assert(spaced.skip(1) =~= rest);
    assert(drop_while(spaced, white()) == drop_while(rest, white()));
    lemma_drop_shrinks(rest);
    lemma_drop_while(word, white(), 0);
    assert(word.skip(0) =~= word);
    lemma_word_length(word, n);
    assert(word.take(n) =~= word);
    assert(word.skip(n) =~= Seq::<char>::empty());
    assert(words(spaced) == words(rest));
    assert(words(text) == seq![word] + words(text.skip(n)));
    let none = Seq::<char>::empty();
    assert(drop_while(none, white()) == none);
    assert(words(none) =~= Seq::<Seq<char>>::empty());
    assert(seq![word] + Seq::<Seq<char>>::empty() =~= seq![word]);
}

proof fn lemma_drop_shrinks(s: Seq<char>)
    ensures
        drop_while(s, white()).len() <= s.len(),
    decreases s.len(),
{
    if s.len() > 0 && white()(s[0]) {
        lemma_drop_shrinks(s.skip(1));
    }
}

proof fn lemma_word_length(s: Seq<char>, n: int)
    requires
        0 <= n <= s.len(),
        forall|i: int| 0 <= i < n ==> !is_white_space(#[trigger] s[i]),
        n < s.len() ==> is_white_space(s[n]),
    ensures
        word_len(s) == n,
    decreases n,
{
    if n > 0 {
        assert(!is_white_space(s[0]));
        let t = s.skip(1);
        assert forall|i: int| 0 <= i < n - 1 implies !is_white_space(#[trigger] t[i]) by {
            assert(t[i] == s[i + 1]);
        }
        lemma_word_length(t, n - 1);
    }
}

/// A query of two words asks for both of them, and a query of one word for that word somewhere in the
/// text.
pub proof fn every_word_is_asked_for(
    text: Seq<char>,
    word: Seq<char>,
    space: char,
    rest: Seq<char>,
)
    requires
        word.len() > 0,
        forall|i: int| 0 <= i < word.len() ==> !is_white_space(#[trigger] word[i]),
        is_white_space(space),
    ensures
        holds_every_word(text, word) <==> exists|k: int|
            0 <= k <= text.len() - word.len() && #[trigger] text.subrange(k, k + word.len()) == word,
        holds_every_word(text, word + seq![space] + rest) <==> holds_every_word(text, word)
            && holds_every_word(text, rest),
        holds_every_word(text, Seq::empty()),
{
    words_come_apart_at_white_space(word, space, rest);
    let all = words(word + seq![space] + rest);
    let more = words(rest);
    assert(all[0] == word);
    assert(words(word)[0] == word);
    assert forall|i: int| 0 <= i < more.len() implies #[trigger] more[i] == all[i + 1] by {}
    if contains_text(text, word) {
        let k = choose|k: int| occurs_at(text, word, k);
        assert(text.subrange(k, k + word.len()) == word);
    }
    if exists|k: int|
        0 <= k <= text.len() - word.len() && #[trigger] text.subrange(k, k + word.len()) == word {
        let k = choose|k: int|
            0 <= k <= text.len() - word.len() && #[trigger] text.subrange(k, k + word.len()) == word;
        assert(occurs_at(text, word, k));
    }
    if holds_every_word(text, word + seq![space] + rest) {
        assert(contains_text(text, all[0]));
        assert forall|i: int| 0 <= i < more.len() implies contains_text(text, #[trigger] more[i]) by {
            assert(contains_text(text, all[i + 1]));
        }
    }
    if holds_every_word(text, word) && holds_every_word(text, rest) {
        assert(contains_text(text, words(word)[0]));
        assert forall|i: int| 0 <= i < all.len() implies contains_text(text, #[trigger] all[i]) by {
            if i > 0 {
                assert(contains_text(text, more[i - 1]));
            }
        }
    }
}

/// Trimming takes white space away at both ends, all of it, and nothing else.
pub proof fn trimming_takes_white_space_alone(before: Seq<char>, text: Seq<char>, after: Seq<char>)
    requires
        forall|i: int| 0 <= i < before.len() ==> is_white_space(#[trigger] before[i]),
        forall|i: int| 0 <= i < after.len() ==> is_white_space(#[trigger] after[i]),
        text.len() > 0 ==> !is_white_space(text[0]) && !is_white_space(text.last()),
    ensures
        text.len() > 0 ==> trimmed(before + text + after) == text,
        trimmed(before).len() == 0,
{
    lemma_drop_all(before);
    if text.len() > 0 {
        let whole = before + text + after;
        let n = before.len() as int;
        assert forall|i: int| 0 <= i < n implies white()(#[trigger] whole[i]) by {
            assert(is_white_space(before[i]));
        }
        assert(whole[n] == text[0]);
        lemma_drop_while(whole, white(), n);
        let rest = whole.skip(n);
        assert(rest =~= text + after);
        let m = text.len() as int;
        assert forall|i: int| m <= i < rest.len() implies white()(#[trigger] rest[i]) by {
            assert(is_white_space(after[i - m]));
        }
        assert(rest[m - 1] == text.last());
        crate::pieces::lemma_drop_end_while(rest, white(), m);
        assert(rest.take(m) =~= text);
    }
}

proof fn lemma_drop_all(s: Seq<char>)
    requires
        forall|i: int| 0 <= i < s.len() ==> is_white_space(#[trigger] s[i]),
    ensures
        trimmed(s).len() == 0,
{
    assert forall|i: int| 0 <= i < s.len() implies white()(#[trigger] s[i]) by {
        assert(is_white_space(s[i]));
    }
    lemma_drop_while(s, white(), s.len() as int);
    assert(s.skip(s.len() as int) =~= Seq::<char>::empty());
}

/// Lower case for ASCII letters touches the letters `A` to `Z` alone, each by its own small letter.
pub proof fn ascii_letters_alone_are_lowered(s: Seq<char>, i: int)
    requires
        0 <= i < s.len(),
    ensures
        ascii_lowercase(s).len() == s.len(),
        'A' <= s[i] <= 'Z' ==> ascii_lowercase(s)[i] as int == s[i] as int + 32,
        !('A' <= s[i] <= 'Z') ==> ascii_lowercase(s)[i] == s[i],
        ascii_lowercase(ascii_lowercase(s)) == ascii_lowercase(s),
{
    let low = ascii_lowercase(s);
    assert forall|k: int| 0 <= k < s.len() implies ascii_lowercase(low)[k] == low[k] by {
        assert(low[k] == ascii_lower(s[k]));
    }
    assert(ascii_lowercase(low) =~= low);
}

} // verus!
