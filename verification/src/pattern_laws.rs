//! What patterns and exclusion rules mean for texts.

use vstd::prelude::*;
use vstd::utf8::{encode_scalar, encode_utf8};

use crate::folder_sync::{bare_path, excluded, exclusions, rule_allowed, rule_excludes};
use crate::net::safe::lemma_scalar_bytes;
use crate::net::safe::slash;
use crate::path_pattern::matches_path;
use crate::pieces::{lemma_drop_end_while, lemma_drop_while, only, split_any};
use crate::text::{has_control, utf8_len};
use crate::wildcard::{
    literal_matches_itself, matches_wildcard, star_matches_all, wildcard_cut, ANY_ONE, STAR,
};

verus! {

/// The text holds no wildcard.
pub open spec fn is_literal(s: Seq<char>) -> bool {
    !s.contains('*') && !s.contains('?')
}

/// Different texts have different bytes.
proof fn lemma_same_bytes(a: Seq<char>, b: Seq<char>)
    ensures
        encode_utf8(a) == encode_utf8(b) <==> a == b,
{
    vstd::utf8::encode_utf8_decode_utf8(a);
    vstd::utf8::encode_utf8_decode_utf8(b);
}

/// The bytes of two texts in a row are the bytes of each in a row.
pub proof fn lemma_bytes_add(a: Seq<char>, b: Seq<char>)
    ensures
        encode_utf8(a + b) == encode_utf8(a) + encode_utf8(b),
    decreases a.len(),
{
    if a.len() == 0 {
        assert(a + b =~= b);
        assert(encode_utf8(a) + encode_utf8(b) =~= encode_utf8(b));
    } else {
        let rest = a.drop_first();
        lemma_bytes_add(rest, b);
        assert((a + b).drop_first() =~= rest + b);
        let head = encode_scalar(a[0] as u32);
        assert(head + (encode_utf8(rest) + encode_utf8(b)) =~= head + encode_utf8(rest)
            + encode_utf8(b));
    }
}

/// A byte of the ASCII range stands for its own character.
proof fn lemma_ascii_bytes(s: Seq<char>, i: int)
    requires
        0 <= i < encode_utf8(s).len(),
        encode_utf8(s)[i] < 0x80,
    ensures
        exists|k: int| 0 <= k < s.len() && #[trigger] s[k] as int == encode_utf8(s)[i] as int,
    decreases s.len(),
{
    let bytes = encode_utf8(s);
    if s.len() > 0 {
        let t = s.drop_first();
        let head = encode_scalar(s[0] as u32);
        lemma_scalar_bytes(s[0]);
        assert(bytes =~= head + encode_utf8(t));
        if i < head.len() {
            assert(bytes[i] == head[i]);
            assert(s[0] as int == bytes[i] as int);
        } else {
            lemma_ascii_bytes(t, i - head.len());
            let k = choose|k: int|
                0 <= k < t.len() && #[trigger] t[k] as int == encode_utf8(t)[i - head.len()] as int;
            assert(s[k + 1] == t[k]);
        }
    }
}

pub proof fn lemma_one_char(c: char)
    requires
        c < '\u{80}',
    ensures
        encode_utf8(seq![c]) == seq![c as u8],
{
    lemma_scalar_bytes(c);
    reveal_with_fuel(encode_utf8, 2);
    assert(seq![c].drop_first() =~= Seq::<char>::empty());
    assert(encode_utf8(seq![c]) =~= seq![c as u8]);
}

proof fn lemma_literal_bytes(s: Seq<char>)
    requires
        is_literal(s),
    ensures
        forall|i: int|
            0 <= i < encode_utf8(s).len() ==> #[trigger] encode_utf8(s)[i] != STAR && encode_utf8(
                s,
            )[i] != ANY_ONE,
{
    assert forall|i: int| 0 <= i < encode_utf8(s).len() implies #[trigger] encode_utf8(s)[i] != STAR
        && encode_utf8(s)[i] != ANY_ONE by {
        if encode_utf8(s)[i] == STAR || encode_utf8(s)[i] == ANY_ONE {
            lemma_ascii_bytes(s, i);
            let k = choose|k: int| 0 <= k < s.len() && #[trigger] s[k] as int == encode_utf8(s)[i] as int;
            assert(s[k] == '*' || s[k] == '?');
            assert(s.contains(s[k]));
        }
    }
}

/// A pattern without wildcards describes itself and nothing else.
pub proof fn literal_patterns_describe_themselves(pattern: Seq<char>, value: Seq<char>)
    requires
        is_literal(pattern),
    ensures
        matches_wildcard(encode_utf8(pattern), encode_utf8(value)) <==> pattern == value,
{
    lemma_literal_bytes(pattern);
    literal_matches_itself(encode_utf8(pattern), encode_utf8(value));
    lemma_same_bytes(pattern, value);
}

/// `*` before a text describes every value that ends in the text.
pub proof fn stars_describe_any_beginning(start: Seq<char>, end: Seq<char>)
    ensures
        matches_wildcard(encode_utf8(seq!['*'] + end), encode_utf8(start + end)) || !is_literal(end),
{
    if is_literal(end) {
        lemma_bytes_add(seq!['*'], end);
        lemma_bytes_add(start, end);
        lemma_one_char('*');
        let a = seq![STAR];
        let b = encode_utf8(end);
        let value = encode_utf8(start + end);
        let k = encode_utf8(start).len() as int;
        wildcard_cut(a, b, value);
        star_matches_all(value.take(k));
        assert(value.skip(k) =~= b);
        literal_patterns_describe_themselves(end, end);
        assert(matches_wildcard(a, value.take(k)));
    }
}

/// What `*` before a text describes ends in the bytes of the text.
pub proof fn stars_keep_the_end(end: Seq<char>, value: Seq<char>)
    requires
        is_literal(end),
        matches_wildcard(encode_utf8(seq!['*'] + end), encode_utf8(value)),
    ensures
        utf8_len(value) >= utf8_len(end),
        encode_utf8(value).skip(utf8_len(value) - utf8_len(end)) == encode_utf8(end),
{
    lemma_bytes_add(seq!['*'], end);
    lemma_one_char('*');
    let a = seq![STAR];
    let b = encode_utf8(end);
    let bytes = encode_utf8(value);
    wildcard_cut(a, b, bytes);
    let k = choose|k: int|
        0 <= k <= bytes.len() && #[trigger] matches_wildcard(a, bytes.take(k)) && matches_wildcard(
            b,
            bytes.skip(k),
        );
    lemma_literal_bytes(end);
    literal_matches_itself(b, bytes.skip(k));
}

/// `?` describes exactly one byte, whichever it is.
pub proof fn question_marks_describe_one_byte(value: Seq<u8>)
    ensures
        matches_wildcard(seq![ANY_ONE], value) <==> value.len() == 1,
{
    reveal_with_fuel(matches_wildcard, 2);
    assert(seq![ANY_ONE].skip(1) =~= Seq::<u8>::empty());
}

proof fn lemma_literal_path(pattern: Seq<u8>, path: Seq<u8>)
    requires
        forall|i: int| 0 <= i < pattern.len() ==> #[trigger] pattern[i] != STAR && pattern[i] != ANY_ONE,
    ensures
        matches_path(pattern, path) <==> pattern == path,
    decreases pattern.len(),
{
    if pattern.len() == 0 {
        if path.len() == 0 {
            assert(pattern =~= path);
        }
    } else {
        assert(pattern[0] != STAR);
        if path.len() > 0 {
            let p = pattern.skip(1);
            assert forall|i: int| 0 <= i < p.len() implies #[trigger] p[i] != STAR && p[i]
                != ANY_ONE by {
                assert(p[i] == pattern[i + 1]);
            }
            lemma_literal_path(p, path.skip(1));
            assert(pattern =~= seq![pattern[0]] + p);
            assert(path =~= seq![path[0]] + path.skip(1));
        }
    }
}

/// A rule without a slash and without wildcards excludes exactly the paths that have it as a
/// component.
pub proof fn plain_names_exclude_components(rule: Seq<char>, path: Seq<char>)
    requires
        is_literal(rule),
        !rule.contains('/'),
    ensures
        rule_excludes(rule, path) <==> split_any(path, seq!['/']).contains(rule),
{
    let parts = split_any(path, seq!['/']);
    assert(slash() =~= seq!['/']);
    if rule_excludes(rule, path) {
        let i = choose|i: int|
            0 <= i < parts.len() && matches_wildcard(
                encode_utf8(rule),
                encode_utf8(#[trigger] parts[i]),
            );
        literal_patterns_describe_themselves(rule, parts[i]);
    }
    if parts.contains(rule) {
        let i = choose|i: int| 0 <= i < parts.len() && parts[i] == rule;
        literal_patterns_describe_themselves(rule, parts[i]);
        assert(matches_wildcard(encode_utf8(rule), encode_utf8(parts[i])));
    }
}

/// A rule with a slash and without wildcards excludes exactly the path that it names and everything
/// below it.
pub proof fn plain_paths_exclude_subtrees(rule: Seq<char>, path: Seq<char>)
    requires
        is_literal(rule),
        rule.contains('/'),
    ensures
        rule_excludes(rule, path) <==> path == rule || (path.len() > rule.len() && path.take(
            rule.len() as int,
        ) == rule && path[rule.len() as int] == '/'),
{
    lemma_literal_bytes(rule);
    lemma_literal_path(encode_utf8(rule), encode_utf8(path));
    lemma_same_bytes(rule, path);
}

/// `*` before an ending excludes every file with that ending, in whatever folder.
pub proof fn endings_are_excluded_in_every_folder(start: Seq<char>, end: Seq<char>, path: Seq<char>)
    requires
        is_literal(end),
        !end.contains('/'),
        split_any(path, seq!['/']).contains(start + end),
    ensures
        rule_excludes(seq!['*'] + end, path),
{
    let rule = seq!['*'] + end;
    assert(slash() =~= seq!['/']);
    assert(!rule.contains('/')) by {
        if rule.contains('/') {
            let i = choose|i: int| 0 <= i < rule.len() && rule[i] == '/';
            assert(end[i - 1] == '/');
        }
    }
    stars_describe_any_beginning(start, end);
    let parts = split_any(path, seq!['/']);
    let i = choose|i: int| 0 <= i < parts.len() && parts[i] == start + end;
    assert(matches_wildcard(encode_utf8(rule), encode_utf8(parts[i])));
}

/// A path is excluded exactly if one of the rules excludes it; without rules nothing is, and further
/// rules take nothing back.
pub proof fn rules_exclude_one_by_one(path: Seq<char>, rules: Seq<Seq<char>>, more: Seq<Seq<char>>)
    ensures
        !excluded(path, Seq::empty()),
        excluded(path, rules + more) <==> excluded(path, rules) || excluded(path, more),
        bare_path(path).len() > 0 ==> forall|rule: Seq<char>| #[trigger]
            excluded(path, seq![rule]) <==> rule_excludes(rule, bare_path(path)),
{
    let all = rules + more;
    if excluded(path, all) {
        let i = choose|i: int| 0 <= i < all.len() && rule_excludes(#[trigger] all[i], bare_path(path));
        if i < rules.len() {
            assert(rules[i] == all[i]);
        } else {
            assert(more[i - rules.len()] == all[i]);
        }
    }
    if excluded(path, rules) {
        let i = choose|i: int|
            0 <= i < rules.len() && rule_excludes(#[trigger] rules[i], bare_path(path));
        assert(all[i] == rules[i]);
    }
    if excluded(path, more) {
        let i = choose|i: int|
            0 <= i < more.len() && rule_excludes(#[trigger] more[i], bare_path(path));
        assert(all[i + rules.len()] == more[i]);
    }
    assert forall|rule: Seq<char>| bare_path(path).len() > 0 implies (#[trigger] excluded(
        path,
        seq![rule],
    ) <==> rule_excludes(rule, bare_path(path))) by {
        assert(seq![rule][0] == rule);
    }
}

/// A path that neither begins nor ends with a slash is looked at as it is.
pub proof fn relative_paths_are_looked_at_whole(path: Seq<char>)
    requires
        path.len() > 0,
        path[0] != '/',
        path.last() != '/',
    ensures
        bare_path(path) == path,
{
    lemma_drop_while(path, only('/'), 0);
    assert(path.skip(0) =~= path);
    lemma_drop_end_while(path, only('/'), path.len() as int);
    assert(path.take(path.len() as int) =~= path);
}

/// No accepted rule leaves the folder: none is absolute, none goes up, none is long, and none holds a
/// control character.
pub proof fn accepted_rules_stay_in_the_folder(input: Seq<char>, i: int)
    requires
        exclusions(input) is Ok,
        0 <= i < exclusions(input)->Ok_0.len(),
    ensures
        ({
            let rule = exclusions(input)->Ok_0[i];
            &&& rule.len() > 0
            &&& rule[0] != '/'
            &&& utf8_len(rule) <= 256
            &&& !has_control(rule)
            &&& forall|k: int|
                0 <= k < split_any(rule, seq!['/']).len() ==> #[trigger] split_any(
                    rule,
                    seq!['/'],
                )[k] != seq!['.', '.']
            &&& exclusions(input)->Ok_0.len() <= 128
        }),
{
    crate::folder_sync::accepted_rules_are_safe(input);
    let rule = exclusions(input)->Ok_0[i];
    assert(slash() =~= seq!['/']);
    assert forall|k: int| 0 <= k < split_any(rule, seq!['/']).len() implies #[trigger] split_any(
        rule,
        seq!['/'],
    )[k] != seq!['.', '.'] by {
        assert(rule_allowed(rule));
        assert(split_any(rule, seq!['/']).contains(split_any(rule, seq!['/'])[k]));
    }
}

} // verus!
