//! Exclusion rules that are written again as one text.

use vstd::prelude::*;

use crate::folder_sync::{
    accepted_rules_are_safe, exclusions, rule_allowed, rule_of, rule_separators, rules_from,
    MAX_RULES, MAX_RULESET_BYTES,
};
use crate::pieces::{
    drop_prefixes, first_of, has_prefix, holds_none_of, joined, lemma_drop_end_while,
    lemma_drop_end_while_takes, lemma_first_of_bounds, lemma_joined_splits, lemma_list_splits,
    lemma_one_piece, lemma_pieces_hold_no_separator, lemma_trimmed, lemma_trimmed_after_space,
    lemma_trimmed_fixed, lemma_trimmed_lies_in, only, spaced, split_any, trimmed,
};
use crate::text::{
    char_width, lemma_empty_text, lemma_utf8_len_add, lemma_utf8_len_part, lemma_utf8_len_push,
    utf8_len,
};

verus! {

/// A rule as it stands in a list.
spec fn is_listed_rule(rule: Seq<char>) -> bool {
    &&& rule.len() > 0
    &&& holds_none_of(rule, rule_separators())
    &&& !has_prefix(rule, seq!['.', '/'])
    &&& rule.last() != '/'
}

proof fn lemma_drop_prefixes(s: Seq<char>, p: Seq<char>) -> (n: int)
    requires
        p.len() > 0,
    ensures
        0 <= n <= s.len(),
        drop_prefixes(s, p) == s.skip(n),
        !has_prefix(s.skip(n), p),
    decreases s.len(),
{
    if has_prefix(s, p) {
        let m = lemma_drop_prefixes(s.skip(p.len() as int), p);
        assert(s.skip(p.len() as int).skip(m) =~= s.skip(p.len() + m));
        p.len() + m
    } else {
        assert(s.skip(0) =~= s);
        0
    }
}

proof fn lemma_rule_of_is_listed(piece: Seq<char>)
    requires
        holds_none_of(piece, rule_separators()),
        rule_of(piece).len() > 0,
    ensures
        is_listed_rule(rule_of(piece)),
{
    let here = seq!['.', '/'];
    let t = trimmed(piece);
    lemma_trimmed(piece);
    let n = lemma_drop_prefixes(t, here);
    let u = t.skip(n);
    let m = lemma_drop_end_while_takes(u, only('/'));
    let rule = u.take(m);
    assert(rule == rule_of(piece));
    assert(rule.last() == u[m - 1]);
    assert forall|i: int| 0 <= i < rule.len() implies !rule_separators().contains(
        #[trigger] rule[i],
    ) by {
        assert(rule[i] == t[i + n]);
        assert(t.contains(rule[i]));
        assert(piece.contains(rule[i]));
    }
    assert(!has_prefix(rule, here)) by {
        if has_prefix(rule, here) {
            assert(u.take(2) =~= rule.take(2));
        }
    }
}

proof fn lemma_rules_are_listed(parts: Seq<Seq<char>>, rules: Seq<Seq<char>>)
    requires
        forall|i: int|
            0 <= i < parts.len() ==> holds_none_of(#[trigger] parts[i], rule_separators()),
        forall|i: int| 0 <= i < rules.len() ==> is_listed_rule(#[trigger] rules[i]),
        rules_from(parts, rules) is Ok,
    ensures
        forall|i: int|
            0 <= i < rules_from(parts, rules)->Ok_0.len() ==> is_listed_rule(
                #[trigger] rules_from(parts, rules)->Ok_0[i],
            ),
    decreases parts.len(),
{
    if parts.len() > 0 {
        let rule = rule_of(parts[0]);
        let rest = parts.skip(1);
        assert forall|i: int| 0 <= i < rest.len() implies holds_none_of(
            #[trigger] rest[i],
            rule_separators(),
        ) by {
            assert(rest[i] == parts[i + 1]);
        }
        if rule.len() == 0 {
            lemma_rules_are_listed(rest, rules);
        } else {
            assert(holds_none_of(parts[0], rule_separators()));
            lemma_rule_of_is_listed(parts[0]);
            let next = if rules.contains(rule) {
                rules
            } else {
                rules.push(rule)
            };
            lemma_rules_are_listed(rest, next);
        }
    }
}

/// A trimmed rule of a list is read as itself, also behind a space.
proof fn lemma_listed_rule_reads(rule: Seq<char>)
    requires
        is_listed_rule(rule),
        trimmed(rule) == rule,
    ensures
        rule_of(rule) == rule,
        rule_of(seq![' '] + rule) == rule,
{
    lemma_trimmed_after_space(rule);
    lemma_drop_end_while(rule, only('/'), rule.len() as int);
    assert(rule.take(rule.len() as int) =~= rule);
}

/// Pieces that stand for rules, each once, are read as those rules.
proof fn lemma_listed_rules_read(pieces: Seq<Seq<char>>, rules: Seq<Seq<char>>, n: int)
    requires
        rules.len() <= MAX_RULES,
        rules.no_duplicates(),
        pieces.len() == rules.len(),
        forall|i: int|
            0 <= i < rules.len() ==> (#[trigger] rules[i]).len() > 0 && rule_allowed(rules[i])
                && rule_of(pieces[i]) == rules[i],
        0 <= n <= rules.len(),
    ensures
        rules_from(pieces.skip(n), rules.take(n)) == Ok::<Seq<Seq<char>>, Seq<char>>(rules),
    decreases rules.len() - n,
{
    let rest = pieces.skip(n);
    if n == rules.len() {
        assert(rules.take(n) =~= rules);
    } else {
        let rule = rules[n];
        assert(rest[0] == pieces[n]);
        assert(rest.skip(1) =~= pieces.skip(n + 1));
        assert(rules.take(n).push(rule) =~= rules.take(n + 1));
        assert(!rules.take(n).contains(rule)) by {
            if rules.take(n).contains(rule) {
                let i = choose|i: int| 0 <= i < n && rules.take(n)[i] == rule;
                assert(rules[i] == rules[n]);
            }
        }
        lemma_listed_rules_read(pieces, rules, n + 1);
    }
}

/// The rules of an accepted set, and how they are read from a list.
proof fn lemma_accepted_rules_are_listed(input: Seq<char>, rules: Seq<Seq<char>>)
    requires
        exclusions(input) == Ok::<Seq<Seq<char>>, Seq<char>>(rules),
    ensures
        forall|i: int|
            0 <= i < rules.len() ==> is_listed_rule(#[trigger] rules[i]) && rule_allowed(rules[i]),
        rules.len() <= MAX_RULES,
        rules.no_duplicates(),
{
    let seps = rule_separators();
    accepted_rules_are_safe(input);
    let parts = split_any(input, seps);
    assert forall|i: int| 0 <= i < parts.len() implies holds_none_of(#[trigger] parts[i], seps) by {
        assert forall|j: int| 0 <= j < parts[i].len() implies !seps.contains(
            #[trigger] parts[i][j],
        ) by {
            let c = parts[i][j];
            assert(parts[i].contains(c));
            if seps.contains(c) {
                lemma_pieces_hold_no_separator(input, seps, c);
            }
        }
    }
    lemma_rules_are_listed(parts, Seq::empty());
}

/// No rules are written as nothing, and nothing is read as no rules.
proof fn lemma_nothing_reads_as_no_rules()
    ensures
        exclusions(Seq::empty()) == Ok::<Seq<Seq<char>>, Seq<char>>(Seq::empty()),
{
    let none = Seq::<char>::empty();
    lemma_empty_text(none);
    lemma_one_piece(none, rule_separators());
    lemma_trimmed_fixed(none);
    assert(rule_of(none) =~= none);
    reveal_with_fuel(rules_from, 2);
}

/// A set of exclusion rules that was accepted and written again as one text is read as the same
/// rules, where none of them begins or ends with white space and the text is not too long.
pub proof fn exclusions_read_back(input: Seq<char>, rules: Seq<Seq<char>>)
    requires
        exclusions(input) == Ok::<Seq<Seq<char>>, Seq<char>>(rules),
        forall|i: int| 0 <= i < rules.len() ==> trimmed(#[trigger] rules[i]) == rules[i],
        utf8_len(joined(rules, ", "@)) <= MAX_RULESET_BYTES,
    ensures
        exclusions(joined(rules, ", "@)) == Ok::<Seq<Seq<char>>, Seq<char>>(rules),
{
    let seps = rule_separators();
    lemma_accepted_rules_are_listed(input, rules);
    if rules.len() == 0 {
        assert(rules =~= Seq::<Seq<char>>::empty());
        lemma_nothing_reads_as_no_rules();
    } else {
        assert(seps[0] == ',');
        assert forall|i: int| 0 <= i < rules.len() implies holds_none_of(
            #[trigger] rules[i],
            seps,
        ) by {
            assert(is_listed_rule(rules[i]));
        }
        lemma_list_splits(rules, seps);
        let pieces = spaced(rules);
        assert forall|i: int| 0 <= i < rules.len() implies (#[trigger] rules[i]).len() > 0
            && rule_allowed(rules[i]) && rule_of(pieces[i]) == rules[i] by {
            assert(is_listed_rule(rules[i]));
            lemma_listed_rule_reads(rules[i]);
        }
        lemma_listed_rules_read(pieces, rules, 0);
        assert(pieces.skip(0) =~= pieces);
        assert(rules.take(0) =~= Seq::<Seq<char>>::empty());
    }
}

/// How many bytes the parts take, with one more for each of them.
spec fn listed_len(parts: Seq<Seq<char>>) -> nat
    decreases parts.len(),
{
    if parts.len() == 0 {
        0
    } else {
        listed_len(parts.skip(1)) + utf8_len(parts[0]) + 1
    }
}

proof fn lemma_listed_len_push(parts: Seq<Seq<char>>, part: Seq<char>)
    ensures
        listed_len(parts.push(part)) == listed_len(parts) + utf8_len(part) + 1,
    decreases parts.len(),
{
    let all = parts.push(part);
    if parts.len() == 0 {
        assert(all.skip(1) =~= Seq::empty());
        assert(listed_len(all.skip(1)) == 0);
    } else {
        assert(all.skip(1) =~= parts.skip(1).push(part));
        lemma_listed_len_push(parts.skip(1), part);
    }
}

/// The pieces of a text take as many bytes as the text, without its separators.
proof fn lemma_split_listed_len(s: Seq<char>)
    ensures
        listed_len(split_any(s, rule_separators())) == utf8_len(s) + 1,
    decreases s.len(),
{
    let seps = rule_separators();
    let i = first_of(s, seps);
    lemma_first_of_bounds(s, seps);
    if i < s.len() {
        let rest = s.skip(i + 1);
        lemma_split_listed_len(rest);
        let all = split_any(s, seps);
        assert(all.skip(1) =~= split_any(rest, seps));
        lemma_utf8_len_add(s.take(i), seq![s[i]]);
        lemma_utf8_len_add(s.take(i + 1), rest);
        assert(s.take(i) + seq![s[i]] =~= s.take(i + 1));
        assert(s.take(i + 1) + rest =~= s);
        lemma_utf8_len_push(Seq::empty(), s[i]);
        lemma_empty_text(Seq::empty());
        assert(Seq::<char>::empty().push(s[i]) =~= seq![s[i]]);
        assert(char_width(s[i]) == 1);
    } else {
        assert(seq![s].skip(1) =~= Seq::<Seq<char>>::empty());
        assert(listed_len(seq![s].skip(1)) == 0);
    }
}

/// A rule takes no more bytes than the piece that it comes from.
proof fn lemma_rule_is_no_longer(piece: Seq<char>)
    ensures
        utf8_len(rule_of(piece)) <= utf8_len(piece),
{
    let here = seq!['.', '/'];
    let t = trimmed(piece);
    let (from, to) = lemma_trimmed_lies_in(piece);
    let n = lemma_drop_prefixes(t, here);
    let u = t.skip(n);
    let m = lemma_drop_end_while_takes(u, only('/'));
    lemma_utf8_len_part(piece, from, to);
    lemma_utf8_len_part(t, n, n + m);
    assert(t.subrange(n, n + m) =~= u.take(m));
}

/// The rules take no more bytes than the pieces that they come from.
proof fn lemma_rules_listed_len(pieces: Seq<Seq<char>>, rules: Seq<Seq<char>>)
    requires
        rules_from(pieces, rules) is Ok,
    ensures
        listed_len(rules_from(pieces, rules)->Ok_0) <= listed_len(rules) + listed_len(pieces),
    decreases pieces.len(),
{
    if pieces.len() > 0 {
        let rule = rule_of(pieces[0]);
        lemma_rule_is_no_longer(pieces[0]);
        if rule.len() == 0 {
            lemma_rules_listed_len(pieces.skip(1), rules);
        } else {
            let next = if rules.contains(rule) {
                rules
            } else {
                rules.push(rule)
            };
            lemma_listed_len_push(rules, rule);
            lemma_rules_listed_len(pieces.skip(1), next);
        }
    }
}

proof fn lemma_joined_listed_len(parts: Seq<Seq<char>>)
    requires
        parts.len() > 0,
    ensures
        utf8_len(joined(parts, ","@)) + 1 == listed_len(parts),
    decreases parts.len(),
{
    reveal_strlit(",");
    if parts.len() == 1 {
        assert(parts.skip(1) =~= Seq::empty());
        assert(listed_len(parts.skip(1)) == 0);
    } else {
        let front = parts.drop_last();
        lemma_joined_listed_len(front);
        lemma_listed_len_push(front, parts.last());
        assert(front.push(parts.last()) =~= parts);
        let a = joined(front, ","@);
        lemma_utf8_len_push(a, ',');
        assert(a.push(',') =~= a + ","@);
        lemma_utf8_len_add(a + ","@, parts.last());
    }
}

/// A set of exclusion rules that was accepted and written again with commas between the rules is read
/// as the same rules, where none of them begins or ends with white space.
pub proof fn exclusions_read_back_from_commas(input: Seq<char>, rules: Seq<Seq<char>>)
    requires
        exclusions(input) == Ok::<Seq<Seq<char>>, Seq<char>>(rules),
        forall|i: int| 0 <= i < rules.len() ==> trimmed(#[trigger] rules[i]) == rules[i],
    ensures
        exclusions(joined(rules, ","@)) == Ok::<Seq<Seq<char>>, Seq<char>>(rules),
{
    let seps = rule_separators();
    lemma_accepted_rules_are_listed(input, rules);
    if rules.len() == 0 {
        assert(rules =~= Seq::<Seq<char>>::empty());
        lemma_nothing_reads_as_no_rules();
    } else {
        lemma_split_listed_len(input);
        lemma_rules_listed_len(split_any(input, seps), Seq::empty());
        lemma_joined_listed_len(rules);
        reveal_strlit(",");
        assert(","@ =~= seq![',']);
        assert(seps[0] == ',');
        assert forall|i: int| 0 <= i < rules.len() implies holds_none_of(
            #[trigger] rules[i],
            seps,
        ) by {
            assert(is_listed_rule(rules[i]));
        }
        lemma_joined_splits(rules, ',', seps);
        assert forall|i: int| 0 <= i < rules.len() implies (#[trigger] rules[i]).len() > 0
            && rule_allowed(rules[i]) && rule_of(rules[i]) == rules[i] by {
            assert(is_listed_rule(rules[i]));
            lemma_listed_rule_reads(rules[i]);
        }
        lemma_listed_rules_read(rules, rules, 0);
        assert(rules.skip(0) =~= rules);
        assert(rules.take(0) =~= Seq::<Seq<char>>::empty());
    }
}

} // verus!
