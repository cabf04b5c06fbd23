//! What the words, lines, numbers, lists and messages under everything else are.

use vstd::prelude::*;

use crate::digest::hex_bytes;
use crate::i18n::{exact_translation, runtime, EXACT_PL};
use crate::lexical::lex_le;
use crate::model::entry::{entry_keys, is_entry_key, rearranged, sort_entries, RemoteEntry};
use crate::model::protocol::{protocol_named, Protocol};
use crate::numerals::{
    decimal, digits_value, hex_padded, is_digit, is_digits, signed_decimal, signed_value,
    unsigned_value,
};
use crate::ordered_map::OrderedMap;
use crate::path_text::{component_names, components};
use crate::pieces::{
    contains_text, has_prefix, joined, lemma_one_piece, occurs_at, split_any, split_at_separator,
    text_lines, without_return,
};
use crate::sorting::{is_stable_order, lemma_order_complete, RowKey};
use crate::text::{is_ascii_control, is_ascii_space, is_control, is_white_space, lowercase};

verus! {

// --- characters --------------------------------------------------------------------------------

/// The control characters are those below the space and the block from delete on; white space that
/// is no control character is none of them.
pub proof fn controls_and_spaces_are_told_apart(c: char)
    ensures
        is_control(c) <==> (c as u32) < 0x20 || 0x7f <= (c as u32) <= 0x9f,
        is_ascii_control(c) <==> (c as u32) < 0x20 || c as u32 == 0x7f,
        is_ascii_space(c) ==> is_white_space(c),
        is_white_space(' ') && is_white_space('\t') && is_white_space('\n') && is_white_space('\r'),
        'a' <= c <= 'z' || 'A' <= c <= 'Z' || '0' <= c <= '9' ==> !is_control(c) && !is_white_space(c)
            && !is_ascii_control(c) && !is_ascii_space(c),
        c == '/' || c == '.' || c == '-' || c == '_' ==> !is_control(c) && !is_white_space(c),
{
}

// --- texts -------------------------------------------------------------------------------------

/// A text occurs where it stands between two others, and where it occurs the text comes apart around
/// it.
pub proof fn texts_occur_where_they_stand(a: Seq<char>, needle: Seq<char>, b: Seq<char>, s: Seq<char>)
    ensures
        contains_text(a + needle + b, needle),
        contains_text(s, needle) ==> exists|x: Seq<char>, y: Seq<char>| s == #[trigger] (x
            + needle + y),
        has_prefix(needle + b, needle),
        has_prefix(s, needle) ==> s == needle + s.skip(needle.len() as int),
{
    let n = a.len() as int;
    let whole = a + needle + b;
    assert(whole.subrange(n, n + needle.len()) =~= needle);
    assert(occurs_at(whole, needle, n));
    if contains_text(s, needle) {
        let i = choose|i: int| occurs_at(s, needle, i);
        let x = s.take(i);
        let y = s.skip(i + needle.len());
        assert(s =~= s.take(i) + s.subrange(i, i + needle.len()) + s.skip(i + needle.len()));
        assert(s == x + needle + y);
    }
    assert((needle + b).take(needle.len() as int) =~= needle);
    if has_prefix(s, needle) {
        assert(s =~= s.take(needle.len() as int) + s.skip(needle.len() as int));
    }
}

/// A further part is joined behind the others, with the separator between.
pub proof fn parts_are_joined_in_their_order(parts: Seq<Seq<char>>, part: Seq<char>, sep: Seq<char>)
    ensures
        joined(Seq::empty(), sep).len() == 0,
        joined(seq![part], sep) == part,
        parts.len() > 0 ==> joined(parts.push(part), sep) == joined(parts, sep) + sep + part,
{
    if parts.len() > 0 {
        assert(parts.push(part).drop_last() =~= parts);
    }
}

/// A line ends at a line feed, with or without a carriage return before it; what follows is read on.
pub proof fn lines_end_at_line_feeds(line: Seq<char>, rest: Seq<char>)
    requires
        forall|i: int| 0 <= i < line.len() ==> #[trigger] line[i] != '\n',
        line.len() > 0 ==> line.last() != '\r',
    ensures
        text_lines(line + seq!['\n'] + rest) == seq![line] + text_lines(rest),
        text_lines(line + seq!['\r', '\n'] + rest) == seq![line] + text_lines(rest),
        text_lines(Seq::empty()).len() == 0,
        line.len() > 0 ==> text_lines(line) == seq![line],
{
    let nl = seq!['\n'];
    assert(nl[0] == '\n');
    assert(nl.contains('\n'));
    lemma_line(line, rest);
    lemma_line(line.push('\r'), rest);
    assert(line + seq!['\r', '\n'] + rest =~= line.push('\r') + seq!['\n'] + rest);
    assert(without_return(line.push('\r')) =~= line);
    lemma_one_piece(Seq::empty(), nl);
    lemma_one_piece(line, nl);
    assert(seq![line].drop_last() =~= Seq::<Seq<char>>::empty());
    assert(seq![Seq::<char>::empty()].drop_last() =~= Seq::<Seq<char>>::empty());
    if line.len() > 0 {
        assert(text_lines(line) =~= seq![line]);
    }
}

proof fn lemma_line(line: Seq<char>, rest: Seq<char>)
    requires
        forall|i: int| 0 <= i < line.len() ==> #[trigger] line[i] != '\n',
    ensures
        text_lines(line + seq!['\n'] + rest) == seq![without_return(line)] + text_lines(rest),
{
    let nl = seq!['\n'];
    assert(nl[0] == '\n');
    assert(nl.contains('\n'));
    split_at_separator(line, '\n', rest, nl);
    lemma_one_piece(line, nl);
    let tail = split_any(rest, nl);
    let parts = split_any(line + nl + rest, nl);
    assert(parts == seq![line] + tail);
    assert(tail.len() > 0);
    assert(parts.last() == tail.last());
    assert(parts.drop_last() =~= seq![line] + tail.drop_last());
    let f = |p: Seq<char>| without_return(p);
    assert(parts.drop_last().map_values(f) =~= seq![without_return(line)] + tail.drop_last().map_values(
        f,
    ));
    assert(text_lines(line + nl + rest) =~= seq![without_return(line)] + text_lines(rest));
}

// --- numbers -----------------------------------------------------------------------------------

/// The digit of a number below ten.
pub open spec fn digit(d: nat) -> char {
    "0123456789"@[d as int]
}

/// A number is written with its digits, the lowest last; a negative one has a sign before it.
pub proof fn numbers_are_written_in_decimal(n: nat, d: nat)
    requires
        d < 10,
    ensures
        decimal(d) == seq![digit(d)],
        n > 0 ==> decimal(10 * n + d) == decimal(n).push(digit(d)),
        n > 0 ==> signed_decimal(-(n as int)) == seq!['-'] + decimal(n),
        signed_decimal(n as int) == decimal(n),
{
    reveal_strlit("0123456789");
    assert((10 * n + d) / 10 == n);
    assert((10 * n + d) % 10 == d);
}

/// A numeral means the number that its digits say, the last one counting once; a sign before it may
/// be read, and a number beyond its limit is none.
pub proof fn numerals_mean_their_digits(s: Seq<char>, c: char, max: nat)
    requires
        is_digits(s),
        '0' <= c <= '9',
    ensures
        digits_value(s.push(c)) == 10 * digits_value(s) + (c as nat - '0' as nat),
        is_digits(s.push(c)),
        digits_value(s) <= max ==> unsigned_value(s, max) == Some(digits_value(s)),
        digits_value(s) <= max ==> unsigned_value(seq!['+'] + s, max) == Some(digits_value(s)),
        digits_value(s) > max ==> unsigned_value(s, max) is None,
        digits_value(s) <= i64::MAX ==> signed_value(s) == Some(digits_value(s) as int),
        digits_value(s) <= i64::MAX ==> signed_value(seq!['-'] + s) == Some(-(digits_value(s) as int)),
        unsigned_value(seq!['-'] + s, max) is None,
{
    assert(s.push(c).drop_last() =~= s);
    assert(s.push(c).last() == c);
    assert((seq!['+'] + s).skip(1) =~= s);
    assert((seq!['-'] + s).skip(1) =~= s);
    assert(is_digit(s[0]));
    let t = seq!['-'] + s;
    assert(t[0] == '-');
    assert(!is_digit(t[0]));
}

/// A byte is written as its two hexadecimal digits, in lower case.
pub proof fn bytes_are_written_in_hexadecimal(bytes: Seq<u8>, b: u8)
    ensures
        hex_bytes(Seq::empty()).len() == 0,
        hex_bytes(bytes.push(b)) == hex_bytes(bytes) + seq![
            "0123456789abcdef"@[(b / 16) as int],
            "0123456789abcdef"@[(b % 16) as int],
        ],
{
    reveal_strlit("0123456789abcdef");
    assert(bytes.push(b).drop_last() =~= bytes);
    let n = b as nat;
    reveal_with_fuel(hex_padded, 3);
    assert(n / 16 % 16 == n / 16);
    assert(hex_padded(n, 2) =~= seq![
        "0123456789abcdef"@[(b / 16) as int],
        "0123456789abcdef"@[(b % 16) as int],
    ]) by {
        lemma_hex_digit(n / 16);
        lemma_hex_digit(n % 16);
    }
}

proof fn lemma_hex_digit(d: nat)
    requires
        d < 16,
    ensures
        crate::numerals::hex_char(d) == "0123456789abcdef"@[d as int],
{
    reveal_strlit("0123456789abcdef");
}

// --- lists -------------------------------------------------------------------------------------

/// Entries in listing order are the entries that there were, directories before files, and each kind
/// by name whatever the case.
pub proof fn listings_are_ordered_by_kind_and_name(
    entries: &mut Vec<RemoteEntry>,
    i: int,
    j: int,
)
    requires
        call_ensures(sort_entries, (entries,), ()),
        0 <= i < j < final(entries)@.len(),
    ensures
        final(entries)@.len() == old(entries)@.len(),
        old(entries)@.contains(final(entries)@[i]),
        final(entries)@[j].is_dir ==> final(entries)@[i].is_dir,
        final(entries)@[i].is_dir == final(entries)@[j].is_dir ==> lex_le(
            lowercase(final(entries)@[i].name@),
            lowercase(final(entries)@[j].name@),
        ),
{
    let before = old(entries)@;
    let after = final(entries)@;
    let (keys, order) = choose|keys: Seq<RowKey>, order: Seq<usize>| #[trigger]
        entry_keys(before, keys) && #[trigger] is_stable_order(keys, false, order) && rearranged(
            before,
            order,
            after,
        );
    let a = order[i] as int;
    let b = order[j] as int;
    assert(after[i] == before[a]);
    assert(after[j] == before[b]);
    assert(is_entry_key(before[a], keys[a]));
    assert(is_entry_key(before[b], keys[b]));
    assert(crate::sorting::row_before(keys, false, order[i] as int, order[j] as int));
}

/// No entry is lost when a listing is put in order.
pub proof fn ordered_listings_hold_every_entry(entries: &mut Vec<RemoteEntry>, k: int)
    requires
        call_ensures(sort_entries, (entries,), ()),
        0 <= k < old(entries)@.len(),
    ensures
        final(entries)@.contains(old(entries)@[k]),
{
    let before = old(entries)@;
    let after = final(entries)@;
    let (keys, order) = choose|keys: Seq<RowKey>, order: Seq<usize>| #[trigger]
        entry_keys(before, keys) && #[trigger] is_stable_order(keys, false, order) && rearranged(
            before,
            order,
            after,
        );
    assert(old(entries)@.len() == old(entries).len());
    lemma_order_complete(keys.len(), order);
    assert(order.contains(k as usize));
    let i = choose|i: int| 0 <= i < order.len() && order[i] == k as usize;
    assert(after[i] == before[k]);
}

/// A map gives back what was put in under a key, and nothing under the others changes.
pub proof fn maps_give_back_what_was_put_in(
    map: &mut OrderedMap<u64>,
    key: String,
    value: u64,
    other: Seq<char>,
    r: Option<u64>,
)
    requires
        old(map).wf(),
        call_ensures(OrderedMap::<u64>::insert, (map, key, value), r),
    ensures
        final(map).spec_get(key@) == Some(value),
        other != key@ ==> final(map).spec_get(other) == old(map).spec_get(other),
        r == old(map).spec_get(key@),
{
}

// --- paths and words ---------------------------------------------------------------------------

/// A further piece of a path is a component of its own unless it is empty or a dot.
pub proof fn pieces_of_a_path_are_its_components(pieces: Seq<Seq<char>>, piece: Seq<char>)
    ensures
        component_names(Seq::empty()).len() == 0,
        piece.len() > 0 && piece != seq!['.'] ==> component_names(pieces.push(piece))
            == component_names(pieces).push(piece),
        piece.len() == 0 || piece == seq!['.'] ==> component_names(pieces.push(piece))
            == component_names(pieces),
{
    assert(pieces.push(piece).drop_last() =~= pieces);
}

/// A slash at the end makes no difference to what a path names, and neither do two in a row.
pub proof fn repeated_slashes_name_the_same_path(a: Seq<char>, b: Seq<char>)
    requires
        a.len() > 0,
    ensures
        components(a + seq!['/']) == components(a),
        components(a + seq!['/'] + (seq!['/'] + b)) == components(a + seq!['/'] + b),
{
    let sep = seq!['/'];
    assert(sep[0] == '/');
    assert(sep.contains('/'));
    let none = Seq::<char>::empty();
    lemma_one_piece(none, sep);
    let pa = split_any(a, sep);
    let pb = split_any(b, sep);
    split_at_separator(a, '/', none, sep);
    assert(a + sep + none =~= a + sep);
    assert(pa + seq![none] =~= pa.push(none));
    pieces_of_a_path_are_its_components(pa, none);
    assert(pa.len() > 0);
    assert(pa.push(none)[0] == pa[0]);
    split_at_separator(a, '/', sep + b, sep);
    split_at_separator(none, '/', b, sep);
    assert(none + sep + b =~= sep + b);
    split_at_separator(a, '/', b, sep);
    assert(pa + (seq![none] + pb) =~= pa.push(none) + pb);
    lemma_component_names_add(pa.push(none), pb);
    lemma_component_names_add(pa, pb);
    assert((pa.push(none) + pb)[0] == pa[0]);
    assert((pa + pb)[0] == pa[0]);
    assert((a + sep + (sep + b))[0] == a[0]);
    assert((a + sep + b)[0] == a[0]);
    assert((a + sep)[0] == a[0]);
}

proof fn lemma_component_names_add(a: Seq<Seq<char>>, b: Seq<Seq<char>>)
    ensures
        component_names(a + b) == component_names(a) + component_names(b),
    decreases b.len(),
{
    if b.len() == 0 {
        assert(a + b =~= a);
        assert(component_names(a) + component_names(b) =~= component_names(a));
    } else {
        assert((a + b).drop_last() =~= a + b.drop_last());
        assert((a + b).last() == b.last());
        lemma_component_names_add(a, b.drop_last());
        assert(component_names(a + b) =~= component_names(a) + component_names(b));
    }
}

/// The words for the two protocols, with and without TLS.
pub proof fn protocols_go_by_their_names(word: Seq<char>)
    ensures
        protocol_named(word) == Some(Protocol::Ftp) <==> word == "ftp"@ || word == "ftps"@,
        protocol_named(word) == Some(Protocol::Sftp) <==> word == "sftp"@ || word == "ssh"@,
        Protocol::Ftp.spec_default_port() == 21,
        Protocol::Sftp.spec_default_port() == 22,
{
    reveal_strlit("ftp");
    reveal_strlit("ftps");
    reveal_strlit("sftp");
    reveal_strlit("ssh");
    assert("ftp"@[0] == 'f');
    assert("ftps"@[0] == 'f');
    assert("sftp"@[0] == 's');
    assert("ssh"@[0] == 's');
}

// --- messages ----------------------------------------------------------------------------------

proof fn lemma_exact(message: Seq<char>, from: int, i: int)
    requires
        0 <= from <= i < EXACT_PL@.len(),
        EXACT_PL@[i].0@ == message,
    ensures
        exists|j: int|
            0 <= j < EXACT_PL@.len() && (#[trigger] EXACT_PL@[j]).0@ == message && exact_translation(
                message,
                from,
            ) == Some(EXACT_PL@[j].1@),
    decreases i - from,
{
    if EXACT_PL@[from].0@ != message {
        lemma_exact(message, from + 1, i);
    }
}

/// A message that is known as a whole is shown in Polish by its own translation; in any other
/// language every message is shown as it is.
pub proof fn known_messages_are_translated(message: &str, locale: &str, r: String, i: int)
    requires
        call_ensures(runtime, (message, locale), r),
        0 <= i < EXACT_PL@.len(),
    ensures
        locale@ != "pl"@ ==> r@ == message@,
        locale@ == "pl"@ && message@ == EXACT_PL@[i].0@ ==> exists|j: int|
            0 <= j < EXACT_PL@.len() && (#[trigger] EXACT_PL@[j]).0@ == message@ && r@
                == EXACT_PL@[j].1@,
{
    if message@ == EXACT_PL@[i].0@ {
        lemma_exact(message@, 0, i);
    }
}

} // verus!
