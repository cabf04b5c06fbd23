use gmacftp::lexical::{at_most, same};
use gmacftp::numerals::{
    hex_digit, parse_i64, parse_unsigned, read_digits, to_decimal, to_hex, to_signed_decimal,
};
use gmacftp::ordered_map::OrderedMap;
use gmacftp::pieces::{
    contains, contains_char, count_char, find_any, join, lines, split, starts_with, trim,
    trim_end_char, trim_start_char, trim_start_text,
};
use gmacftp::sorting::{stable_order, RowKey, SortValue};
use gmacftp::text::{
    any_control, byte_len, chars_of, control, is_word, plus, same_text, string_of, to_ascii_lower,
    white_space, width_of,
};
use gmacftp::wildcard::{glob_matches, wildcard_matches};

fn chars(text: &str) -> Vec<char> {
    text.chars().collect()
}

fn text(chars: &[char]) -> String {
    chars.iter().collect()
}

#[test]
fn texts_are_taken_apart_and_put_together() {
    assert_eq!(chars_of("zażółć"), chars("zażółć"));
    assert_eq!(string_of(&chars("zażółć")), "zażółć");
    assert_eq!(plus("a".into(), "b"), "ab");
    assert!(same_text("a", "a"));
    assert!(!same_text("a", "A"));
    assert_eq!(byte_len("zażółć"), 10);
    assert_eq!(width_of('\u{1f600}'), 4);
    assert!(white_space('\u{a0}'));
    assert!(!white_space('x'));
    assert!(control('\u{85}'));
    assert!(any_control(&chars("a\tb")));
    assert_eq!(text(&to_ascii_lower(&chars("ABĆ"))), "abĆ");
    assert!(is_word(&chars("mirror"), "mirror"));
}

#[test]
fn numbers_read_back() {
    for n in [0, 9, 10, 65_535, u64::MAX] {
        assert_eq!(text(&to_decimal(n)), n.to_string());
        assert_eq!(parse_unsigned(&to_decimal(n), u64::MAX), Some(n));
    }
    for n in [0, -1, i64::MIN, i64::MAX] {
        assert_eq!(text(&to_signed_decimal(n)), n.to_string());
        assert_eq!(parse_i64(&to_signed_decimal(n)), Some(n));
    }
    assert_eq!(parse_unsigned(&chars("+5"), 10), Some(5));
    assert_eq!(parse_unsigned(&chars("11"), 10), None);
    assert_eq!(parse_unsigned(&chars(""), 10), None);
    assert_eq!(parse_unsigned(&chars("+"), 10), None);
    assert_eq!(read_digits(&chars("x12"), 1, 100), Some(12));
    assert_eq!(parse_i64(&chars("9223372036854775808")), None);
    assert_eq!(text(&to_hex(0x2a, 4)), "002a");
    assert_eq!(hex_digit(11), 'b');
}

#[test]
fn pieces_split_and_join() {
    let parts = split(&chars("a,b;c"), &[',', ';']);
    let texts: Vec<String> = parts.iter().map(|part| text(part)).collect();
    assert_eq!(texts, vec!["a", "b", "c"]);
    assert_eq!(text(&join(&parts, &['-'])), "a-b-c");
    let read: Vec<String> = lines(&chars("a\r\nb\n")).iter().map(|line| text(line)).collect();
    assert_eq!(read, vec!["a", "b"]);
    assert_eq!(text(trim(&chars("  x y\t"))), "x y");
    assert_eq!(text(trim_end_char(&chars("a//"), '/')), "a");
    assert_eq!(text(trim_start_char(&chars("//a"), '/')), "a");
    assert_eq!(text(trim_start_text(&chars("././a"), &['.', '/'])), "a");
    assert!(starts_with(&chars("abc"), &['a', 'b']));
    assert!(contains(&chars("abcd"), &['b', 'c']));
    assert!(!contains(&chars("abcd"), &['c', 'b']));
    assert!(contains_char(&chars("abc"), 'b'));
    assert_eq!(count_char(&chars("a,b,c"), ','), 2);
    assert_eq!(find_any(&chars("ab,c"), &[',']), 2);
}

#[test]
fn wildcards_cross_no_separator_and_globs_do() {
    assert!(wildcard_matches(b"*.part", b"file.part"));
    assert!(wildcard_matches(b"a?c", b"abc"));
    assert!(!wildcard_matches(b"a?c", b"ac"));
    assert!(wildcard_matches(b"*", b""));
    assert!(glob_matches(b"*", b"anything"));
    assert!(glob_matches(b"literal", b"literal"));
    assert!(!glob_matches(b"literal", b"literals"));
}

#[test]
fn maps_keep_their_keys_in_order() {
    let mut map: OrderedMap<u8> = OrderedMap::new();
    assert_eq!(map.insert("b".into(), 2), None);
    assert_eq!(map.insert("a".into(), 1), None);
    assert_eq!(map.insert("b".into(), 3), Some(2));
    assert_eq!(map.len(), 2);
    assert_eq!(map.get("b"), Some(&3));
    assert_eq!(map.get("c"), None);
    assert!(map.contains_key("a"));
    let keys: Vec<&str> = map.entries.iter().map(|entry| entry.0.as_str()).collect();
    assert_eq!(keys, vec!["a", "b"]);
}

#[test]
fn orders_are_stable_and_keep_marked_rows_last() {
    let key = |after: bool, number: i128| RowKey { after, value: SortValue::Number(number) };
    let keys = vec![key(false, 2), key(true, 0), key(false, 1), key(false, 2)];
    assert_eq!(stable_order(&keys, false), vec![2, 0, 3, 1]);
    assert_eq!(stable_order(&keys, true), vec![0, 3, 2, 1]);
    let words = vec![
        RowKey { after: false, value: SortValue::Text(chars("b")) },
        RowKey { after: false, value: SortValue::Text(chars("a")) },
    ];
    assert_eq!(stable_order(&words, false), vec![1, 0]);
    assert!(at_most(&chars("a"), &chars("ab")));
    assert!(!at_most(&chars("b"), &chars("ab")));
    assert!(same(&chars("ab"), &chars("ab")));
}
