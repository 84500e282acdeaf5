use exile_companion::chars::{digit_char, is_ascii_letter, is_whitespace, to_lower};
use exile_companion::number::{
    parse_i32, parse_u32, parse_usize, write_i32, write_i32_with_sign, write_u64,
};
use exile_companion::order::{comes_before, count_distinct, sort_distinct, TextMap};
use exile_companion::patterns::{captured, group};
use exile_companion::text::{
    contains, ends_with, first_word, join, letter_words, lines, remove_char, remove_whitespace,
    replace_char, same_ignoring_case, same_text, split, split_once, starts_with, strip_prefix,
    strip_prefixes, to_lowercase, trim, trim_end_of,
};

const TEXTS: [&str; 22] = [
    "", " ", "a", "ab", "ba", "aa", "aab", "\n", "\r\n", "a\nb", "a\r\nb\r\n", "a\n\nb\n", "\ra\r",
    " a b ", "\u{3000}x\u{a0}", "a,b,,c", "ä", "Ä", "zß", "1,234", "%%", "a.b.",
];

#[test]
fn white_space_is_that_of_unicode() {
    for n in 0..=0x10ffff_u32 {
        if let Some(c) = char::from_u32(n) {
            assert_eq!(is_whitespace(c), c.is_whitespace());
            assert_eq!(is_ascii_letter(c), c.is_ascii_alphabetic());
            assert_eq!(to_lower(c), c.to_ascii_lowercase());
        }
    }
    for n in 0..10_u8 {
        assert_eq!(digit_char(n), char::from(b'0' + n));
    }
}

#[test]
fn texts_are_trimmed_and_split_as_std_does() {
    for s in TEXTS {
        assert_eq!(trim(s), s.trim());
        assert_eq!(lines(s), s.lines().collect::<Vec<_>>());
        assert_eq!(split(s, ','), s.split(',').collect::<Vec<_>>());
        assert_eq!(first_word(s), s.split_whitespace().next());
        assert_eq!(
            letter_words(s),
            s.split(|c: char| !c.is_ascii_alphabetic()).collect::<Vec<_>>()
        );
        assert_eq!(to_lowercase(s), s.to_ascii_lowercase());
        assert_eq!(remove_char(s, ','), s.replace(',', ""));
        assert_eq!(replace_char(s, '\n', ' '), s.replace('\n', " "));
        assert_eq!(
            remove_whitespace(s),
            s.chars().filter(|c| !c.is_whitespace()).collect::<String>()
        );
        assert_eq!(trim_end_of(s, "."), s.trim_end_matches('.'));
        assert_eq!(trim_end_of(s, ".b"), s.trim_end_matches(['.', 'b']));
    }
}

#[test]
fn texts_are_searched_as_std_does() {
    for s in TEXTS {
        for p in TEXTS {
            assert_eq!(same_text(s, p), s == p);
            assert_eq!(same_ignoring_case(s, p), s.eq_ignore_ascii_case(p));
            assert_eq!(contains(s, p), s.contains(p));
            assert_eq!(starts_with(s, p), s.starts_with(p));
            assert_eq!(ends_with(s, p), s.ends_with(p));
            assert_eq!(strip_prefix(s, p), s.strip_prefix(p));
            assert_eq!(split_once(s, p), s.split_once(p));
            assert_eq!(comes_before(s, p), s < p);
            assert_eq!(strip_prefixes(s, p), s.trim_start_matches(p));
        }
    }
    let list: Vec<String> = TEXTS.iter().map(|t| t.to_string()).collect();
    assert_eq!(join(&list, ", "), TEXTS.join(", "));
    assert_eq!(join(&vec![], ", "), "");
}

#[test]
fn numbers_are_read_as_std_reads_them() {
    for s in [
        "", "0", "7", "+7", "-7", "007", "+", "-", "--1", "+-1", "1 ", "1.0", "4294967295",
        "4294967296", "2147483647", "2147483648", "-2147483648", "-2147483649",
        "18446744073709551615", "18446744073709551616", "99999999999999999999999", "٣",
    ] {
        assert_eq!(parse_u32(s), s.parse::<u32>().ok());
        assert_eq!(parse_i32(s), s.parse::<i32>().ok());
        assert_eq!(parse_usize(s), s.parse::<usize>().ok());
    }
}

#[test]
fn numbers_are_written_as_std_writes_them() {
    for n in [0i32, 1, -1, 9, 10, 99, 100, -100, i32::MAX, i32::MIN] {
        assert_eq!(write_i32(n), n.to_string());
        assert_eq!(write_i32_with_sign(n), format!("{:+}", n));
        assert_eq!(parse_i32(&write_i32(n)), Some(n));
        assert_eq!(parse_i32(&write_i32_with_sign(n)), Some(n));
    }
    for n in [0u64, 10, u64::MAX] {
        assert_eq!(write_u64(n), n.to_string());
    }
}

#[test]
fn lists_are_sorted_as_std_sorts_them() {
    let mut list: Vec<String> = TEXTS.iter().map(|t| t.to_string()).collect();
    list.extend(list.clone());
    let mut expected = list.clone();
    expected.sort();
    expected.dedup();
    assert_eq!(count_distinct(list.clone()), expected.len());
    assert_eq!(sort_distinct(list), expected);
}

#[test]
fn maps_hold_their_entries_in_order() {
    let mut map = TextMap::default();
    let mut expected = std::collections::BTreeMap::new();
    assert!(map.is_empty());
    for (i, key) in TEXTS.iter().chain(TEXTS.iter().rev()).enumerate() {
        map.insert(key.to_string(), i.to_string());
        expected.insert(key.to_string(), i.to_string());
    }
    map.insert_missing("a".to_string(), "new".to_string());
    map.insert_missing("missing".to_string(), "new".to_string());
    expected.insert("missing".to_string(), "new".to_string());
    let entries: Vec<(String, String)> =
        (0..map.len()).map(|i| (map.key(i).to_string(), map.value(i).to_string())).collect();
    assert_eq!(entries, expected.into_iter().collect::<Vec<_>>());
    assert_eq!(map.get("nowhere"), None);
    assert_eq!(map.get("missing"), Some("new"));
    let copy = map.clone();
    assert_eq!(copy, map);
    assert!(!copy.is_empty());
}

#[test]
fn groups_of_a_match() {
    let groups = vec![Some("all".to_string()), None, Some("x".to_string())];
    assert_eq!(group(&groups, 0), Some("all"));
    assert_eq!(group(&groups, 1), None);
    assert_eq!(group(&groups, 2), Some("x"));
    assert_eq!(group(&groups, 3), None);
    assert_eq!(captured(&Some(groups)), None);
    assert_eq!(captured(&Some(vec![None, Some("y".to_string())])), Some("y"));
    assert_eq!(captured(&None), None);
}
