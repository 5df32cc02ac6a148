use tt_spotify_bot::text::{
    byte_len, comes_first, contains, decimal, decimal2, ends_with, eq_ignore_ascii_case, hex, join,
    parse_signed, parse_unsigned, replace, signed_decimal, sort_strings, split_at_all, split_lines,
    split_words, starts_with, strip_prefix, strip_suffix, to_ascii_lower, trim,
    write_lines,
};

fn strings(list: &[&str]) -> Vec<String> {
    list.iter().map(|s| s.to_string()).collect()
}

#[test]
fn numbers_are_written_and_read_back() {
    for n in [0, 7, 10, 99, 100, u64::MAX] {
        assert_eq!(decimal(n), n.to_string());
        assert_eq!(parse_unsigned(&decimal(n), u64::MAX), Some(n));
    }
    assert_eq!(decimal2(5), "05");
    assert_eq!(decimal2(123), "123");
    for n in [i64::MIN, -1, 0, i64::MAX] {
        assert_eq!(signed_decimal(n), n.to_string());
    }
    assert_eq!(hex(0xabc, 6), "000abc");
    for s in ["", "+", "-", "1a", " 1", "256"] {
        assert_eq!(parse_unsigned(s, 255), s.parse::<u8>().ok().map(u64::from), "{s}");
    }
    assert_eq!(parse_unsigned("+5", 255), Some(5));
    for s in ["-128", "127", "-129", "128", "+1", "-", "--1"] {
        assert_eq!(parse_signed(s, 127), s.parse::<i8>().ok().map(i64::from), "{s}");
    }
}

#[test]
fn text_is_taken_apart_as_the_standard_library_does() {
    for s in ["", "a", "a\n", "a\r\nb", "a\rb\r", "\n\n", " a\u{85}b \u{3000}c\t"] {
        assert_eq!(split_lines(s), s.lines().collect::<Vec<_>>(), "{s:?}");
        assert_eq!(split_words(s), s.split_whitespace().collect::<Vec<_>>(), "{s:?}");
        assert_eq!(trim(s), s.trim(), "{s:?}");
        assert_eq!(byte_len(s), s.len(), "{s:?}");
        assert_eq!(replace(s, "a", "xy"), s.replace('a', "xy"), "{s:?}");
        assert_eq!(split_at_all(s, "\n"), s.split('\n').collect::<Vec<_>>(), "{s:?}");
        assert_eq!(contains(s, "a"), s.contains('a'), "{s:?}");
        assert_eq!(starts_with(s, "a"), s.starts_with('a'), "{s:?}");
        assert_eq!(ends_with(s, "\n"), s.ends_with('\n'), "{s:?}");
        assert_eq!(strip_prefix(s, "a"), s.strip_prefix('a'), "{s:?}");
        assert_eq!(strip_suffix(s, "\n"), s.strip_suffix('\n'), "{s:?}");
    }
    let ls = strings(&["a", "", "b"]);
    assert_eq!(write_lines(&ls), "a\n\nb\n");
    assert_eq!(split_lines(&write_lines(&ls)), ls);
    assert_eq!(join(&ls, "-"), "a--b");
}

#[test]
fn ascii_case_is_changed_as_the_standard_library_does() {
    for s in ["Stra\u{df}e", "\u{130}", "\u{3a3}\u{3a3}", "abcXYZ"] {
        assert_eq!(to_ascii_lower(s), s.to_ascii_lowercase());
    }
    assert!(eq_ignore_ascii_case("AbC", "aBc"));
    assert!(!eq_ignore_ascii_case("\u{c4}", "\u{e4}"));
}

#[test]
fn strings_are_ordered_by_their_characters() {
    let words = ["b", "", "a\u{10000}", "a\u{ffff}", "ab", "a"];
    let mut sorted = strings(&words);
    sorted.sort();
    assert_eq!(sort_strings(strings(&words)), sorted);
    for a in words {
        for b in words {
            assert_eq!(comes_first(a, b), a <= b, "{a} {b}");
        }
    }
}
