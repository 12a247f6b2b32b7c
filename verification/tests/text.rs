use awsdeck::text::{
    collapse, contains, cut, dec_text, ends_with, fill_zeros, head, hex_text, is_whitespace, join, last_part, one_line,
    padded_text, parse_i64, preview, same, signed_text, split, split_once, split_word, strip_prefix, to_ascii_lower,
    to_ascii_upper, trim, with_tenths,
};

#[test]
fn whitespace_is_that_of_std() {
    let mut n: u32 = 0;
    while n <= 0x10FFFF {
        if let Some(c) = char::from_u32(n) {
            assert_eq!(is_whitespace(c), c.is_whitespace(), "{n:x}");
        }
        n += 1;
    }
}

#[test]
fn ascii_case_is_that_of_std() {
    let s = "Straße ÁRBOL aZ[`{@";
    assert_eq!(to_ascii_lower(s), s.to_ascii_lowercase());
    assert_eq!(to_ascii_upper(s), s.to_ascii_uppercase());
}

#[test]
fn trimming_and_splitting_are_those_of_std() {
    for s in ["", " ", "a", " a\t", "\u{3000}a b\u{a0}\n", "a,b,,c,", ",", "no comma"] {
        assert_eq!(trim(s), s.trim());
        let parts: Vec<&str> = s.split(',').collect();
        assert_eq!(split(s, ','), parts);
        assert_eq!(last_part(s, ','), s.rsplit(',').next().unwrap());
    }
    assert_eq!(split_once("a=b=c", "="), Some(("a".to_string(), "b=c".to_string())));
    assert_eq!(split_once("abc", "="), None);
    assert_eq!(split_word("since 2h now"), ("since".to_string(), "2h now".to_string()));
    assert_eq!(split_word("since"), ("since".to_string(), String::new()));
}

#[test]
fn searching_is_that_of_std() {
    for (hay, needle) in [("", ""), ("abc", ""), ("", "a"), ("aab", "ab"), ("abc", "c"), ("abc", "d"), ("ñandú", "dú")] {
        assert_eq!(contains(hay, needle), hay.contains(needle));
        assert_eq!(ends_with(hay, needle), hay.ends_with(needle));
        assert_eq!(strip_prefix(hay, needle), hay.strip_prefix(needle).map(str::to_string));
        assert_eq!(same(hay, needle), hay == needle);
    }
}

#[test]
fn numbers_are_spelled_like_std() {
    for n in [0i64, 7, -7, 10, 1_750_000_000_000, i64::MAX, i64::MIN] {
        assert_eq!(signed_text(n), n.to_string());
    }
    for n in [0u64, 9, 10, 255, u64::MAX] {
        assert_eq!(dec_text(n), n.to_string());
        assert_eq!(hex_text(n, true), format!("{n:X}"));
        assert_eq!(hex_text(n, false), format!("{n:x}"));
    }
    assert_eq!(padded_text(7, 2), "07");
    assert_eq!(padded_text(2026, 4), "2026");
    assert_eq!(fill_zeros("abc", 5), "00abc");
    assert_eq!(fill_zeros("abc", 2), "abc");
}

#[test]
fn numbers_are_read_like_std() {
    for s in ["0", "-1", "+5", "", "-", "+", "1a", " 1", "9223372036854775807", "9223372036854775808", "-9223372036854775808"] {
        assert_eq!(parse_i64(s), s.parse::<i64>().ok(), "{s}");
    }
}

#[test]
fn tenths_are_rounded() {
    assert_eq!(with_tenths(1536, 1024), "1.5");
    assert_eq!(with_tenths(1024, 1024), "1.0");
    assert_eq!(with_tenths(999, 1000), "1.0");
}

#[test]
fn long_texts_are_cut() {
    assert_eq!(cut("abcdef", 3), "abc…");
    assert_eq!(cut("abc", 3), "abc");
    assert_eq!(head("abcdef", 2), "ab");
    assert_eq!(head("a", 2), "a");
    assert_eq!(one_line("a\nb"), "a b");
    assert_eq!(collapse("  a \n\t b  "), "a b");
    assert_eq!(preview("abcdef", 3), "abc…");
    assert_eq!(join(&vec!["a".to_string(), "b".to_string()], ", "), "a, b");
    assert_eq!(join(&Vec::new(), ", "), "");
}
