use loungy::chars::{str_concat, to_ascii_lowercase};
use loungy::num::{decimal, pad_start, parse_u64};
use loungy::strs::{contains, replace, split, starts_with};
use loungy::words::{split_whitespace, trim};

#[test]
fn decimal_prints_like_format() {
    assert_eq!(decimal(0), "0");
    assert_eq!(decimal(7), "7");
    assert_eq!(decimal(1234567890), "1234567890");
    assert_eq!(decimal(u64::MAX), u64::MAX.to_string());
}

#[test]
fn parse_u64_reads_like_from_str() {
    assert_eq!(parse_u64("42"), Some(42));
    assert_eq!(parse_u64("+42"), Some(42));
    assert_eq!(parse_u64("007"), Some(7));
    assert_eq!(parse_u64(""), None);
    assert_eq!(parse_u64("+"), None);
    assert_eq!(parse_u64("-1"), None);
    assert_eq!(parse_u64("12a"), None);
    assert_eq!(parse_u64(" 1"), None);
    assert_eq!(parse_u64("18446744073709551615"), Some(u64::MAX));
    assert_eq!(parse_u64("18446744073709551616"), None);
    for s in ["0", "+9", "99999999999999999999", "abc", "+-1", "1_000"] {
        assert_eq!(parse_u64(s), s.parse::<u64>().ok(), "{}", s);
    }
}

#[test]
fn law_parse_decimal_round_trip() {
    for n in [0u64, 1, 9, 10, 99, 100, 4096, 1_000_000_007, u64::MAX] {
        assert_eq!(parse_u64(&decimal(n)), Some(n));
    }
}

#[test]
fn pad_start_right_aligns() {
    assert_eq!(pad_start("12 MB", 8), "   12 MB");
    assert_eq!(pad_start("123456789", 8), "123456789");
    assert_eq!(pad_start("", 3), "   ");
    assert_eq!(pad_start("é", 3), format!("{: >3}", "é"));
}

#[test]
fn trim_and_words_follow_std() {
    for s in ["  hello  world \n", "\t\r\n", "", "a", " \u{a0}x\u{2003} y z  "] {
        assert_eq!(trim(s), s.trim());
        let w: Vec<String> = s.split_whitespace().map(|p| p.to_string()).collect();
        assert_eq!(split_whitespace(s), w);
    }
}

#[test]
fn law_trim_idempotent_examples() {
    for s in ["  a b  ", "\n\nx", "y\t", "   "] {
        let once = trim(s);
        assert_eq!(trim(&once), once);
    }
}

#[test]
fn replace_split_contains_follow_std() {
    let cases = [("a and b and c", " and "), ("aaaa", "aa"), ("", "x"), ("x::y::z", "::"), ("abc", "abc")];
    for (s, pat) in cases {
        assert_eq!(replace(s, pat, "+"), s.replace(pat, "+"));
        let parts: Vec<String> = s.split(pat).map(|p| p.to_string()).collect();
        assert_eq!(split(s, pat), parts);
        assert_eq!(contains(s, pat), s.contains(pat));
        assert_eq!(starts_with(s, pat), s.starts_with(pat));
    }
}

#[test]
fn law_split_join_examples() {
    for (s, pat) in [("a::b::::c", "::"), ("::", "::"), ("none", "/")] {
        assert_eq!(split(s, pat).join(pat), s);
    }
}

#[test]
fn law_replace_absent_examples() {
    assert_eq!(replace("nothing here", "zzz", "!"), "nothing here");
}

#[test]
fn case_mapping_and_concat() {
    assert_eq!(to_ascii_lowercase('Q'), 'q');
    assert_eq!(to_ascii_lowercase('Ä'), 'Ä');
    assert_eq!(str_concat("ab", "cd"), "abcd");
}

#[test]
fn whitespace_is_unicode_white_space() {
    for u in 0..=0x10FFFFu32 {
        if let Some(c) = char::from_u32(u) {
            assert_eq!(loungy::words::is_whitespace(c), c.is_whitespace(), "{u:#x}");
        }
    }
}
