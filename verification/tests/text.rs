use gh_web_dash::text::{
    decimal_text, first_line_of, is_white_space, lower_ends_with, parse_i64, same_ignoring_case,
    signed_decimal_text, text_before, text_eq, trim, trim_trailing_slashes,
};

#[test]
fn white_space_is_that_of_every_character() {
    for n in 0..=0x10_FFFFu32 {
        if let Some(c) = char::from_u32(n) {
            assert_eq!(is_white_space(c), c.is_whitespace(), "{n:x}");
        }
    }
}

#[test]
fn texts_are_ordered_as_their_bytes_are() {
    let samples = [
        "", "a", "A", "ab", "b", "é", "z", "\u{ffff}", "\u{10000}", "a/b", "a-b", "a b", "\u{0}",
    ];
    for a in samples {
        for b in samples {
            assert_eq!(text_before(a, b), a.as_bytes() < b.as_bytes(), "{a:?} {b:?}");
            assert_eq!(text_eq(a, b), a == b);
        }
    }
}

#[test]
fn trimming_takes_both_ends() {
    for s in ["", " ", " a ", "\t\na b\u{2003}", "\u{feff}a", "a"] {
        assert_eq!(trim(s), s.trim());
    }
}

#[test]
fn numbers_are_written_in_decimal() {
    for n in [0, 1, 9, 10, 99, 100, 4321, u64::MAX] {
        assert_eq!(decimal_text(n), n.to_string());
    }
    for n in [0, 7, -7, i64::MAX, i64::MIN] {
        assert_eq!(signed_decimal_text(n), n.to_string());
    }
}

#[test]
fn numbers_are_read_as_the_standard_library_reads_them() {
    for s in ["0", "-0", "+0", "007", "", "+", "--1", "1_0", "٣", "18446744073709551615"] {
        assert_eq!(parse_i64(s), s.parse::<i64>().ok(), "{s:?}");
    }
}

#[test]
fn case_is_folded_for_ascii_only() {
    assert!(same_ignoring_case("AbC", "aBc"));
    assert!(!same_ignoring_case("ä", "Ä"));
    assert!(!same_ignoring_case("a", "ab"));
    assert!(lower_ends_with("Some[BOT]", "[bot]"));
    assert!(!lower_ends_with("bot]", "[bot]"));
}

#[test]
fn only_trailing_slashes_go() {
    assert_eq!(trim_trailing_slashes("a//b//"), "a//b");
    assert_eq!(trim_trailing_slashes("///"), "");
    assert_eq!(first_line_of("x\ny"), "x");
}
