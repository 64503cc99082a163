use lll::text::{
    chars_of, compare_names, i32_to_string, parse_i32, parse_usize, sort_lines, split_whitespace,
    str_eq, usize_to_string, IntErrorKind,
};

#[test]
fn chars_of_keeps_every_character() {
    assert_eq!(chars_of(""), Vec::<char>::new());
    assert_eq!(chars_of("a/ß/字"), vec!['a', '/', 'ß', '/', '字']);
}

#[test]
fn str_eq_compares_characters() {
    assert!(str_eq("", ""));
    assert!(str_eq("cd", "cd"));
    assert!(!str_eq("cd", "cd "));
    assert!(!str_eq("cd", "dc"));
}

#[test]
fn usize_to_string_writes_decimal() {
    assert_eq!(usize_to_string(0), "0");
    assert_eq!(usize_to_string(7), "7");
    assert_eq!(usize_to_string(10), "10");
    assert_eq!(usize_to_string(4096), "4096");
    assert_eq!(usize_to_string(1234567890), "1234567890");
    assert_eq!(usize_to_string(usize::MAX), format!("{}", usize::MAX));
}

#[test]
fn i32_to_string_writes_the_sign() {
    assert_eq!(i32_to_string(0), "0");
    assert_eq!(i32_to_string(-1), "-1");
    assert_eq!(i32_to_string(42), "42");
    assert_eq!(i32_to_string(i32::MAX), "2147483647");
    assert_eq!(i32_to_string(i32::MIN), "-2147483648");
}

#[test]
fn parse_usize_reads_digits_after_an_optional_plus() {
    assert_eq!(parse_usize("0"), Ok(0));
    assert_eq!(parse_usize("7"), Ok(7));
    assert_eq!(parse_usize("+7"), Ok(7));
    assert_eq!(parse_usize("007"), Ok(7));
    assert_eq!(parse_usize("1234567890"), Ok(1234567890));
    let max = format!("{}", usize::MAX);
    assert_eq!(parse_usize(&max), Ok(usize::MAX));
}

#[test]
fn parse_usize_names_each_failure() {
    assert_eq!(parse_usize(""), Err(IntErrorKind::Empty));
    assert_eq!(parse_usize("+"), Err(IntErrorKind::InvalidDigit));
    assert_eq!(parse_usize("-"), Err(IntErrorKind::InvalidDigit));
    assert_eq!(parse_usize("-5"), Err(IntErrorKind::InvalidDigit));
    assert_eq!(parse_usize("12a"), Err(IntErrorKind::InvalidDigit));
    assert_eq!(parse_usize(" 1"), Err(IntErrorKind::InvalidDigit));
    assert_eq!(parse_usize("1_000"), Err(IntErrorKind::InvalidDigit));
    assert_eq!(parse_usize("++1"), Err(IntErrorKind::InvalidDigit));
    let above = format!("{}0", usize::MAX);
    assert_eq!(parse_usize(&above), Err(IntErrorKind::PosOverflow));
    // the number is too large before the letter is reached
    let above_then_letter = format!("{}0x", usize::MAX);
    assert_eq!(parse_usize(&above_then_letter), Err(IntErrorKind::PosOverflow));
}

#[test]
fn parse_i32_reads_both_signs() {
    assert_eq!(parse_i32("0"), Ok(0));
    assert_eq!(parse_i32("-0"), Ok(0));
    assert_eq!(parse_i32("+3"), Ok(3));
    assert_eq!(parse_i32("-3"), Ok(-3));
    assert_eq!(parse_i32("2147483647"), Ok(i32::MAX));
    assert_eq!(parse_i32("-2147483648"), Ok(i32::MIN));
}

#[test]
fn parse_i32_names_each_failure() {
    assert_eq!(parse_i32(""), Err(IntErrorKind::Empty));
    assert_eq!(parse_i32("+"), Err(IntErrorKind::InvalidDigit));
    assert_eq!(parse_i32("-"), Err(IntErrorKind::InvalidDigit));
    assert_eq!(parse_i32("--1"), Err(IntErrorKind::InvalidDigit));
    assert_eq!(parse_i32("1.5"), Err(IntErrorKind::InvalidDigit));
    assert_eq!(parse_i32("2147483648"), Err(IntErrorKind::PosOverflow));
    assert_eq!(parse_i32("-2147483649"), Err(IntErrorKind::NegOverflow));
    assert_eq!(parse_i32("99999999999"), Err(IntErrorKind::PosOverflow));
    assert_eq!(parse_i32("-99999999999"), Err(IntErrorKind::NegOverflow));
}

#[test]
fn parsing_agrees_with_the_standard_library() {
    let samples = [
        "", "0", "1", "+1", "-1", "+", "-", "12", "0012", "4294967295", "4294967296",
        "2147483647", "2147483648", "-2147483648", "-2147483649", "18446744073709551615",
        "18446744073709551616", "1a", "a1", " 1", "1 ", "+-1", "١", "1e3", "0x10",
        "99999999999999999999999999", "-99999999999999999999999999", "99999999999999999999999999z",
    ];
    for s in samples.iter() {
        match (parse_usize(s), s.parse::<usize>()) {
            (Ok(a), Ok(b)) => assert_eq!(a, b, "usize {:?}", s),
            (Err(a), Err(b)) => assert_eq!(a.message(), b.to_string(), "usize {:?}", s),
            (a, b) => panic!("usize {:?}: {:?} against {:?}", s, a, b),
        }
        match (parse_i32(s), s.parse::<i32>()) {
            (Ok(a), Ok(b)) => assert_eq!(a, b, "i32 {:?}", s),
            (Err(a), Err(b)) => assert_eq!(a.message(), b.to_string(), "i32 {:?}", s),
            (a, b) => panic!("i32 {:?}: {:?} against {:?}", s, a, b),
        }
    }
}

#[test]
fn int_error_messages() {
    assert_eq!(IntErrorKind::Empty.message(), "cannot parse integer from empty string");
    assert_eq!(IntErrorKind::InvalidDigit.message(), "invalid digit found in string");
    assert_eq!(IntErrorKind::PosOverflow.message(), "number too large to fit in target type");
    assert_eq!(IntErrorKind::NegOverflow.message(), "number too small to fit in target type");
}

#[test]
fn compare_names_is_the_order_of_strings() {
    let names = ["", "a", "A", "ab", "b", "Z", ".a", "a.b", "a b", "é", "z", "字", "ab", "aa"];
    for a in names.iter() {
        for b in names.iter() {
            assert_eq!(compare_names(a, b), a <= b, "{:?} against {:?}", a, b);
        }
    }
}

#[test]
fn sort_lines_sorts_as_the_standard_library_does() {
    let lines: Vec<String> =
        ["  b\tquit", "  a\tcd /", "  c\t...", "  a\tcd /", "", "  B\topen_file"]
            .iter()
            .map(|s| String::from(*s))
            .collect();
    let mut expected = lines.clone();
    expected.sort();
    assert_eq!(sort_lines(lines), expected);
    assert_eq!(sort_lines(Vec::new()), Vec::<String>::new());
}

#[test]
fn split_whitespace_gives_the_words() {
    assert_eq!(split_whitespace(""), Vec::<String>::new());
    assert_eq!(split_whitespace("   "), Vec::<String>::new());
    assert_eq!(split_whitespace("vim"), vec!["vim"]);
    assert_eq!(split_whitespace("  vim  -p\t--noplugin \n"), vec!["vim", "-p", "--noplugin"]);
    let samples = ["a b", " a  b ", "a\u{a0}b", "a\u{3000}b\u{2003}c", "été 字 x", "\u{85}x\u{1680}"];
    for s in samples.iter() {
        let expected: Vec<String> = s.split_whitespace().map(String::from).collect();
        assert_eq!(split_whitespace(s), expected, "{:?}", s);
    }
}
