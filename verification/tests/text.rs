use auction_house::text::{
    chars_of, find_first, find_last, parse_i64, parse_number, push_decimal, push_padded, text_of,
    trim_bounds, ParseFailure,
};

fn decimal_string(n: i64) -> String {
    let mut text = String::from("n = ");
    push_decimal(&mut text, n);
    text.split_off(4)
}

fn number(s: &str) -> Result<i64, ParseFailure> {
    let chars = chars_of(s);
    parse_number(&chars, 0, chars.len())
}

#[test]
fn chars_of_keeps_every_character() {
    assert_eq!(chars_of(""), Vec::<char>::new());
    assert_eq!(chars_of("a b"), vec!['a', ' ', 'b']);
    assert_eq!(chars_of("é✓"), vec!['é', '✓']);
}

#[test]
fn text_of_takes_a_range() {
    let chars = chars_of("holy sword");
    assert_eq!(text_of(&chars, 0, 4), "holy");
    assert_eq!(text_of(&chars, 5, 10), "sword");
    assert_eq!(text_of(&chars, 3, 3), "");
}

#[test]
fn decimal_string_writes_a_number() {
    assert_eq!(decimal_string(0), "0");
    assert_eq!(decimal_string(7), "7");
    assert_eq!(decimal_string(10), "10");
    assert_eq!(decimal_string(-1), "-1");
    assert_eq!(decimal_string(100500), "100500");
    assert_eq!(decimal_string(i64::MAX), "9223372036854775807");
    assert_eq!(decimal_string(i64::MIN), "-9223372036854775808");
}

#[test]
fn push_padded_writes_the_last_digits_with_leading_zeros() {
    for (n, width, expected) in [
        (7, 2, "07"),
        (59, 2, "59"),
        (2021, 4, "2021"),
        (33, 4, "0033"),
        (12345, 4, "2345"),
        (0, 0, ""),
        (5, 0, ""),
    ] {
        let mut text = String::new();
        push_padded(&mut text, n, width);
        assert_eq!(text, expected);
    }
}

#[test]
fn parse_number_reads_what_the_standard_parser_reads() {
    for s in [
        "0",
        "5",
        "-5",
        "+5",
        "007",
        "-0",
        "9223372036854775807",
        "-9223372036854775808",
        "00000000000000000000000000012",
    ] {
        assert_eq!(number(s).ok(), s.parse::<i64>().ok(), "{s}");
        assert!(number(s).is_ok(), "{s}");
    }
    assert_eq!(number("42"), Ok(42));
    assert_eq!(number("-9223372036854775808"), Ok(i64::MIN));
}

#[test]
fn parse_number_says_why_it_failed() {
    assert_eq!(number(""), Err(ParseFailure::Empty));
    assert_eq!(number("-"), Err(ParseFailure::InvalidDigit));
    assert_eq!(number("+"), Err(ParseFailure::InvalidDigit));
    assert_eq!(number("12a"), Err(ParseFailure::InvalidDigit));
    assert_eq!(number(" 12"), Err(ParseFailure::InvalidDigit));
    assert_eq!(number("1 2"), Err(ParseFailure::InvalidDigit));
    assert_eq!(number("--1"), Err(ParseFailure::InvalidDigit));
    assert_eq!(number("٣"), Err(ParseFailure::InvalidDigit));
    assert_eq!(number("9223372036854775808"), Err(ParseFailure::TooLarge));
    assert_eq!(number("-9223372036854775809"), Err(ParseFailure::TooSmall));
    assert_eq!(number("99999999999999999999x"), Err(ParseFailure::TooLarge));
    assert_eq!(number("9x9999999999999999999"), Err(ParseFailure::InvalidDigit));
}

#[test]
fn parse_i64_reads_a_range() {
    let chars = chars_of("arrow 15 7");
    assert_eq!(parse_i64(&chars, 6, 8), Some(15));
    assert_eq!(parse_i64(&chars, 9, 10), Some(7));
    assert_eq!(parse_i64(&chars, 0, 5), None);
    assert_eq!(parse_i64(&chars, 5, 8), None);
    assert_eq!(parse_i64(&chars, 4, 4), None);
}

#[test]
fn find_first_and_last_give_indexes_into_the_whole() {
    let chars = chars_of("a bc d");
    assert_eq!(find_first(&chars, ' ', 0, 6), Some(1));
    assert_eq!(find_last(&chars, ' ', 0, 6), Some(4));
    assert_eq!(find_first(&chars, ' ', 2, 6), Some(4));
    assert_eq!(find_last(&chars, ' ', 0, 4), Some(1));
    assert_eq!(find_first(&chars, ' ', 2, 4), None);
    assert_eq!(find_last(&chars, 'x', 0, 6), None);
    assert_eq!(find_first(&chars, ' ', 3, 3), None);
}

#[test]
fn trim_bounds_drops_blanks_at_both_ends() {
    for s in ["", " ", "a", " a", "a ", "  a b \t\n", "\u{3000}x\u{a0}", "\u{200b}x"] {
        let chars = chars_of(s);
        let (a, b) = trim_bounds(&chars, 0, chars.len());
        assert_eq!(text_of(&chars, a, b), s.trim(), "{s:?}");
    }
    let chars = chars_of("ab  cd  ef");
    assert_eq!(trim_bounds(&chars, 2, 8), (4, 6));
    assert_eq!(trim_bounds(&chars, 2, 4), (4, 4));
}
