use hbbs::text::{
    decimal, is_whitespace, parse_number, split_fields, split_first_fields, split_on, NumberError,
};

#[test]
fn whitespace_is_that_of_the_standard_library() {
    for n in 0..=0x10ffffu32 {
        if let Some(c) = char::from_u32(n) {
            assert_eq!(is_whitespace(c), c.is_whitespace(), "{:?}", c);
        }
    }
}

#[test]
fn fields_are_those_of_the_standard_library() {
    for s in [
        "",
        " ",
        "h",
        " ba  1.2.3.4\t",
        "b\u{3000}x\r\ny",
        "\u{a0}a\u{85}b ",
        "a b c",
    ] {
        let expected: Vec<String> = s.split_whitespace().map(|x| x.to_owned()).collect();
        assert_eq!(split_fields(s), expected, "{:?}", s);
    }
}

#[test]
fn pieces_are_those_of_the_standard_library() {
    for s in ["", "|", "a", "a|b", "|a||b|", "\u{e9}|\u{4e2d}"] {
        let expected: Vec<String> = s.split('|').map(|x| x.to_owned()).collect();
        assert_eq!(split_on(s, '|'), expected, "{:?}", s);
    }
}

#[test]
fn first_fields_are_taken_line_by_line() {
    let text = "1.2.3.4 # a comment\r\n\n   \n\t5.6.7.8\n9.9.9.9";
    let mut expected: Vec<String> = Vec::new();
    for line in text.lines() {
        if let Some(ip) = line.split_whitespace().next() {
            expected.push(ip.to_owned());
        }
    }
    assert_eq!(split_first_fields(text), expected);
    assert_eq!(split_first_fields(text), vec!["1.2.3.4", "5.6.7.8", "9.9.9.9"]);
    assert!(split_first_fields("").is_empty());
}

#[test]
fn decimals_are_those_of_the_standard_library() {
    for n in [0u64, 1, 9, 10, 11, 99, 100, 12345, u64::MAX] {
        assert_eq!(decimal(n), n.to_string());
    }
}

#[test]
fn numbers_are_read_back() {
    for n in [0u64, 7, 10, 4096, u64::MAX] {
        assert_eq!(parse_number(&decimal(n), u64::MAX), Ok(n));
    }
}

#[test]
fn numbers_are_those_of_the_standard_library() {
    for s in [
        "", "+", "-", "+5", "-5", "++5", "5+", " 5", "5 ", "007", "65535", "65536", "1x",
        "99999999999999999999", "99999999999999999999x", "x99999", "\u{664}",
    ] {
        assert_eq!(
            parse_number(s, u64::MAX).ok(),
            s.parse::<u64>().ok(),
            "{:?}",
            s
        );
        assert_eq!(
            parse_number(s, u16::MAX as u64).ok(),
            s.parse::<u16>().ok().map(|n| n as u64),
            "{:?}",
            s
        );
    }
}

#[test]
fn number_errors_are_told_apart() {
    assert_eq!(parse_number("", 9), Err(NumberError::Empty));
    assert_eq!(parse_number("+", 9), Err(NumberError::InvalidDigit));
    assert_eq!(parse_number("-1", 9), Err(NumberError::InvalidDigit));
    assert_eq!(parse_number("10", 9), Err(NumberError::PosOverflow));
    assert_eq!(parse_number("10x", 9), Err(NumberError::PosOverflow));
    assert_eq!(parse_number("9", 9), Ok(9));
}

#[test]
fn number_errors_have_the_words_of_the_standard_library() {
    for text in ["", "+", "x", "70000"] {
        let ours = parse_number(text, u16::MAX as u64).unwrap_err().message();
        assert_eq!(ours, text.parse::<u16>().unwrap_err().to_string());
    }
}
