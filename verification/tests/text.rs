use runner::text::{chars_of, is_whitespace, parse_decimal, split_whitespace};

fn text_letters(text: &str) -> Vec<char> {
    text.chars().collect()
}

fn split_text(text: &str) -> Vec<String> {
    split_whitespace(&text_letters(text)).into_iter().map(|word| word.into_iter().collect()).collect()
}

#[test]
fn whitespace_is_what_std_calls_whitespace() {
    let mut code: u32 = 0;
    while code <= 0x10FFFF {
        if let Some(c) = char::from_u32(code) {
            assert_eq!(is_whitespace(c), c.is_whitespace(), "U+{:04X}", code);
        }
        code += 1;
    }
}

#[test]
fn whitespace_named_points() {
    for c in ['\t', '\n', '\u{0B}', '\u{0C}', '\r', ' ', '\u{85}', '\u{A0}', '\u{1680}', '\u{2000}',
        '\u{200A}', '\u{2028}', '\u{2029}', '\u{202F}', '\u{205F}', '\u{3000}']
    {
        assert!(is_whitespace(c));
    }
    for c in ['\0', '\u{08}', '\u{0E}', '\u{1F}', '!', 'a', '\u{84}', '\u{86}', '\u{200B}', '\u{FEFF}'] {
        assert!(!is_whitespace(c));
    }
}

#[test]
fn chars_of_keeps_every_character() {
    assert_eq!(chars_of(""), Vec::<char>::new());
    assert_eq!(chars_of("DELAY 30"), vec!['D', 'E', 'L', 'A', 'Y', ' ', '3', '0']);
    assert_eq!(chars_of("a\u{00E9}\u{1F600}z"), vec!['a', '\u{00E9}', '\u{1F600}', 'z']);
}

#[test]
fn split_of_nothing_is_empty() {
    assert_eq!(split_text(""), Vec::<String>::new());
    assert_eq!(split_text("   "), Vec::<String>::new());
    assert_eq!(split_text("\t\r\n"), Vec::<String>::new());
}

#[test]
fn split_finds_the_words() {
    assert_eq!(split_text("STOP"), vec!["STOP"]);
    assert_eq!(split_text("DELAY 30"), vec!["DELAY", "30"]);
    assert_eq!(split_text("  DELAY \t 30  \n"), vec!["DELAY", "30"]);
    assert_eq!(split_text("a b  c"), vec!["a", "b", "c"]);
    assert_eq!(split_text("x\u{3000}y\u{A0}z"), vec!["x", "y", "z"]);
    assert_eq!(split_text("one\u{200B}word"), vec!["one\u{200B}word"]);
}

#[test]
fn split_agrees_with_std() {
    let samples = [
        "",
        " ",
        "a",
        " a",
        "a ",
        "STOP",
        "DELAY 15",
        "  leading",
        "trailing  ",
        "many   spaces\tand\ttabs\nand\nlines",
        "\u{2003}em\u{2003}space\u{2003}",
        "caf\u{00E9} au lait",
        "\u{1680}\u{2000}\u{205F}",
        "no-space",
        "x\u{0B}y\u{0C}z\u{85}w",
    ];
    for text in samples {
        let expected: Vec<String> = text.split_whitespace().map(|word| word.to_string()).collect();
        assert_eq!(split_text(text), expected, "{:?}", text);
    }
}

#[test]
fn decimal_reads_numbers() {
    assert_eq!(parse_decimal(&text_letters("0")), Some(0));
    assert_eq!(parse_decimal(&text_letters("7")), Some(7));
    assert_eq!(parse_decimal(&text_letters("15")), Some(15));
    assert_eq!(parse_decimal(&text_letters("30")), Some(30));
    assert_eq!(parse_decimal(&text_letters("0030")), Some(30));
    assert_eq!(parse_decimal(&text_letters("+5")), Some(5));
    assert_eq!(parse_decimal(&text_letters("1234567890")), Some(1234567890));
}

#[test]
fn decimal_reads_up_to_the_largest_u64() {
    assert_eq!(parse_decimal(&text_letters("18446744073709551615")), Some(u64::MAX));
    assert_eq!(parse_decimal(&text_letters("18446744073709551616")), None);
    assert_eq!(parse_decimal(&text_letters("18446744073709551620")), None);
    assert_eq!(parse_decimal(&text_letters("99999999999999999999")), None);
    assert_eq!(parse_decimal(&text_letters("184467440737095516150")), None);
    assert_eq!(parse_decimal(&text_letters("000000000000000000000000000007")), Some(7));
}

#[test]
fn decimal_refuses_what_is_no_number() {
    assert_eq!(parse_decimal(&text_letters("")), None);
    assert_eq!(parse_decimal(&text_letters("+")), None);
    assert_eq!(parse_decimal(&text_letters("-")), None);
    assert_eq!(parse_decimal(&text_letters("-5")), None);
    assert_eq!(parse_decimal(&text_letters("++5")), None);
    assert_eq!(parse_decimal(&text_letters("5+")), None);
    assert_eq!(parse_decimal(&text_letters("abc")), None);
    assert_eq!(parse_decimal(&text_letters("12a")), None);
    assert_eq!(parse_decimal(&text_letters("1.5")), None);
    assert_eq!(parse_decimal(&text_letters("1_000")), None);
    assert_eq!(parse_decimal(&text_letters("0x10")), None);
    assert_eq!(parse_decimal(&text_letters("\u{0661}\u{0662}")), None);
    assert_eq!(parse_decimal(&text_letters("/")), None);
    assert_eq!(parse_decimal(&text_letters(":")), None);
}

#[test]
fn decimal_agrees_with_std() {
    let samples = [
        "", "0", "1", "9", "10", "15", "+0", "+15", "-0", "-1", "+", "-", "+-1", "1+", " 1", "1 ",
        "007", "18446744073709551615", "18446744073709551616", "+18446744073709551615",
        "28446744073709551615", "1e3", "١٢", "12345678901234567890123", "4294967296", "a", "/0", "0:",
    ];
    for text in samples {
        assert_eq!(parse_decimal(&text_letters(text)), text.parse::<u64>().ok(), "{:?}", text);
    }
}
