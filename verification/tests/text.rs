use tuber::number::{check_float_literal, parse_u16, FloatErrorKind, IntErrorKind};
use tuber::text::{chars_of, is_whitespace, lines_of, string_from_chars, str_equal, tokenize};

fn chars(s: &str) -> Vec<char> {
    s.chars().collect()
}

#[test]
fn parse_u16_values() {
    assert_eq!(parse_u16(&chars("0")), Ok(0));
    assert_eq!(parse_u16(&chars("42")), Ok(42));
    assert_eq!(parse_u16(&chars("+7")), Ok(7));
    assert_eq!(parse_u16(&chars("65535")), Ok(65535));
    assert_eq!(parse_u16(&chars("00012")), Ok(12));
}

#[test]
fn parse_u16_errors() {
    assert_eq!(parse_u16(&chars("")).unwrap_err().kind, IntErrorKind::Empty);
    assert_eq!(parse_u16(&chars("+")).unwrap_err().kind, IntErrorKind::InvalidDigit);
    assert_eq!(parse_u16(&chars("-1")).unwrap_err().kind, IntErrorKind::InvalidDigit);
    assert_eq!(parse_u16(&chars("1a")).unwrap_err().kind, IntErrorKind::InvalidDigit);
    assert_eq!(parse_u16(&chars("65536")).unwrap_err().kind, IntErrorKind::PosOverflow);
    assert_eq!(parse_u16(&chars("99999999999")).unwrap_err().kind, IntErrorKind::PosOverflow);
}

#[test]
fn parse_u16_agrees_with_std() {
    let cases = [
        "", "0", "1", "+", "++1", "-0", "12", " 1", "1 ", "65535", "65536", "0065535", "1_0", "x", "٣",
        "+65535", "100000", "007",
    ];
    for case in cases.iter() {
        let ours = parse_u16(&chars(case)).ok();
        let std = case.parse::<u16>().ok();
        assert_eq!(ours, std, "{:?}", case);
    }
}

#[test]
fn float_literal_accepts_and_rejects() {
    assert!(check_float_literal(&chars("1.5")).is_ok());
    assert!(check_float_literal(&chars("-0.25e-3")).is_ok());
    assert!(check_float_literal(&chars("inf")).is_ok());
    assert!(check_float_literal(&chars("NaN")).is_ok());
    assert_eq!(check_float_literal(&chars("")).unwrap_err().kind, FloatErrorKind::Empty);
    assert_eq!(check_float_literal(&chars("1.2.3")).unwrap_err().kind, FloatErrorKind::Invalid);
    assert_eq!(check_float_literal(&chars("e5")).unwrap_err().kind, FloatErrorKind::Invalid);
}

#[test]
fn float_literal_agrees_with_std() {
    let cases = [
        "", "0", "1.", ".5", ".", "+.", "-", "+1", "-1.0", "1e10", "1E+10", "1e", "1e+", "e1", "inf",
        "-inf", "+Infinity", "infinity", "INF", "infin", "nan", "-NaN", "nana", "1.5x", " 1", "1_0",
        "0x10", "3.14159", "1e-7", "00.00", "1.e5", ".e5", "1..2",
    ];
    for case in cases.iter() {
        let ours = check_float_literal(&chars(case)).is_ok();
        let std = case.parse::<f32>().is_ok();
        assert_eq!(ours, std, "{:?}", case);
    }
}

#[test]
fn tokenize_splits_on_whitespace() {
    let tokens = tokenize(&chars("  v 1.0\t2.0  3.0 "));
    let words: Vec<String> = tokens.iter().map(|t| t.iter().collect()).collect();
    assert_eq!(words, vec!["v", "1.0", "2.0", "3.0"]);
    assert!(tokenize(&chars("   ")).is_empty());
}

#[test]
fn lines_split_on_line_feeds() {
    let lines = lines_of(&chars("a\nb c\n\nd"));
    let lines: Vec<String> = lines.iter().map(|l| l.iter().collect()).collect();
    assert_eq!(lines, vec!["a", "b c", "", "d"]);
    let ending = lines_of(&chars("a\n"));
    let ending: Vec<String> = ending.iter().map(|l| l.iter().collect()).collect();
    assert_eq!(ending, "a\n".split('\n').map(|s| s.to_string()).collect::<Vec<String>>());
}

#[test]
fn string_helpers() {
    assert_eq!(chars_of("héllo"), vec!['h', 'é', 'l', 'l', 'o']);
    assert_eq!(string_from_chars(&['a', 'b']), "ab");
    assert!(str_equal("abc", "abc"));
    assert!(!str_equal("abc", "abd"));
    assert!(is_whitespace(' '));
    assert!(is_whitespace('\t'));
    assert!(!is_whitespace('x'));
}

#[test]
fn whitespace_agrees_with_std() {
    for code in 0u32..0x3100 {
        if let Some(c) = char::from_u32(code) {
            assert_eq!(is_whitespace(c), c.is_whitespace(), "{:?}", c);
        }
    }
}
