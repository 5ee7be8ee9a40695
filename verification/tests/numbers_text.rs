use exotia_core::error::{int_error_message, ApiError};
use exotia_core::numbers::{format_i32, format_u64, parse_i32, IntErrorKind};
use exotia_core::text::{chars_of, command_words, same_text, split_fields};

fn std_kind(e: &std::num::ParseIntError) -> IntErrorKind {
    match e.kind() {
        std::num::IntErrorKind::Empty => IntErrorKind::Empty,
        std::num::IntErrorKind::InvalidDigit => IntErrorKind::InvalidDigit,
        std::num::IntErrorKind::PosOverflow => IntErrorKind::PosOverflow,
        std::num::IntErrorKind::NegOverflow => IntErrorKind::NegOverflow,
        _ => panic!("unexpected kind"),
    }
}

#[test]
fn parse_i32_agrees_with_std() {
    let cases = [
        "", "0", "7", "-7", "+7", "+", "-", "12a", "a12", "2147483647", "2147483648",
        "-2147483648", "-2147483649", "99999999999x", "x99999999999", " 1", "1 ", "--1",
        "+-1", "007", "-0", "٣", "1_000", "4294967296",
    ];
    for s in cases {
        let ours = parse_i32(s);
        match s.parse::<i32>() {
            Ok(v) => assert_eq!(ours, Ok(v), "input {:?}", s),
            Err(e) => assert_eq!(ours, Err(std_kind(&e)), "input {:?}", s),
        }
    }
}

#[test]
fn parse_i32_exact_values() {
    assert_eq!(parse_i32("42"), Ok(42));
    assert_eq!(parse_i32("-2147483648"), Ok(i32::MIN));
    assert_eq!(parse_i32("2147483648"), Err(IntErrorKind::PosOverflow));
    assert_eq!(parse_i32("-2147483649"), Err(IntErrorKind::NegOverflow));
    assert_eq!(parse_i32(""), Err(IntErrorKind::Empty));
    assert_eq!(parse_i32("-"), Err(IntErrorKind::InvalidDigit));
}

#[test]
fn format_i32_agrees_with_std() {
    for n in [0, 1, -1, 9, 10, -10, 12345, i32::MAX, i32::MIN, 1000000] {
        assert_eq!(format_i32(n), n.to_string());
        assert_eq!(parse_i32(&format_i32(n)), Ok(n));
    }
    assert_eq!(format_i32(-305), "-305");
}

#[test]
fn format_u64_agrees_with_std() {
    for n in [0u64, 5, 10, 99, 100, u64::MAX] {
        assert_eq!(format_u64(n), n.to_string());
    }
}

#[test]
fn int_error_messages_match_std() {
    for s in ["", "x", "99999999999", "-99999999999"] {
        let e = s.parse::<i32>().unwrap_err();
        assert_eq!(int_error_message(std_kind(&e)), e.to_string());
        let api = ApiError::ParseIntError(std_kind(&e));
        assert_eq!(api.message(), format!("ParseIntError: {}", e));
    }
}

#[test]
fn split_fields_agrees_with_std() {
    for s in ["", "a", "a|b", "|", "a||b", "|a|", "uuid|1.2.3.4|nick"] {
        let ours = split_fields(s, '|');
        let theirs: Vec<String> = s.split('|').map(|x| x.to_string()).collect();
        assert_eq!(ours, theirs, "input {:?}", s);
    }
}

#[test]
fn command_words_agree_with_std() {
    for s in ["", "   ", "GET /wallet", "GET|/wallet|abc", " PUT\t/calendars  a|b|c ", "a\u{3000}b\u{85}c", "||x||"] {
        let ours = command_words(s);
        let theirs: Vec<String> = s.replace('|', " ").split_whitespace().map(|x| x.to_string()).collect();
        assert_eq!(ours, theirs, "input {:?}", s);
    }
}

#[test]
fn chars_and_text_equality() {
    assert_eq!(chars_of("aé|"), vec!['a', 'é', '|']);
    assert!(same_text("GET", "GET"));
    assert!(!same_text("GET", "GETS"));
    assert!(!same_text("GET", "PUT"));
}

#[test]
fn command_words_are_clean() {
    for s in ["a|b c", "||", " x\t|y "] {
        for w in command_words(s) {
            assert!(!w.is_empty());
            assert!(!w.contains('|') && !w.chars().any(char::is_whitespace));
        }
    }
}
