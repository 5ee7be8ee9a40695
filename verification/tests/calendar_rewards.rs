use exotia_core::args::{int_arg, required_arg};
use exotia_core::calendar::{calendar_update_args, join_rewards, parse_calendar_update, parse_rewards, CalendarEntity};
use exotia_core::numbers::IntErrorKind;
use exotia_core::ApiError;

#[test]
fn rewards_join_with_bars() {
    assert_eq!(join_rewards(&vec![]), "");
    assert_eq!(join_rewards(&vec![3]), "3");
    assert_eq!(join_rewards(&vec![1, -2, 30]), "1|-2|30");
}

#[test]
fn rewards_parse_pieces() {
    assert_eq!(parse_rewards(""), Vec::<i32>::new());
    assert_eq!(parse_rewards("1|2|3"), vec![1, 2, 3]);
    assert_eq!(parse_rewards("1|x|3"), vec![1, 0, 3]);
    assert_eq!(parse_rewards("|"), vec![0, 0]);
}

#[test]
fn rewards_roundtrip() {
    for v in [vec![], vec![0], vec![i32::MIN, i32::MAX, 5, -5]] {
        assert_eq!(parse_rewards(&join_rewards(&v)), v);
    }
}

#[test]
fn calendar_update_roundtrip() {
    let body = CalendarEntity {
        step: 4,
        streak: -1,
        obtained_rewards: vec![1, 2, 7],
        last_obtained: "2023-06-04 18:38:31".to_string(),
    };
    let args = calendar_update_args("abc".to_string(), &body);
    assert_eq!(args, vec!["abc", "4", "-1", "1|2|7", "2023-06-04 18:38:31"]);
    let update = parse_calendar_update(&args).ok().unwrap();
    assert_eq!(update.step, 4);
    assert_eq!(update.streak, -1);
    assert_eq!(parse_rewards(&update.obtained_rewards.unwrap()), vec![1, 2, 7]);
}

#[test]
fn calendar_update_errors() {
    let args = vec!["u".to_string()];
    assert!(matches!(parse_calendar_update(&args), Err(ApiError::NoneValue("Calendar step"))));
    let args = vec!["u".to_string(), "x".to_string()];
    assert!(matches!(parse_calendar_update(&args), Err(ApiError::ParseIntError(IntErrorKind::InvalidDigit))));
    let args = vec!["u".to_string(), "1".to_string()];
    assert!(matches!(parse_calendar_update(&args), Err(ApiError::NoneValue("Calendar streak"))));
    let args = vec!["u".to_string(), "1".to_string(), "x".to_string()];
    assert!(matches!(parse_calendar_update(&args), Err(ApiError::ParseIntError(IntErrorKind::InvalidDigit))));
}

#[test]
fn calendar_update_without_rewards() {
    let args = vec!["u".to_string(), "3".to_string(), "9".to_string()];
    let update = parse_calendar_update(&args).ok().unwrap();
    assert_eq!((update.step, update.streak), (3, 9));
    assert!(update.obtained_rewards.is_none());
}

#[test]
fn argument_access() {
    let args = vec!["a".to_string(), "12".to_string()];
    assert!(matches!(required_arg(&args, 0, "User uuid"), Ok(ref s) if s == "a"));
    assert!(matches!(required_arg(&args, 2, "User uuid"), Err(ApiError::NoneValue("User uuid"))));
    assert!(matches!(int_arg(&args, 1, "User balance"), Ok(12)));
    assert!(matches!(int_arg(&args, 0, "User balance"), Err(ApiError::ParseIntError(IntErrorKind::InvalidDigit))));
    assert!(matches!(int_arg(&args, 5, "User balance"), Err(ApiError::NoneValue("User balance"))));
}
