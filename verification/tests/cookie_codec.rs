use countme::cookie::{Cookie, HALF_YEAR_LENGTH, MONTH_LENGTH, WINDOW_LENGTH};
use countme::numfmt::{format_u64, parse_u64};

#[test]
fn window_is_fresh_below_window_length() {
    let c = Cookie { last_counted: 1000 };
    assert!(c.existing_window(1000));
    assert!(c.existing_window(1000 + WINDOW_LENGTH - 1));
}

#[test]
fn window_is_stale_at_window_length() {
    let c = Cookie { last_counted: 1000 };
    assert!(!c.existing_window(1000 + WINDOW_LENGTH));
    assert!(!c.existing_window(1000 + WINDOW_LENGTH + 1));
    assert!(!c.existing_window(u64::MAX));
}

#[test]
fn window_is_fresh_when_clock_moved_backwards() {
    let c = Cookie { last_counted: 5000 };
    assert!(c.existing_window(4000));
}

#[test]
fn counter_buckets_have_exact_boundaries() {
    let c = Cookie { last_counted: 0 };
    assert_eq!(c.window_counter(0), 1);
    assert_eq!(c.window_counter(WINDOW_LENGTH - 1), 1);
    assert_eq!(c.window_counter(WINDOW_LENGTH), 2);
    assert_eq!(c.window_counter(MONTH_LENGTH - 1), 2);
    assert_eq!(c.window_counter(MONTH_LENGTH), 3);
    assert_eq!(c.window_counter(HALF_YEAR_LENGTH - 1), 3);
    assert_eq!(c.window_counter(HALF_YEAR_LENGTH), 4);
    assert_eq!(c.window_counter(u64::MAX), 4);
}

#[test]
fn counter_is_monotone_and_bounded() {
    let c = Cookie { last_counted: 0 };
    let samples = [
        0,
        1,
        WINDOW_LENGTH,
        WINDOW_LENGTH + 1,
        MONTH_LENGTH,
        HALF_YEAR_LENGTH,
        HALF_YEAR_LENGTH * 3,
        u64::MAX,
    ];
    let mut prev = 0u32;
    for now in samples {
        let b = c.window_counter(now);
        assert!((1..=4).contains(&b));
        assert!(b >= prev);
        prev = b;
    }
}

#[test]
fn counter_is_a_pure_function() {
    let c = Cookie { last_counted: 77 };
    assert_eq!(c.window_counter(123456789), c.window_counter(123456789));
}

#[test]
fn cookie_round_trips_through_persistence() {
    let t: u64 = 1700000000;
    let stored = Cookie { last_counted: t }.serialize();
    assert_eq!(stored, "1700000000");
    let reloaded = Cookie::parse(stored.as_str()).expect("a stored cookie reads back");
    assert_eq!(reloaded.last_counted, t);
    assert!(reloaded.existing_window(t + 1));
    assert!(!reloaded.existing_window(t + WINDOW_LENGTH + 1));
}

#[test]
fn corrupt_cookie_is_rejected() {
    assert!(Cookie::parse("").is_none());
    assert!(Cookie::parse("12a3").is_none());
    assert!(Cookie::parse("-5").is_none());
    assert!(Cookie::parse("99999999999999999999999").is_none());
}

#[test]
fn extreme_timestamps_round_trip() {
    let zero = Cookie { last_counted: 0 }.serialize();
    assert_eq!(zero, "0");
    assert_eq!(Cookie::parse(zero.as_str()).unwrap().last_counted, 0);
    let max = Cookie { last_counted: u64::MAX }.serialize();
    assert_eq!(max, "18446744073709551615");
    assert_eq!(Cookie::parse(max.as_str()).unwrap().last_counted, u64::MAX);
}

#[test]
fn decimal_rendering_is_exact() {
    assert_eq!(format_u64(0), "0");
    assert_eq!(format_u64(42), "42");
    assert_eq!(format_u64(604800), "604800");
    assert_eq!(format_u64(u64::MAX), "18446744073709551615");
}

#[test]
fn decimal_parsing_matches_rendering() {
    for n in [0u64, 1, 9, 10, 99, 604800, 1700000000, u64::MAX] {
        assert_eq!(parse_u64(format_u64(n).as_str()), Some(n));
    }
    assert_eq!(parse_u64("007"), Some(7));
    assert_eq!(parse_u64("18446744073709551616"), None);
    assert_eq!(parse_u64(" 1"), None);
}
