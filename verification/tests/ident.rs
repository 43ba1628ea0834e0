use position_ledger::ident::position_id;

#[test]
fn identifier_of_time_zero() {
    assert_eq!(position_id(0), "pos-0");
}

#[test]
fn identifier_of_single_digits() {
    for (millis, text) in [
        (1i64, "pos-1"),
        (2, "pos-2"),
        (3, "pos-3"),
        (4, "pos-4"),
        (5, "pos-5"),
        (6, "pos-6"),
        (7, "pos-7"),
        (8, "pos-8"),
        (9, "pos-9"),
    ] {
        assert_eq!(position_id(millis), text);
    }
}

#[test]
fn identifier_of_a_millisecond_timestamp() {
    assert_eq!(position_id(1_700_000_000_123), "pos-1700000000123");
    assert_eq!(position_id(10), "pos-10");
    assert_eq!(position_id(1_000), "pos-1000");
    assert_eq!(position_id(9_090_909), "pos-9090909");
}

#[test]
fn identifier_of_a_time_before_the_epoch() {
    assert_eq!(position_id(-1), "pos--1");
    assert_eq!(position_id(-1_234_567_890), "pos--1234567890");
}

#[test]
fn identifier_of_the_extreme_times() {
    assert_eq!(position_id(i64::MAX), "pos-9223372036854775807");
    assert_eq!(position_id(i64::MIN), "pos--9223372036854775808");
    assert_eq!(position_id(i64::MIN + 1), "pos--9223372036854775807");
}

#[test]
fn identifier_is_the_prefix_and_the_decimal_time() {
    let mut millis: i64 = -2_000_000_000_000;
    while millis < 2_000_000_000_000 {
        assert_eq!(position_id(millis), format!("pos-{}", millis));
        millis += 7_919_191_919;
    }
}

#[test]
fn identifiers_of_different_times_differ() {
    let times = [0i64, 1, -1, 10, 100, 101, 110, 1_700_000_000_000, 1_700_000_000_001];
    for (i, a) in times.iter().enumerate() {
        for (j, b) in times.iter().enumerate() {
            assert_eq!(position_id(*a) == position_id(*b), i == j);
        }
    }
}
