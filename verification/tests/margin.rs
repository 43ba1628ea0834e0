use position_ledger::margin::{
    calculate_initial_margin, calculate_realized_pnl, MarginError, PnlError, SCALE,
};

#[test]
fn scale_is_one_million() {
    assert_eq!(SCALE, 1_000_000u128);
}

#[test]
fn margin_is_size_times_scale_over_leverage() {
    let size = 1000 * SCALE;
    assert_eq!(calculate_initial_margin(size, 10), Ok(100 * SCALE * SCALE));
    assert_eq!(calculate_initial_margin(size, 10), Ok(100_000_000_000_000u128));
}

#[test]
fn test_initial_margin_simple() {
    // 1000 USDT position, 10x -> initial margin = 100 USDT
    let pos = (1000.0 * SCALE as f64).round() as u128;
    assert_eq!(pos, 1000 * SCALE);
    let margin_scaled = calculate_initial_margin(pos, 10).unwrap();
    // the result carries the scale twice: one division brings it back to
    // scaled units, the conversion to a decimal amount makes the other
    let margin = (margin_scaled / SCALE) as f64 / SCALE as f64;
    assert!((margin - 100.0).abs() < 1e-6);
}

#[test]
fn margin_divided_by_scale_is_size_over_leverage() {
    for (size, leverage) in [(1000 * SCALE, 10u128), (1, 3), (7, 7), (123_456_789, 1000), (0, 5)] {
        assert_eq!(calculate_initial_margin(size, leverage).unwrap() / SCALE, size / leverage);
    }
}

#[test]
fn margin_rounds_down() {
    assert_eq!(calculate_initial_margin(1, 3), Ok(333_333u128));
    assert_eq!(calculate_initial_margin(2, 3), Ok(666_666u128));
    assert_eq!(calculate_initial_margin(1, 7), Ok(142_857u128));
    assert_eq!(calculate_initial_margin(1, 2_000_000), Ok(0u128));
}

#[test]
fn margin_of_nothing_is_nothing() {
    assert_eq!(calculate_initial_margin(0, 1), Ok(0u128));
    assert_eq!(calculate_initial_margin(0, u128::MAX), Ok(0u128));
}

#[test]
fn margin_at_leverage_one_is_the_scaled_size() {
    assert_eq!(calculate_initial_margin(42, 1), Ok(42_000_000u128));
}

#[test]
fn zero_leverage_is_refused() {
    assert_eq!(calculate_initial_margin(0, 0), Err(MarginError::InvalidLeverage));
    assert_eq!(calculate_initial_margin(1, 0), Err(MarginError::InvalidLeverage));
    assert_eq!(calculate_initial_margin(1000 * SCALE, 0), Err(MarginError::InvalidLeverage));
}

#[test]
fn zero_leverage_comes_before_overflow() {
    assert_eq!(calculate_initial_margin(u128::MAX, 0), Err(MarginError::InvalidLeverage));
}

#[test]
fn overflowing_product_is_refused() {
    assert_eq!(calculate_initial_margin(u128::MAX, 1), Err(MarginError::Overflow));
    assert_eq!(calculate_initial_margin(u128::MAX, u128::MAX), Err(MarginError::Overflow));
}

#[test]
fn overflow_starts_right_after_the_largest_size_that_fits() {
    let largest = u128::MAX / SCALE;
    assert_eq!(calculate_initial_margin(largest, 1), Ok(largest * SCALE));
    assert_eq!(calculate_initial_margin(largest, 2), Ok(largest * SCALE / 2));
    assert_eq!(calculate_initial_margin(largest + 1, 1), Err(MarginError::Overflow));
    assert_eq!(calculate_initial_margin(largest + 1, 1_000_000), Err(MarginError::Overflow));
}

#[test]
fn margin_error_messages() {
    assert_eq!(MarginError::InvalidLeverage.message(), "leverage must be > 0");
    assert_eq!(MarginError::Overflow.message(), "overflow mul");
}

#[test]
fn pnl_of_a_gain() {
    // bought 1000 worth at 50, sold at 60: 20 units, 10 each
    assert_eq!(
        calculate_realized_pnl(50 * SCALE, 60 * SCALE, 1000 * SCALE),
        Ok(200_000_000i128)
    );
}

#[test]
fn pnl_of_a_loss() {
    assert_eq!(
        calculate_realized_pnl(50 * SCALE, 40 * SCALE, 1000 * SCALE),
        Ok(-200_000_000i128)
    );
}

#[test]
fn pnl_without_a_price_move_is_zero() {
    assert_eq!(calculate_realized_pnl(50 * SCALE, 50 * SCALE, 1000 * SCALE), Ok(0i128));
    assert_eq!(calculate_realized_pnl(7, 7, u128::MAX), Ok(0i128));
}

#[test]
fn pnl_of_an_empty_position_is_zero() {
    assert_eq!(calculate_realized_pnl(50, 60, 0), Ok(0i128));
    assert_eq!(calculate_realized_pnl(50, 40, 0), Ok(0i128));
}

#[test]
fn pnl_rounds_toward_zero() {
    assert_eq!(calculate_realized_pnl(3, 4, 1), Ok(0i128));
    assert_eq!(calculate_realized_pnl(3, 2, 1), Ok(0i128));
    assert_eq!(calculate_realized_pnl(3, 5, 2), Ok(1i128));
    assert_eq!(calculate_realized_pnl(3, 1, 2), Ok(-1i128));
    assert_eq!(calculate_realized_pnl(3, 5, 3), Ok(2i128));
    assert_eq!(calculate_realized_pnl(3, 1, 3), Ok(-2i128));
}

#[test]
fn pnl_with_zero_entry_price_is_refused() {
    assert_eq!(calculate_realized_pnl(0, 60, 1000), Err(PnlError::ZeroEntryPrice));
    assert_eq!(calculate_realized_pnl(0, 0, 0), Err(PnlError::ZeroEntryPrice));
    assert_eq!(calculate_realized_pnl(0, u128::MAX, u128::MAX), Err(PnlError::ZeroEntryPrice));
}

#[test]
fn pnl_with_overflowing_product_is_refused() {
    assert_eq!(calculate_realized_pnl(1, u128::MAX, 2), Err(PnlError::Overflow));
    assert_eq!(calculate_realized_pnl(u128::MAX, 0, 2), Err(PnlError::Overflow));
}

#[test]
fn pnl_beyond_the_signed_range_is_refused() {
    // the product fits in 128 bits, the quotient does not fit with a sign
    assert_eq!(calculate_realized_pnl(1, u128::MAX, 1), Err(PnlError::Overflow));
    let half = 1u128 << 127;
    assert_eq!(calculate_realized_pnl(1, half + 1, 1), Err(PnlError::Overflow));
    assert_eq!(calculate_realized_pnl(1, half, 1), Ok(i128::MAX));
}

#[test]
fn pnl_reaches_the_most_negative_value() {
    let half = 1u128 << 127;
    assert_eq!(calculate_realized_pnl(1, 0, half), Ok(i128::MIN));
    assert_eq!(calculate_realized_pnl(1, 0, half - 1), Ok(i128::MIN + 1));
    assert_eq!(calculate_realized_pnl(1, 0, half + 1), Err(PnlError::Overflow));
}

#[test]
fn pnl_is_exact_for_whole_units() {
    // size = units * entry
    let entry = 123_456_789u128;
    let units = 17u128;
    assert_eq!(calculate_realized_pnl(entry, entry + 1000, units * entry), Ok(17_000i128));
    assert_eq!(calculate_realized_pnl(entry, entry - 1000, units * entry), Ok(-17_000i128));
}
