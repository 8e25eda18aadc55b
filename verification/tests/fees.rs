use weight_trader::{weight_fee, weight_fee_capped, SECOND_OF_WEIGHT};

#[test]
fn second_of_weight_is_a_billion() {
    assert_eq!(SECOND_OF_WEIGHT, 1_000_000_000);
}

#[test]
fn fee_of_half_a_second() {
    assert_eq!(weight_fee(1_000_000, 500_000_000), Some(500_000));
    assert_eq!(weight_fee(1_000_000, 250_000_000), Some(250_000));
}

#[test]
fn fee_is_rounded_down() {
    assert_eq!(weight_fee(1, 999_999_999), Some(0));
    assert_eq!(weight_fee(1, 1_000_000_000), Some(1));
    assert_eq!(weight_fee(1, 1_999_999_999), Some(1));
    assert_eq!(weight_fee(2_999_999_999, 7), Some(20));
    assert_eq!(weight_fee(500_000_000, 3), Some(1));
    assert_eq!(weight_fee(500_000_000, 6), Some(3));
}

#[test]
fn fee_of_nothing_is_nothing() {
    assert_eq!(weight_fee(0, u64::MAX), Some(0));
    assert_eq!(weight_fee(u128::MAX, 0), Some(0));
}

#[test]
fn fee_where_the_product_is_too_wide_for_u128() {
    assert_eq!(
        weight_fee(1 << 100, 1 << 40),
        Some(1_393_796_574_908_163_946_345_982_392_040_522)
    );
    assert_eq!(
        weight_fee(12_345_678_901_234_567_890_123_456_789, 9_876_543_210),
        Some(121_932_631_124_828_532_112_482_853_211)
    );
    assert_eq!(weight_fee(u128::MAX, 1_000_000_000), Some(u128::MAX));
    assert_eq!(weight_fee(1 << 127, 1_000_000_000), Some(1 << 127));
}

#[test]
fn fee_too_large_for_u128_is_none() {
    assert_eq!(weight_fee(u128::MAX, 1_000_000_001), None);
    assert_eq!(weight_fee(u128::MAX, u64::MAX), None);
    assert_eq!(weight_fee(1 << 127, 2_000_000_000), None);
}

#[test]
fn capped_fee_stops_at_the_largest_amount() {
    assert_eq!(weight_fee_capped(1_000_000, 500_000_000), 500_000);
    assert_eq!(weight_fee_capped(u128::MAX, 1_000_000_001), u128::MAX);
    assert_eq!(weight_fee_capped(u128::MAX, u64::MAX), u128::MAX);
    assert_eq!(weight_fee_capped(2, u64::MAX), 36_893_488_147);
}
