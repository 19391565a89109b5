use credit_swap::pricemath::{
    checked_pow10, display_price, mul_wide, pricemath_sqrt_price_x64_to_price, quote,
    u64_to_decimal, value_at_sqrt_price, Decimal,
};

/// `2^64 · sqrt(0.0025)`, rounded to the nearest integer.
const SQRT_PRICE_QUARTER_CENT: u128 = 922_337_203_685_477_581;

#[test]
fn price_of_quarter_cent_pool() {
    let d = pricemath_sqrt_price_x64_to_price(SQRT_PRICE_QUARTER_CENT, 9, 6).unwrap();
    assert_eq!(d.scale, 28);
    assert_eq!(d.mantissa, 25_000_000_000_000_000_010_842_021_724);
    let exact = 25 * 10u128.pow(27);
    assert!(d.mantissa - exact <= 10u128.pow(16));
    assert_eq!(display_price(SQRT_PRICE_QUARTER_CENT, 9, 6), Some(2_500_000));
}

#[test]
fn tiny_price_keeps_its_digits() {
    let s: u128 = 1 << 54;
    let base = pricemath_sqrt_price_x64_to_price(s, 0, 0).unwrap();
    assert_eq!(base, Decimal { mantissa: 9_536_743_164_062_500_000_000, scale: 28 });
    let one_more_decimal = pricemath_sqrt_price_x64_to_price(s, 1, 0).unwrap();
    assert_eq!(one_more_decimal.scale, 28);
    assert_eq!(one_more_decimal.mantissa, 10 * base.mantissa);
    let doubled = pricemath_sqrt_price_x64_to_price(2 * s, 0, 0).unwrap();
    assert_eq!(doubled.scale, 28);
    assert_eq!(doubled.mantissa, 4 * base.mantissa);
}

#[test]
fn large_price_keeps_significant_digits() {
    let d = pricemath_sqrt_price_x64_to_price(79_226_673_515_401_279_992_447_579_055, 9, 6).unwrap();
    assert_eq!(d.scale, 16);
    assert_eq!(d.mantissa, 184_460_507_110_977_035_297_763_428_924_034_400_095);
}

#[test]
fn unit_and_zero_prices() {
    let one: u128 = 1 << 64;
    assert_eq!(
        pricemath_sqrt_price_x64_to_price(one, 0, 12),
        Some(Decimal { mantissa: 10u128.pow(16), scale: 28 })
    );
    assert_eq!(
        pricemath_sqrt_price_x64_to_price(0, 9, 6),
        Some(Decimal { mantissa: 0, scale: 28 })
    );
    assert_eq!(pricemath_sqrt_price_x64_to_price(u128::MAX, 9, 6), None);
}

#[test]
fn value_of_one_whole_token() {
    let v = value_at_sqrt_price(SQRT_PRICE_QUARTER_CENT, 1_000_000_000, 6).unwrap();
    assert_eq!(v, 2_500_000);
}

#[test]
fn value_of_zero_is_zero() {
    assert_eq!(value_at_sqrt_price(SQRT_PRICE_QUARTER_CENT, 0, 6), Some(0));
    assert_eq!(value_at_sqrt_price(u128::MAX, 0, 6), Some(0));
}

#[test]
fn display_price_of_unit_sqrt_price() {
    let one: u128 = 1 << 64;
    assert_eq!(display_price(one, 0, 0), Some(1_000_000));
    assert_eq!(display_price(one, 9, 6), Some(1_000_000_000));
    assert_eq!(display_price(one, 6, 9), Some(1_000));
    assert_eq!(display_price(one, 0, 12), Some(0));
    assert_eq!(display_price(0, 9, 6), Some(0));
}

#[test]
fn display_price_overflow_is_none() {
    assert_eq!(display_price(u128::MAX, 9, 6), None);
    assert_eq!(display_price(1 << 64, 100, 0), None);
}

#[test]
fn price_grows_with_sqrt_price() {
    let mut last = 0u128;
    let mut s: u128 = 1 << 50;
    while s < (1u128 << 80) {
        let p = display_price(s, 9, 6).unwrap();
        assert!(p >= last);
        last = p;
        let d = pricemath_sqrt_price_x64_to_price(s, 9, 6).unwrap();
        let d2 = pricemath_sqrt_price_x64_to_price(s + 1, 9, 6).unwrap();
        if d.scale == d2.scale {
            assert!(d.mantissa <= d2.mantissa);
        }
        s = s + s / 3 + 12345;
    }
}

#[test]
fn amounts_are_exact() {
    assert_eq!(u64_to_decimal(1_000_000_000, 9), Some(Decimal { mantissa: 1_000_000_000, scale: 9 }));
    assert_eq!(u64_to_decimal(123, 8), Some(Decimal { mantissa: 123, scale: 8 }));
    assert_eq!(u64_to_decimal(5, 0), Some(Decimal { mantissa: 5, scale: 0 }));
    assert_eq!(u64_to_decimal(5, -3), Some(Decimal { mantissa: 5_000, scale: 0 }));
    assert_eq!(u64_to_decimal(0, -100), Some(Decimal { mantissa: 0, scale: 0 }));
    assert_eq!(u64_to_decimal(1, -38), Some(Decimal { mantissa: 10u128.pow(38), scale: 0 }));
    assert_eq!(u64_to_decimal(4, -38), None);
    assert_eq!(u64_to_decimal(u64::MAX, 127), Some(Decimal { mantissa: u64::MAX as u128, scale: 127 }));
}

#[test]
fn pow10_limits() {
    assert_eq!(checked_pow10(0), Some(1));
    assert_eq!(checked_pow10(38), Some(10u128.pow(38)));
    assert_eq!(checked_pow10(39), None);
}

#[test]
fn wide_products() {
    assert_eq!(mul_wide(u128::MAX, u128::MAX), (u128::MAX - 1, 1));
    assert_eq!(mul_wide(1 << 64, 1 << 64), (1, 0));
    assert_eq!(mul_wide(3, 5), (0, 15));
}

#[test]
fn quote_negative_exponent() {
    let s: u128 = 1 << 64;
    assert_eq!(quote(s, 1_000, -2), Some(10));
    assert_eq!(quote(s, 1_000, -100), Some(0));
    assert_eq!(quote(s, 7, 3), Some(7_000));
}
