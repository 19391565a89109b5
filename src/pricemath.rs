//! Integer-only conversion of a Q64.64 square-root price into decimal
//! values. A `Decimal` stands for `mantissa / 10^scale`; prices keep as many
//! fractional digits as 128 bits allow, up to `MAX_SCALE`. The values
//! reported to a caller are in millionths (`DISPLAY_DIGITS`).
use vstd::prelude::*;

verus! {

/// Fractional decimal digits kept by every fixed-point result.
pub const DISPLAY_DIGITS: i32 = 6;

/// The most fractional decimal digits a `Decimal` keeps.
pub const MAX_SCALE: u32 = 28;

/// Fractional or significant digits every price keeps, at the least.
pub const PRECISION_DIGITS: u32 = 12;

/// The decimal number `mantissa / 10^scale`.
#[derive(Clone, Copy, Debug, PartialEq, Eq, Structural)]
pub struct Decimal {
    pub mantissa: u128,
    pub scale: u32,
}

/// `2^64`, the scale of a Q64.64 number.
pub const Q64: u128 = 0x1_0000_0000_0000_0000;

/// `2^64` as a mathematical integer.
pub open spec fn b64() -> int {
    0x1_0000_0000_0000_0000int
}

/// `2^128` as a mathematical integer.
pub open spec fn b128() -> int {
    0x1_0000_0000_0000_0000_0000_0000_0000_0000int
}

/// `10^n`.
pub open spec fn pow10(n: nat) -> nat
    decreases n,
{
    if n == 0 {
        1
    } else {
        10 * pow10((n - 1) as nat)
    }
}

/// `floor(s² · amount · 10^exp / 2^128)`: the value of `amount` units at the
/// squared Q64.64 price `s`, scaled by `10^exp`.
pub open spec fn quote_value(s: int, amount: int, exp: int) -> int {
    if exp >= 0 {
        (s * s * amount * pow10(exp as nat)) / b128()
    } else {
        (s * s * amount) / (b128() * pow10((-exp) as nat))
    }
}

/// When `quote` can carry out the computation in 128-bit words: for a
/// non-negative exponent, the multiplier `amount · 10^exp` and the result fit;
/// for a negative one, `floor(s² · amount / 2^128)` fits.
pub open spec fn quote_in_range(s: int, amount: int, exp: int) -> bool {
    if exp >= 0 {
        amount * pow10(exp as nat) <= u128::MAX && quote_value(s, amount, exp) <= u128::MAX
    } else {
        (s * s * amount) / b128() <= u128::MAX
    }
}

/// The display price of a pool token A in token B, in millionths:
/// `floor((s / 2^64)² · 10^(decimals_a - decimals_b) · 10^6)`.
pub open spec fn price_micro(s: int, decimals_a: int, decimals_b: int) -> int {
    quote_value(s, 1, DISPLAY_DIGITS + decimals_a - decimals_b)
}

/// The token-B value of `amount` raw units of token A, in millionths of
/// token B: `floor((s / 2^64)² · 10^(decimals_a - decimals_b) · amount / 10^decimals_a · 10^6)`;
/// the decimals of token A cancel out.
pub open spec fn value_micro(s: int, amount: int, decimals_b: int) -> int {
    quote_value(s, amount, DISPLAY_DIGITS - decimals_b)
}

/// `floor((s / 2^64)² · 10^(decimals_a - decimals_b) · 10^scale)`: the
/// price of token A in token B, with `scale` fractional decimal digits.
pub open spec fn price_at_scale(s: int, decimals_a: int, decimals_b: int, scale: int) -> int {
    quote_value(s, 1, decimals_a - decimals_b + scale)
}

proof fn lemma_pow10_positive(n: nat)
    ensures
        pow10(n) >= 1,
    decreases n,
{
    if n > 0 {
        lemma_pow10_positive((n - 1) as nat);
    }
}

proof fn lemma_pow10_grows(i: nat, n: nat)
    requires
        i <= n,
    ensures
        pow10(i) <= pow10(n),
    decreases n - i,
{
    if i < n {
        lemma_pow10_grows(i, (n - 1) as nat);
        lemma_pow10_positive((n - 1) as nat);
    }
}

/// `10^n`, or `None` where it exceeds `u128::MAX`.
pub fn checked_pow10(n: u32) -> (r: Option<u128>)
    ensures
        match r {
            Some(v) => v == pow10(n as nat),
            None => pow10(n as nat) > u128::MAX,
        },
{
    let mut acc: u128 = 1;
    let mut i: u32 = 0;
    while i < n
        invariant
            i <= n,
            acc == pow10(i as nat),
        decreases n - i,
    {
        match acc.checked_mul(10) {
            Some(v) => {
                acc = v;
            },
            None => {
                proof {
                    lemma_pow10_grows((i + 1) as nat, n as nat);
                }
                return None;
            },
        }
        i = i + 1;
    }
    Some(acc)
}

proof fn lemma_expand_product(a1: int, a0: int, b1: int, b0: int, bb: int)
    ensures
        (a1 * bb + a0) * (b1 * bb + b0) == (a1 * b1) * (bb * bb) + (a0 * b1 + a1 * b0) * bb + a0
            * b0,
{
    let x = a1 * bb;
    let y = b1 * bb;
    assert((x + a0) * (y + b0) == x * y + x * b0 + a0 * y + a0 * b0) by (nonlinear_arith);
    assert(x * y == (a1 * b1) * (bb * bb)) by (nonlinear_arith)
        requires
            x == a1 * bb,
            y == b1 * bb,
    ;
    assert(x * b0 + a0 * y == (a0 * b1 + a1 * b0) * bb) by (nonlinear_arith)
        requires
            x == a1 * bb,
            y == b1 * bb,
    ;
}

proof fn lemma_limb_product(x: int, y: int)
    requires
        0 <= x < b64(),
        0 <= y < b64(),
    ensures
        0 <= x * y < b128(),
{
    assert(0 <= x * y < b64() * b64()) by (nonlinear_arith)
        requires
            0 <= x < b64(),
            0 <= y < b64(),
    ;
}

/// The full 256-bit product of two 128-bit words, as `(high, low)` words.
pub fn mul_wide(a: u128, b: u128) -> (r: (u128, u128))
    ensures
        r.0 * b128() + r.1 == a * b,
{
    let a1 = a / Q64;
    let a0 = a % Q64;
    let b1 = b / Q64;
    let b0 = b % Q64;
    proof {
        lemma_limb_product(a0 as int, b0 as int);
        lemma_limb_product(a0 as int, b1 as int);
        lemma_limb_product(a1 as int, b0 as int);
        lemma_limb_product(a1 as int, b1 as int);
    }
    let p00 = a0 * b0;
    let p01 = a0 * b1;
    let p10 = a1 * b0;
    let p11 = a1 * b1;
    let mid = p00 / Q64 + p01 % Q64 + p10 % Q64;
    let lo = p00 % Q64 + (mid % Q64) * Q64;
    let ghost hi_int: int = p11 + p01 / Q64 + p10 / Q64 + mid / Q64;
    proof {
        lemma_expand_product(a1 as int, a0 as int, b1 as int, b0 as int, b64());
        assert(hi_int * b128() + lo == a * b);
        assert(a * b < b128() * b128()) by (nonlinear_arith)
            requires
                0 <= a < b128(),
                0 <= b < b128(),
        ;
        assert(hi_int < b128()) by (nonlinear_arith)
            requires
                hi_int * b128() + lo == a * b,
                0 <= lo,
                a * b < b128() * b128(),
        ;
    }
    let hi = p11 + p01 / Q64 + p10 / Q64 + mid / Q64;
    (hi, lo)
}

/// `floor(x · m / 2^128)` for the 256-bit `x = x_hi · 2^128 + x_lo`, or `None`
/// where it exceeds `u128::MAX`.
pub fn mul_shift_128(x_hi: u128, x_lo: u128, m: u128) -> (r: Option<u128>)
    ensures
        ({
            let v = ((x_hi * b128() + x_lo) * m) / b128();
            match r {
                Some(q) => q == v,
                None => v > u128::MAX,
            }
        }),
{
    let (h2, l2) = mul_wide(x_lo, m);
    proof {
        let x = x_hi * b128() + x_lo;
        assert(x * m == (x_hi * m + h2) * b128() + l2) by (nonlinear_arith)
            requires
                x == x_hi * b128() + x_lo,
                h2 * b128() + l2 == x_lo * m,
        ;
        vstd::arithmetic::div_mod::lemma_fundamental_div_mod_converse(
            x * m,
            b128(),
            x_hi * m + h2,
            l2 as int,
        );
    }
    match x_hi.checked_mul(m) {
        Some(p) => p.checked_add(h2),
        None => {
            proof {
                assert(x_hi * m + h2 >= x_hi * m) by (nonlinear_arith)
                    requires
                        h2 >= 0,
                ;
            }
            None
        },
    }
}

/// `floor(s² · m / 2^128)`, or `None` where it exceeds `u128::MAX`.
pub fn scaled_square(s: u128, m: u128) -> (r: Option<u128>)
    ensures
        match r {
            Some(q) => q == (s * s * m) / b128(),
            None => (s * s * m) / b128() > u128::MAX,
        },
{
    let (hi, lo) = mul_wide(s, s);
    mul_shift_128(hi, lo, m)
}

proof fn lemma_quote_zero_amount(s: int, exp: int)
    ensures
        quote_value(s, 0, exp) == 0,
        quote_in_range(s, 0, exp),
{
    assert(s * s * 0 == 0) by (nonlinear_arith);
    assert(s * s * 0 * pow10(exp as nat) == 0) by (nonlinear_arith);
    if exp < 0 {
        lemma_pow10_positive((-exp) as nat);
        assert(b128() * pow10((-exp) as nat) > 0) by (nonlinear_arith)
            requires
                pow10((-exp) as nat) >= 1,
        ;
    }
}

/// `quote_value(s, amount, exp)`, where `quote_in_range(s, amount, exp)`;
/// `None` otherwise.
pub fn quote(s: u128, amount: u128, exp: i32) -> (r: Option<u128>)
    ensures
        quote_in_range(s as int, amount as int, exp as int) ==> r == Some(
            quote_value(s as int, amount as int, exp as int) as u128,
        ),
        !quote_in_range(s as int, amount as int, exp as int) ==> r is None,
{
    if amount == 0 {
        proof {
            lemma_quote_zero_amount(s as int, exp as int);
        }
        return Some(0);
    }
    if exp >= 0 {
        let ghost e = exp as nat;
        let p = match checked_pow10(exp as u32) {
            Some(p) => p,
            None => {
                proof {
                    assert(amount * pow10(e) >= pow10(e)) by (nonlinear_arith)
                        requires
                            amount >= 1,
                    ;
                }
                return None;
            },
        };
        let m = match amount.checked_mul(p) {
            Some(m) => m,
            None => {
                return None;
            },
        };
        proof {
            assert(s * s * amount * pow10(e) == s * s * m) by (nonlinear_arith)
                requires
                    m == amount * pow10(e),
            ;
        }
        scaled_square(s, m)
    } else {
        let k: u32 = (0i64 - exp as i64) as u32;
        let ghost x = s * s * amount;
        let q = match scaled_square(s, amount) {
            Some(q) => q,
            None => {
                return None;
            },
        };
        proof {
            lemma_pow10_positive(k as nat);
            assert(x >= 0) by (nonlinear_arith)
                requires
                    x == s * s * amount,
            ;
            vstd::arithmetic::div_mod::lemma_div_denominator(x, b128(), pow10(k as nat) as int);
        }
        match checked_pow10(k) {
            Some(d) => Some(q / d),
            None => {
                proof {
                    vstd::arithmetic::div_mod::lemma_basic_div(q as int, pow10(k as nat) as int);
                }
                Some(0)
            },
        }
    }
}

/// The pool's display price of token A in token B, in millionths, from its
/// Q64.64 square-root price: `floor((s / 2^64)² · 10^(decimals_a - decimals_b) · 10^6)`.
/// `None` where that does not fit the 128-bit computation.
pub fn display_price(sqrt_price_x64: u128, decimals_a: i8, decimals_b: i8) -> (r:
    Option<u128>)
    ensures
        ({
            let exp = DISPLAY_DIGITS + decimals_a - decimals_b;
            &&& quote_in_range(sqrt_price_x64 as int, 1, exp) ==> r == Some(
                price_micro(sqrt_price_x64 as int, decimals_a as int, decimals_b as int) as u128,
            )
            &&& !quote_in_range(sqrt_price_x64 as int, 1, exp) ==> r is None
        }),
{
    let exp: i32 = DISPLAY_DIGITS + decimals_a as i32 - decimals_b as i32;
    quote(sqrt_price_x64, 1, exp)
}

proof fn lemma_times_ten_div(t: int, d: int)
    requires
        t >= 0,
        d > 0,
    ensures
        (10 * t) / d <= 10 * (t / d) + 9,
{
    let q = t / d;
    let r = t % d;
    vstd::arithmetic::div_mod::lemma_fundamental_div_mod(t, d);
    assert(10 * t == (10 * q) * d + 10 * r) by (nonlinear_arith)
        requires
            t == d * q + r,
    ;
    assert(10 * t < (10 * q + 10) * d) by (nonlinear_arith)
        requires
            10 * t == (10 * q) * d + 10 * r,
            r < d,
    ;
    vstd::arithmetic::div_mod::lemma_div_is_ordered(10 * t, (10 * q + 10) * d - 1, d);
    assert((10 * q + 10) * d - 1 == (10 * q + 9) * d + (d - 1)) by (nonlinear_arith);
    vstd::arithmetic::div_mod::lemma_fundamental_div_mod_converse(
        (10 * q + 10) * d - 1,
        d,
        10 * q + 9,
        d - 1,
    );
}

proof fn lemma_div_by_tenfold(n: int, d: int)
    requires
        n >= 0,
        d > 0,
    ensures
        n / d <= 10 * (n / (10 * d)) + 9,
{
    let q = n / (10 * d);
    let r = n % (10 * d);
    vstd::arithmetic::div_mod::lemma_fundamental_div_mod(n, 10 * d);
    assert(n == (10 * q) * d + r) by (nonlinear_arith)
        requires
            n == (10 * d) * q + r,
    ;
    assert(n <= (10 * q + 10) * d - 1) by (nonlinear_arith)
        requires
            n == (10 * q) * d + r,
            r < 10 * d,
    ;
    vstd::arithmetic::div_mod::lemma_div_is_ordered(n, (10 * q + 10) * d - 1, d);
    assert((10 * q + 10) * d - 1 == (10 * q + 9) * d + (d - 1)) by (nonlinear_arith);
    vstd::arithmetic::div_mod::lemma_fundamental_div_mod_converse(
        (10 * q + 10) * d - 1,
        d,
        10 * q + 9,
        d - 1,
    );
}

/// One more decimal digit at most multiplies the truncated value by ten, plus nine.
proof fn lemma_next_digit(s: int, x: int)
    requires
        s >= 0,
    ensures
        quote_value(s, 1, x + 1) <= 10 * quote_value(s, 1, x) + 9,
{
    let n = s * s * 1;
    assert(n >= 0) by (nonlinear_arith)
        requires
            n == s * s * 1,
    ;
    if x >= 0 {
        let t = n * pow10(x as nat);
        lemma_pow10_positive(x as nat);
        assert(t >= 0) by (nonlinear_arith)
            requires
                t == n * pow10(x as nat),
                n >= 0,
        ;
        assert(pow10((x + 1) as nat) == 10 * pow10(x as nat));
        assert(n * pow10((x + 1) as nat) == 10 * t) by (nonlinear_arith)
            requires
                t == n * pow10(x as nat),
                pow10((x + 1) as nat) == 10 * pow10(x as nat),
        ;
        lemma_times_ten_div(t, b128());
    } else {
        let j = (-x - 1) as nat;
        lemma_pow10_positive(j);
        let d = b128() * pow10(j);
        assert(d > 0) by (nonlinear_arith)
            requires
                d == b128() * pow10(j),
                pow10(j) >= 1,
        ;
        assert(pow10((-x) as nat) == 10 * pow10(j));
        assert(b128() * pow10((-x) as nat) == 10 * d) by (nonlinear_arith)
            requires
                d == b128() * pow10(j),
                pow10((-x) as nat) == 10 * pow10(j),
        ;
        if x + 1 == 0 {
            assert(pow10(0) == 1);
            assert(d == b128());
            assert(n * pow10(0) == n);
        }
        lemma_div_by_tenfold(n, d);
    }
}

proof fn lemma_quote_nonneg(s: int, x: int)
    requires
        s >= 0,
    ensures
        quote_value(s, 1, x) >= 0,
{
    assert(s * s * 1 >= 0) by (nonlinear_arith)
        requires
            s >= 0,
    ;
    if x >= 0 {
        lemma_pow10_positive(x as nat);
        assert(s * s * 1 * pow10(x as nat) >= 0) by (nonlinear_arith)
            requires
                s * s * 1 >= 0,
                pow10(x as nat) >= 1,
        ;
    } else {
        lemma_pow10_positive((-x) as nat);
        assert(b128() * pow10((-x) as nat) > 0) by (nonlinear_arith)
            requires
                pow10((-x) as nat) >= 1,
        ;
    }
}

proof fn lemma_in_range_fits(s: int, x: int)
    requires
        s >= 0,
        quote_in_range(s, 1, x),
    ensures
        quote_value(s, 1, x) <= u128::MAX,
{
    if x < 0 {
        let n = s * s * 1;
        let p = pow10((-x) as nat) as int;
        assert(n >= 0) by (nonlinear_arith)
            requires
                n == s * s * 1,
        ;
        lemma_pow10_positive((-x) as nat);
        vstd::arithmetic::div_mod::lemma_div_denominator(n, b128(), p);
        vstd::arithmetic::div_mod::lemma_div_nonincreasing(n / b128(), p);
    }
}

proof fn lemma_pow10_38()
    ensures
        pow10(38) <= u128::MAX,
        pow10(PRECISION_DIGITS as nat) == 1_000_000_000_000,
{
    reveal_with_fuel(pow10, 39);
}

/// A price that could not keep one more digit is already large: at least
/// `PRECISION_DIGITS` significant digits.
proof fn lemma_precision(s: int, x: int)
    requires
        0 <= s <= u128::MAX,
        x + 1 <= 38,
        !quote_in_range(s, 1, x + 1),
    ensures
        quote_value(s, 1, x) >= pow10(PRECISION_DIGITS as nat),
{
    lemma_pow10_38();
    assert(s * s * 1 < b128() * b128()) by (nonlinear_arith)
        requires
            0 <= s <= u128::MAX,
    ;
    if x + 1 < 0 {
        vstd::arithmetic::div_mod::lemma_div_is_ordered(s * s * 1, b128() * b128() - 1, b128());
        vstd::arithmetic::div_mod::lemma_fundamental_div_mod_converse(
            b128() * b128() - 1,
            b128(),
            b128() - 1,
            b128() - 1,
        );
    } else {
        lemma_pow10_grows((x + 1) as nat, 38);
        lemma_next_digit(s, x);
    }
}

/// The pool's price of token A in token B from its Q64.64 square-root price:
/// `(s / 2^64)² · 10^(decimals_a - decimals_b)`, truncated at the largest
/// scale up to `MAX_SCALE` at which it fits the 128-bit computation
/// (`quote_in_range`). The
/// price then keeps at least `PRECISION_DIGITS` fractional digits, or that
/// many significant digits, so its error is below `10^-12 · max(1, price)`
/// (only a decimal gap beyond 26 can narrow that). `None` where the price
/// does not fit even with no fractional digit.
pub fn pricemath_sqrt_price_x64_to_price(sqrt_price_x64: u128, decimals_a: i8, decimals_b: i8) -> (r:
    Option<Decimal>)
    ensures
        r matches Some(d) ==> {
            &&& d.scale <= MAX_SCALE
            &&& d.mantissa == price_at_scale(
                sqrt_price_x64 as int,
                decimals_a as int,
                decimals_b as int,
                d.scale as int,
            )
            &&& quote_in_range(sqrt_price_x64 as int, 1, decimals_a - decimals_b + d.scale)
            &&& forall|j: int|
                d.scale < j <= MAX_SCALE ==> !#[trigger] quote_in_range(
                    sqrt_price_x64 as int,
                    1,
                    decimals_a - decimals_b + j,
                )
            &&& (d.scale >= PRECISION_DIGITS || d.mantissa >= pow10(PRECISION_DIGITS as nat)
                || decimals_a - decimals_b > 26)
        },
        r is None ==> forall|k: int|
            0 <= k <= MAX_SCALE ==> !#[trigger] quote_in_range(
                sqrt_price_x64 as int,
                1,
                decimals_a - decimals_b + k,
            ),
{
    let e: i32 = decimals_a as i32 - decimals_b as i32;
    let mut k: u32 = MAX_SCALE + 1;
    while k > 0
        invariant
            k <= MAX_SCALE + 1,
            e == decimals_a - decimals_b,
            forall|j: int|
                k <= j <= MAX_SCALE ==> !#[trigger] quote_in_range(sqrt_price_x64 as int, 1, e + j),
        decreases k,
    {
        k = k - 1;
        if let Some(m) = quote(sqrt_price_x64, 1, e + k as i32) {
            proof {
                assert(quote_in_range(sqrt_price_x64 as int, 1, (e + k) as int));
                lemma_quote_nonneg(sqrt_price_x64 as int, e + k);
                lemma_in_range_fits(sqrt_price_x64 as int, e + k);
                if k < MAX_SCALE {
                    let j = k + 1;
                    assert(!quote_in_range(sqrt_price_x64 as int, 1, e + j));
                    assert(e + j == decimals_a - decimals_b + k + 1);
                }
                if k < PRECISION_DIGITS && e <= 26 {
                    lemma_precision(sqrt_price_x64 as int, e + k);
                }
            }
            return Some(Decimal { mantissa: m, scale: k });
        }
    }
    None
}

/// `amount / 10^decimals`, exactly. With negative `decimals` the amount is
/// scaled up, and `None` comes exactly where that exceeds `u128::MAX`.
pub fn u64_to_decimal(amount: u64, decimals: i8) -> (r: Option<Decimal>)
    ensures
        decimals >= 0 ==> r == Some(Decimal { mantissa: amount as u128, scale: decimals as u32 }),
        decimals < 0 && amount * pow10((-decimals) as nat) <= u128::MAX ==> r == Some(
            Decimal { mantissa: (amount * pow10((-decimals) as nat)) as u128, scale: 0 },
        ),
        decimals < 0 && amount * pow10((-decimals) as nat) > u128::MAX ==> r is None,
{
    if decimals >= 0 {
        return Some(Decimal { mantissa: amount as u128, scale: decimals as u32 });
    }
    let k: u32 = (0i32 - decimals as i32) as u32;
    let ghost e = k as nat;
    if amount == 0 {
        assert(0 * pow10(e) == 0);
        return Some(Decimal { mantissa: 0, scale: 0 });
    }
    match checked_pow10(k) {
        Some(p) => match (amount as u128).checked_mul(p) {
            Some(m) => Some(Decimal { mantissa: m, scale: 0 }),
            None => None,
        },
        None => {
            proof {
                assert(amount * pow10(e) >= pow10(e)) by (nonlinear_arith)
                    requires
                        amount >= 1,
                ;
            }
            None
        },
    }
}

/// The token-B value, in millionths of token B, of `amount` raw units of
/// token A at the Q64.64 square-root price `s`. `None` where that does not
/// fit the 128-bit computation.
pub fn value_at_sqrt_price(sqrt_price_x64: u128, amount: u64, decimals_b: i8) -> (r: Option<u128>)
    ensures
        ({
            let exp = DISPLAY_DIGITS - decimals_b;
            &&& quote_in_range(sqrt_price_x64 as int, amount as int, exp) ==> r == Some(
                value_micro(sqrt_price_x64 as int, amount as int, decimals_b as int) as u128,
            )
            &&& !quote_in_range(sqrt_price_x64 as int, amount as int, exp) ==> r is None
        }),
{
    let exp: i32 = DISPLAY_DIGITS - decimals_b as i32;
    quote(sqrt_price_x64, amount as u128, exp)
}

proof fn lemma_quote_monotonic(s1: int, s2: int, amount: int, exp: int)
    requires
        0 <= s1 <= s2,
        0 <= amount,
    ensures
        quote_value(s1, amount, exp) <= quote_value(s2, amount, exp),
{
    assert(s1 * s1 * amount <= s2 * s2 * amount) by (nonlinear_arith)
        requires
            0 <= s1 <= s2,
            0 <= amount,
    ;
    if exp >= 0 {
        let p = pow10(exp as nat) as int;
        assert(s1 * s1 * amount * p <= s2 * s2 * amount * p) by (nonlinear_arith)
            requires
                s1 * s1 * amount <= s2 * s2 * amount,
                p >= 0,
        ;
        vstd::arithmetic::div_mod::lemma_div_is_ordered(s1 * s1 * amount * p, s2 * s2 * amount * p, b128());
    } else {
        let p = pow10((-exp) as nat) as int;
        lemma_pow10_positive((-exp) as nat);
        assert(b128() * p > 0) by (nonlinear_arith)
            requires
                p >= 1,
        ;
        vstd::arithmetic::div_mod::lemma_div_is_ordered(s1 * s1 * amount, s2 * s2 * amount, b128() * p);
    }
}

/// For fixed decimals and any number of fractional digits, the price never
/// decreases as the square-root price grows.
pub proof fn lemma_price_monotonic(s1: u128, s2: u128, decimals_a: i8, decimals_b: i8, scale: int)
    requires
        s1 <= s2,
    ensures
        price_at_scale(s1 as int, decimals_a as int, decimals_b as int, scale) <= price_at_scale(
            s2 as int,
            decimals_a as int,
            decimals_b as int,
            scale,
        ),
        price_micro(s1 as int, decimals_a as int, decimals_b as int) <= price_micro(
            s2 as int,
            decimals_a as int,
            decimals_b as int,
        ),
{
    lemma_quote_monotonic(s1 as int, s2 as int, 1, decimals_a - decimals_b + scale);
    lemma_quote_monotonic(s1 as int, s2 as int, 1, DISPLAY_DIGITS + decimals_a - decimals_b);
}

} // verus!
