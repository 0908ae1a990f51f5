//! Saturating fixed-point arithmetic.
//!
//! Every physical quantity of the simulation is a signed 64-bit integer that
//! counts thousandths: a length of `1500` is one and a half world units, a
//! coefficient of `300` is `0.3`. Time is counted in microseconds. Results that
//! leave the representable range are pinned to its nearest end, so no
//! operation of this module can overflow or fail.

use vstd::prelude::*;

verus! {

/// Number of sub-units in one unit: the fixed-point denominator.
pub const SCALE: i64 = 1000;

/// Number of microseconds in one second.
pub const MICROS_PER_SECOND: i64 = 1_000_000;

/// Largest magnitude a fixed-point value takes.
pub const FIXED_MAX: i64 = 0x7fff_ffff_ffff_ffff;

/// A point or a vector of the plane, in fixed-point components.
#[derive(Clone, Copy, PartialEq, Eq, Structural, Debug)]
pub struct Vec2 {
    pub x: i64,
    pub y: i64,
}

/// `v` pinned to the symmetric range `[-FIXED_MAX, FIXED_MAX]`.
pub open spec fn saturated(v: int) -> int {
    if v < -(FIXED_MAX as int) {
        -(FIXED_MAX as int)
    } else if v > FIXED_MAX as int {
        FIXED_MAX as int
    } else {
        v
    }
}

/// The quotient of `n` by a positive `d`, rounded toward zero.
pub open spec fn quotient(n: int, d: int) -> int
    recommends
        d > 0,
{
    if n >= 0 {
        n / d
    } else {
        -((-n) / d)
    }
}

/// The saturated product of `a` and `b` over the divisor `d`.
pub open spec fn scaled(a: int, b: int, d: int) -> int
    recommends
        d > 0,
{
    saturated(quotient(a * b, d))
}

/// The absolute value of `v`.
pub open spec fn magnitude(v: int) -> int {
    if v < 0 {
        -v
    } else {
        v
    }
}

/// `value` held inside `[low, high]`.
pub open spec fn clamped(value: int, low: int, high: int) -> int {
    if value < low {
        low
    } else if value > high {
        high
    } else {
        value
    }
}

/// What is left of a time after `dt` microseconds: it stops at zero.
pub open spec fn time_left(left: u64, dt: int) -> u64 {
    if dt >= left {
        0
    } else {
        (left - dt) as u64
    }
}

/// The largest natural number whose square does not exceed `n`.
pub open spec fn is_floor_sqrt(n: int, r: int) -> bool {
    &&& 0 <= r
    &&& r * r <= n
    &&& n < (r + 1) * (r + 1)
}

/// The square root of `n`, rounded down.
pub open spec fn floor_sqrt(n: int) -> int {
    choose|r: int| is_floor_sqrt(n, r)
}

/// A number has one rounded-down square root.
pub proof fn lemma_floor_sqrt_unique(n: int, r: int)
    requires
        is_floor_sqrt(n, r),
    ensures
        floor_sqrt(n) == r,
{
    let other = floor_sqrt(n);
    assert(is_floor_sqrt(n, other));
    assert(other == r) by (nonlinear_arith)
        requires
            0 <= r,
            r * r <= n,
            n < (r + 1) * (r + 1),
            0 <= other,
            other * other <= n,
            n < (other + 1) * (other + 1),
    ;
}

/// The rounded-down square root of a number that does not exceed the
/// square of `bound` does not exceed `bound`.
pub proof fn lemma_floor_sqrt_bounded(n: int, bound: int)
    requires
        0 <= n <= bound * bound,
        0 <= bound,
    ensures
        0 <= floor_sqrt(n) <= bound,
{
    lemma_floor_sqrt_exists(n);
    let root = floor_sqrt(n);
    assert(root <= bound) by (nonlinear_arith)
        requires
            0 <= root,
            root * root <= n,
            n <= bound * bound,
            0 <= bound,
    ;
}

/// Every natural number has a rounded-down square root.
pub proof fn lemma_floor_sqrt_exists(n: int)
    requires
        n >= 0,
    ensures
        is_floor_sqrt(n, floor_sqrt(n)),
{
    lemma_floor_sqrt_search(n, 0);
}

/// Searching upward from a root whose square does not exceed `n` finds the
/// rounded-down square root of `n`.
proof fn lemma_floor_sqrt_search(n: int, r: int)
    requires
        0 <= r,
        r * r <= n,
    ensures
        exists|root: int| is_floor_sqrt(n, root),
    decreases n - r,
{
    if n < (r + 1) * (r + 1) {
        assert(is_floor_sqrt(n, r));
    } else {
        assert(r < n) by (nonlinear_arith)
            requires
                0 <= r,
                (r + 1) * (r + 1) <= n,
        ;
        lemma_floor_sqrt_search(n, r + 1);
    }
}

/// Rounding toward zero commutes with negation.
pub proof fn lemma_quotient_odd(n: int, d: int)
    requires
        d > 0,
    ensures
        quotient(-n, d) == -quotient(n, d),
{
    if n == 0 {
        assert(0int / d == 0) by (nonlinear_arith)
            requires
                d > 0,
        ;
    }
}

/// Rounding toward zero keeps the order of the numerators.
pub proof fn lemma_quotient_monotonic(a: int, b: int, d: int)
    requires
        d > 0,
        a <= b,
    ensures
        quotient(a, d) <= quotient(b, d),
{
    if a >= 0 {
        vstd::arithmetic::div_mod::lemma_div_is_ordered(a, b, d);
    } else if b < 0 {
        vstd::arithmetic::div_mod::lemma_div_is_ordered(-b, -a, d);
    } else {
        vstd::arithmetic::div_mod::lemma_div_pos_is_pos(-a, d);
        vstd::arithmetic::div_mod::lemma_div_pos_is_pos(b, d);
    }
}

/// A quotient is no larger in magnitude than its numerator.
pub proof fn lemma_quotient_bounded(n: int, d: int)
    requires
        d > 0,
    ensures
        magnitude(quotient(n, d)) <= magnitude(n),
        n >= 0 ==> quotient(n, d) >= 0,
        n <= 0 ==> quotient(n, d) <= 0,
{
    if n >= 0 {
        vstd::arithmetic::div_mod::lemma_div_pos_is_pos(n, d);
        vstd::arithmetic::div_mod::lemma_div_nonincreasing(n, d);
    } else {
        vstd::arithmetic::div_mod::lemma_div_pos_is_pos(-n, d);
        vstd::arithmetic::div_mod::lemma_div_nonincreasing(-n, d);
    }
}

/// Saturation keeps the order of its arguments.
pub proof fn lemma_saturated_monotonic(a: int, b: int)
    requires
        a <= b,
    ensures
        saturated(a) <= saturated(b),
{
}

/// Pins a wide intermediate result to the fixed-point range.
pub fn saturate(v: i128) -> (r: i64)
    ensures
        r == saturated(v as int),
        -FIXED_MAX <= r <= FIXED_MAX,
{
    if v < -(FIXED_MAX as i128) {
        -FIXED_MAX
    } else if v > FIXED_MAX as i128 {
        FIXED_MAX
    } else {
        v as i64
    }
}

/// Saturating sum.
pub fn sat_add(a: i64, b: i64) -> (r: i64)
    ensures
        r == saturated(a + b),
{
    saturate(a as i128 + b as i128)
}

/// Saturating difference.
pub fn sat_sub(a: i64, b: i64) -> (r: i64)
    ensures
        r == saturated(a - b),
{
    saturate(a as i128 - b as i128)
}

/// Saturating negation.
pub fn sat_neg(a: i64) -> (r: i64)
    ensures
        r == saturated(-a),
{
    saturate(-(a as i128))
}

/// Quotient rounded toward zero, for a positive divisor.
pub fn div_toward_zero(n: i128, d: i128) -> (r: i128)
    requires
        d > 0,
        n > i128::MIN,
    ensures
        r == quotient(n as int, d as int),
{
    proof {
        lemma_quotient_bounded(n as int, d as int);
    }
    if n >= 0 {
        n / d
    } else {
        let m: i128 = -n;
        let q: i128 = m / d;
        -q
    }
}

/// Saturating `a * b / d`, the product taken exactly before the division.
pub fn mul_div(a: i64, b: i64, d: i64) -> (r: i64)
    requires
        d > 0,
    ensures
        r == scaled(a as int, b as int, d as int),
{
    proof {
        lemma_product_fits(a as int, b as int);
    }
    let product: i128 = (a as i128) * (b as i128);
    saturate(div_toward_zero(product, d as i128))
}

/// The product of two 64-bit values fits in 128 bits with room to spare.
pub proof fn lemma_product_fits(a: int, b: int)
    requires
        -0x8000_0000_0000_0000 <= a <= 0x8000_0000_0000_0000,
        -0x8000_0000_0000_0000 <= b <= 0x8000_0000_0000_0000,
    ensures
        -0x4000_0000_0000_0000_0000_0000_0000_0000 <= a * b
            <= 0x4000_0000_0000_0000_0000_0000_0000_0000,
{
    let m: int = 0x8000_0000_0000_0000;
    assert(magnitude(a) * magnitude(b) <= m * m) by (nonlinear_arith)
        requires
            0 <= magnitude(a) <= m,
            0 <= magnitude(b) <= m,
    ;
    assert(a * b == magnitude(a) * magnitude(b) || a * b == -(magnitude(a) * magnitude(b)))
        by (nonlinear_arith)
        requires
            magnitude(a) == a || magnitude(a) == -a,
            magnitude(b) == b || magnitude(b) == -b,
    ;
    assert(m * m == 0x4000_0000_0000_0000_0000_0000_0000_0000) by (nonlinear_arith)
        requires
            m == 0x8000_0000_0000_0000,
    ;
}

/// Integer square root, rounded down.
pub fn isqrt(n: u128) -> (r: u64)
    ensures
        r == floor_sqrt(n as int),
        is_floor_sqrt(n as int, r as int),
{
    let mut low: u128 = 0;
    let mut high: u128 = 0x1_0000_0000_0000_0000;
    assert(high * high == 0x1_0000_0000_0000_0000_0000_0000_0000_0000) by (nonlinear_arith)
        requires
            high == 0x1_0000_0000_0000_0000,
    ;
    while high - low > 1
        invariant
            low < high <= 0x1_0000_0000_0000_0000,
            low * low <= n,
            n < high * high,
        decreases high - low,
    {
        let mid: u128 = low + (high - low) / 2;
        assert(mid * mid < 0x1_0000_0000_0000_0000_0000_0000_0000_0000) by (nonlinear_arith)
            requires
                0 <= mid < 0x1_0000_0000_0000_0000,
        ;
        if mid * mid <= n {
            low = mid;
        } else {
            high = mid;
        }
    }
    proof {
        lemma_floor_sqrt_unique(n as int, low as int);
    }
    low as u64
}

/// Counts a time down by `dt` microseconds; it stops at zero.
pub fn count_down(left: u64, dt: u32) -> (rest: u64)
    ensures
        rest == time_left(left, dt as int),
{
    if dt as u64 >= left {
        0
    } else {
        left - dt as u64
    }
}

} // verus!
