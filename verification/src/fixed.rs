//! Fixed-point arithmetic.
//!
//! Every physical quantity of the simulation (a coordinate, a speed, a force
//! coefficient, a duration in seconds) is stored as a signed integer that
//! counts millionths: the stored value `v` stands for the number `v / UNIT`.
//! Products are brought back to that scale by a division that rounds toward
//! zero, so that a quantity and its negation are always treated alike.

use vstd::prelude::*;

verus! {

/// The stored value of the number one.
pub const UNIT: i64 = 1_000_000;

/// The magnitude of `a`.
pub open spec fn magnitude(a: int) -> int {
    if a < 0 {
        -a
    } else {
        a
    }
}

/// The quotient of `a` by a positive `b`, rounded toward zero.
pub open spec fn div_toward_zero(a: int, b: int) -> int {
    if a >= 0 {
        a / b
    } else {
        -((-a) / b)
    }
}

/// The fixed-point product of two stored values.
pub open spec fn fixed_mul(a: int, b: int) -> int {
    div_toward_zero(a * b, UNIT as int)
}

/// `r` is the integer square root of `n`, rounded down.
pub open spec fn is_floor_sqrt(n: int, r: int) -> bool {
    0 <= r && r * r <= n < (r + 1) * (r + 1)
}

/// The integer square root of `n`, rounded down.
pub open spec fn floor_sqrt(n: int) -> int {
    choose|r: int| is_floor_sqrt(n, r)
}

/// The integer square root of `n`, rounded up.
pub open spec fn ceil_sqrt(n: int) -> int {
    let r = floor_sqrt(n);
    if r * r == n {
        r
    } else {
        r + 1
    }
}

/// The product of two bounded numbers is bounded by the product of the bounds.
pub proof fn lemma_mul_bound(a: int, b: int, bound_a: int, bound_b: int)
    by (nonlinear_arith)
    requires
        magnitude(a) <= bound_a,
        magnitude(b) <= bound_b,
    ensures
        magnitude(a * b) <= bound_a * bound_b,
        -(bound_a * bound_b) <= a * b <= bound_a * bound_b,
{
}

/// Rounding toward zero never increases a magnitude, keeps the sign, and
/// loses less than one divisor.
pub proof fn lemma_div_toward_zero(a: int, b: int)
    requires
        b > 0,
    ensures
        magnitude(div_toward_zero(a, b)) == magnitude(a) / b,
        magnitude(div_toward_zero(a, b)) * b <= magnitude(a),
        magnitude(div_toward_zero(a, b)) <= magnitude(a),
        a >= 0 ==> div_toward_zero(a, b) >= 0,
        a <= 0 ==> div_toward_zero(a, b) <= 0,
        div_toward_zero(-a, b) == -div_toward_zero(a, b),
{
    let m = magnitude(a);
    vstd::arithmetic::div_mod::lemma_fundamental_div_mod(m, b);
    vstd::arithmetic::div_mod::lemma_div_pos_is_pos(m, b);
    vstd::arithmetic::div_mod::lemma_mod_bound(m, b);
    assert((m / b) * b <= m) by (nonlinear_arith)
        requires
            m == b * (m / b) + m % b,
            0 <= m % b,
    ;
    assert(m / b <= m) by (nonlinear_arith)
        requires
            (m / b) * b <= m,
            b >= 1,
            m / b >= 0,
    ;
}

/// A quotient whose dividend is bounded by a multiple of the divisor is
/// bounded by the multiplier.
pub proof fn lemma_div_toward_zero_bound(a: int, b: int, bound: int)
    requires
        b > 0,
        bound >= 0,
        magnitude(a) <= bound * b,
    ensures
        magnitude(div_toward_zero(a, b)) <= bound,
{
    lemma_div_toward_zero(a, b);
    let q = magnitude(div_toward_zero(a, b));
    assert(q <= bound) by (nonlinear_arith)
        requires
            q * b <= bound * b,
            b > 0,
    ;
}

/// A number has at most one integer square root.
pub proof fn lemma_floor_sqrt_unique(n: int, r1: int, r2: int)
    by (nonlinear_arith)
    requires
        is_floor_sqrt(n, r1),
        is_floor_sqrt(n, r2),
    ensures
        r1 == r2,
{
}

/// Every natural number has an integer square root.
pub proof fn lemma_floor_sqrt_exists(n: int)
    requires
        0 <= n,
    ensures
        is_floor_sqrt(n, floor_sqrt(n)),
    decreases n,
{
    if n == 0 {
        assert(is_floor_sqrt(0, 0));
    } else {
        lemma_floor_sqrt_exists(n - 1);
        let r = floor_sqrt(n - 1);
        if (r + 1) * (r + 1) <= n {
            assert(is_floor_sqrt(n, r + 1)) by (nonlinear_arith)
                requires
                    0 <= r,
                    r * r <= n - 1 < (r + 1) * (r + 1),
                    (r + 1) * (r + 1) <= n,
            ;
        } else {
            assert(is_floor_sqrt(n, r));
        }
    }
}

/// A number whose square is at most `n` is at most the square root of `n`
/// in magnitude.
pub proof fn lemma_root_dominates(a: int, n: int, r: int)
    by (nonlinear_arith)
    requires
        a * a <= n,
        is_floor_sqrt(n, r),
    ensures
        magnitude(a) <= r,
{
}

/// A square is never negative, and grows with the magnitude.
pub proof fn lemma_square_ordered(a: int, b: int)
    by (nonlinear_arith)
    requires
        magnitude(a) <= magnitude(b),
    ensures
        0 <= a * a <= b * b,
{
}

/// What the two square roots of a natural number satisfy.
pub proof fn lemma_sqrt_bounds(n: int, r: int)
    requires
        is_floor_sqrt(n, r),
    ensures
        floor_sqrt(n) == r,
        r <= ceil_sqrt(n) <= r + 1,
        n <= ceil_sqrt(n) * ceil_sqrt(n),
        n > 0 ==> ceil_sqrt(n) > 0,
{
    lemma_floor_sqrt_unique(n, r, floor_sqrt(n));
}

/// The square root grows with its argument.
pub proof fn lemma_floor_sqrt_monotonic(n1: int, r1: int, n2: int, r2: int)
    by (nonlinear_arith)
    requires
        is_floor_sqrt(n1, r1),
        is_floor_sqrt(n2, r2),
        n1 <= n2,
    ensures
        r1 <= r2,
{
}

/// `a * b / c`, rounded toward zero.
pub fn mul_div(a: i128, b: i128, c: i128) -> (q: i128)
    requires
        c > 0,
        i128::MIN < a * b <= i128::MAX,
    ensures
        q == div_toward_zero(a * b, c as int),
{
    let product: i128 = a * b;
    product / c
}

/// The fixed-point product of two stored values.
pub fn multiply(a: i64, b: i64) -> (q: i128)
    ensures
        q == fixed_mul(a as int, b as int),
{
    proof {
        lemma_mul_bound(a as int, b as int, 0x8000_0000_0000_0000, 0x8000_0000_0000_0000);
    }
    mul_div(a as i128, b as i128, UNIT as i128)
}

/// The integer square root of `n`, rounded down.
pub fn isqrt(n: u128) -> (r: u64)
    ensures
        is_floor_sqrt(n as int, r as int),
        r == floor_sqrt(n as int),
{
    let mut low: u128 = 0;
    let mut high: u128 = 0x1_0000_0000_0000_0000;
    while high - low > 1
        invariant
            low < high <= 0x1_0000_0000_0000_0000,
            low * low <= n,
            n < high * high,
        decreases high - low,
    {
        let middle: u128 = low + (high - low) / 2;
        assert(middle * middle <= 0xffff_ffff_ffff_ffff * 0xffff_ffff_ffff_ffff)
            by (nonlinear_arith)
            requires
                0 <= middle <= 0xffff_ffff_ffff_ffff,
        ;
        if middle * middle <= n {
            low = middle;
        } else {
            high = middle;
        }
    }
    proof {
        lemma_sqrt_bounds(n as int, low as int);
    }
    low as u64
}

/// The integer square root of `n`, rounded up.
pub fn isqrt_up(n: u128) -> (r: u128)
    ensures
        r == ceil_sqrt(n as int),
        n <= r * r,
        r <= 0x1_0000_0000_0000_0000,
{
    let root: u64 = isqrt(n);
    proof {
        lemma_sqrt_bounds(n as int, root as int);
        lemma_mul_bound(root as int, root as int, 0xffff_ffff_ffff_ffff, 0xffff_ffff_ffff_ffff);
    }
    let wide: u128 = root as u128;
    if wide * wide == n {
        wide
    } else {
        wide + 1
    }
}

} // verus!
