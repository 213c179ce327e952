//! Friction as a half-life.
//!
//! A speed left alone for a time `dt` is multiplied by `0.5^(dt / h)`, where
//! `h` is the half-life: the time in which friction halves it. The factor is
//! computed in integers. `dt / h` is split into its whole part and the first
//! binary digits of its fraction; each whole half-life halves the factor, and
//! the digit of weight `1 / 2^i` multiplies it by the `2^i`-th root of one
//! half, which is found by taking square roots `i` times.

use vstd::prelude::*;

use crate::fixed::{floor_sqrt, isqrt, lemma_sqrt_bounds, UNIT};

verus! {

/// The value of one in the finer scale that the roots are kept in.
pub const FINE_UNIT: u64 = 0x1_0000_0000;

/// How many binary digits of the fraction of `dt / h` count.
pub const FRACTION_DIGITS: u32 = 20;

/// The `2^i`-th root of one half, in the finer scale, each square root
/// rounded down.
pub open spec fn half_root(i: nat) -> int
    decreases i,
{
    if i == 0 {
        FINE_UNIT as int / 2
    } else {
        floor_sqrt(half_root((i - 1) as nat) * FINE_UNIT)
    }
}

/// The factor `accumulated`, multiplied by the root of one half for each of
/// the digits from the `i`-th on of the fraction `remainder / half_life`.
pub open spec fn fraction_decay(remainder: int, half_life: int, i: nat, accumulated: int) -> int
    decreases FRACTION_DIGITS + 1 - i,
{
    if i > FRACTION_DIGITS {
        accumulated
    } else if 2 * remainder >= half_life {
        fraction_decay(
            2 * remainder - half_life,
            half_life,
            i + 1,
            accumulated * half_root(i) / (FINE_UNIT as int),
        )
    } else {
        fraction_decay(2 * remainder, half_life, i + 1, accumulated)
    }
}

/// `x` halved `times` times, rounding down each time.
pub open spec fn halved(x: int, times: int) -> int
    decreases times,
{
    if times <= 0 || x == 0 {
        x
    } else {
        halved(x / 2, times - 1)
    }
}

/// The fixed-point factor by which friction multiplies a speed in the time
/// `dt`, for the half-life `half_life`.
pub open spec fn decay_of(dt: int, half_life: int) -> int {
    halved(
        fraction_decay(dt % half_life, half_life, 1, FINE_UNIT as int) * UNIT / (FINE_UNIT as int),
        dt / half_life,
    )
}

/// No root of one half is more than one.
pub proof fn lemma_half_root_bounds(i: nat)
    ensures
        0 <= half_root(i) <= FINE_UNIT,
    decreases i,
{
    if i > 0 {
        lemma_half_root_bounds((i - 1) as nat);
        let previous = half_root((i - 1) as nat);
        let product = previous * FINE_UNIT;
        assert(0 <= product <= FINE_UNIT * FINE_UNIT) by (nonlinear_arith)
            requires
                0 <= previous <= FINE_UNIT,
                product == previous * FINE_UNIT,
        ;
        crate::fixed::lemma_floor_sqrt_exists(product);
        crate::fixed::lemma_floor_sqrt_monotonic(
            product,
            half_root(i),
            FINE_UNIT * FINE_UNIT,
            FINE_UNIT as int,
        );
    }
}

/// A fraction of zero leaves the factor as it is.
pub proof fn lemma_fraction_decay_of_zero(half_life: int, i: nat, accumulated: int)
    requires
        half_life > 0,
    ensures
        fraction_decay(0, half_life, i, accumulated) == accumulated,
    decreases FRACTION_DIGITS + 1 - i,
{
    if i <= FRACTION_DIGITS {
        lemma_fraction_decay_of_zero(half_life, i + 1, accumulated);
    }
}

/// The factor after the digits of the fraction is between zero and the factor
/// before them.
pub proof fn lemma_fraction_decay_bounds(remainder: int, half_life: int, i: nat, accumulated: int)
    requires
        0 <= accumulated,
    ensures
        0 <= fraction_decay(remainder, half_life, i, accumulated) <= accumulated,
    decreases FRACTION_DIGITS + 1 - i,
{
    if i <= FRACTION_DIGITS {
        if 2 * remainder >= half_life {
            lemma_half_root_bounds(i);
            let root = half_root(i);
            let next = accumulated * root / (FINE_UNIT as int);
            assert(0 <= accumulated * root <= accumulated * FINE_UNIT) by (nonlinear_arith)
                requires
                    0 <= accumulated,
                    0 <= root <= FINE_UNIT,
            ;
            vstd::arithmetic::div_mod::lemma_div_is_ordered(
                accumulated * root,
                accumulated * FINE_UNIT,
                FINE_UNIT as int,
            );
            vstd::arithmetic::div_mod::lemma_div_multiples_vanish(accumulated, FINE_UNIT as int);
            vstd::arithmetic::div_mod::lemma_div_pos_is_pos(accumulated * root, FINE_UNIT as int);
            lemma_fraction_decay_bounds(2 * remainder - half_life, half_life, i + 1, next);
        } else {
            lemma_fraction_decay_bounds(2 * remainder, half_life, i + 1, accumulated);
        }
    }
}

/// Halving keeps a number between zero and itself.
pub proof fn lemma_halved_bounds(x: int, times: int)
    requires
        0 <= x,
    ensures
        0 <= halved(x, times) <= x,
    decreases times,
{
    if times > 0 && x != 0 {
        lemma_halved_bounds(x / 2, times - 1);
    }
}

/// The factor is a share: between zero and one.
pub proof fn lemma_decay_is_share(dt: int, half_life: int)
    requires
        0 <= dt,
        0 < half_life,
    ensures
        0 <= decay_of(dt, half_life) <= UNIT,
{
    let fine = fraction_decay(dt % half_life, half_life, 1, FINE_UNIT as int);
    lemma_fraction_decay_bounds(dt % half_life, half_life, 1, FINE_UNIT as int);
    lemma_halved_bounds(fine * UNIT / (FINE_UNIT as int), dt / half_life);
}

/// After a whole number of half-lives the factor is one, halved that many
/// times: one after no time at all, a half after one half-life.
pub proof fn lemma_decay_of_whole_half_lives(count: int, half_life: int)
    requires
        0 <= count,
        0 < half_life,
    ensures
        decay_of(count * half_life, half_life) == halved(UNIT as int, count),
        decay_of(0, half_life) == UNIT,
        decay_of(half_life, half_life) == UNIT / 2,
{
    vstd::arithmetic::div_mod::lemma_fundamental_div_mod_converse(
        count * half_life,
        half_life,
        count,
        0,
    );
    vstd::arithmetic::div_mod::lemma_fundamental_div_mod_converse(0, half_life, 0, 0);
    vstd::arithmetic::div_mod::lemma_fundamental_div_mod_converse(half_life, half_life, 1, 0);
    lemma_fraction_decay_of_zero(half_life, 1, FINE_UNIT as int);
    reveal_with_fuel(halved, 2);
}

/// The factor `accumulated`, multiplied by the root of one half for every
/// digit from the `i`-th on: what a fraction makes of it whose digits are
/// all set.
pub open spec fn all_digits(i: nat, accumulated: int) -> int
    decreases FRACTION_DIGITS + 1 - i,
{
    if i > FRACTION_DIGITS {
        accumulated
    } else {
        all_digits(i + 1, accumulated * half_root(i) / (FINE_UNIT as int))
    }
}

/// The roots of one half, as numbers.
pub proof fn lemma_half_root_values()
    ensures
        half_root(1) == 3_037_000_499,
        half_root(2) == 3_611_622_602,
        half_root(3) == 3_938_502_375,
        half_root(4) == 4_112_874_772,
        half_root(5) == 4_202_935_002,
        half_root(6) == 4_248_701_964,
        half_root(7) == 4_271_771_996,
        half_root(8) == 4_283_353_945,
        half_root(9) == 4_289_156_689,
        half_root(10) == 4_292_061_009,
        half_root(11) == 4_293_513_906,
        half_root(12) == 4_294_240_539,
        half_root(13) == 4_294_603_902,
        half_root(14) == 4_294_785_595,
        half_root(15) == 4_294_876_444,
        half_root(16) == 4_294_921_869,
        half_root(17) == 4_294_944_582,
        half_root(18) == 4_294_955_938,
        half_root(19) == 4_294_961_616,
        half_root(20) == 4_294_964_455,
{
    assert(half_root(0) == 2_147_483_648);
    assert(half_root(1) == 3_037_000_499) by {
        lemma_sqrt_bounds(2_147_483_648 * FINE_UNIT, 3_037_000_499);
    }
    assert(half_root(2) == 3_611_622_602) by {
        lemma_sqrt_bounds(3_037_000_499 * FINE_UNIT, 3_611_622_602);
    }
    assert(half_root(3) == 3_938_502_375) by {
        lemma_sqrt_bounds(3_611_622_602 * FINE_UNIT, 3_938_502_375);
    }
    assert(half_root(4) == 4_112_874_772) by {
        lemma_sqrt_bounds(3_938_502_375 * FINE_UNIT, 4_112_874_772);
    }
    assert(half_root(5) == 4_202_935_002) by {
        lemma_sqrt_bounds(4_112_874_772 * FINE_UNIT, 4_202_935_002);
    }
    assert(half_root(6) == 4_248_701_964) by {
        lemma_sqrt_bounds(4_202_935_002 * FINE_UNIT, 4_248_701_964);
    }
    assert(half_root(7) == 4_271_771_996) by {
        lemma_sqrt_bounds(4_248_701_964 * FINE_UNIT, 4_271_771_996);
    }
    assert(half_root(8) == 4_283_353_945) by {
        lemma_sqrt_bounds(4_271_771_996 * FINE_UNIT, 4_283_353_945);
    }
    assert(half_root(9) == 4_289_156_689) by {
        lemma_sqrt_bounds(4_283_353_945 * FINE_UNIT, 4_289_156_689);
    }
    assert(half_root(10) == 4_292_061_009) by {
        lemma_sqrt_bounds(4_289_156_689 * FINE_UNIT, 4_292_061_009);
    }
    assert(half_root(11) == 4_293_513_906) by {
        lemma_sqrt_bounds(4_292_061_009 * FINE_UNIT, 4_293_513_906);
    }
    assert(half_root(12) == 4_294_240_539) by {
        lemma_sqrt_bounds(4_293_513_906 * FINE_UNIT, 4_294_240_539);
    }
    assert(half_root(13) == 4_294_603_902) by {
        lemma_sqrt_bounds(4_294_240_539 * FINE_UNIT, 4_294_603_902);
    }
    assert(half_root(14) == 4_294_785_595) by {
        lemma_sqrt_bounds(4_294_603_902 * FINE_UNIT, 4_294_785_595);
    }
    assert(half_root(15) == 4_294_876_444) by {
        lemma_sqrt_bounds(4_294_785_595 * FINE_UNIT, 4_294_876_444);
    }
    assert(half_root(16) == 4_294_921_869) by {
        lemma_sqrt_bounds(4_294_876_444 * FINE_UNIT, 4_294_921_869);
    }
    assert(half_root(17) == 4_294_944_582) by {
        lemma_sqrt_bounds(4_294_921_869 * FINE_UNIT, 4_294_944_582);
    }
    assert(half_root(18) == 4_294_955_938) by {
        lemma_sqrt_bounds(4_294_944_582 * FINE_UNIT, 4_294_955_938);
    }
    assert(half_root(19) == 4_294_961_616) by {
        lemma_sqrt_bounds(4_294_955_938 * FINE_UNIT, 4_294_961_616);
    }
    assert(half_root(20) == 4_294_964_455) by {
        lemma_sqrt_bounds(4_294_961_616 * FINE_UNIT, 4_294_964_455);
    }
}

/// A fraction whose digits are all set makes not less than one half of one.
pub proof fn lemma_all_digits_at_least_half()
    ensures
        all_digits(1, FINE_UNIT as int) == 2_147_485_046,
        all_digits(1, FINE_UNIT as int) >= FINE_UNIT / 2,
{
    lemma_half_root_values();
    assert(all_digits(21, 2_147_485_046) == 2_147_485_046);
    assert(all_digits(20, 2_147_486_467) == 2_147_485_046);
    assert(all_digits(19, 2_147_489_308) == 2_147_485_046);
    assert(all_digits(18, 2_147_494_988) == 2_147_485_046);
    assert(all_digits(17, 2_147_506_346) == 2_147_485_046);
    assert(all_digits(16, 2_147_529_060) == 2_147_485_046);
    assert(all_digits(15, 2_147_574_488) == 2_147_485_046);
    assert(all_digits(14, 2_147_665_347) == 2_147_485_046);
    assert(all_digits(13, 2_147_847_075) == 2_147_485_046);
    assert(all_digits(12, 2_148_210_577) == 2_147_485_046);
    assert(all_digits(11, 2_148_937_765) == 2_147_485_046);
    assert(all_digits(10, 2_150_392_878) == 2_147_485_046);
    assert(all_digits(9, 2_153_306_059) == 2_147_485_046);
    assert(all_digits(8, 2_159_144_265) == 2_147_485_046);
    assert(all_digits(7, 2_170_868_206) == 2_147_485_046);
    assert(all_digits(6, 2_194_507_412) == 2_147_485_046);
    assert(all_digits(5, 2_242_560_868) == 2_147_485_046);
    assert(all_digits(4, 2_341_847_521) == 2_147_485_046);
    assert(all_digits(3, 2_553_802_832) == 2_147_485_046);
    assert(all_digits(2, 3_037_000_499) == 2_147_485_046);
    assert(all_digits(1, 4_294_967_296) == 2_147_485_046);
}

/// No fraction makes less of a factor than the fraction whose digits are all
/// set makes of a smaller one.
pub proof fn lemma_fraction_decay_at_least(
    remainder: int,
    half_life: int,
    i: nat,
    accumulated: int,
    low: int,
)
    requires
        0 <= low <= accumulated,
    ensures
        all_digits(i, low) <= fraction_decay(remainder, half_life, i, accumulated),
    decreases FRACTION_DIGITS + 1 - i,
{
    if i <= FRACTION_DIGITS {
        lemma_half_root_bounds(i);
        let root = half_root(i);
        let next_low = low * root / (FINE_UNIT as int);
        let next = accumulated * root / (FINE_UNIT as int);
        assert(0 <= low * root <= accumulated * root <= accumulated * FINE_UNIT)
            by (nonlinear_arith)
            requires
                0 <= low <= accumulated,
                0 <= root <= FINE_UNIT,
        ;
        vstd::arithmetic::div_mod::lemma_div_is_ordered(
            low * root,
            accumulated * root,
            FINE_UNIT as int,
        );
        vstd::arithmetic::div_mod::lemma_div_is_ordered(
            accumulated * root,
            accumulated * FINE_UNIT,
            FINE_UNIT as int,
        );
        vstd::arithmetic::div_mod::lemma_div_multiples_vanish(accumulated, FINE_UNIT as int);
        vstd::arithmetic::div_mod::lemma_div_pos_is_pos(low * root, FINE_UNIT as int);
        if 2 * remainder >= half_life {
            lemma_fraction_decay_at_least(
                2 * remainder - half_life,
                half_life,
                i + 1,
                next,
                next_low,
            );
        } else {
            lemma_fraction_decay_at_least(2 * remainder, half_life, i + 1, accumulated, next_low);
        }
    }
}

/// Halving keeps the order of two numbers.
pub proof fn lemma_halved_ordered(x: int, y: int, times: int)
    requires
        0 <= x <= y,
    ensures
        halved(x, times) <= halved(y, times),
    decreases times,
{
    if times > 0 && y != 0 {
        if x == 0 {
            lemma_halved_bounds(y / 2, times - 1);
        } else {
            lemma_halved_ordered(x / 2, y / 2, times - 1);
        }
    }
}

/// What a half-life means: after `k` whole half-lives and a part of one more,
/// the factor is at most one halved `k` times, and at least one half halved
/// `k` times.
pub proof fn lemma_decay_within_half_life(dt: int, half_life: int)
    requires
        0 <= dt,
        0 < half_life,
    ensures
        halved(UNIT as int / 2, dt / half_life) <= decay_of(dt, half_life) <= halved(
            UNIT as int,
            dt / half_life,
        ),
{
    let fine = fraction_decay(dt % half_life, half_life, 1, FINE_UNIT as int);
    lemma_fraction_decay_bounds(dt % half_life, half_life, 1, FINE_UNIT as int);
    lemma_fraction_decay_at_least(
        dt % half_life,
        half_life,
        1,
        FINE_UNIT as int,
        FINE_UNIT as int,
    );
    lemma_all_digits_at_least_half();
    let scaled = fine * UNIT / (FINE_UNIT as int);
    assert(UNIT as int / 2 <= scaled <= UNIT) by {
        vstd::arithmetic::div_mod::lemma_div_is_ordered(
            (FINE_UNIT / 2) * UNIT,
            fine * UNIT,
            FINE_UNIT as int,
        );
        vstd::arithmetic::div_mod::lemma_div_is_ordered(
            fine * UNIT,
            FINE_UNIT * UNIT,
            FINE_UNIT as int,
        );
    }
    lemma_halved_ordered(UNIT as int / 2, scaled, dt / half_life);
    lemma_halved_ordered(scaled, UNIT as int, dt / half_life);
}

/// The fixed-point factor by which friction multiplies a speed in the time
/// `dt`, for the half-life `half_life`.
pub fn decay_factor(dt: i64, half_life: i64) -> (factor: i64)
    requires
        0 <= dt,
        0 < half_life,
    ensures
        factor == decay_of(dt as int, half_life as int),
        0 <= factor <= UNIT,
        halved(UNIT as int / 2, dt / half_life) <= factor <= halved(UNIT as int, dt / half_life),
{
    proof {
        lemma_decay_within_half_life(dt as int, half_life as int);
    }
    let period: u64 = half_life as u64;
    let mut whole: u64 = (dt / half_life) as u64;
    let mut remainder: u64 = (dt % half_life) as u64;
    let mut accumulated: u64 = FINE_UNIT;
    let mut root: u64 = FINE_UNIT / 2;
    let mut i: u32 = 1;
    while i <= FRACTION_DIGITS
        invariant
            1 <= i <= FRACTION_DIGITS + 1,
            period == half_life,
            0 < period <= i64::MAX,
            remainder < period,
            accumulated <= FINE_UNIT,
            root == half_root((i - 1) as nat),
            root <= FINE_UNIT,
            fraction_decay((dt % half_life) as int, half_life as int, 1, FINE_UNIT as int)
                == fraction_decay(remainder as int, half_life as int, i as nat, accumulated as int),
        decreases FRACTION_DIGITS + 1 - i,
    {
        proof {
            lemma_half_root_bounds(i as nat);
            assert(root * FINE_UNIT <= FINE_UNIT * FINE_UNIT) by (nonlinear_arith)
                requires
                    root <= FINE_UNIT,
            ;
        }
        root = isqrt((root as u128) * (FINE_UNIT as u128));
        let doubled: u64 = 2 * remainder;
        if doubled >= period {
            proof {
                assert(accumulated * root <= FINE_UNIT * FINE_UNIT) by (nonlinear_arith)
                    requires
                        accumulated <= FINE_UNIT,
                        root <= FINE_UNIT,
                ;
                lemma_fraction_decay_bounds(
                    doubled - period,
                    half_life as int,
                    (i + 1) as nat,
                    accumulated * root / (FINE_UNIT as int),
                );
                assert(accumulated * root / (FINE_UNIT as int) <= FINE_UNIT) by {
                    vstd::arithmetic::div_mod::lemma_div_is_ordered(
                        accumulated * root,
                        FINE_UNIT * FINE_UNIT,
                        FINE_UNIT as int,
                    );
                }
            }
            remainder = doubled - period;
            accumulated = ((accumulated as u128) * (root as u128) / (FINE_UNIT as u128)) as u64;
        } else {
            remainder = doubled;
        }
        i += 1;
    }
    let scaled: u64 = ((accumulated as u128) * (UNIT as u128) / (FINE_UNIT as u128)) as u64;
    proof {
        vstd::arithmetic::div_mod::lemma_div_is_ordered(
            accumulated * UNIT,
            FINE_UNIT * UNIT,
            FINE_UNIT as int,
        );
        lemma_decay_is_share(dt as int, half_life as int);
    }
    let mut factor: u64 = scaled;
    while whole > 0 && factor > 0
        invariant
            factor <= UNIT,
            halved(scaled as int, dt / half_life) == halved(factor as int, whole as int),
        decreases whole,
    {
        factor = factor / 2;
        whole -= 1;
    }
    factor as i64
}

} // verus!
