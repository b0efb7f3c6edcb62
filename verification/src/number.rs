//! Numbers: IEEE 754 binary64, held as their 64 bits.
//!
//! Comparing a number, splitting it and taking its integer part need no
//! rounding, and are done here on the bits.

use vstd::arithmetic::power2::pow2;
use vstd::prelude::*;

verus! {

/// The sign bit.
pub const SIGN: u64 = 0x8000_0000_0000_0000;

/// The lowest bit of the exponent.
pub const ONE_EXPONENT: u64 = 0x10_0000_0000_0000;

/// The bits of positive infinity.
pub const INFINITY: u64 = 0x7ff0_0000_0000_0000;

/// The bits without the sign.
pub open spec fn magnitude(n: u64) -> int {
    if n >= SIGN {
        n - SIGN
    } else {
        n as int
    }
}

pub open spec fn negative(n: u64) -> bool {
    n >= SIGN
}

pub open spec fn nan(n: u64) -> bool {
    magnitude(n) > INFINITY
}

pub open spec fn finite(n: u64) -> bool {
    magnitude(n) < INFINITY
}

/// The exponent bits.
pub open spec fn exponent(n: u64) -> int {
    magnitude(n) / (ONE_EXPONENT as int)
}

/// The whole number that is scaled by the exponent.
pub open spec fn mantissa(n: u64) -> int {
    if exponent(n) == 0 {
        magnitude(n)
    } else {
        magnitude(n) % (ONE_EXPONENT as int) + ONE_EXPONENT
    }
}

/// The power of two that scales the mantissa.
pub open spec fn scale(n: u64) -> int {
    if exponent(n) == 0 {
        -1074
    } else {
        exponent(n) - 1075
    }
}

/// The value of a finite number, counted in units of 2 to the -1074.
pub open spec fn units(n: u64) -> int {
    let size = mantissa(n) * pow2((scale(n) + 1074) as nat);
    if negative(n) {
        -size
    } else {
        size
    }
}

/// The integer part of the size of a finite number.
pub open spec fn whole_size(n: u64) -> int {
    if scale(n) >= 0 {
        mantissa(n) * pow2(scale(n) as nat)
    } else {
        mantissa(n) / (pow2((-scale(n)) as nat) as int)
    }
}

/// The integer part of a finite number, towards zero.
pub open spec fn truncated(n: u64) -> int {
    if negative(n) {
        -whole_size(n)
    } else {
        whole_size(n)
    }
}

/// Whether a finite number is an integer.
pub open spec fn integral(n: u64) -> bool {
    scale(n) >= 0 || mantissa(n) % (pow2((-scale(n)) as nat) as int) == 0
}

/// A key that orders numbers other than NaN; both zeros have the key 0.
pub open spec fn rank(n: u64) -> int {
    if negative(n) {
        -magnitude(n)
    } else {
        magnitude(n)
    }
}

pub open spec fn less(a: u64, b: u64) -> bool {
    !nan(a) && !nan(b) && rank(a) < rank(b)
}

pub open spec fn less_equal(a: u64, b: u64) -> bool {
    !nan(a) && !nan(b) && rank(a) <= rank(b)
}

pub open spec fn equal(a: u64, b: u64) -> bool {
    !nan(a) && !nan(b) && rank(a) == rank(b)
}

/// Whether the number is one of the two zeros.
pub open spec fn zero(n: u64) -> bool {
    rank(n) == 0
}

/// The smaller of two numbers; a NaN gives way to the other.
pub open spec fn min(a: u64, b: u64) -> u64 {
    if nan(a) || less(b, a) {
        b
    } else {
        a
    }
}

/// The larger of two numbers; a NaN gives way to the other.
pub open spec fn max(a: u64, b: u64) -> u64 {
    if nan(a) || less(a, b) {
        b
    } else {
        a
    }
}

/// `x` moved into the range from `lo` to `hi`.
pub open spec fn clamp(x: u64, lo: u64, hi: u64) -> u64 {
    if less(x, lo) {
        lo
    } else if less(hi, x) {
        hi
    } else {
        x
    }
}

/// The number without its sign.
pub open spec fn abs(n: u64) -> u64 {
    magnitude(n) as u64
}

pub fn find_magnitude(n: u64) -> (r: u64)
    ensures
        r == magnitude(n),
{
    if n >= SIGN {
        n - SIGN
    } else {
        n
    }
}

pub fn is_nan(n: u64) -> (r: bool)
    ensures
        r == nan(n),
{
    find_magnitude(n) > INFINITY
}

pub fn is_finite(n: u64) -> (r: bool)
    ensures
        r == finite(n),
{
    find_magnitude(n) < INFINITY
}

pub fn is_zero(n: u64) -> (r: bool)
    ensures
        r == zero(n),
{
    find_magnitude(n) == 0
}

fn find_rank(n: u64) -> (r: i64)
    ensures
        r == rank(n),
{
    if n >= SIGN {
        let m: u64 = n - SIGN;
        -(m as i64)
    } else {
        n as i64
    }
}

pub fn is_less(a: u64, b: u64) -> (r: bool)
    ensures
        r == less(a, b),
{
    !is_nan(a) && !is_nan(b) && find_rank(a) < find_rank(b)
}

pub fn is_less_equal(a: u64, b: u64) -> (r: bool)
    ensures
        r == less_equal(a, b),
{
    !is_nan(a) && !is_nan(b) && find_rank(a) <= find_rank(b)
}

pub fn is_equal(a: u64, b: u64) -> (r: bool)
    ensures
        r == equal(a, b),
{
    !is_nan(a) && !is_nan(b) && find_rank(a) == find_rank(b)
}

pub fn find_min(a: u64, b: u64) -> (r: u64)
    ensures
        r == min(a, b),
{
    if is_nan(a) || is_less(b, a) {
        b
    } else {
        a
    }
}

pub fn find_max(a: u64, b: u64) -> (r: u64)
    ensures
        r == max(a, b),
{
    if is_nan(a) || is_less(a, b) {
        b
    } else {
        a
    }
}

pub fn find_clamp(x: u64, lo: u64, hi: u64) -> (r: u64)
    ensures
        r == clamp(x, lo, hi),
{
    if is_less(x, lo) {
        lo
    } else if is_less(hi, x) {
        hi
    } else {
        x
    }
}

/// The exponent bits and the mantissa.
pub fn split(n: u64) -> (r: (u64, u64))
    ensures
        r.0 == exponent(n),
        r.1 == mantissa(n),
        r.0 < 2048,
        r.1 < 2 * ONE_EXPONENT,
        r.0 > 0 ==> r.1 >= ONE_EXPONENT,
        finite(n) ==> r.0 < 2047,
{
    let m: u64 = find_magnitude(n);
    let e: u64 = m / ONE_EXPONENT;
    if e == 0 {
        (e, m)
    } else {
        (e, m % ONE_EXPONENT + ONE_EXPONENT)
    }
}

/// Whether the number is an integer.
pub fn is_integral(n: u64) -> (r: bool)
    requires
        finite(n),
    ensures
        r == integral(n),
{
    let (e, m) = split(n);
    if e >= 1075 {
        return true;
    }
    let k: u64 = if e == 0 {
        1074
    } else {
        1075 - e
    };
    if k >= 64 {
        proof {
            lemma_pow2_large(k as nat);
            vstd::arithmetic::div_mod::lemma_small_mod(m as nat, pow2(k as nat));
        }
        return m == 0;
    }
    let p: u64 = 1u64 << k;
    proof {
        lemma_one_shl(k);
        vstd::arithmetic::power2::lemma_pow2_pos(k as nat);
    }
    m % p == 0
}

proof fn lemma_pow2_large(k: nat)
    requires
        k >= 64,
    ensures
        pow2(k) > u64::MAX,
{
    vstd::arithmetic::power2::lemma2_to64();
    if k > 64 {
        vstd::arithmetic::power2::lemma_pow2_strictly_increases(64, k);
    }
}

proof fn lemma_shr(m: u64, k: u64)
    requires
        k < 64,
    ensures
        m >> k == m / (pow2(k as nat) as u64),
        pow2(k as nat) <= u64::MAX,
{
    vstd::bits::lemma_u64_shr_is_div(m, k);
    vstd::arithmetic::power2::lemma2_to64();
    vstd::arithmetic::power2::lemma_pow2_strictly_increases(k as nat, 64);
}

pub proof fn lemma_one_shl(k: u64)
    requires
        k < 64,
    ensures
        1u64 << k == pow2(k as nat),
{
    vstd::arithmetic::power2::lemma2_to64();
    vstd::arithmetic::power2::lemma_pow2_strictly_increases(k as nat, 64);
    vstd::bits::lemma_u64_shl_is_mul(1, k);
}

/// The integer part of the size of a number, if it is below 2 to the 64.
pub fn find_whole_size(n: u64) -> (r: Option<u64>)
    requires
        finite(n),
    ensures
        match r {
            Some(w) => w == whole_size(n),
            None => whole_size(n) > u64::MAX,
        },
{
    let (e, m) = split(n);
    if e >= 1075 {
        let k: u64 = e - 1075;
        if k > 11 {
            proof {
                assert(m >= ONE_EXPONENT);
                vstd::arithmetic::power2::lemma2_to64();
                if k > 12 {
                    vstd::arithmetic::power2::lemma_pow2_strictly_increases(12, k as nat);
                }
                assert(m * pow2(k as nat) >= 0x10_0000_0000_0000 * 4096) by (nonlinear_arith)
                    requires
                        m >= 0x10_0000_0000_0000,
                        pow2(k as nat) >= 4096,
                ;
            }
            return None;
        }
        proof {
            vstd::arithmetic::power2::lemma2_to64();
            if k < 11 {
                vstd::arithmetic::power2::lemma_pow2_strictly_increases(k as nat, 11);
            }
            assert(m * pow2(k as nat) <= u64::MAX) by (nonlinear_arith)
                requires
                    m < 0x20_0000_0000_0000,
                    pow2(k as nat) <= 2048,
            ;
            vstd::bits::lemma_u64_shl_is_mul(m, k);
        }
        return Some(m << k);
    }
    let k: u64 = if e == 0 {
        1074
    } else {
        1075 - e
    };
    if k >= 64 {
        proof {
            lemma_pow2_large(k as nat);
            vstd::arithmetic::div_mod::lemma_basic_div(m as int, pow2(k as nat) as int);
        }
        return Some(0);
    }
    proof {
        lemma_shr(m, k);
    }
    Some(m >> k)
}

/// The integer part of a number, if it fits in 64 bits with a sign.
pub fn truncate(n: u64) -> (r: Option<i64>)
    requires
        finite(n),
    ensures
        match r {
            Some(i) => i == truncated(n),
            None => truncated(n) < i64::MIN || truncated(n) > i64::MAX,
        },
{
    match find_whole_size(n) {
        None => None,
        Some(w) => if n >= SIGN {
            if w > SIGN {
                None
            } else if w == SIGN {
                Some(i64::MIN)
            } else {
                Some(-(w as i64))
            }
        } else if w >= SIGN {
            None
        } else {
            Some(w as i64)
        },
    }
}

/// The place that a number stands for as an index: it has to be an integer
/// and not below zero. One beyond 64 bits stands for the last place of all.
pub open spec fn index_of(n: u64) -> Option<int> {
    if finite(n) && integral(n) && rank(n) >= 0 {
        Some(if whole_size(n) <= u64::MAX {
            whole_size(n)
        } else {
            u64::MAX as int
        })
    } else {
        None
    }
}

pub fn find_index(n: u64) -> (r: Option<u64>)
    ensures
        match r {
            Some(i) => index_of(n) == Some(i as int),
            None => index_of(n) is None,
        },
{
    if is_finite(n) && is_integral(n) && find_rank(n) >= 0 {
        match find_whole_size(n) {
            Some(w) => Some(w),
            None => Some(u64::MAX),
        }
    } else {
        None
    }
}

/// From one number to the next, the value grows by what one counts in the mantissa.
pub proof fn lemma_units_step(b: u64)
    requires
        b < INFINITY,
    ensures
        units(b) == mantissa(b) * pow2((scale(b) + 1074) as nat),
        units((b + 1) as u64) == units(b) + pow2((scale(b) + 1074) as nat),
{
    let c = (b + 1) as u64;
    let one = ONE_EXPONENT as int;
    let m = mantissa(b);
    let t = (scale(b) + 1074) as nat;
    let p = pow2(t) as int;
    assert((m + 1) * p == m * p + p) by (nonlinear_arith);
    if b % ONE_EXPONENT == ONE_EXPONENT - 1 {
        assert(exponent(c) == exponent(b) + 1);
        assert(magnitude(c) % one == 0);
        if exponent(b) > 0 {
            vstd::arithmetic::power2::lemma_pow2_adds(t, 1);
            vstd::arithmetic::power2::lemma2_to64();
            assert(one * (p * 2) == (2 * one) * p) by (nonlinear_arith);
        }
    } else {
        assert(exponent(c) == exponent(b));
        assert(mantissa(c) == m + 1);
    }
}

pub proof fn lemma_units_increase(a: u64, b: u64)
    requires
        a < b < INFINITY,
    ensures
        0 <= units(a) < units(b),
{
    let ea = exponent(a);
    let eb = exponent(b);
    let sa = (scale(a) + 1074) as nat;
    let sb = (scale(b) + 1074) as nat;
    assert(ea <= eb) by {
        vstd::arithmetic::div_mod::lemma_div_is_ordered(a as int, b as int, ONE_EXPONENT as int);
    }
    vstd::arithmetic::power2::lemma_pow2_pos(sa);
    vstd::arithmetic::power2::lemma_pow2_pos(sb);
    assert(0 <= units(a)) by (nonlinear_arith)
        requires
            mantissa(a) >= 0,
            pow2(sa) > 0,
            units(a) == mantissa(a) * pow2(sa),
    ;
    if sa == sb {
        assert(mantissa(a) < mantissa(b));
        assert(units(a) < units(b)) by (nonlinear_arith)
            requires
                units(a) == mantissa(a) * pow2(sa),
                units(b) == mantissa(b) * pow2(sa),
                mantissa(a) < mantissa(b),
                pow2(sa) > 0,
        ;
    } else {
        vstd::arithmetic::power2::lemma_pow2_adds(1, (sb - 1) as nat);
        vstd::arithmetic::power2::lemma2_to64();
        if sa < sb - 1 {
            vstd::arithmetic::power2::lemma_pow2_strictly_increases(sa, (sb - 1) as nat);
        }
        assert(units(a) < units(b)) by (nonlinear_arith)
            requires
                units(a) == mantissa(a) * pow2(sa),
                units(b) == mantissa(b) * pow2(sb),
                pow2(sb) == 2 * pow2((sb - 1) as nat),
                pow2(sa) <= pow2((sb - 1) as nat),
                pow2(sa) > 0,
                0 <= mantissa(a) < 0x20_0000_0000_0000,
                mantissa(b) >= 0x10_0000_0000_0000,
        ;
    }
}

/// Numbers are ordered as their values are.
pub proof fn order_is_by_value(a: u64, b: u64)
    requires
        finite(a),
        finite(b),
    ensures
        less(a, b) <==> units(a) < units(b),
        equal(a, b) <==> units(a) == units(b),
        less_equal(a, b) <==> units(a) <= units(b),
{
    let x = magnitude(a) as u64;
    let y = magnitude(b) as u64;
    assert(units(a) == (if negative(a) {
        -units(x)
    } else {
        units(x)
    }));
    assert(units(b) == (if negative(b) {
        -units(y)
    } else {
        units(y)
    }));
    assert(units(0) == 0) by (nonlinear_arith)
        requires
            units(0) == mantissa(0) * pow2(0),
            mantissa(0) == 0,
    ;
    if x > 0 {
        lemma_units_increase(0, x);
    }
    if y > 0 {
        lemma_units_increase(0, y);
    }
    if x < y {
        lemma_units_increase(x, y);
    } else if y < x {
        lemma_units_increase(y, x);
    }
}

/// The size of a number is not negative.
pub proof fn lemma_whole_size(n: u64)
    ensures
        whole_size(n) >= 0,
{
    let m = mantissa(n);
    assert(m >= 0);
    if scale(n) >= 0 {
        let p = pow2(scale(n) as nat) as int;
        assert(m * p >= 0) by (nonlinear_arith)
            requires
                m >= 0,
                p >= 0,
        ;
    } else {
        vstd::arithmetic::power2::lemma_pow2_pos((-scale(n)) as nat);
        vstd::arithmetic::div_mod::lemma_div_pos_is_pos(m, pow2((-scale(n)) as nat) as int);
    }
}

/// One, counted in units.
pub open spec fn one() -> int {
    pow2(1074) as int
}

proof fn lemma_whole_part(n: u64)
    requires
        finite(n),
    ensures
        ({
            let u = mantissa(n) * pow2((scale(n) + 1074) as nat);
            &&& whole_size(n) >= 0
            &&& whole_size(n) * one() <= u < (whole_size(n) + 1) * one()
            &&& integral(n) <==> whole_size(n) * one() == u
            &&& u >= 0
        }),
{
    let m = mantissa(n);
    let t = (scale(n) + 1074) as nat;
    let q = pow2(t) as int;
    vstd::arithmetic::power2::lemma_pow2_pos(t);
    vstd::arithmetic::power2::lemma_pow2_pos(1074);
    assert(m >= 0);
    if scale(n) >= 0 {
        let s = scale(n) as nat;
        vstd::arithmetic::power2::lemma_pow2_adds(s, 1074);
        let p = pow2(s) as int;
        assert((m * p) * one() == m * (p * one())) by (nonlinear_arith);
        assert((m * p + 1) * one() == (m * p) * one() + one()) by (nonlinear_arith);
        assert(m * p >= 0) by (nonlinear_arith)
            requires
                m >= 0,
                p >= 0,
        ;
        assert(m * q >= 0) by (nonlinear_arith)
            requires
                m >= 0,
                q >= 0,
        ;
    } else {
        let k = (-scale(n)) as nat;
        let p = pow2(k) as int;
        vstd::arithmetic::power2::lemma_pow2_pos(k);
        vstd::arithmetic::power2::lemma_pow2_adds(k, t);
        vstd::arithmetic::div_mod::lemma_fundamental_div_mod(m, p);
        vstd::arithmetic::div_mod::lemma_mod_bound(m, p);
        vstd::arithmetic::div_mod::lemma_div_pos_is_pos(m, p);
        let w = m / p;
        let r = m % p;
        assert(w * one() == (p * w) * q) by (nonlinear_arith)
            requires
                one() == p * q,
        ;
        assert((w + 1) * one() == (p * w + p) * q) by (nonlinear_arith)
            requires
                one() == p * q,
        ;
        assert((p * w) * q <= m * q < (p * w + p) * q) by (nonlinear_arith)
            requires
                p * w <= m < p * w + p,
                q > 0,
        ;
        assert(r == 0 <==> (p * w) * q == m * q) by (nonlinear_arith)
            requires
                m == p * w + r,
                q > 0,
        ;
        assert(m * q >= 0) by (nonlinear_arith)
            requires
                m >= 0,
                q >= 0,
        ;
    }
}

/// The integer part of a number lies between zero and the number, less than one away from
/// it; it is the number itself exactly where the number is an integer.
pub proof fn truncation_drops_the_fraction(n: u64)
    requires
        finite(n),
    ensures
        units(n) >= 0 ==> 0 <= truncated(n) && truncated(n) * one() <= units(n) < (truncated(n) + 1) * one(),
        units(n) <= 0 ==> truncated(n) <= 0 && (truncated(n) - 1) * one() < units(n) <= truncated(n) * one(),
        integral(n) <==> truncated(n) * one() == units(n),
{
    lemma_whole_part(n);
    let w = whole_size(n);
    assert((-w) * one() == -(w * one())) by (nonlinear_arith);
    assert((-w - 1) * one() == -((w + 1) * one())) by (nonlinear_arith);
    if units(n) == 0 {
        assert(w == 0) by (nonlinear_arith)
            requires
                w >= 0,
                w * one() <= 0,
                one() > 0,
        {
            vstd::arithmetic::power2::lemma_pow2_pos(1074);
        }
    }
    vstd::arithmetic::power2::lemma_pow2_pos(1074);
    assert((w + 1) * one() == w * one() + one()) by (nonlinear_arith);
}

/// A number is an index exactly where it is an integer and not below zero: it is then the
/// index of that integer, or the last of all where the integer is too large.
pub proof fn index_is_the_integer(n: u64, i: int)
    requires
        finite(n),
        i >= 0,
    ensures
        units(n) == i * one() && i <= u64::MAX ==> index_of(n) == Some(i),
        units(n) == i * one() && i > u64::MAX ==> index_of(n) == Some(u64::MAX as int),
        units(n) < 0 ==> index_of(n) is None,
        !integral(n) ==> index_of(n) is None,
{
    lemma_whole_part(n);
    truncation_drops_the_fraction(n);
    order_is_by_value(n, 0);
    vstd::arithmetic::power2::lemma_pow2_pos(1074);
    let w = whole_size(n);
    assert(units(0) == 0) by (nonlinear_arith)
        requires
            units(0) == mantissa(0) * pow2(0),
            mantissa(0) == 0,
    ;
    if units(n) == i * one() {
        assert(i * one() >= 0) by (nonlinear_arith)
            requires
                i >= 0,
                one() > 0,
        ;
        let t = truncated(n);
        assert(t == i) by (nonlinear_arith)
            requires
                t * one() <= i * one() < (t + 1) * one(),
                one() > 0,
        ;
        assert(w == i) by {
            if negative(n) {
                assert(w == -i);
                assert(i == 0);
            }
        }
    }
}

/// What is no finite number is no index.
pub proof fn no_index_beyond_numbers(n: u64)
    requires
        !finite(n),
    ensures
        index_of(n) is None,
{
}

} // verus!
