//! Decimal numerals: the binary64 number nearest to what a numeral writes down.
//!
//! Both sides of each comparison are scaled to whole numbers, which are held
//! as 32-bit limbs, the lowest first.

use crate::number::{lemma_units_increase, mantissa, scale, split, units, lemma_one_shl, lemma_units_step, INFINITY};
use crate::text::{decimal, digit, digits_end};
use vstd::arithmetic::power::pow;
use vstd::arithmetic::power2::pow2;
use vstd::prelude::*;

verus! {

/// Twice the place halfway between the number with the bits `b` and the next larger
/// one, counted in units.
pub open spec fn halfway(b: u64) -> int {
    units(b) + units((b + 1) as u64)
}

/// Whether `d / 10^k` lies nearer to the number behind `b` than to `b`; halfway
/// between them the even one counts as nearer.
pub open spec fn passes(d: nat, k: nat, b: u64) -> bool {
    let x = 2 * d * pow2(1074);
    let y = halfway(b) * pow(10, k);
    x > y || (x == y && b % 2 == 1)
}

/// Whether no other number is nearer to `d / 10^k` than the one with the bits `b`.
/// From halfway between the largest number and 2 to the 1024 on, that is infinity.
pub open spec fn nearest_to(d: nat, k: nat, b: u64) -> bool {
    &&& b <= INFINITY
    &&& b > 0 ==> passes(d, k, (b - 1) as u64)
    &&& b < INFINITY ==> !passes(d, k, b)
}

/// The bits of the number nearest to `d / 10^k`.
pub open spec fn nearest(d: nat, k: nat) -> u64 {
    choose|b: u64| nearest_to(d, k, b)
}

/// The number that a numeral writes down: digits, or digits on both sides of a point.
pub open spec fn numeral(s: Seq<char>) -> u64 {
    let e = digits_end(s, 0);
    if e < s.len() {
        nearest(decimal(s.take(e) + s.skip(e + 1)), (s.len() - e - 1) as nat)
    } else {
        nearest(decimal(s), 0)
    }
}

proof fn lemma_halfway(b: u64)
    requires
        b < INFINITY,
    ensures
        halfway(b) == (2 * mantissa(b) + 1) * pow2((scale(b) + 1074) as nat),
        halfway(b) > 2 * units(b),
        halfway(b) < 2 * units((b + 1) as u64),
{
    lemma_units_step(b);
    let m = mantissa(b);
    let p = pow2((scale(b) + 1074) as nat) as int;
    vstd::arithmetic::power2::lemma_pow2_pos((scale(b) + 1074) as nat);
    assert(m * p + m * p + p == (2 * m + 1) * p) by (nonlinear_arith);
}

proof fn lemma_passes_less(d: nat, k: nat, a: u64, b: u64)
    requires
        a <= b < INFINITY,
        passes(d, k, b),
    ensures
        passes(d, k, a),
    decreases b - a,
{
    if a < b {
        let c = (b - 1) as u64;
        lemma_halfway(b);
        lemma_halfway(c);
        vstd::arithmetic::power::lemma_pow_positive(10, k);
        let p = pow(10, k);
        assert(halfway(c) * p < halfway(b) * p) by (nonlinear_arith)
            requires
                halfway(c) < halfway(b),
                p > 0,
        ;
        assert(passes(d, k, c));
        lemma_passes_less(d, k, a, c);
    }
}

/// There is one nearest number, and only one.
pub proof fn nearest_is_unique(d: nat, k: nat, b: u64)
    ensures
        nearest_to(d, k, b) <==> b == nearest(d, k),
{
    lemma_nearest_exists(d, k, INFINITY);
    let c = nearest(d, k);
    if nearest_to(d, k, b) {
        if b < c {
            lemma_passes_less(d, k, b, (c - 1) as u64);
        } else if c < b {
            lemma_passes_less(d, k, c, (b - 1) as u64);
        }
    }
}

proof fn lemma_nearest_exists(d: nat, k: nat, b: u64)
    requires
        b <= INFINITY,
        b < INFINITY ==> !passes(d, k, b),
    ensures
        exists|c: u64| nearest_to(d, k, c),
    decreases b,
{
    if b > 0 && !passes(d, k, (b - 1) as u64) {
        lemma_nearest_exists(d, k, (b - 1) as u64);
    } else {
        assert(nearest_to(d, k, b));
    }
}

/// How far two integers lie apart.
pub open spec fn distance(a: int, b: int) -> int {
    if a < b {
        b - a
    } else {
        a - b
    }
}

/// No number lies nearer to what a numeral writes down than the number that it is read as;
/// where another one lies as near, it is the one with the even last bit.
pub proof fn no_number_is_nearer(d: nat, k: nat, c: u64)
    requires
        nearest(d, k) < INFINITY,
        c < INFINITY,
    ensures
        distance(units(nearest(d, k)) * pow(10, k), (d * pow2(1074)) as int) <= distance(
            units(c) * pow(10, k),
            (d * pow2(1074)) as int,
        ),
        c != nearest(d, k) && distance(units(nearest(d, k)) * pow(10, k), (d * pow2(1074)) as int) == distance(
            units(c) * pow(10, k),
            (d * pow2(1074)) as int,
        ) ==> nearest(d, k) % 2 == 0,
{
    let b = nearest(d, k);
    let p = pow(10, k);
    let x = (d * pow2(1074)) as int;
    nearest_is_unique(d, k, b);
    vstd::arithmetic::power::lemma_pow_positive(10, k);
    assert(2 * d * pow2(1074) == 2 * x) by (nonlinear_arith)
        requires
            x == d * pow2(1074),
    ;
    let ub = units(b);
    let uc = units(c);
    if c > b {
        let un = units((b + 1) as u64);
        lemma_units_increase(b, c);
        if c > b + 1 {
            lemma_units_increase((b + 1) as u64, c);
        }
        assert(halfway(b) * p == ub * p + un * p && un * p <= uc * p && ub * p < uc * p) by (nonlinear_arith)
            requires
                halfway(b) == ub + un,
                un <= uc,
                ub < uc,
                p > 0,
        ;
        if un < uc {
            assert(un * p < uc * p) by (nonlinear_arith)
                requires
                    un < uc,
                    p > 0,
            ;
        }
    } else if c < b {
        let a = (b - 1) as u64;
        let ua = units(a);
        lemma_units_increase(c, b);
        lemma_units_increase(a, b);
        if c < a {
            lemma_units_increase(c, a);
        }
        assert(halfway(a) * p == ua * p + ub * p && uc * p <= ua * p && uc * p < ub * p) by (nonlinear_arith)
            requires
                halfway(a) == ua + ub,
                uc <= ua,
                uc < ub,
                p > 0,
        ;
        if uc < ua {
            assert(uc * p < ua * p) by (nonlinear_arith)
                requires
                    uc < ua,
                    p > 0,
            ;
        }
    }
}

/// A numeral for a value that some number has gives that number.
pub proof fn exact_numeral_keeps_value(d: nat, k: nat, b: u64)
    requires
        b < INFINITY,
        units(b) * pow(10, k) == d * pow2(1074),
    ensures
        nearest(d, k) == b,
{
    let p = pow(10, k);
    let u = units(b);
    vstd::arithmetic::power::lemma_pow_positive(10, k);
    lemma_halfway(b);
    assert(2 * d * pow2(1074) == 2 * u * p) by (nonlinear_arith)
        requires
            u * p == d * pow2(1074),
    ;
    assert(2 * u * p < halfway(b) * p) by (nonlinear_arith)
        requires
            2 * u < halfway(b),
            p > 0,
    ;
    if b > 0 {
        let a = (b - 1) as u64;
        lemma_halfway(a);
        assert(halfway(a) * p < 2 * u * p) by (nonlinear_arith)
            requires
                halfway(a) < 2 * u,
                p > 0,
        ;
    }
    assert(nearest_to(d, k, b));
    nearest_is_unique(d, k, b);
}

/// A zero behind the last digit of a fraction changes nothing.
pub proof fn trailing_zero_changes_nothing(d: nat, k: nat)
    ensures
        nearest(10 * d, k + 1) == nearest(d, k),
{
    let b = nearest(d, k);
    nearest_is_unique(d, k, b);
    let p = pow(10, k);
    vstd::arithmetic::power::lemma_pow_adds(10, k, 1);
    vstd::arithmetic::power::lemma_pow1(10);
    assert forall|c: u64| c < INFINITY implies passes(10 * d, k + 1, c) == passes(d, k, c) by {
        let h = halfway(c);
        let w = pow2(1074) as int;
        assert(2 * (10 * d) * w == 10 * (2 * d * w)) by (nonlinear_arith);
        assert(h * (p * 10) == 10 * (h * p)) by (nonlinear_arith);
        assert(pow(10, k + 1) == p * 10);
    }
    assert(nearest_to(10 * d, k + 1, b));
    nearest_is_unique(10 * d, k + 1, b);
}

/// The weight of the limb at `i`.
spec fn weight(i: int) -> nat {
    pow2((32 * i) as nat)
}

/// The whole number that limbs stand for.
spec fn whole(v: Seq<u32>) -> nat
    decreases v.len(),
{
    if v.len() == 0 {
        0
    } else {
        whole(v.drop_last()) + (v.last() as nat) * weight(v.len() - 1)
    }
}

proof fn lemma_weight(i: int)
    requires
        i >= 0,
    ensures
        weight(i + 1) == weight(i) * 0x1_0000_0000,
        weight(i) > 0,
{
    vstd::arithmetic::power2::lemma_pow2_adds((32 * i) as nat, 32);
    vstd::arithmetic::power2::lemma2_to64();
    vstd::arithmetic::power2::lemma_pow2_pos((32 * i) as nat);
}

proof fn lemma_whole_push(v: Seq<u32>, x: u32)
    ensures
        whole(v.push(x)) == whole(v) + x * weight(v.len() as int),
{
    assert(v.push(x).drop_last() =~= v);
}

proof fn lemma_whole_take(v: Seq<u32>, i: int)
    requires
        0 <= i < v.len(),
    ensures
        whole(v.take(i + 1)) == whole(v.take(i)) + v[i] * weight(i),
{
    assert(v.take(i + 1) =~= v.take(i).push(v[i]));
    lemma_whole_push(v.take(i), v[i]);
}

proof fn lemma_whole_bound(v: Seq<u32>)
    ensures
        whole(v) < weight(v.len() as int),
    decreases v.len(),
{
    if v.len() == 0 {
        vstd::arithmetic::power2::lemma2_to64();
    } else {
        let n = v.len() - 1;
        lemma_whole_bound(v.drop_last());
        lemma_weight(n);
        let x = v.last() as int;
        let w = weight(n) as int;
        let r = whole(v.drop_last()) as int;
        assert(r + x * w < w * 0x1_0000_0000) by (nonlinear_arith)
            requires
                r < w,
                0 <= x <= 0xffff_ffff,
                w > 0,
        ;
    }
}

/// `v * m + a`
fn scale_up(v: &Vec<u32>, m: u64, a: u64) -> (r: Vec<u32>)
    ensures
        whole(r@) == whole(v@) * m + a,
{
    let mut out: Vec<u32> = Vec::new();
    let mut carry: u64 = a;
    let mut i: usize = 0;
    proof {
        vstd::arithmetic::power2::lemma2_to64();
        assert(v@.take(0) =~= Seq::<u32>::empty());
        assert(whole(v@.take(0)) == 0);
        assert(weight(0) == 1);
    }
    while i < v.len()
        invariant
            i <= v@.len(),
            out@.len() == i,
            whole(out@) + carry * weight(i as int) == whole(v@.take(i as int)) * m + a,
        decreases v@.len() - i,
    {
        let x: u32 = v[i];
        proof {
            assert(x as u128 * m as u128 + carry as u128 <= 0xffff_ffff * 0xffff_ffff_ffff_ffff + 0xffff_ffff_ffff_ffff)
                by (nonlinear_arith)
                requires
                    x <= 0xffff_ffffu32,
                    m <= 0xffff_ffff_ffff_ffffu64,
                    carry <= 0xffff_ffff_ffff_ffffu64,
            ;
            assert(0 <= x as u128 * m as u128) by (nonlinear_arith);
        }
        let t: u128 = x as u128 * m as u128 + carry as u128;
        let low: u32 = (t % 0x1_0000_0000) as u32;
        let high: u64 = (t / 0x1_0000_0000) as u64;
        proof {
            lemma_whole_take(v@, i as int);
            lemma_whole_push(out@, low);
            lemma_weight(i as int);
            let w = weight(i as int) as int;
            let front = whole(out@) as int;
            let taken = whole(v@.take(i as int)) as int;
            assert(t == low + high * 0x1_0000_0000);
            assert(front + low * w + high * (w * 0x1_0000_0000) == (taken + x * w) * m + a) by (nonlinear_arith)
                requires
                    front + carry * w == taken * m + a,
                    low + high * 0x1_0000_0000 == x * m + carry,
            ;
        }
        out.push(low);
        carry = high;
        i = i + 1;
    }
    let low: u32 = (carry % 0x1_0000_0000) as u32;
    let high: u32 = (carry / 0x1_0000_0000) as u32;
    proof {
        assert(v@.take(i as int) =~= v@);
        lemma_whole_push(out@, low);
        lemma_whole_push(out@.push(low), high);
        lemma_weight(i as int);
        let w = weight(i as int) as int;
        assert(low * w + high * (w * 0x1_0000_0000) == carry * w) by (nonlinear_arith)
            requires
                carry == low + high * 0x1_0000_0000,
        ;
    }
    out.push(low);
    out.push(high);
    out
}

/// `v * 2^t`
fn shift_up(v: Vec<u32>, t: u64) -> (r: Vec<u32>)
    ensures
        whole(r@) == whole(v@) * pow2(t as nat),
{
    let mut out: Vec<u32> = v;
    let mut left: u64 = t;
    while left > 0
        invariant
            left <= t,
            whole(out@) * pow2(left as nat) == whole(v@) * pow2(t as nat),
        decreases left,
    {
        let step: u64 = if left < 32 {
            left
        } else {
            32
        };
        let ghost before = whole(out@);
        proof {
            lemma_one_shl(step);
            vstd::arithmetic::power2::lemma_pow2_adds(step as nat, (left - step) as nat);
            let p = pow2(step as nat);
            let q = pow2((left - step) as nat);
            assert((before * p + 0) * q == before * (p * q)) by (nonlinear_arith);
        }
        out = scale_up(&out, 1u64 << step, 0);
        left = left - step;
    }
    proof {
        vstd::arithmetic::power2::lemma2_to64();
        let w = whole(out@);
        assert(w * pow2(0) == w) by (nonlinear_arith)
            requires
                pow2(0) == 1,
        ;
    }
    out
}

/// -1, 0 or 1: whether `a` is less than, equal to or more than `b`.
fn weigh(a: &Vec<u32>, b: &Vec<u32>) -> (r: i8)
    ensures
        r == -1 || r == 0 || r == 1,
        r == -1 <==> whole(a@) < whole(b@),
        r == 0 <==> whole(a@) == whole(b@),
{
    let mut x: Vec<u32> = a.clone();
    let mut y: Vec<u32> = b.clone();
    assert(x@ =~= a@);
    assert(y@ =~= b@);
    while x.len() < y.len()
        invariant
            whole(x@) == whole(a@),
        decreases y@.len() - x@.len(),
    {
        proof {
            lemma_whole_push(x@, 0);
        }
        x.push(0);
    }
    while y.len() < x.len()
        invariant
            whole(y@) == whole(b@),
            y@.len() <= x@.len() || y@ == b@,
        decreases x@.len() - y@.len(),
    {
        proof {
            lemma_whole_push(y@, 0);
        }
        y.push(0);
    }
    let mut i: usize = x.len();
    proof {
        assert(x@.take(i as int) =~= x@);
        assert(y@.take(i as int) =~= y@);
    }
    while i > 0
        invariant
            i <= x@.len(),
            x@.len() == y@.len(),
            whole(x@) == whole(a@),
            whole(y@) == whole(b@),
            whole(x@) - whole(y@) == whole(x@.take(i as int)) - whole(y@.take(i as int)),
        decreases i,
    {
        proof {
            lemma_whole_take(x@, i - 1);
            lemma_whole_take(y@, i - 1);
            lemma_whole_bound(x@.take(i - 1));
            lemma_whole_bound(y@.take(i - 1));
            let w = weight(i - 1) as int;
            let p = x@[i - 1] as int;
            let q = y@[i - 1] as int;
            if p < q {
                assert(p * w + w <= q * w) by (nonlinear_arith)
                    requires
                        p + 1 <= q,
                        w >= 0,
                ;
            } else if q < p {
                assert(q * w + w <= p * w) by (nonlinear_arith)
                    requires
                        q + 1 <= p,
                        w >= 0,
                ;
            }
        }
        i = i - 1;
        if x[i] < y[i] {
            return -1;
        }
        if y[i] < x[i] {
            return 1;
        }
    }
    assert(x@.take(0) =~= y@.take(0));
    0
}

/// Whether `passes` holds, from the numerator times 2 to the 1075 and the power of ten.
fn is_passed(top: &Vec<u32>, ten: &Vec<u32>, Ghost(d): Ghost<nat>, Ghost(k): Ghost<nat>, b: u64) -> (r: bool)
    requires
        b < INFINITY,
        whole(top@) == 2 * d * pow2(1074),
        whole(ten@) == pow(10, k),
    ensures
        r == passes(d, k, b),
{
    let (e, m) = split(b);
    let t: u64 = if e == 0 {
        0
    } else {
        e - 1
    };
    let side = shift_up(scale_up(ten, 2 * m + 1, 0), t);
    proof {
        lemma_halfway(b);
        let p = pow(10, k);
        let q = pow2(t as nat) as int;
        assert(t == scale(b) + 1074);
        assert((p * (2 * m + 1)) * q == ((2 * m + 1) * q) * p) by (nonlinear_arith);
    }
    let w: i8 = weigh(top, &side);
    w == 1 || (w == 0 && b % 2 == 1)
}

/// The bits of the number nearest to `d / 10^k`, from the limbs of `d`.
fn find_nearest(digits: Vec<u32>, k: usize) -> (r: u64)
    ensures
        r == nearest(whole(digits@), k as nat),
{
    let ghost d = whole(digits@);
    let top = shift_up(digits, 1075);
    let mut ten: Vec<u32> = Vec::new();
    ten.push(1);
    let mut j: usize = 0;
    proof {
        vstd::arithmetic::power2::lemma2_to64();
        vstd::arithmetic::power2::lemma_pow2_adds(1, 1074);
        let w = pow2(1074);
        assert(d * (2 * w) == 2 * d * w) by (nonlinear_arith);
        lemma_whole_push(Seq::empty(), 1);
        assert(ten@ =~= Seq::<u32>::empty().push(1));
        vstd::arithmetic::power::lemma_pow0(10);
    }
    while j < k
        invariant
            j <= k,
            whole(ten@) == pow(10, j as nat),
        decreases k - j,
    {
        proof {
            vstd::arithmetic::power::lemma_pow_adds(10, j as nat, 1);
            vstd::arithmetic::power::lemma_pow1(10);
        }
        ten = scale_up(&ten, 10, 0);
        j = j + 1;
    }
    let mut low: u64 = 0;
    let mut high: u64 = INFINITY;
    while low < high
        invariant
            low <= high <= INFINITY,
            low > 0 ==> passes(d, k as nat, (low - 1) as u64),
            high < INFINITY ==> !passes(d, k as nat, high),
            whole(top@) == 2 * d * pow2(1074),
            whole(ten@) == pow(10, k as nat),
        decreases high - low,
    {
        let middle: u64 = low + (high - low) / 2;
        if is_passed(&top, &ten, Ghost(d), Ghost(k as nat), middle) {
            low = middle + 1;
        } else {
            high = middle;
        }
    }
    proof {
        nearest_is_unique(d, k as nat, low);
    }
    low
}

/// The number nearest to a whole number.
pub fn read_whole(n: u64) -> (r: u64)
    ensures
        r == nearest(n as nat, 0),
{
    let none: Vec<u32> = Vec::new();
    find_nearest(scale_up(&none, 0, n), 0)
}

/// The number that a numeral writes down.
pub fn read_numeral(s: &Vec<char>) -> (r: u64)
    requires
        forall|i: int| 0 <= i < s@.len() && i != digits_end(s@, 0) ==> digit(#[trigger] s@[i]),
    ensures
        r == numeral(s@),
{
    let end: usize = crate::text::find_digits_end(s, 0);
    let mut digits: Vec<u32> = Vec::new();
    let mut i: usize = 0;
    while i < end
        invariant
            i <= end <= s@.len(),
            end == digits_end(s@, 0),
            forall|j: int| 0 <= j < s@.len() && j != end ==> digit(#[trigger] s@[j]),
            whole(digits@) == decimal(s@.take(i as int)),
        decreases end - i,
    {
        proof {
            assert(s@.take(i + 1).drop_last() =~= s@.take(i as int));
        }
        digits = scale_up(&digits, 10, (s[i] as u32 - '0' as u32) as u64);
        i = i + 1;
    }
    if end == s.len() {
        assert(s@.take(end as int) =~= s@);
        return find_nearest(digits, 0);
    }
    let ghost front = s@.take(end as int);
    i = end + 1;
    assert(front + s@.subrange(end + 1, end + 1) =~= front);
    while i < s.len()
        invariant
            end < i <= s@.len(),
            end == digits_end(s@, 0),
            front == s@.take(end as int),
            forall|j: int| 0 <= j < s@.len() && j != end ==> digit(#[trigger] s@[j]),
            whole(digits@) == decimal(front + s@.subrange(end + 1, i as int)),
        decreases s@.len() - i,
    {
        proof {
            let now = front + s@.subrange(end + 1, i as int);
            let next = front + s@.subrange(end + 1, i + 1);
            assert(next.drop_last() =~= now);
            assert(next.last() == s@[i as int]);
        }
        digits = scale_up(&digits, 10, (s[i] as u32 - '0' as u32) as u64);
        i = i + 1;
    }
    assert(s@.subrange(end + 1, i as int) =~= s@.skip(end + 1));
    find_nearest(digits, i - end - 1)
}

} // verus!
