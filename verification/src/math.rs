//! Integer arithmetic that the standard operators do not give: saturation, weighted means, and
//! quotients and square roots of products that do not fit in 128 bits.

use vstd::arithmetic::div_mod::lemma_fundamental_div_mod;
use vstd::prelude::*;

verus! {

/// `x`, or the largest `u64` where `x` does not fit.
pub open spec fn saturated(x: int) -> u64
    recommends
        0 <= x,
{
    if x <= u64::MAX {
        x as u64
    } else {
        u64::MAX
    }
}

/// `x`, or the largest `u64` where `x` does not fit.
pub fn saturate(x: u128) -> (r: u64)
    ensures
        r == saturated(x as int),
{
    if x <= u64::MAX as u128 {
        x as u64
    } else {
        u64::MAX
    }
}

/// A product of two 64 bit numbers fits in 128 bits.
pub proof fn lemma_product_fits(a: u64, b: u64)
    ensures
        0 <= a * b <= u128::MAX,
{
    assert(0 <= a * b <= u64::MAX * u64::MAX) by (nonlinear_arith)
        requires
            0 <= a <= u64::MAX,
            0 <= b <= u64::MAX,
    ;
}

/// The product, or the largest `u64` where the product does not fit.
pub fn saturating_product(a: u64, b: u64) -> (r: u64)
    ensures
        r == saturated(a * b),
{
    proof {
        lemma_product_fits(a, b);
    }
    saturate(a as u128 * b as u128)
}

/// The mean of `a` and `b` in which `b` counts for `weight` parts of `total`, rounded down.
pub open spec fn weighted_mean(a: nat, b: nat, weight: nat, total: nat) -> nat
    recommends
        0 < total,
        weight <= total,
{
    (((total - weight) * a + weight * b) / total as int) as nat
}

/// A weighted mean lies between the two values.
pub proof fn lemma_mean_is_between(a: nat, b: nat, weight: nat, total: nat)
    requires
        0 < total,
        weight <= total,
    ensures
        a <= b ==> a <= weighted_mean(a, b, weight, total) <= b,
        b <= a ==> b <= weighted_mean(a, b, weight, total) <= a,
{
    let sum = (total - weight) * a + weight * b;
    let low = if a <= b {
        a
    } else {
        b
    };
    let high = if a <= b {
        b
    } else {
        a
    };
    assert(total * low <= sum <= total * high) by (nonlinear_arith)
        requires
            low <= a <= high,
            low <= b <= high,
            weight <= total,
            sum == (total - weight) * a + weight * b,
    ;
    assert(low <= sum / total as int <= high) by (nonlinear_arith)
        requires
            total * low <= sum <= total * high,
            0 < total,
    ;
}

/// The mean of `a` and `b` in which `b` counts for `weight` parts of `total`, rounded down.
pub fn mean(a: u128, b: u128, weight: u64, total: u64) -> (m: u128)
    requires
        0 < total,
        weight <= total,
    ensures
        m == weighted_mean(a as nat, b as nat, weight as nat, total as nat),
        m <= a || m <= b,
{
    let rest: u64 = total - weight;
    let t: u128 = total as u128;
    let qa: u128 = a / t;
    let ra: u128 = a % t;
    let qb: u128 = b / t;
    let rb: u128 = b % t;
    proof {
        lemma_mean_is_between(a as nat, b as nat, weight as nat, total as nat);
        lemma_fundamental_div_mod(a as int, total as int);
        lemma_fundamental_div_mod(b as int, total as int);
        lemma_product_fits(total, total);
        assert(total * (total - 1) == total * total - total) by (nonlinear_arith);
        lemma_mean_by_parts(
            a as int,
            b as int,
            weight as int,
            total as int,
            qa as int,
            ra as int,
            qb as int,
            rb as int,
        );
        lemma_product_fits(rest, ra as u64);
        lemma_product_fits(weight, rb as u64);
    }
    rest as u128 * qa + weight as u128 * qb + (rest as u128 * ra + weight as u128 * rb) / t
}

/// A weighted mean can be taken of quotients and remainders apart, and no part is larger than the
/// values.
proof fn lemma_mean_by_parts(
    a: int,
    b: int,
    weight: int,
    total: int,
    qa: int,
    ra: int,
    qb: int,
    rb: int,
)
    requires
        0 <= a <= u128::MAX,
        0 <= b <= u128::MAX,
        0 < total <= u64::MAX,
        0 <= weight <= total,
        a == total * qa + ra,
        b == total * qb + rb,
        0 <= qa,
        0 <= qb,
        0 <= ra < total,
        0 <= rb < total,
    ensures
        ((total - weight) * a + weight * b) / total == (total - weight) * qa + weight * qb + ((total
            - weight) * ra + weight * rb) / total,
        0 <= (total - weight) * qa,
        0 <= weight * qb,
        (total - weight) * qa + weight * qb <= u128::MAX,
        0 <= (total - weight) * ra + weight * rb <= total * (total - 1),
{
    let rest = total - weight;
    let q = rest * qa + weight * qb;
    let r = rest * ra + weight * rb;
    assert(rest * a + weight * b == total * q + r) by (nonlinear_arith)
        requires
            a == total * qa + ra,
            b == total * qb + rb,
            q == rest * qa + weight * qb,
            r == rest * ra + weight * rb,
    ;
    assert(0 <= rest * qa && 0 <= weight * qb) by (nonlinear_arith)
        requires
            0 <= rest,
            0 <= weight,
            0 <= qa,
            0 <= qb,
    ;
    assert(0 <= r <= total * (total - 1)) by (nonlinear_arith)
        requires
            r == rest * ra + weight * rb,
            rest + weight == total,
            0 <= rest,
            0 <= weight,
            0 <= ra <= total - 1,
            0 <= rb <= total - 1,
    ;
    assert(q <= u128::MAX) by (nonlinear_arith)
        requires
            q == rest * qa + weight * qb,
            rest + weight == total,
            0 <= rest,
            0 <= weight,
            total * qa <= u128::MAX,
            total * qb <= u128::MAX,
            0 < total,
    ;
    assert((total * q + r) / total == q + r / total) by (nonlinear_arith)
        requires
            0 < total,
            0 <= r,
    ;
}

/// Whether `r` is the square root of `n`, rounded down.
pub open spec fn is_root(n: nat, r: nat) -> bool {
    r * r <= n < (r + 1) * (r + 1)
}

/// The square root of `n`, rounded down.
pub open spec fn root(n: nat) -> nat {
    choose|r: nat| is_root(n, r)
}

/// Every number has exactly one square root, rounded down.
pub proof fn lemma_root(n: nat)
    ensures
        is_root(n, root(n)),
    decreases n,
{
    if n == 0 {
        assert(is_root(0, 0)) by (nonlinear_arith);
    } else {
        let m = (n - 1) as nat;
        lemma_root(m);
        let r = root(m);
        if (r + 1) * (r + 1) <= n {
            assert((r + 2) * (r + 2) > (r + 1) * (r + 1)) by (nonlinear_arith);
            assert(is_root(n, (r + 1) as nat));
        } else {
            assert(is_root(n, r));
        }
    }
}

/// Two square roots of one number, each rounded down, are the same.
pub proof fn lemma_root_unique(n: nat, a: nat, b: nat)
    requires
        is_root(n, a),
        is_root(n, b),
    ensures
        a == b,
{
    assert(a == b) by (nonlinear_arith)
        requires
            a * a <= n < (a + 1) * (a + 1),
            b * b <= n < (b + 1) * (b + 1),
    ;
}

/// A larger number has no smaller square root.
pub proof fn lemma_root_monotone(m: nat, n: nat)
    requires
        m <= n,
    ensures
        root(m) <= root(n),
{
    lemma_root(m);
    lemma_root(n);
    let a = root(m);
    let b = root(n);
    assert(a <= b) by (nonlinear_arith)
        requires
            a * a <= m <= n < (b + 1) * (b + 1),
    ;
}

/// A number of 128 bits is two digits to this base.
const DIGIT: u128 = 0x1_0000_0000_0000_0000;

/// The parts of a product of two numbers of two digits each, carried digit by digit.
proof fn lemma_long_multiplication(a: u128, b: u128)
    ensures
        ({
            let (a0, a1) = (a as int % DIGIT as int, a as int / DIGIT as int);
            let (b0, b1) = (b as int % DIGIT as int, b as int / DIGIT as int);
            let low = a0 * b0;
            let mid = a1 * b0 + low / DIGIT as int;
            let top = a0 * b1 + mid % DIGIT as int;
            let high = a1 * b1 + mid / DIGIT as int + top / DIGIT as int;
            &&& 0 <= low <= u128::MAX
            &&& 0 <= a1 * b0
            &&& mid <= u128::MAX
            &&& 0 <= a0 * b1
            &&& top <= u128::MAX
            &&& 0 <= a1 * b1
            &&& high <= u128::MAX
            &&& a * b == high * (u128::MAX + 1) + (top % DIGIT as int) * DIGIT + low % DIGIT as int
        }),
{
    let (a0, a1) = (a as int % DIGIT as int, a as int / DIGIT as int);
    let (b0, b1) = (b as int % DIGIT as int, b as int / DIGIT as int);
    lemma_digit_product(a0, b0);
    lemma_digit_product(a1, b0);
    lemma_digit_product(a0, b1);
    lemma_digit_product(a1, b1);
    assert(a * b == (a1 * b1) * (u128::MAX + 1) + (a1 * b0 + a0 * b1) * DIGIT + a0 * b0)
        by (nonlinear_arith)
        requires
            a == a1 * DIGIT + a0,
            b == b1 * DIGIT + b0,
            DIGIT * DIGIT == u128::MAX + 1,
    ;
    assert(a * b < (u128::MAX + 1) * (u128::MAX + 1)) by (nonlinear_arith)
        requires
            0 <= a <= u128::MAX,
            0 <= b <= u128::MAX,
    ;
}

/// A product of two digits leaves room for one more digit in 128 bits.
proof fn lemma_digit_product(x: int, y: int)
    requires
        0 <= x < DIGIT,
        0 <= y < DIGIT,
    ensures
        0 <= x * y <= (DIGIT - 1) * (DIGIT - 1),
{
    assert(0 <= x * y <= (DIGIT - 1) * (DIGIT - 1)) by (nonlinear_arith)
        requires
            0 <= x <= DIGIT - 1,
            0 <= y <= DIGIT - 1,
    ;
}

/// The product of two numbers in 256 bits: the high and the low half of it.
fn wide_product(a: u128, b: u128) -> (r: (u128, u128))
    ensures
        a * b == r.0 * (u128::MAX + 1) + r.1,
{
    proof {
        lemma_long_multiplication(a, b);
    }
    let (a0, a1): (u128, u128) = (a % DIGIT, a / DIGIT);
    let (b0, b1): (u128, u128) = (b % DIGIT, b / DIGIT);
    let low: u128 = a0 * b0;
    let mid: u128 = a1 * b0 + low / DIGIT;
    let top: u128 = a0 * b1 + mid % DIGIT;
    let high: u128 = a1 * b1 + mid / DIGIT + top / DIGIT;
    (high, top % DIGIT * DIGIT + low % DIGIT)
}

/// Whether the product of `a` and `b` is no larger than that of `c` and `d`.
pub fn product_at_most(a: u128, b: u128, c: u128, d: u128) -> (r: bool)
    ensures
        r == (a * b <= c * d),
{
    let (ab1, ab0): (u128, u128) = wide_product(a, b);
    let (cd1, cd0): (u128, u128) = wide_product(c, d);
    ab1 < cd1 || (ab1 == cd1 && ab0 <= cd0)
}

/// The quotient of the product of `a` and `b` by `divisor`, rounded down, or `cap` where the
/// quotient is larger.
pub fn capped_quotient(a: u128, b: u128, divisor: u128, cap: u128) -> (q: u128)
    requires
        0 < divisor,
        cap < u128::MAX,
    ensures
        q == if a * b / divisor as int <= cap {
            a * b / divisor as int
        } else {
            cap as int
        },
{
    let mut lo: u128 = 0;
    let mut hi: u128 = cap + 1;
    while hi - lo > 1
        invariant
            lo < hi <= cap + 1,
            cap < u128::MAX,
            lo * divisor <= a * b,
            hi == cap + 1 || a * b < hi * divisor,
        decreases hi - lo,
    {
        let mid: u128 = lo + (hi - lo) / 2;
        if product_at_most(mid, divisor, a, b) {
            lo = mid;
        } else {
            hi = mid;
        }
    }
    proof {
        let n = a * b;
        let q = n / divisor as int;
        assert(lo <= q) by (nonlinear_arith)
            requires
                lo * divisor <= n,
                0 < divisor,
                q == n / divisor as int,
        ;
        if lo < cap {
            assert(q < hi) by (nonlinear_arith)
                requires
                    n < hi * divisor,
                    0 < divisor,
                    q == n / divisor as int,
            ;
        }
    }
    lo
}

/// The square root of the product of `a` and `b`, rounded down.
pub fn root_of_product(a: u128, b: u128) -> (r: u128)
    ensures
        r == root((a * b) as nat),
{
    let mut lo: u128 = 0;
    let mut hi: u128 = u128::MAX;
    let ghost n: nat = (a * b) as nat;
    proof {
        assert(0 <= a * b < (u128::MAX + 1) * (u128::MAX + 1)) by (nonlinear_arith)
            requires
                0 <= a <= u128::MAX,
                0 <= b <= u128::MAX,
        ;
    }
    while lo < hi
        invariant
            n == a * b,
            lo <= hi,
            lo * lo <= n < (hi + 1) * (hi + 1),
        decreases hi - lo,
    {
        let mid: u128 = hi - (hi - lo) / 2;
        if product_at_most(mid, mid, a, b) {
            lo = mid;
        } else {
            hi = mid - 1;
        }
    }
    proof {
        assert(is_root(n, lo as nat));
        lemma_root(n);
        lemma_root_unique(n, lo as nat, root(n));
    }
    lo
}

/// A number that does not fit in 64 bits becomes the largest that does, and no other changes.
pub proof fn law_saturation(x: u128, a: u64, b: u64, r: u64, product: u64)
    requires
        call_ensures(saturate, (x,), r),
        call_ensures(saturating_product, (a, b), product),
    ensures
        r == x || (r == u64::MAX && x > u64::MAX),
        product == a * b || (product == u64::MAX && a * b > u64::MAX),
{
    lemma_product_fits(a, b);
}

/// A weighted mean, taken `total` times, is the sum of the two values, each taken as often as its
/// weight says, less what is lost by rounding down to a whole number.
pub proof fn law_mean_is_weighted(a: u128, b: u128, weight: u64, total: u64, m: u128)
    requires
        0 < total,
        weight <= total,
        call_ensures(mean, (a, b, weight, total), m),
    ensures
        total * m <= (total - weight) * a + weight * b < total * m + total,
        a == b ==> m == a,
{
    lemma_weighted_mean(a as nat, b as nat, weight as nat, total as nat);
    lemma_mean_is_between(a as nat, b as nat, weight as nat, total as nat);
}

/// The same of the mean that contracts speak of.
pub proof fn lemma_weighted_mean(a: nat, b: nat, weight: nat, total: nat)
    requires
        0 < total,
        weight <= total,
    ensures
        ({
            let m = weighted_mean(a, b, weight, total);
            total * m <= (total - weight) * a + weight * b < total * m + total
        }),
{
    let sum = (total - weight) * a + weight * b;
    assert(sum >= 0) by (nonlinear_arith)
        requires
            weight <= total,
            sum == (total - weight) * a + weight * b,
    ;
    lemma_fundamental_div_mod(sum, total as int);
    assert(0 <= sum / total as int) by (nonlinear_arith)
        requires
            0 <= sum,
            0 < total,
    ;
}

/// Products compare as they do without any limit of bits.
pub proof fn law_products_compare(a: u128, b: u128, c: u128, d: u128, r: bool)
    requires
        call_ensures(product_at_most, (a, b, c, d), r),
    ensures
        r <==> a * b <= c * d,
{
}

/// A quotient of a product, rounded down, is the largest number that the divisor can be taken times
/// without exceeding the product, unless the cap is less.
pub proof fn law_quotient_of_a_product(a: u128, b: u128, divisor: u128, cap: u128, q: u128)
    requires
        0 < divisor,
        call_ensures(capped_quotient, (a, b, divisor, cap), q),
    ensures
        q <= cap,
        q * divisor <= a * b,
        q < cap ==> a * b < (q + 1) * divisor,
{
    let n = a * b;
    let full = n / divisor as int;
    assert(n >= 0) by (nonlinear_arith)
        requires
            n == a * b,
    ;
    lemma_fundamental_div_mod(n, divisor as int);
    assert(q * divisor <= full * divisor) by (nonlinear_arith)
        requires
            q <= full,
    ;
    assert(full * divisor == divisor * full) by (nonlinear_arith);
    assert((q + 1) * divisor == q * divisor + divisor) by (nonlinear_arith);
}

/// The square root of a product, rounded down, is the largest number whose square is no larger than
/// the product.
pub proof fn law_root_of_a_product(a: u128, b: u128, r: u128)
    requires
        call_ensures(root_of_product, (a, b), r),
    ensures
        r * r <= a * b < (r + 1) * (r + 1),
{
    assert(a * b >= 0) by (nonlinear_arith);
    lemma_root((a * b) as nat);
}

} // verus!
