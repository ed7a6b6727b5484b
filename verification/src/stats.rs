//! Statistics over raw timing samples.
//!
//! Samples are non-negative nanosecond (or microsecond) counts. To keep the
//! arithmetic exact without floating point, every statistic is reported in
//! thousandths of a sample unit ("milli-units"): a mean of `20` samples units
//! is returned as `20_000`.

use vstd::prelude::*;

verus! {

/// Statistics are reported scaled by this factor (thousandths).
pub const STAT_SCALE: u64 = 1000;

/// The sum of a sample sequence.
pub open spec fn sum(s: Seq<u32>) -> int
    decreases s.len(),
{
    if s.len() == 0 {
        0
    } else {
        sum(s.drop_last()) + s.last()
    }
}

/// The sum of the squares of a sample sequence.
pub open spec fn sum_sq(s: Seq<u32>) -> int
    decreases s.len(),
{
    if s.len() == 0 {
        0
    } else {
        sum_sq(s.drop_last()) + s.last() * s.last()
    }
}

/// The arithmetic mean of `s`, in milli-units, rounded towards zero.
pub open spec fn mean_milli(s: Seq<u32>) -> int
    recommends
        s.len() > 0,
{
    1000 * sum(s) / (s.len() as int)
}

proof fn lemma_sum_take_step(s: Seq<u32>, i: int)
    requires
        0 <= i < s.len(),
    ensures
        sum(s.take(i + 1)) == sum(s.take(i)) + s[i],
        sum_sq(s.take(i + 1)) == sum_sq(s.take(i)) + s[i] * s[i],
{
    assert(s.take(i + 1).drop_last() =~= s.take(i));
    assert(s.take(i + 1).last() == s[i]);
}

proof fn lemma_sum_bounds(s: Seq<u32>)
    ensures
        0 <= sum(s) <= s.len() * 0xFFFF_FFFF,
        0 <= sum_sq(s) <= s.len() * (0xFFFF_FFFF * 0xFFFF_FFFF),
    decreases s.len(),
{
    if s.len() > 0 {
        lemma_sum_bounds(s.drop_last());
        assert(s.last() * s.last() <= 0xFFFF_FFFF * 0xFFFF_FFFF) by (nonlinear_arith)
            requires
                0 <= s.last() <= 0xFFFF_FFFF,
        ;
        assert((s.len() - 1) * 0xFFFF_FFFF + 0xFFFF_FFFF == s.len() * 0xFFFF_FFFF) by (nonlinear_arith);
        assert((s.len() - 1) * (0xFFFF_FFFF * 0xFFFF_FFFF) + 0xFFFF_FFFF * 0xFFFF_FFFF == s.len()
            * (0xFFFF_FFFF * 0xFFFF_FFFF)) by (nonlinear_arith);
    }
}

/// The arithmetic mean of the samples, in milli-units; "no data" on an empty
/// sample set, never a numeric zero.
pub fn mean(data: &Vec<u32>) -> (r: Option<u64>)
    ensures
        (r is Some) <==> data@.len() > 0,
        r is Some ==> r->0 == mean_milli(data@),
{
    if data.len() == 0 {
        return None;
    }
    let total = sum_exec(data);
    let n = data.len() as u128;
    proof {
        lemma_sum_bounds(data@);
        assert(1000 * sum(data@) <= data@.len() as int * 4294967295000) by (nonlinear_arith)
            requires
                sum(data@) <= data@.len() * 0xFFFF_FFFF,
        ;
        assert(n as int * 4294967295000 < u128::MAX) by (nonlinear_arith)
            requires
                n <= usize::MAX,
        ;
        assert(n == data@.len());
    }
    let scaled: u128 = 1000u128 * total;
    let m: u128 = scaled / n;
    proof {
        vstd::arithmetic::div_mod::lemma_div_is_ordered(
            scaled as int,
            n as int * 4294967295000,
            n as int,
        );
        vstd::arithmetic::div_mod::lemma_div_multiples_vanish(4294967295000, n as int);
    }
    Some(m as u64)
}

/// The floor of the square root of `v` (0 for negative `v`).
pub open spec fn sqrt_floor(v: int) -> int
    decreases v,
{
    if v <= 0 {
        0
    } else if (sqrt_floor(v - 1) + 1) * (sqrt_floor(v - 1) + 1) <= v {
        sqrt_floor(v - 1) + 1
    } else {
        sqrt_floor(v - 1)
    }
}

/// `sqrt_floor` really is the rounded-down square root.
pub proof fn lemma_sqrt_floor_correct(v: int)
    requires
        v >= 0,
    ensures
        sqrt_floor(v) >= 0,
        sqrt_floor(v) * sqrt_floor(v) <= v,
        v < (sqrt_floor(v) + 1) * (sqrt_floor(v) + 1),
    decreases v,
{
    if v > 0 {
        lemma_sqrt_floor_correct(v - 1);
        let p = sqrt_floor(v - 1);
        if (p + 1) * (p + 1) <= v {
            assert(v <= (p + 1) * (p + 1)) by (nonlinear_arith)
                requires
                    v - 1 < (p + 1) * (p + 1),
            ;
            assert((p + 1) * (p + 1) < (p + 2) * (p + 2)) by (nonlinear_arith)
                requires
                    p >= 0,
            ;
        }
    }
}

/// Any value with the floor-square-root property is `sqrt_floor`.
proof fn lemma_sqrt_floor_unique(v: int, r: int)
    requires
        v >= 0,
        r >= 0,
        r * r <= v,
        v < (r + 1) * (r + 1),
    ensures
        r == sqrt_floor(v),
{
    lemma_sqrt_floor_correct(v);
    let s = sqrt_floor(v);
    assert(r == s) by (nonlinear_arith)
        requires
            r >= 0,
            s >= 0,
            r * r <= v,
            v < (r + 1) * (r + 1),
            s * s <= v,
            v < (s + 1) * (s + 1),
    ;
}

/// Rounded-down square root, by bisection.
fn isqrt_u128(v: u128) -> (r: u128)
    ensures
        r == sqrt_floor(v as int),
{
    if v == 0 {
        proof {
            lemma_sqrt_floor_unique(0, 0);
        }
        return 0;
    }
    let mut lo: u128 = 0;
    let mut hi: u128 = 0x1_0000_0000_0000_0000;
    proof {
        assert(v < hi as int * hi as int) by (nonlinear_arith)
            requires
                hi == 0x1_0000_0000_0000_0000u128,
                v <= u128::MAX,
        ;
    }
    while lo + 1 < hi
        invariant
            0 <= lo < hi <= 0x1_0000_0000_0000_0000u128,
            lo as int * lo as int <= v,
            v < hi as int * hi as int,
        decreases hi - lo,
    {
        let mid: u128 = lo + (hi - lo) / 2;
        proof {
            assert(mid as int * mid as int <= u128::MAX) by (nonlinear_arith)
                requires
                    mid < 0x1_0000_0000_0000_0000u128,
            ;
        }
        if mid * mid <= v {
            lo = mid;
        } else {
            hi = mid;
        }
    }
    proof {
        assert(hi == lo + 1);
        lemma_sqrt_floor_unique(v as int, lo as int);
    }
    lo
}

/// For every sample sequence and every pivot `y`:
/// the squares dominate the cross terms, `Σ x² + n·y² >= 2·y·Σ x`.
proof fn lemma_cross_bound(s: Seq<u32>, y: int)
    ensures
        sum_sq(s) + s.len() * (y * y) >= 2 * y * sum(s),
    decreases s.len(),
{
    if s.len() > 0 {
        let d = s.drop_last();
        let x = s.last() as int;
        lemma_cross_bound(d, y);
        assert(x * x + y * y >= 2 * y * x) by (nonlinear_arith);
        assert(s.len() as int * (y * y) == d.len() as int * (y * y) + y * y) by (nonlinear_arith)
            requires
                s.len() == d.len() + 1,
        ;
        assert(2 * y * sum(s) == 2 * y * sum(d) + 2 * y * x) by (nonlinear_arith)
            requires
                sum(s) == sum(d) + x,
        ;
    }
}

/// The sum-of-squares inequality: `n · Σ x² >= (Σ x)²`, so the
/// population variance numerator is never negative.
pub proof fn lemma_sum_sq_cauchy(s: Seq<u32>)
    ensures
        s.len() * sum_sq(s) >= sum(s) * sum(s),
    decreases s.len(),
{
    if s.len() > 0 {
        let d = s.drop_last();
        let x = s.last() as int;
        lemma_sum_sq_cauchy(d);
        lemma_cross_bound(d, x);
        assert((d.len() as int + 1) * (sum_sq(d) + x * x) - (sum(d) + x) * (sum(d) + x) == (d.len()
            as int * sum_sq(d) - sum(d) * sum(d)) + (sum_sq(d) + d.len() as int * (x * x) - 2 * x
            * sum(d))) by (nonlinear_arith);
    }
}

/// The population variance of `s` in squared milli-units, rounded down:
/// `10^6 · (n·Σx² − (Σx)²) / n²`.
pub open spec fn variance_milli2(s: Seq<u32>) -> int
    recommends
        s.len() > 0,
{
    let n = s.len() as int;
    1000000 * (n * sum_sq(s) - sum(s) * sum(s)) / (n * n)
}

/// The population standard deviation of `s` in milli-units, rounded down.
pub open spec fn stddev_milli(s: Seq<u32>) -> int {
    sqrt_floor(variance_milli2(s))
}

/// Computes the exact sum of the samples.
fn sum_exec(data: &Vec<u32>) -> (r: u128)
    ensures
        r == sum(data@),
{
    let mut acc: u128 = 0;
    let mut i: usize = 0;
    proof {
        lemma_sum_bounds(data@);
        assert(data@.take(0) =~= Seq::<u32>::empty());
    }
    while i < data.len()
        invariant
            0 <= i <= data@.len(),
            acc == sum(data@.take(i as int)),
            acc <= i * 0xFFFF_FFFF,
        decreases data@.len() - i,
    {
        proof {
            lemma_sum_take_step(data@, i as int);
            assert(i * 0xFFFF_FFFF + 0xFFFF_FFFF == (i + 1) * 0xFFFF_FFFF) by (nonlinear_arith);
            assert((i + 1) * 0xFFFF_FFFF < u128::MAX) by (nonlinear_arith)
                requires
                    i < usize::MAX,
            ;
        }
        acc = acc + data[i] as u128;
        i = i + 1;
    }
    proof {
        assert(data@.take(data@.len() as int) =~= data@);
    }
    acc
}

/// Computes the exact sum of the squared samples.
fn sum_sq_exec(data: &Vec<u32>) -> (r: u128)
    requires
        data@.len() <= 0xFFFF_FFFF,
    ensures
        r == sum_sq(data@),
{
    let mut acc: u128 = 0;
    let mut i: usize = 0;
    proof {
        assert(data@.take(0) =~= Seq::<u32>::empty());
    }
    while i < data.len()
        invariant
            0 <= i <= data@.len() <= 0xFFFF_FFFF,
            acc == sum_sq(data@.take(i as int)),
            acc <= i * (0xFFFF_FFFF * 0xFFFF_FFFF),
        decreases data@.len() - i,
    {
        proof {
            lemma_sum_take_step(data@, i as int);
            assert(data@[i as int] as int * data@[i as int] as int <= 0xFFFF_FFFF
                * 0xFFFF_FFFF) by (nonlinear_arith)
                requires
                    0 <= data@[i as int] <= 0xFFFF_FFFF,
            ;
            assert(i * (0xFFFF_FFFF * 0xFFFF_FFFF) + 0xFFFF_FFFF * 0xFFFF_FFFF == (i + 1) * (
            0xFFFF_FFFF * 0xFFFF_FFFF)) by (nonlinear_arith);
            assert((i + 1) * (0xFFFF_FFFF * 0xFFFF_FFFF) <= 0x1_0000_0000u128 * (0xFFFF_FFFF
                * 0xFFFF_FFFF)) by (nonlinear_arith)
                requires
                    i + 1 <= 0x1_0000_0000u128,
            ;
        }
        let x = data[i] as u128;
        acc = acc + x * x;
        i = i + 1;
    }
    proof {
        assert(data@.take(data@.len() as int) =~= data@);
    }
    acc
}

/// The population standard deviation of the samples, in milli-units;
/// "no data" on an empty sample set. The sample count is bounded so that the
/// exact intermediate arithmetic fits in 128 bits.
pub fn std_deviation(data: &Vec<u32>) -> (r: Option<u64>)
    requires
        data@.len() <= 0xFFFF_FFFF,
    ensures
        (r is Some) <==> data@.len() > 0,
        r is Some ==> r->0 == stddev_milli(data@),
{
    if data.len() == 0 {
        return None;
    }
    let total = sum_exec(data);
    let ssq = sum_sq_exec(data);
    let n: u128 = data.len() as u128;
    proof {
        lemma_sum_bounds(data@);
        lemma_sum_sq_cauchy(data@);
        assert(n * ssq < u128::MAX && total * total < u128::MAX && n * ssq >= total * total && n
            * n < u128::MAX) by (nonlinear_arith)
            requires
                1 <= n <= 0xFFFF_FFFFu128,
                n == data@.len(),
                0 <= total <= n * 0xFFFF_FFFF,
                0 <= ssq <= n * (0xFFFF_FFFF * 0xFFFF_FFFF),
                total == sum(data@),
                ssq == sum_sq(data@),
                data@.len() * sum_sq(data@) >= sum(data@) * sum(data@),
        ;
    }
    let d: u128 = n * ssq - total * total;
    let nn: u128 = n * n;
    proof {
        assert(1 <= nn <= 0xFFFF_FFFFu128 * 0xFFFF_FFFF) by (nonlinear_arith)
            requires
                1 <= n <= 0xFFFF_FFFFu128,
                nn == n * n,
        ;
    }
    let dq: u128 = d / nn;
    let dr: u128 = d % nn;
    proof {
        vstd::arithmetic::div_mod::lemma_fundamental_div_mod(d as int, nn as int);
        // d/n^2 is at most the largest possible squared sample.
        assert(dq <= 0xFFFF_FFFF * 0xFFFF_FFFF) by (nonlinear_arith)
            requires
                1 <= n,
                nn == n * n,
                dq == d / nn,
                d <= n * ssq,
                ssq <= n * (0xFFFF_FFFF * 0xFFFF_FFFF),
        ;
    }
    proof {
        vstd::arithmetic::div_mod::lemma_mod_division_less_than_divisor(d as int, nn as int);
        assert((1000000 * (dr as int)) / (nn as int) < 1000000) by (nonlinear_arith)
            requires
                0 <= dr < nn,
                nn >= 1,
        ;
        assert((1000000 * (dr as int)) / (nn as int) >= 0) by (nonlinear_arith)
            requires
                0 <= dr,
                nn >= 1,
        ;
    }
    let scaled: u128 = 1000000u128 * dq + 1000000u128 * dr / nn;
    proof {
        let q2 = (1000000 * (dr as int)) / (nn as int);
        let r2 = (1000000 * (dr as int)) % (nn as int);
        vstd::arithmetic::div_mod::lemma_fundamental_div_mod(1000000 * dr as int, nn as int);
        assert(1000000 * d as int == nn as int * (1000000 * dq as int + q2) + r2) by (nonlinear_arith)
            requires
                d as int == nn as int * dq as int + dr as int,
                1000000 * dr as int == nn as int * q2 + r2,
        ;
        vstd::arithmetic::div_mod::lemma_div_multiples_vanish_fancy(
            1000000 * dq as int + q2,
            r2,
            nn as int,
        );
        assert(scaled == variance_milli2(data@));
    }
    let root = isqrt_u128(scaled);
    proof {
        lemma_sqrt_floor_correct(scaled as int);
        assert(scaled < 0x1_0000_0000_0000u128 * 0x1_0000_0000_0000u128) by (nonlinear_arith)
            requires
                scaled <= 1000000u128 * (0xFFFF_FFFF * 0xFFFF_FFFF) + 1000000u128,
        ;
        assert(root < 0x1_0000_0000_0000 as u128) by (nonlinear_arith)
            requires
                root as int * root as int <= scaled,
                scaled < 0x1_0000_0000_0000u128 * 0x1_0000_0000_0000u128,
                root >= 0,
        ;
    }
    Some(root as u64)
}

/// The population variance is bounded by the largest squared sample, so the
/// deviation fits comfortably in 48 bits.
pub proof fn lemma_stddev_bound(s: Seq<u32>)
    requires
        1 <= s.len() <= 0xFFFF_FFFF,
    ensures
        0 <= variance_milli2(s) <= 1000000 * (0xFFFF_FFFF * 0xFFFF_FFFF),
        0 <= stddev_milli(s) < 0x1_0000_0000_0000,
{
    let n = s.len() as int;
    let d = n * sum_sq(s) - sum(s) * sum(s);
    lemma_sum_sq_cauchy(s);
    lemma_sum_bounds(s);
    assert(0 <= 1000000 * d <= (n * n) * (1000000 * (0xFFFF_FFFF * 0xFFFF_FFFF))) by (nonlinear_arith)
        requires
            d >= 0,
            d == n * sum_sq(s) - sum(s) * sum(s),
            sum_sq(s) <= n * (0xFFFF_FFFF * 0xFFFF_FFFF),
            1 <= n,
    ;
    assert(n * n >= 1) by (nonlinear_arith)
        requires
            n >= 1,
    ;
    vstd::arithmetic::div_mod::lemma_div_is_ordered(
        1000000 * d,
        (n * n) * (1000000int * (0xFFFF_FFFF * 0xFFFF_FFFF)),
        n * n,
    );
    vstd::arithmetic::div_mod::lemma_div_multiples_vanish(
        1000000int * (0xFFFF_FFFF * 0xFFFF_FFFF),
        n * n,
    );
    vstd::arithmetic::div_mod::lemma_div_pos_is_pos(1000000 * d, n * n);
    lemma_sqrt_floor_correct(variance_milli2(s));
    assert(sqrt_floor(variance_milli2(s)) < 0x1_0000_0000_0000) by (nonlinear_arith)
        requires
            sqrt_floor(variance_milli2(s)) >= 0,
            sqrt_floor(variance_milli2(s)) * sqrt_floor(variance_milli2(s)) <= variance_milli2(s),
            variance_milli2(s) <= 1000000 * (0xFFFF_FFFF * 0xFFFF_FFFF),
    ;
}

/// The half-width of the diagnostic confidence interval, in milli-units:
/// `z · σ / √n`, all three factors scaled by 1000.
pub open spec fn half_width_milli(z_milli: int, sigma_milli: int, n: int) -> int
    recommends
        n > 0,
{
    (z_milli * sigma_milli) / sqrt_floor(1000000 * n)
}

/// `sqrt_floor` is monotone.
pub proof fn lemma_sqrt_floor_monotone(a: int, b: int)
    requires
        0 <= a <= b,
    ensures
        sqrt_floor(a) <= sqrt_floor(b),
{
    lemma_sqrt_floor_correct(a);
    lemma_sqrt_floor_correct(b);
    let sa = sqrt_floor(a);
    let sb = sqrt_floor(b);
    assert(sa <= sb) by (nonlinear_arith)
        requires
            sa >= 0,
            sb >= 0,
            sa * sa <= a,
            a <= b,
            b < (sb + 1) * (sb + 1),
    ;
}

/// For a fixed deviation and multiplier, the interval's half-width shrinks
/// (weakly) as the sample count grows.
pub proof fn lemma_half_width_monotone(z_milli: int, sigma_milli: int, n1: int, n2: int)
    requires
        0 <= z_milli,
        0 <= sigma_milli,
        1 <= n1 <= n2,
    ensures
        half_width_milli(z_milli, sigma_milli, n2) <= half_width_milli(z_milli, sigma_milli, n1),
{
    lemma_sqrt_floor_monotone(1000000 * n1, 1000000 * n2);
    lemma_sqrt_floor_monotone(1000000, 1000000 * n1);
    assert(sqrt_floor(1000000) == 1000) by {
        lemma_sqrt_floor_unique(1000000, 1000);
    }
    assert(z_milli * sigma_milli >= 0) by (nonlinear_arith)
        requires
            z_milli >= 0,
            sigma_milli >= 0,
    ;
    vstd::arithmetic::div_mod::lemma_div_is_ordered_by_denominator(
        z_milli * sigma_milli,
        sqrt_floor(1000000 * n1),
        sqrt_floor(1000000 * n2),
    );
}

/// The diagnostic confidence interval `mean ± z·σ/√n` over the samples, in
/// milli-units; the multiplier `z_milli` is also given in thousandths
/// (`1440` stands for `z = 1.44`). "No data" on an empty sample set; the
/// interval is always symmetric about the mean.
pub fn confidence_interval(data: &Vec<u32>, z_milli: u64) -> (r: Option<(i128, i128)>)
    requires
        data@.len() <= 0xFFFF_FFFF,
    ensures
        (r is Some) <==> data@.len() > 0,
        r is Some ==> {
            let hw = half_width_milli(
                z_milli as int,
                stddev_milli(data@),
                data@.len() as int,
            );
            r.unwrap().0 == mean_milli(data@) - hw && r.unwrap().1 == mean_milli(data@) + hw
        },
        r is Some ==> r.unwrap().0 + r.unwrap().1 == 2 * mean_milli(data@),
{
    let m_opt = mean(data);
    let s_opt = std_deviation(data);
    let m: u64;
    let s: u64;
    match (m_opt, s_opt) {
        (Some(m0), Some(s0)) => {
            m = m0;
            s = s0;
        },
        _ => {
            return None;
        },
    }
    let n: u128 = data.len() as u128;
    let sn = isqrt_u128(1000000u128 * n);
    proof {
        lemma_sqrt_floor_monotone(1000000, 1000000 * n as int);
        lemma_sqrt_floor_unique(1000000, 1000);
    }
    proof {
        lemma_stddev_bound(data@);
        assert(z_milli as int * s as int <= 0xFFFF_FFFF_FFFF_FFFFu128 * 0x1_0000_0000_0000u128) by (nonlinear_arith)
            requires
                0 <= z_milli <= 0xFFFF_FFFF_FFFF_FFFFu128,
                0 <= s < 0x1_0000_0000_0000u128,
        ;
    }
    let h: u128 = (z_milli as u128) * (s as u128) / sn;
    proof {
        assert(h <= z_milli as int * s as int) by (nonlinear_arith)
            requires
                h == (z_milli as int * s as int) / (sn as int),
                sn >= 1,
                z_milli as int * s as int >= 0,
        ;
    }
    let lo: i128 = m as i128 - h as i128;
    let hi: i128 = m as i128 + h as i128;
    Some((lo, hi))
}

/// The left edge of bucket `i` when `[dlo, dhi)` is divided into `res`
/// equal buckets.
pub open spec fn bucket_pivot(dlo: int, dhi: int, res: int, i: int) -> int
    recommends
        res >= 1,
{
    dlo + (i * (dhi - dlo)) / res
}

/// Whether bucket `i`'s left edge lies inside the interval `[low, high)`.
pub open spec fn bucket_inside(low: int, high: int, dlo: int, dhi: int, res: int, i: int) -> bool {
    low <= bucket_pivot(dlo, dhi, res, i) < high
}

/// Whether bucket `i` is drawn filled: either its left edge lies inside the
/// interval, or it is the first bucket whose right edge passes the interval's
/// upper end while no earlier bucket was filled (so that even an interval
/// narrower than one bucket leaves a mark).
pub open spec fn bucket_marked(low: int, high: int, dlo: int, dhi: int, res: int, i: int) -> bool {
    bucket_inside(low, high, dlo, dhi, res, i) || (bucket_pivot(dlo, dhi, res, i + 1) > high && (
    forall|j: int| 0 <= j < i ==> #[trigger] bucket_pivot(dlo, dhi, res, j + 1) <= high) && (forall|
    j: int|
        0 <= j < i ==> !#[trigger] bucket_inside(low, high, dlo, dhi, res, j)))
}

/// Renders the interval `[low, high)` as a textual bar over the domain
/// `[domain_low, domain_high)`: one filled square per bucket the interval
/// touches, one empty square per bucket it misses.
pub fn render_interval(
    low: i128,
    high: i128,
    domain_low: i128,
    domain_high: i128,
    resolution: usize,
) -> (r: String)
    requires
        domain_low < domain_high,
        domain_high - domain_low <= 0xFFFF_FFFF_FFFF_FFFF,
        -0x8000_0000_0000_0000 <= domain_low,
        domain_high <= 0x8000_0000_0000_0000,
        1 <= resolution <= 0xFFFF_FFFF,
    ensures
        r@.len() == resolution,
        forall|i: int|
            0 <= i < resolution ==> r@[i] == (if bucket_marked(
                low as int,
                high as int,
                domain_low as int,
                domain_high as int,
                resolution as int,
                i,
            ) {
                '\u{25A0}'
            } else {
                '\u{25A1}'
            }),
{
    let ghost glow = low as int;
    let ghost ghigh = high as int;
    let ghost gdlo = domain_low as int;
    let ghost gdhi = domain_high as int;
    let ghost gres = resolution as int;
    let mut out = String::from_str("");
    let mut printed = false;
    let mut i: usize = 0;
    proof {
        reveal_strlit("");
        reveal_strlit("\u{25A0}");
        reveal_strlit("\u{25A1}");
    }
    let w: u128 = (domain_high - domain_low) as u128;
    while i < resolution
        invariant
            0 <= i <= resolution,
            1 <= resolution <= 0xFFFF_FFFF,
            domain_low < domain_high,
            domain_high - domain_low <= 0xFFFF_FFFF_FFFF_FFFF,
            -0x8000_0000_0000_0000 <= domain_low,
            domain_high <= 0x8000_0000_0000_0000,
            w == gdhi - gdlo,
            glow == low as int && ghigh == high as int && gdlo == domain_low as int && gdhi
                == domain_high as int && gres == resolution as int,
            out@.len() == i,
            forall|j: int|
                0 <= j < i ==> out@[j] == (if bucket_marked(glow, ghigh, gdlo, gdhi, gres, j) {
                    '\u{25A0}'
                } else {
                    '\u{25A1}'
                }),
            printed <==> exists|j: int| 0 <= j < i && bucket_marked(glow, ghigh, gdlo, gdhi, gres, j),
            !printed ==> forall|j: int|
                0 <= j < i ==> #[trigger] bucket_pivot(gdlo, gdhi, gres, j + 1) <= ghigh,
        decreases resolution - i,
    {
        proof {
            assert(i as int * (w as int) <= 0xFFFF_FFFF * 0xFFFF_FFFF_FFFF_FFFF && (i as int + 1) * (
            w as int) <= 0x1_0000_0000 * 0xFFFF_FFFF_FFFF_FFFF) by (nonlinear_arith)
                requires
                    0 <= i < 0x1_0000_0000,
                    0 <= w as int <= 0xFFFF_FFFF_FFFF_FFFF,
            ;
        }
        let off: u128 = (i as u128) * w / (resolution as u128);
        let off_next: u128 = (i as u128 + 1) * w / (resolution as u128);
        proof {
            assert(off <= w && off_next <= w) by (nonlinear_arith)
                requires
                    off as int == (i as int * (w as int)) / (resolution as int),
                    off_next as int == ((i as int + 1) * (w as int)) / (resolution as int),
                    0 <= i <= resolution,
                    i + 1 <= resolution,
                    1 <= resolution,
                    0 <= w,
            ;
            assert(off as int == (i as int * (gdhi - gdlo)) / gres);
            assert(off_next as int == ((i + 1) as int * (gdhi - gdlo)) / gres);
        }
        let pivot: i128 = domain_low + off as i128;
        let next_pivot: i128 = domain_low + off_next as i128;
        proof {
            assert(pivot as int == bucket_pivot(gdlo, gdhi, gres, i as int));
            assert(next_pivot as int == bucket_pivot(gdlo, gdhi, gres, i as int + 1));
        }
        let inside = pivot >= low && pivot < high;
        let cond = inside || (!printed && next_pivot > high);
        proof {
            if cond {
                if !inside {
                    assert forall|j: int| 0 <= j < i implies !#[trigger] bucket_inside(
                        glow,
                        ghigh,
                        gdlo,
                        gdhi,
                        gres,
                        j,
                    ) by {
                        assert(!bucket_marked(glow, ghigh, gdlo, gdhi, gres, j));
                    }
                    assert(bucket_marked(glow, ghigh, gdlo, gdhi, gres, i as int));
                }
            } else {
                if bucket_marked(glow, ghigh, gdlo, gdhi, gres, i as int) {
                    assert(bucket_pivot(gdlo, gdhi, gres, i as int + 1) > ghigh && (forall|j: int|
                        0 <= j < i ==> #[trigger] bucket_pivot(gdlo, gdhi, gres, j + 1) <= ghigh)
                        && (forall|j: int|
                        0 <= j < i ==> !#[trigger] bucket_inside(glow, ghigh, gdlo, gdhi, gres, j)));
                    if printed {
                        let j = choose|j: int|
                            0 <= j < i && bucket_marked(glow, ghigh, gdlo, gdhi, gres, j);
                        assert(false);
                    }
                    assert(false);
                }
            }
        }
        proof {
            reveal_strlit("\u{25A0}");
            reveal_strlit("\u{25A1}");
        }
        if cond {
            out.append("\u{25A0}");
        } else {
            out.append("\u{25A1}");
        }
        printed = printed || cond;
        i = i + 1;
    }
    out
}

/// As long as the interval's upper end lies inside the rendered domain, at
/// least one bucket of the bar is filled, however narrow the interval.
pub proof fn lemma_render_marks_one(low: int, high: int, dlo: int, dhi: int, res: int)
    requires
        res >= 1,
        dlo < dhi,
        high < dhi,
    ensures
        exists|i: int| 0 <= i < res && bucket_marked(low, high, dlo, dhi, res, i),
{
    vstd::arithmetic::div_mod::lemma_div_by_multiple(dhi - dlo, res);
    assert(res * (dhi - dlo) == (dhi - dlo) * res) by (nonlinear_arith);
    assert(bucket_pivot(dlo, dhi, res, res) == dhi);
    lemma_first_passing_bucket_marked(low, high, dlo, dhi, res, res - 1);
}

/// If bucket `k`'s right edge passes the interval's upper end, some bucket
/// up to `k` is marked.
proof fn lemma_first_passing_bucket_marked(low: int, high: int, dlo: int, dhi: int, res: int, k: int)
    requires
        res >= 1,
        dlo < dhi,
        0 <= k < res,
        bucket_pivot(dlo, dhi, res, k + 1) > high,
    ensures
        exists|i: int| 0 <= i <= k && bucket_marked(low, high, dlo, dhi, res, i),
    decreases k,
{
    if exists|j: int| 0 <= j < k && #[trigger] bucket_pivot(dlo, dhi, res, j + 1) > high {
        let j = choose|j: int| 0 <= j < k && #[trigger] bucket_pivot(dlo, dhi, res, j + 1) > high;
        lemma_first_passing_bucket_marked(low, high, dlo, dhi, res, j);
    } else if exists|j: int| 0 <= j < k && bucket_inside(low, high, dlo, dhi, res, j) {
        let j = choose|j: int| 0 <= j < k && bucket_inside(low, high, dlo, dhi, res, j);
        assert(bucket_marked(low, high, dlo, dhi, res, j));
    } else {
        assert(bucket_marked(low, high, dlo, dhi, res, k));
    }
}

} // verus!
