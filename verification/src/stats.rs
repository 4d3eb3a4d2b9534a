//! Exact fixed-point aggregation over qualifying price lists: extremes,
//! sample mean, Bessel-corrected sample standard deviation, and the
//! normal-approximation 95% confidence bound, all in hundredths of a unit.
//!
//! Every step is integer arithmetic with floors: the mean is the floored
//! quotient of the sum, the standard deviation the floored square root of
//! the floored variance, and the confidence margin the floor of
//! `1.96 * stddev / sqrt(n)`, computed as one integer square root so that
//! no intermediate rounding creeps in.

use vstd::prelude::*;
use crate::record::MAX_CENTS;

verus! {

/// The least element of a non-empty sequence.
pub open spec fn spec_seq_min(s: Seq<u64>) -> u64
    recommends
        s.len() > 0,
    decreases s.len(),
{
    if s.len() <= 1 {
        s[0]
    } else {
        let m = spec_seq_min(s.drop_last());
        if s.last() < m {
            s.last()
        } else {
            m
        }
    }
}

/// The greatest element of a non-empty sequence.
pub open spec fn spec_seq_max(s: Seq<u64>) -> u64
    recommends
        s.len() > 0,
    decreases s.len(),
{
    if s.len() <= 1 {
        s[0]
    } else {
        let m = spec_seq_max(s.drop_last());
        if s.last() > m {
            s.last()
        } else {
            m
        }
    }
}

/// Law: the least element of a non-empty sequence occurs in it and no
/// element falls below it; symmetrically for the greatest element.
pub proof fn lemma_seq_min_max(s: Seq<u64>)
    requires
        s.len() > 0,
    ensures
        s.contains(spec_seq_min(s)),
        forall|k: int| 0 <= k < s.len() ==> spec_seq_min(s) <= s[k],
        s.contains(spec_seq_max(s)),
        forall|k: int| 0 <= k < s.len() ==> s[k] <= spec_seq_max(s),
    decreases s.len(),
{
    if s.len() > 1 {
        lemma_seq_min_max(s.drop_last());
        assert forall|k: int| 0 <= k < s.len() implies spec_seq_min(s) <= s[k] by {
            if k < s.len() - 1 {
                assert(s.drop_last()[k] == s[k]);
            }
        }
        assert forall|k: int| 0 <= k < s.len() implies s[k] <= spec_seq_max(s) by {
            if k < s.len() - 1 {
                assert(s.drop_last()[k] == s[k]);
            }
        }
        if s.last() < spec_seq_min(s.drop_last()) {
            assert(s[s.len() - 1] == spec_seq_min(s));
        } else {
            let i = choose|i: int| 0 <= i < s.drop_last().len() && s.drop_last()[i] == spec_seq_min(
                s,
            );
            assert(s[i] == spec_seq_min(s));
        }
        if s.last() > spec_seq_max(s.drop_last()) {
            assert(s[s.len() - 1] == spec_seq_max(s));
        } else {
            let i = choose|i: int| 0 <= i < s.drop_last().len() && s.drop_last()[i] == spec_seq_max(
                s,
            );
            assert(s[i] == spec_seq_max(s));
        }
    }
}

/// Whether every price of the list fits the fixed-point model.
pub open spec fn spec_all_in_range(s: Seq<u64>) -> bool {
    forall|k: int| 0 <= k < s.len() ==> s[k] <= MAX_CENTS
}

/// The sum of the prices.
pub open spec fn spec_sum(s: Seq<u64>) -> int
    decreases s.len(),
{
    if s.len() == 0 {
        0
    } else {
        spec_sum(s.drop_last()) + s.last()
    }
}

pub proof fn lemma_sum_bounds(s: Seq<u64>)
    requires
        spec_all_in_range(s),
    ensures
        0 <= spec_sum(s) <= s.len() * MAX_CENTS,
    decreases s.len(),
{
    if s.len() > 0 {
        lemma_sum_bounds(s.drop_last());
        assert((s.len() - 1) * MAX_CENTS + MAX_CENTS == s.len() * MAX_CENTS) by (nonlinear_arith);
    }
}

/// The sample mean, floored: the sum divided by the length. Zero for an
/// empty list.
pub open spec fn spec_mean(s: Seq<u64>) -> u64 {
    if s.len() == 0 {
        0
    } else {
        (spec_sum(s) / s.len() as int) as u64
    }
}

pub proof fn lemma_mean_in_range(s: Seq<u64>)
    requires
        spec_all_in_range(s),
    ensures
        0 <= spec_mean(s) <= MAX_CENTS,
{
    if s.len() > 0 {
        lemma_sum_bounds(s);
        let n = s.len() as int;
        assert(spec_sum(s) / n <= MAX_CENTS) by (nonlinear_arith)
            requires
                n > 0,
                0 <= spec_sum(s) <= n * MAX_CENTS,
        ;
        assert(spec_sum(s) / n >= 0) by (nonlinear_arith)
            requires
                n > 0,
                spec_sum(s) >= 0,
        ;
    }
}

/// The squared distance of a price from the mean.
pub open spec fn spec_sq_dev(x: u64, mean: u64) -> int {
    (x - mean) * (x - mean)
}

/// The sum of squared deviations from the mean.
pub open spec fn spec_sq_dev_sum(s: Seq<u64>, mean: u64) -> int
    decreases s.len(),
{
    if s.len() == 0 {
        0
    } else {
        spec_sq_dev_sum(s.drop_last(), mean) + spec_sq_dev(s.last(), mean)
    }
}

pub proof fn lemma_sq_dev_sum_bounds(s: Seq<u64>, mean: u64)
    requires
        spec_all_in_range(s),
        mean <= MAX_CENTS,
    ensures
        0 <= spec_sq_dev_sum(s, mean) <= s.len() * (MAX_CENTS * MAX_CENTS),
    decreases s.len(),
{
    if s.len() > 0 {
        lemma_sq_dev_sum_bounds(s.drop_last(), mean);
        let x = s.last();
        assert(0 <= spec_sq_dev(x, mean) <= MAX_CENTS * MAX_CENTS) by (nonlinear_arith)
            requires
                0 <= x <= MAX_CENTS,
                0 <= mean <= MAX_CENTS,
        ;
        assert((s.len() - 1) * (MAX_CENTS * MAX_CENTS) + MAX_CENTS * MAX_CENTS == s.len() * (
        MAX_CENTS * MAX_CENTS)) by (nonlinear_arith);
    }
}

/// The Bessel-corrected sample variance around a given centre, floored:
/// the sum of squared deviations, divided by `n - 1`. Zero where fewer
/// than two samples exist.
pub open spec fn spec_variance_with(s: Seq<u64>, mean: u64) -> int {
    if s.len() < 2 {
        0
    } else {
        spec_sq_dev_sum(s, mean) / (s.len() - 1) as int
    }
}

/// The Bessel-corrected sample variance around the floored sample mean.
pub open spec fn spec_variance(s: Seq<u64>) -> int {
    spec_variance_with(s, spec_mean(s))
}

/// The floored square root: the greatest `r` with `r * r <= v`.
pub open spec fn spec_isqrt(v: int) -> int
    recommends
        v >= 0,
    decreases v,
{
    if v <= 0 {
        0
    } else {
        let r = spec_isqrt(v - 1);
        if (r + 1) * (r + 1) <= v {
            r + 1
        } else {
            r
        }
    }
}

pub proof fn lemma_isqrt_bounds(v: int)
    requires
        v >= 0,
    ensures
        0 <= spec_isqrt(v),
        spec_isqrt(v) * spec_isqrt(v) <= v,
        v < (spec_isqrt(v) + 1) * (spec_isqrt(v) + 1),
    decreases v,
{
    if v > 0 {
        lemma_isqrt_bounds(v - 1);
        let r = spec_isqrt(v - 1);
        if (r + 1) * (r + 1) <= v {
            assert(v < (r + 2) * (r + 2)) by (nonlinear_arith)
                requires
                    v - 1 < (r + 1) * (r + 1),
                    r >= 0,
            ;
        }
    }
}

/// The floored square root is the only value between the two square bounds.
pub proof fn lemma_isqrt_unique(v: int, r: int)
    requires
        v >= 0,
        r >= 0,
        r * r <= v,
        v < (r + 1) * (r + 1),
    ensures
        r == spec_isqrt(v),
{
    lemma_isqrt_bounds(v);
    let q = spec_isqrt(v);
    assert(r == q) by (nonlinear_arith)
        requires
            r >= 0,
            q >= 0,
            r * r <= v < (r + 1) * (r + 1),
            q * q <= v < (q + 1) * (q + 1),
    ;
}

/// The ceiling on the arguments `isqrt` takes: 2^126.
pub const ISQRT_MAX: u128 = 0x40000000000000000000000000000000;

/// Computes the floored square root of `v`.
#[verifier::loop_isolation(false)]
pub fn isqrt(v: u128) -> (r: u64)
    requires
        v < ISQRT_MAX,
    ensures
        r == spec_isqrt(v as int),
{
    let mut lo: u64 = 0;
    let mut hi: u64 = 1;
    // Double until the square of hi exceeds v.
    while (hi as u128) * (hi as u128) <= v
        invariant
            (lo as int) * (lo as int) <= v,
            lo < hi,
            hi <= 0xfffffffffffffffe,
            (hi as int) * (hi as int) < 0x100000000000000000000000000000000,
        decreases v - lo,
    {
        proof {
            assert(hi < 0x8000000000000000 && hi <= v) by (nonlinear_arith)
                requires
                    (hi as int) * (hi as int) <= v,
                    v < ISQRT_MAX,
                    1 <= hi,
                    0x8000000000000000int * 0x8000000000000000int == ISQRT_MAX,
            ;
            assert((2 * hi as int) * (2 * hi as int) < 0x100000000000000000000000000000000)
                by (nonlinear_arith)
                requires
                    hi < 0x8000000000000000,
            ;
        }
        lo = hi;
        hi = 2 * hi;
    }
    // Binary search between lo (square fits) and hi (square exceeds).
    while lo + 1 < hi
        invariant
            (lo as int) * (lo as int) <= v,
            v < (hi as int) * (hi as int),
            lo < hi,
            hi <= 0xfffffffffffffffe,
        decreases hi - lo,
    {
        let mid = lo + (hi - lo) / 2;
        proof {
            assert((mid as int) * (mid as int) < 0x100000000000000000000000000000000)
                by (nonlinear_arith)
                requires
                    mid <= 0xfffffffffffffffe,
            ;
        }
        if (mid as u128) * (mid as u128) <= v {
            lo = mid;
        } else {
            hi = mid;
        }
    }
    proof {
        lemma_isqrt_unique(v as int, lo as int);
    }
    lo
}

/// The sample standard deviation, floored: the square root of the floored
/// Bessel-corrected variance. Zero where fewer than two samples exist.
pub open spec fn spec_std_dev(s: Seq<u64>) -> int {
    spec_isqrt(spec_variance(s))
}

/// The floored 95% confidence margin `1.96 * stddev / sqrt(n)`, computed
/// exactly as one integer square root of `(196 * stddev)^2 / (10000 * n)`.
pub open spec fn spec_ci_margin(s: Seq<u64>) -> int
    recommends
        s.len() > 0,
{
    spec_isqrt((196 * spec_std_dev(s)) * (196 * spec_std_dev(s)) / (10000 * s.len() as int))
}

/// The lower bound of the 95% confidence interval around the sample mean,
/// in hundredths: nothing for an empty list, the single price itself for a
/// one-element list, and `mean - margin` otherwise.
pub open spec fn spec_ci_lower(s: Seq<u64>) -> Option<i64> {
    if s.len() == 0 {
        None
    } else if s.len() == 1 {
        Some(s[0] as i64)
    } else {
        Some((spec_mean(s) - spec_ci_margin(s)) as i64)
    }
}

/// The upper bound of the 95% confidence interval around the sample mean,
/// in hundredths: nothing for an empty list, the single price itself for a
/// one-element list, and `mean + margin` otherwise.
pub open spec fn spec_ci_upper(s: Seq<u64>) -> Option<i64> {
    if s.len() == 0 {
        None
    } else if s.len() == 1 {
        Some(s[0] as i64)
    } else {
        Some((spec_mean(s) + spec_ci_margin(s)) as i64)
    }
}

/// The most rows one dump may carry into the aggregator: keeps the sum of
/// squared deviations inside 128 bits.
pub const MAX_ROWS: usize = 1000000;

/// Computes the floored sample mean of a price list; zero for an empty one.
#[verifier::loop_isolation(false)]
pub fn calculate_mean(prices: &Vec<u64>) -> (r: u64)
    requires
        spec_all_in_range(prices@),
    ensures
        r == spec_mean(prices@),
        r <= MAX_CENTS,
{
    if prices.len() == 0 {
        return 0;
    }
    let mut sum: u128 = 0;
    let mut k: usize = 0;
    while k < prices.len()
        invariant
            0 <= k <= prices@.len(),
            sum == spec_sum(prices@.take(k as int)),
        decreases prices@.len() - k,
    {
        proof {
            assert(prices@.take(k + 1).drop_last() =~= prices@.take(k as int));
            lemma_sum_bounds(prices@.take(k + 1));
            assert(prices@.take(k + 1).last() == prices@[k as int]);
            assert((k + 1) * MAX_CENTS <= 0x10000000000000000int * MAX_CENTS)
                by (nonlinear_arith)
                requires
                    k + 1 <= 0x10000000000000000int,
            ;
        }
        sum = sum + prices[k] as u128;
        k = k + 1;
    }
    proof {
        assert(prices@.take(prices@.len() as int) =~= prices@);
        lemma_sum_bounds(prices@);
        assert(spec_sum(prices@) / (prices@.len() as int) <= MAX_CENTS) by (nonlinear_arith)
            requires
                prices@.len() >= 1,
                0 <= spec_sum(prices@) <= prices@.len() * MAX_CENTS,
        ;
    }
    let n = prices.len() as u128;
    (sum / n) as u64
}

/// Computes the floored sample standard deviation of a price list around a
/// given centre, Bessel-corrected; zero where fewer than two prices exist.
#[verifier::loop_isolation(false)]
pub fn calculate_std_dev(prices: &Vec<u64>, mean: u64) -> (r: u64)
    requires
        spec_all_in_range(prices@),
        prices@.len() <= MAX_ROWS,
        mean <= MAX_CENTS,
    ensures
        r == spec_isqrt(spec_variance_with(prices@, mean)),
        (r as int) * (r as int) <= 2 * (MAX_CENTS * MAX_CENTS),
{
    if prices.len() < 2 {
        return 0;
    }
    let mut sum: u128 = 0;
    let mut k: usize = 0;
    while k < prices.len()
        invariant
            0 <= k <= prices@.len(),
            sum == spec_sq_dev_sum(prices@.take(k as int), mean),
        decreases prices@.len() - k,
    {
        proof {
            assert(prices@.take(k + 1).drop_last() =~= prices@.take(k as int));
            lemma_sq_dev_sum_bounds(prices@.take(k + 1), mean);
            assert(prices@.take(k + 1).last() == prices@[k as int]);
            assert((k + 1) * (MAX_CENTS * MAX_CENTS) <= MAX_ROWS * (MAX_CENTS * MAX_CENTS))
                by (nonlinear_arith)
                requires
                    k + 1 <= MAX_ROWS,
            ;
        }
        let x = prices[k];
        let dev: u64 = if x >= mean {
            x - mean
        } else {
            mean - x
        };
        assert((dev as int) * (dev as int) == spec_sq_dev(x, mean)) by (nonlinear_arith)
            requires
                dev == if x >= mean {
                    x - mean
                } else {
                    mean - x
                },
        ;
        sum = sum + (dev as u128) * (dev as u128);
        k = k + 1;
    }
    proof {
        assert(prices@.take(prices@.len() as int) =~= prices@);
        lemma_sq_dev_sum_bounds(prices@, mean);
    }
    let nm1 = (prices.len() - 1) as u128;
    let var = sum / nm1;
    proof {
        let n = prices@.len() as int;
        assert(spec_sq_dev_sum(prices@, mean) / (n - 1) <= 2 * (MAX_CENTS * MAX_CENTS))
            by (nonlinear_arith)
            requires
                n >= 2,
                0 <= spec_sq_dev_sum(prices@, mean) <= n * (MAX_CENTS * MAX_CENTS),
        ;
    }
    let r = isqrt(var);
    proof {
        lemma_isqrt_bounds(var as int);
    }
    r
}

/// Computes the floored 95% confidence margin `1.96 * stddev / sqrt(n)` of
/// a price list of at least two prices, in hundredths.
pub fn ci_margin(prices: &Vec<u64>) -> (r: u64)
    requires
        spec_all_in_range(prices@),
        2 <= prices@.len() <= MAX_ROWS,
    ensures
        r == spec_ci_margin(prices@),
        r < 30000000000000000,
{
    let mean = calculate_mean(prices);
    let sd = calculate_std_dev(prices, mean);
    proof {
        // sd * sd is at most twice the squared ceiling, so sd stays below
        // 1.5 * 10^16.
        assert(sd < 15000000000000000u64) by (nonlinear_arith)
            requires
                (sd as int) * (sd as int) <= 2 * (MAX_CENTS * MAX_CENTS),
                MAX_CENTS == 10000000000000000,
        ;
    }
    let t: u128 = 196 * (sd as u128);
    proof {
        assert(t < 2940000000000000000);
        assert((t as int) * (t as int) < 8643600000000000000000000000000000000int)
            by (nonlinear_arith)
            requires
                t < 2940000000000000000int,
        ;
    }
    let q: u128 = (t * t) / (10000 * (prices.len() as u128));
    proof {
        assert(q < 900000000000000000000000000000000int && q < ISQRT_MAX) by (nonlinear_arith)
            requires
                q == ((t as int) * (t as int)) / (10000 * prices@.len() as int),
                (t as int) * (t as int) < 8643600000000000000000000000000000000int,
                prices@.len() >= 2,
        ;
    }
    let r = isqrt(q);
    proof {
        lemma_isqrt_bounds(q as int);
        assert(r < 30000000000000000u64) by (nonlinear_arith)
            requires
                (r as int) * (r as int) <= q,
                q < 30000000000000000int * 30000000000000000int,
        ;
    }
    r
}

/// Computes the lower bound of the 95% confidence interval of a price
/// list: nothing for an empty list, the single price for a one-element
/// list, `mean - margin` otherwise.
pub fn calculate_95_ci_lower(prices: &Vec<u64>) -> (r: Option<i64>)
    requires
        spec_all_in_range(prices@),
        prices@.len() <= MAX_ROWS,
    ensures
        r == spec_ci_lower(prices@),
{
    if prices.len() == 0 {
        return None;
    }
    if prices.len() == 1 {
        return Some(prices[0] as i64);
    }
    let mean = calculate_mean(prices);
    let margin = ci_margin(prices);
    Some((mean as i64) - (margin as i64))
}

/// Computes the upper bound of the 95% confidence interval of a price
/// list: nothing for an empty list, the single price for a one-element
/// list, `mean + margin` otherwise.
pub fn calculate_95_ci_upper(prices: &Vec<u64>) -> (r: Option<i64>)
    requires
        spec_all_in_range(prices@),
        prices@.len() <= MAX_ROWS,
    ensures
        r == spec_ci_upper(prices@),
{
    if prices.len() == 0 {
        return None;
    }
    if prices.len() == 1 {
        return Some(prices[0] as i64);
    }
    let mean = calculate_mean(prices);
    let margin = ci_margin(prices);
    Some((mean as i64) + (margin as i64))
}

/// Finds the least price of a non-empty list.
#[verifier::loop_isolation(false)]
pub fn seq_min(prices: &Vec<u64>) -> (r: u64)
    requires
        prices@.len() > 0,
    ensures
        r == spec_seq_min(prices@),
{
    let mut m = prices[0];
    let mut k: usize = 1;
    while k < prices.len()
        invariant
            1 <= k <= prices@.len(),
            m == spec_seq_min(prices@.take(k as int)),
        decreases prices@.len() - k,
    {
        proof {
            assert(prices@.take(k + 1).drop_last() =~= prices@.take(k as int));
            assert(prices@.take(k + 1).last() == prices@[k as int]);
        }
        if prices[k] < m {
            m = prices[k];
        }
        k = k + 1;
    }
    proof {
        assert(prices@.take(prices@.len() as int) =~= prices@);
    }
    m
}

/// Finds the greatest price of a non-empty list.
#[verifier::loop_isolation(false)]
pub fn seq_max(prices: &Vec<u64>) -> (r: u64)
    requires
        prices@.len() > 0,
    ensures
        r == spec_seq_max(prices@),
{
    let mut m = prices[0];
    let mut k: usize = 1;
    while k < prices.len()
        invariant
            1 <= k <= prices@.len(),
            m == spec_seq_max(prices@.take(k as int)),
        decreases prices@.len() - k,
    {
        proof {
            assert(prices@.take(k + 1).drop_last() =~= prices@.take(k as int));
            assert(prices@.take(k + 1).last() == prices@[k as int]);
        }
        if prices[k] > m {
            m = prices[k];
        }
        k = k + 1;
    }
    proof {
        assert(prices@.take(prices@.len() as int) =~= prices@);
    }
    m
}

/// Law: a qualifying price list of size one has the single price itself as
/// its 95% confidence bound on both sides — no sentinel, nothing undefined.
pub proof fn lemma_ci_single_price(s: Seq<u64>)
    requires
        s.len() == 1,
    ensures
        spec_ci_lower(s) == Some(s[0] as i64),
        spec_ci_upper(s) == Some(s[0] as i64),
{
}

/// Law: a qualifying price list of size zero has no 95% confidence bound on
/// either side (the assembled snapshot carries the sentinel).
pub proof fn lemma_ci_empty(s: Seq<u64>)
    requires
        s.len() == 0,
    ensures
        spec_ci_lower(s) is None,
        spec_ci_upper(s) is None,
{
}

} // verus!
