//! Exponentially weighted moving average in fixed point.
//!
//! The smoothing factor is the fraction `num / den`; averages are kept scaled by
//! `EWMA_SCALE` and each update is rounded down.
use vstd::prelude::*;

verus! {

/// The fixed-point scale of an average: `EWMA_SCALE` stands for 1.
pub const EWMA_SCALE: u128 = 1048576;

/// Largest denominator of a smoothing factor.
pub const ALPHA_DEN_LIMIT: u64 = 0x2_0000_0000;

/// One update of the average `avg` by `x`: `alpha * x + (1 - alpha) * avg`.
pub open spec fn ewma_step(avg: int, x: int, num: int, den: int) -> int {
    (num * x * EWMA_SCALE + (den - num) * avg) / den
}

/// The average over the first `n` samples, `n >= 1`: the first sample itself,
/// then one update per further sample.
pub open spec fn ewma_prefix(s: Seq<u32>, n: int, num: int, den: int) -> int
    decreases n,
{
    if n <= 1 {
        s[0] * EWMA_SCALE
    } else {
        ewma_step(ewma_prefix(s, n - 1, num, den), s[n - 1] as int, num, den)
    }
}

/// The average of all of `s` (scaled), and 0 for no samples.
pub open spec fn ewma_of(s: Seq<u32>, num: int, den: int) -> int {
    if s.len() == 0 {
        0
    } else {
        ewma_prefix(s, s.len() as int, num, den)
    }
}

/// A smoothing factor in (0, 1] with a denominator below `ALPHA_DEN_LIMIT`.
pub open spec fn valid_alpha(num: int, den: int) -> bool {
    0 < num <= den <= ALPHA_DEN_LIMIT
}

/// Every sample of `s` lies in `[lo, hi]`.
pub open spec fn samples_within(s: Seq<u32>, lo: int, hi: int) -> bool {
    forall|i: int| 0 <= i < s.len() ==> lo <= #[trigger] s[i] <= hi
}

/// An update stays between the bounds that the average and the sample share.
proof fn lemma_step_within(avg: int, x: int, num: int, den: int, lo: int, hi: int)
    requires
        valid_alpha(num, den),
        0 <= lo,
        lo * EWMA_SCALE <= avg <= hi * EWMA_SCALE,
        lo <= x <= hi,
    ensures
        lo * EWMA_SCALE <= ewma_step(avg, x, num, den) <= hi * EWMA_SCALE,
{
    let sc = EWMA_SCALE as int;
    let t = num * x * sc + (den - num) * avg;
    assert(num * x * sc <= num * hi * sc) by (nonlinear_arith)
        requires 0 < num, x <= hi, 0 < sc;
    assert((den - num) * avg <= (den - num) * (hi * sc)) by (nonlinear_arith)
        requires num <= den, avg <= hi * sc;
    assert(num * lo * sc <= num * x * sc) by (nonlinear_arith)
        requires 0 < num, lo <= x, 0 < sc;
    assert((den - num) * (lo * sc) <= (den - num) * avg) by (nonlinear_arith)
        requires num <= den, lo * sc <= avg;
    assert(num * hi * sc + (den - num) * (hi * sc) == den * (hi * sc)) by (nonlinear_arith);
    assert(num * lo * sc + (den - num) * (lo * sc) == den * (lo * sc)) by (nonlinear_arith);
    assert(t / den <= hi * sc) by (nonlinear_arith)
        requires t <= den * (hi * sc), 0 < den;
    assert(lo * sc <= t / den) by (nonlinear_arith)
        requires den * (lo * sc) <= t, 0 < den;
}

/// The average of samples in `[lo, hi]` lies in `[lo, hi]` (scaled).
pub proof fn lemma_ewma_within(s: Seq<u32>, n: int, num: int, den: int, lo: int, hi: int)
    requires
        valid_alpha(num, den),
        0 <= lo,
        1 <= n <= s.len(),
        samples_within(s, lo, hi),
    ensures
        lo * EWMA_SCALE <= ewma_prefix(s, n, num, den) <= hi * EWMA_SCALE,
    decreases n,
{
    if n <= 1 {
        let x = s[0] as int;
        assert(lo * EWMA_SCALE <= x * EWMA_SCALE <= hi * EWMA_SCALE) by (nonlinear_arith)
            requires lo <= x <= hi;
    } else {
        lemma_ewma_within(s, n - 1, num, den, lo, hi);
        lemma_step_within(ewma_prefix(s, n - 1, num, den), s[n - 1] as int, num, den, lo, hi);
    }
}

/// Exponentially weighted moving average of `samples` with smoothing factor
/// `alpha_num / alpha_den`, scaled by `EWMA_SCALE`; 0 for no samples.
pub fn ewma(samples: &Vec<u32>, alpha_num: u64, alpha_den: u64) -> (r: u128)
    requires
        valid_alpha(alpha_num as int, alpha_den as int),
    ensures
        r as int == ewma_of(samples@, alpha_num as int, alpha_den as int),
{
    if samples.len() == 0 {
        return 0;
    }
    let ghost s = samples@;
    let ghost (num, den) = (alpha_num as int, alpha_den as int);
    let num128 = alpha_num as u128;
    let den128 = alpha_den as u128;
    let mut avg: u128 = (samples[0] as u128) * EWMA_SCALE;
    let mut i: usize = 1;
    proof {
        assert(samples_within(s, 0, u32::MAX as int));
        lemma_ewma_within(s, 1, num, den, 0, u32::MAX as int);
    }
    while i < samples.len()
        invariant
            1 <= i <= samples.len(),
            s == samples@,
            valid_alpha(num, den),
            num128 as int == num,
            den128 as int == den,
            avg as int == ewma_prefix(s, i as int, num, den),
            avg <= u32::MAX as int * EWMA_SCALE,
        decreases samples.len() - i,
    {
        let x = samples[i] as u128;
        proof {
            assert(num128 * x * EWMA_SCALE <= ALPHA_DEN_LIMIT as int * (u32::MAX as int) * EWMA_SCALE)
                by (nonlinear_arith)
                requires num128 <= ALPHA_DEN_LIMIT as int, x <= u32::MAX as int;
            assert((den128 - num128) * avg <= ALPHA_DEN_LIMIT as int * ((u32::MAX as int) * EWMA_SCALE))
                by (nonlinear_arith)
                requires den128 - num128 <= ALPHA_DEN_LIMIT as int, avg <= u32::MAX as int * EWMA_SCALE,
                    num128 <= den128;
            lemma_ewma_within(s, i as int + 1, num, den, 0, u32::MAX as int);
        }
        avg = (num128 * x * EWMA_SCALE + (den128 - num128) * avg) / den128;
        i = i + 1;
    }
    avg
}

/// A single sample is its own average, whatever the smoothing factor.
pub proof fn lemma_ewma_single(x: u32, num: int, den: int)
    ensures
        ewma_of(seq![x], num, den) == x * EWMA_SCALE,
{
}

/// A constant sequence is a fixed point: its average is the constant.
pub proof fn lemma_ewma_constant(s: Seq<u32>, x: u32, num: int, den: int)
    requires
        valid_alpha(num, den),
        s.len() >= 1,
        forall|i: int| 0 <= i < s.len() ==> s[i] == x,
    ensures
        ewma_of(s, num, den) == x * EWMA_SCALE,
{
    assert(samples_within(s, x as int, x as int));
    lemma_ewma_within(s, s.len() as int, num, den, x as int, x as int);
}

} // verus!
