//! Dollar bars: a bar closes as soon as its dollar volume exceeds a threshold,
//! and each close resets the threshold from the trailing day's dollar volume.
use vstd::prelude::*;
use crate::{
    all_fit, count_total, folded, lemma_count_total_push, lemma_count_total_update_last,
    lemma_fold_bounded, seeded, Bar, Trade, DOLLAR_LIMIT,
};

verus! {

/// Length of the trailing window, in seconds.
pub const WINDOW_SECONDS: u64 = 86400;

/// The trailing window's dollar volume is divided by this to give the next
/// threshold (about this many bars per window).
pub const SLOTS: u128 = 100;

pub struct DollarBars {
    pub bars: Vec<Bar>,
    pub threshold: u128,
}

/// The dollar value of the trades among the first `n` that follow the last
/// one (scanning back from the `n`-th) whose timestamp is before
/// `t_last - window`.
pub open spec fn tail_sum(s: Seq<Trade>, n: int, t_last: int, window: int) -> int
    decreases n,
{
    if n <= 0 {
        0
    } else if s[n - 1].timestamp + window < t_last {
        0
    } else {
        s[n - 1].dollar() + tail_sum(s, n - 1, t_last, window)
    }
}

/// The dollar volume of the window that ends at the `n`-th trade; 0 for `n == 0`.
pub open spec fn trailing_sum(s: Seq<Trade>, n: int, window: int) -> int {
    if n <= 0 {
        0
    } else {
        tail_sum(s, n, s[n - 1].timestamp as int, window)
    }
}

/// The bars and the threshold after the first `n` trades of the pass. The pass
/// starts from a bar seeded by the first trade and then folds every trade,
/// the first one included. When a fold makes the bar's dollar volume exceed
/// the threshold, the threshold becomes the trailing sum of the trades before
/// that one divided by `SLOTS`, and a new bar is seeded from that trade.
pub open spec fn dollar_bars_after(trades: Seq<Trade>, threshold: int, n: int) -> (Seq<Bar>, int)
    decreases n,
{
    if n <= 0 {
        (seq![seeded(trades[0])], threshold)
    } else {
        let (bars, thr) = dollar_bars_after(trades, threshold, n - 1);
        let b = folded(bars.last(), trades[n - 1]);
        if b.dollar_volume > thr {
            (
                bars.update(bars.len() - 1, b).push(seeded(trades[n - 1])),
                trailing_sum(trades, n - 1, WINDOW_SECONDS as int) / (SLOTS as int),
            )
        } else {
            (bars.update(bars.len() - 1, b), thr)
        }
    }
}

proof fn lemma_tail_sum_bound(s: Seq<Trade>, n: int, t_last: int, window: int)
    requires
        0 <= n <= s.len(),
        all_fit(s),
    ensures
        0 <= tail_sum(s, n, t_last, window) <= n * DOLLAR_LIMIT,
    decreases n,
{
    if n > 0 {
        assert(s[n - 1].fits());
        assert(s[n - 1].dollar() >= 0) by (nonlinear_arith)
            requires s[n - 1].price >= 0, s[n - 1].amount >= 0;
        lemma_tail_sum_bound(s, n - 1, t_last, window);
    }
}

/// The dollar volume of the trades among `trades[..end]` within `window`
/// seconds before the last of them, scanning back and stopping at the first
/// trade outside the window.
pub fn calculate_tail_sum(trades: &Vec<Trade>, end: usize, window: u64) -> (r: u128)
    requires
        end <= trades.len() < u32::MAX,
        all_fit(trades@),
    ensures
        r == trailing_sum(trades@, end as int, window as int),
        r <= end * DOLLAR_LIMIT,
{
    if end == 0 {
        return 0;
    }
    let ghost s = trades@;
    let t_last = trades[end - 1].timestamp;
    let ghost tl = t_last as int;
    let ghost w = window as int;
    let mut sum: u128 = 0;
    let mut j: usize = end;
    let mut done = false;
    proof {
        lemma_tail_sum_bound(s, end as int, tl, w);
    }
    while j > 0 && !done
        invariant
            j <= end <= trades.len() < u32::MAX,
            s == trades@,
            all_fit(s),
            tl == s[end - 1].timestamp,
            tl == t_last,
            w == window,
            done ==> sum == tail_sum(s, end as int, tl, w),
            !done ==> sum + tail_sum(s, j as int, tl, w) == tail_sum(s, end as int, tl, w),
            sum <= (end - j) * DOLLAR_LIMIT,
        decreases j + (if done { 0int } else { 1int }),
    {
        let trade = &trades[j - 1];
        if (trade.timestamp as u128) + (window as u128) < (t_last as u128) {
            proof {
                assert(tail_sum(s, j as int, tl, w) == 0);
            }
            done = true;
        } else {
            proof {
                assert(tail_sum(s, j as int, tl, w) == s[j - 1].dollar() + tail_sum(
                    s,
                    j - 1,
                    tl,
                    w,
                ));
                assert(s[j - 1].fits());
                assert((end - j) * DOLLAR_LIMIT + DOLLAR_LIMIT == (end - j + 1) * DOLLAR_LIMIT)
                    by (nonlinear_arith);
                assert((end - j + 1) * DOLLAR_LIMIT <= (u32::MAX as int) * DOLLAR_LIMIT)
                    by (nonlinear_arith)
                    requires end - j + 1 <= u32::MAX as int;
            }
            sum = sum + trade.dollar_value();
            j = j - 1;
        }
    }
    proof {
        lemma_tail_sum_bound(s, end as int, tl, w);
    }
    sum
}

/// What holds of the bars of every prefix: at least one bar, each of them
/// consistent.
pub open spec fn dollar_bars_shape(bars: Seq<Bar>) -> bool {
    &&& bars.len() >= 1
    &&& forall|i: int| 0 <= i < bars.len() ==> (#[trigger] bars[i]).consistent()
}

impl DollarBars {
    /// Builds the dollar bars of `trades`, starting from the given threshold.
    pub fn new(trades: &Vec<Trade>, threshold: u128) -> (r: DollarBars)
        requires
            0 < trades.len() < u32::MAX - 1,
            all_fit(trades@),
        ensures
            (r.bars@, r.threshold as int) == dollar_bars_after(
                trades@,
                threshold as int,
                trades.len() as int,
            ),
            dollar_bars_shape(r.bars@),
            count_total(r.bars@) == trades.len() + r.bars.len(),
    {
        let ghost s = trades@;
        let mut bars: Vec<Bar> = vec![Bar::new(&trades[0])];
        let mut threshold = threshold;
        let ghost thr0 = threshold as int;
        proof {
            assert(s[0].fits());
            assert(bars@ =~= seq![seeded(s[0])]);
            assert(bars@.drop_last() =~= Seq::<Bar>::empty());
            assert(count_total(bars@.drop_last()) == 0);
        }
        let mut t: usize = 0;
        while t < trades.len()
            invariant
                t <= trades.len() < u32::MAX - 1,
                s == trades@,
                all_fit(s),
                (bars@, threshold as int) == dollar_bars_after(s, thr0, t as int),
                dollar_bars_shape(bars@),
                count_total(bars@) == t + bars.len(),
                bars@.last().bounded(),
                bars@.last().count <= t + 1,
            decreases trades.len() - t,
        {
            let trade = &trades[t];
            let last = bars.len() - 1;
            let mut bar = bars[last];
            proof {
                assert(s[t as int].fits());
                lemma_fold_bounded(bar, *trade);
                lemma_count_total_update_last(bars@, folded(bar, *trade));
            }
            bar.next(trade);
            bars.set(last, bar);
            if bar.dollar_volume > threshold {
                threshold = calculate_tail_sum(trades, t, WINDOW_SECONDS) / SLOTS;
                proof {
                    lemma_count_total_push(bars@, seeded(*trade));
                }
                bars.push(Bar::new(trade));
            }
            t = t + 1;
        }
        DollarBars { bars, threshold }
    }
}

} // verus!
