//! Volume bars: a bar closes as soon as its volume exceeds a fixed threshold.
use vstd::prelude::*;
use crate::{
    all_fit, count_total, folded, lemma_count_total_push, lemma_count_total_update_last,
    lemma_fold_bounded, seeded, Bar, Trade,
};

verus! {

pub struct VolumeBars {
    pub bars: Vec<Bar>,
    pub threshold: u128,
}

/// The bars after the first `n >= 1` trades: the first trade seeds a bar; each
/// later one is folded into the last bar, and if that bar's volume then exceeds
/// `threshold` a new bar is seeded from the same trade.
pub open spec fn volume_bars_after(trades: Seq<Trade>, threshold: int, n: int) -> Seq<Bar>
    decreases n,
{
    if n <= 1 {
        seq![seeded(trades[0])]
    } else {
        let bars = volume_bars_after(trades, threshold, n - 1);
        let b = folded(bars.last(), trades[n - 1]);
        if b.volume > threshold {
            bars.update(bars.len() - 1, b).push(seeded(trades[n - 1]))
        } else {
            bars.update(bars.len() - 1, b)
        }
    }
}

/// What holds of the bars of every prefix: each bar is consistent; every bar
/// but the last holds two or more trades and exceeds the threshold; the last
/// one was just seeded or does not exceed it.
pub open spec fn volume_bars_shape(bars: Seq<Bar>, threshold: int) -> bool {
    &&& bars.len() >= 1
    &&& forall|i: int| 0 <= i < bars.len() ==> (#[trigger] bars[i]).consistent()
    &&& forall|i: int|
        0 <= i < bars.len() - 1 ==> (#[trigger] bars[i]).volume > threshold && bars[i].count >= 2
    &&& bars.last().count == 1 || bars.last().volume <= threshold
}

/// Closing only on strictly exceeding the threshold, after every trade: for
/// every prefix of the trades, the bars are consistent, each closed bar
/// exceeds the threshold, and the open bar was just seeded or does not exceed
/// it, so every fold that closed nothing left the volume at most the threshold.
pub proof fn lemma_volume_bars_every_prefix(trades: Seq<Trade>, threshold: int, n: int)
    requires
        1 <= n <= trades.len() < u32::MAX,
    ensures
        volume_bars_shape(volume_bars_after(trades, threshold, n), threshold),
        volume_bars_after(trades, threshold, n).last().count <= n,
    decreases n,
{
    if n > 1 {
        lemma_volume_bars_every_prefix(trades, threshold, n - 1);
        let bars = volume_bars_after(trades, threshold, n - 1);
        let b = folded(bars.last(), trades[n - 1]);
        let r = volume_bars_after(trades, threshold, n);
        assert(b.consistent());
        if b.volume > threshold {
            assert forall|i: int| 0 <= i < r.len() - 1 implies (#[trigger] r[i]).volume > threshold
                && r[i].count >= 2 by {
                if i < bars.len() - 1 {
                    assert(r[i] == bars[i]);
                }
            }
        }
        assert forall|i: int| 0 <= i < r.len() implies (#[trigger] r[i]).consistent() by {
            if i < bars.len() - 1 {
                assert(r[i] == bars[i]);
            }
        }
    }
}

impl VolumeBars {
    /// Builds the volume bars of `trades` with the given threshold.
    pub fn new(trades: &Vec<Trade>, threshold: u128) -> (r: VolumeBars)
        requires
            0 < trades.len() < u32::MAX,
            all_fit(trades@),
        ensures
            r.threshold == threshold,
            r.bars@ == volume_bars_after(trades@, threshold as int, trades.len() as int),
            volume_bars_shape(r.bars@, threshold as int),
            count_total(r.bars@) == trades.len() + r.bars.len() - 1,
    {
        let ghost s = trades@;
        let mut bars: Vec<Bar> = vec![Bar::new(&trades[0])];
        proof {
            assert(s[0].fits());
            assert(bars@ =~= seq![seeded(s[0])]);
            assert(bars@.drop_last() =~= Seq::<Bar>::empty());
            assert(count_total(bars@.drop_last()) == 0);
        }
        let mut i: usize = 1;
        while i < trades.len()
            invariant
                1 <= i <= trades.len() < u32::MAX,
                s == trades@,
                all_fit(s),
                bars@ == volume_bars_after(s, threshold as int, i as int),
                volume_bars_shape(bars@, threshold as int),
                count_total(bars@) == i + bars.len() - 1,
                bars@.last().bounded(),
                bars@.last().count <= i,
            decreases trades.len() - i,
        {
            let trade = &trades[i];
            let last = bars.len() - 1;
            let mut bar = bars[last];
            proof {
                assert(s[i as int].fits());
                lemma_fold_bounded(bar, *trade);
                lemma_count_total_update_last(bars@, folded(bar, *trade));
            }
            bar.next(trade);
            bars.set(last, bar);
            if bar.volume > threshold {
                proof {
                    lemma_count_total_push(bars@, seeded(*trade));
                }
                bars.push(Bar::new(trade));
            }
            i = i + 1;
        }
        VolumeBars { bars, threshold }
    }
}

} // verus!
