//! Information-driven bars: volume bars, dollar bars and tick-imbalance bars
//! built in one pass over a time-ordered stream of trades.
//!
//! Prices and amounts are integers in units chosen by the caller (price ticks
//! and lots); a trade's dollar value is their product.
use vstd::prelude::*;

pub mod ewma;
pub mod volume_bars;
pub mod dollar_bars;
pub mod tick_imbalance_bars;
pub mod method;

verus! {

/// Largest dollar value (price times amount) of a single trade that the
/// generators accept, so that sums over a bar fit in 128 bits.
pub const DOLLAR_LIMIT: u128 = 0x7fff_ffff_ffff_ffff_ffff_ffff;

/// Largest timestamp that chrono can be asked about.
pub const I64_MAX_SECONDS: u64 = 0x7fff_ffff_ffff_ffff;

/// The last second of the year 9999 (UTC), up to which chrono always gives a time.
pub const YEAR_9999_END_SECONDS: u64 = 253_402_300_799;

/// One trade execution.
#[derive(Clone, Copy, Debug, PartialEq, Eq)]
pub struct Trade {
    pub timestamp: u64,
    pub price: u64,
    pub amount: u64,
}

/// An open/high/low/close summary of a run of trades.
#[derive(Clone, Copy, Debug, PartialEq, Eq)]
pub struct Bar {
    pub timestamp: u64,
    pub open: u64,
    pub high: u64,
    pub low: u64,
    pub close: u64,
    pub volume: u128,
    pub dollar_volume: u128,
    pub count: u32,
    pub last_timestamp: u64,
}

/// The text chrono gives for a UTC date and time, `secs` seconds after the epoch.
pub uninterp spec fn utc_text(secs: int) -> Seq<char>;

/// Relies on chrono's `DateTime::<Utc>::from_timestamp` (`None` for seconds out
/// of its range, which holds every second of the years 0 to 9999) and on the
/// `Display` of the `DateTime` it returns.
#[verifier::external_body]
fn utc_time_text(secs: i64) -> (r: Option<String>)
    ensures
        0 <= secs <= YEAR_9999_END_SECONDS ==> r is Some,
        r matches Some(s) ==> s@ == utc_text(secs as int),
{
    chrono::DateTime::<chrono::Utc>::from_timestamp(secs, 0).map(|d| d.to_string())
}

impl Trade {
    pub open spec fn dollar(self) -> int {
        self.price as int * self.amount as int
    }

    /// Whether the trade's dollar value is within `DOLLAR_LIMIT`.
    pub open spec fn fits(self) -> bool {
        self.dollar() <= DOLLAR_LIMIT as int
    }

    pub fn dollar_value(&self) -> (r: u128)
        ensures
            r as int == self.dollar(),
    {
        proof {
            assert(self.price as int * self.amount as int <= u64::MAX as int * u64::MAX as int)
                by (nonlinear_arith);
        }
        (self.price as u128) * (self.amount as u128)
    }

    /// The trade's time as UTC text; `None` where chrono cannot represent it.
    pub fn time(&self) -> (r: Option<String>)
        ensures
            self.timestamp > I64_MAX_SECONDS ==> r is None,
            self.timestamp <= YEAR_9999_END_SECONDS ==> r is Some,
            r matches Some(s) ==> s@ == utc_text(self.timestamp as int),
    {
        if self.timestamp > I64_MAX_SECONDS {
            None
        } else {
            utc_time_text(self.timestamp as i64)
        }
    }
}

/// Every trade of `trades` fits within `DOLLAR_LIMIT`.
pub open spec fn all_fit(trades: Seq<Trade>) -> bool {
    forall|i: int| 0 <= i < trades.len() ==> (#[trigger] trades[i]).fits()
}

/// The bar seeded from one trade.
pub open spec fn seeded(t: Trade) -> Bar {
    Bar {
        timestamp: t.timestamp,
        open: t.price,
        high: t.price,
        low: t.price,
        close: t.price,
        volume: t.amount as u128,
        dollar_volume: t.dollar() as u128,
        count: 1,
        last_timestamp: t.timestamp,
    }
}

/// `b` with one more trade folded in.
pub open spec fn folded(b: Bar, t: Trade) -> Bar {
    Bar {
        timestamp: b.timestamp,
        open: b.open,
        high: if b.high < t.price { t.price } else { b.high },
        low: if b.low > t.price { t.price } else { b.low },
        close: t.price,
        volume: (b.volume + t.amount) as u128,
        dollar_volume: (b.dollar_volume + t.dollar()) as u128,
        count: (b.count + 1) as u32,
        last_timestamp: t.timestamp,
    }
}

/// The sum of the trade counts of `bars`.
pub open spec fn count_total(bars: Seq<Bar>) -> int
    decreases bars.len(),
{
    if bars.len() == 0 {
        0
    } else {
        count_total(bars.drop_last()) + bars.last().count
    }
}

impl Bar {
    /// Open and close lie between low and high, and at least one trade is in.
    pub open spec fn consistent(self) -> bool {
        &&& self.low <= self.open <= self.high
        &&& self.low <= self.close <= self.high
        &&& self.count >= 1
    }

    /// The sums are small enough that `count` more trades within
    /// `DOLLAR_LIMIT` can still be folded in.
    pub open spec fn bounded(self) -> bool {
        &&& self.volume <= self.count * (u64::MAX as int)
        &&& self.dollar_volume <= self.count * (DOLLAR_LIMIT as int)
    }

    /// Returns a new bar seeded from `trade`.
    pub fn new(trade: &Trade) -> (r: Bar)
        ensures
            r == seeded(*trade),
            r.consistent(),
            trade.fits() ==> r.bounded(),
    {
        Bar {
            timestamp: trade.timestamp,
            open: trade.price,
            high: trade.price,
            low: trade.price,
            close: trade.price,
            volume: trade.amount as u128,
            dollar_volume: trade.dollar_value(),
            count: 1,
            last_timestamp: trade.timestamp,
        }
    }

    /// Folds one more trade into the bar.
    pub fn next(&mut self, trade: &Trade)
        requires
            old(self).count < u32::MAX,
            old(self).volume + trade.amount <= u128::MAX,
            old(self).dollar_volume + trade.dollar() <= u128::MAX,
        ensures
            *final(self) == folded(*old(self), *trade),
            old(self).consistent() ==> final(self).consistent(),
    {
        if self.high < trade.price {
            self.high = trade.price;
        }
        if self.low > trade.price {
            self.low = trade.price;
        }
        self.close = trade.price;
        self.volume = self.volume + trade.amount as u128;
        self.dollar_volume = self.dollar_volume + trade.dollar_value();
        self.count = self.count + 1;
        self.last_timestamp = trade.timestamp;
    }
}

/// Folding a trade that fits into a bounded bar keeps it bounded, and the fold
/// does not overflow while the count stays below `u32::MAX`.
pub proof fn lemma_fold_bounded(b: Bar, t: Trade)
    requires
        b.bounded(),
        t.fits(),
        b.count < u32::MAX,
    ensures
        b.volume + t.amount <= u128::MAX,
        b.dollar_volume + t.dollar() <= u128::MAX,
        folded(b, t).bounded(),
{
    let c = b.count as int;
    assert(c * (u64::MAX as int) + (u64::MAX as int) == (c + 1) * (u64::MAX as int))
        by (nonlinear_arith);
    assert(c * (DOLLAR_LIMIT as int) + (DOLLAR_LIMIT as int) == (c + 1) * (DOLLAR_LIMIT as int))
        by (nonlinear_arith);
    assert((c + 1) * (u64::MAX as int) <= (u32::MAX as int) * (u64::MAX as int))
        by (nonlinear_arith)
        requires c + 1 <= u32::MAX as int;
    assert((c + 1) * (DOLLAR_LIMIT as int) <= (u32::MAX as int) * (DOLLAR_LIMIT as int))
        by (nonlinear_arith)
        requires c + 1 <= u32::MAX as int;
}

/// Appending a bar adds its count to the total.
pub proof fn lemma_count_total_push(bars: Seq<Bar>, b: Bar)
    ensures
        count_total(bars.push(b)) == count_total(bars) + b.count,
{
    assert(bars.push(b).drop_last() =~= bars);
}

/// Replacing the last bar changes the total by the difference of the counts.
pub proof fn lemma_count_total_update_last(bars: Seq<Bar>, b: Bar)
    requires
        bars.len() > 0,
    ensures
        count_total(bars.update(bars.len() - 1, b)) == count_total(bars) - bars.last().count
            + b.count,
{
    assert(bars.update(bars.len() - 1, b).drop_last() =~= bars.drop_last());
}

} // verus!
