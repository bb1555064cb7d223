//! Tick-imbalance bars: a bar closes when the signed order-flow imbalance of
//! its trades reaches an expectation estimated from earlier bars.
use vstd::prelude::*;
use crate::{
    count_total, folded, lemma_count_total_push, lemma_count_total_update_last,
    lemma_fold_bounded, seeded, Bar, Trade,
};
use crate::ewma::{
    ewma, ewma_of, lemma_ewma_within, samples_within, valid_alpha, ALPHA_DEN_LIMIT, EWMA_SCALE,
};

verus! {

/// Smoothing factor of the expected tick count per bar: `2 / 21`.
pub const COUNT_ALPHA_NUM: u64 = 2;

pub const COUNT_ALPHA_DEN: u64 = 21;

/// Where the generator is in its protocol.
#[derive(Clone, Copy, Debug, PartialEq, Eq, Structural)]
pub enum GeneratorState {
    /// No trade seen yet.
    Empty,
    /// Filling the first bar, which closes after `initial_t` ticks.
    InitialBar,
    /// Every later bar, closed by the imbalance.
    Working,
}

pub struct TickImbalanceBars {
    pub bars: Vec<Bar>,
    initial_t: u32,
    b_ts: Vec<i8>,
    t_vals: Vec<u32>,
    theta: i64,
    theta_expectation: u128,
    last_trade: Option<Trade>,
    count: u32,
    count_expectation: u32,
    state: GeneratorState,
}

/// The state of a tick-imbalance generator as mathematical values.
pub struct TickImbalanceModel {
    pub bars: Seq<Bar>,
    pub initial_t: int,
    /// The classification (+1 or -1) of every classified trade so far.
    pub b_ts: Seq<i8>,
    /// The tick count of every closed bar so far.
    pub t_vals: Seq<u32>,
    /// The signed imbalance of the current bar.
    pub theta: int,
    pub theta_expectation: int,
    pub last_trade: Option<Trade>,
    /// Ticks folded into the current bar since it was seeded.
    pub count: int,
    pub count_expectation: int,
    pub state: GeneratorState,
}

/// The tick rule: the sign of the price change from `prev` to `t`, and for an
/// unchanged price the previous classification (+1 if there is none).
pub open spec fn tick_sign(prev: Trade, t: Trade, b_ts: Seq<i8>) -> i8 {
    if t.price > prev.price {
        1
    } else if t.price < prev.price {
        -1i8
    } else if b_ts.len() == 0 {
        1
    } else {
        b_ts.last()
    }
}

/// The classifications moved up by one, to {0, 2}, so that they average as
/// unsigned samples.
pub open spec fn shifted(b_ts: Seq<i8>) -> Seq<u32> {
    Seq::new(b_ts.len(), |i: int| (b_ts[i] + 1) as u32)
}

/// The expected tick count per bar: the average of the counts of closed bars,
/// rounded down.
pub open spec fn expected_count(t_vals: Seq<u32>) -> int {
    ewma_of(t_vals, COUNT_ALPHA_NUM as int, COUNT_ALPHA_DEN as int) / (EWMA_SCALE as int)
}

pub open spec fn abs(x: int) -> int {
    if x < 0 {
        -x
    } else {
        x
    }
}

/// The expected imbalance per tick, scaled by `EWMA_SCALE`: the absolute value
/// of the average classification, with smoothing factor `2 / (1 + ce)`; 0 when
/// nothing has been classified, as the average of no samples is 0.
pub open spec fn implied_imbalance(b_ts: Seq<i8>, ce: int) -> int {
    if b_ts.len() == 0 {
        0
    } else {
        abs(ewma_of(shifted(b_ts), 2, 1 + ce) - EWMA_SCALE)
    }
}

/// The closing threshold on the imbalance: `ce` times the expected imbalance
/// per tick, rounded to the nearest integer (halves up).
pub open spec fn expected_theta(ce: int, imbalance: int) -> int {
    (ce * imbalance + EWMA_SCALE / 2) / (EWMA_SCALE as int)
}

impl TickImbalanceModel {
    /// The state of a new generator.
    pub open spec fn initial(initial_t: int) -> TickImbalanceModel {
        TickImbalanceModel {
            bars: Seq::empty(),
            initial_t,
            b_ts: Seq::empty(),
            t_vals: Seq::empty(),
            theta: 0,
            theta_expectation: initial_t,
            last_trade: None,
            count: 0,
            count_expectation: initial_t,
            state: GeneratorState::Empty,
        }
    }

    /// Whether a classified trade that makes the imbalance `theta` closes the
    /// current bar.
    pub open spec fn closes(self, theta: int) -> bool {
        if self.state == GeneratorState::InitialBar {
            self.count >= self.initial_t
        } else {
            abs(theta) >= self.theta_expectation
        }
    }

    /// The state after one more trade.
    pub open spec fn step(self, t: Trade) -> TickImbalanceModel {
        if self.state == GeneratorState::Empty {
            TickImbalanceModel {
                bars: seq![folded(seeded(t), t)],
                last_trade: Some(t),
                count: self.count + 1,
                state: GeneratorState::InitialBar,
                ..self
            }
        } else {
            let b = tick_sign(self.last_trade.unwrap(), t, self.b_ts);
            let b_ts = self.b_ts.push(b);
            let theta = self.theta + b;
            if self.closes(theta) {
                let t_vals = self.t_vals.push(self.count as u32);
                let ce = expected_count(t_vals);
                TickImbalanceModel {
                    bars: self.bars.push(folded(seeded(t), t)),
                    b_ts,
                    t_vals,
                    theta: 0,
                    theta_expectation: expected_theta(ce, implied_imbalance(b_ts, ce)),
                    last_trade: Some(t),
                    count: 1,
                    count_expectation: ce,
                    state: GeneratorState::Working,
                    ..self
                }
            } else {
                TickImbalanceModel {
                    bars: self.bars.update(self.bars.len() - 1, folded(self.bars.last(), t)),
                    b_ts,
                    theta,
                    last_trade: Some(t),
                    count: self.count + 1,
                    ..self
                }
            }
        }
    }

    /// The state after each trade of `trades` in turn.
    pub open spec fn steps(self, trades: Seq<Trade>) -> TickImbalanceModel
        decreases trades.len(),
    {
        if trades.len() == 0 {
            self
        } else {
            self.steps(trades.drop_last()).step(trades.last())
        }
    }

    /// What every reachable state satisfies. Among it: one tick count is
    /// recorded per closed bar, one less than that bar's count, as the trade
    /// that seeds a bar is folded into it once more.
    pub open spec fn wf(self) -> bool {
        &&& self.initial_t >= 1
        &&& self.count_expectation >= 1
        &&& forall|i: int| 0 <= i < self.b_ts.len() ==> #[trigger] self.b_ts[i] == 1 || self.b_ts[i] == -1
        &&& forall|i: int| 0 <= i < self.t_vals.len() ==> #[trigger] self.t_vals[i] >= 1
        &&& abs(self.theta) <= self.count
        &&& forall|i: int| 0 <= i < self.bars.len() ==> (#[trigger] self.bars[i]).consistent()
        &&& (self.state == GeneratorState::Empty <==> self.bars.len() == 0)
        &&& self.state == GeneratorState::Empty ==> {
            &&& self.count == 0
            &&& self.theta == 0
            &&& self.b_ts.len() == 0
            &&& self.t_vals.len() == 0
        }
        &&& self.state != GeneratorState::Empty ==> {
            &&& self.last_trade is Some
            &&& self.count >= 1
            &&& self.bars.last().count == self.count + 1
            &&& self.bars.last().bounded()
            &&& count_total(self.bars) == self.trades_seen() + self.bars.len()
            &&& self.t_vals.len() + 1 == self.bars.len()
            &&& forall|i: int| 0 <= i < self.t_vals.len() ==> #[trigger] self.t_vals[i] + 1 == self.bars[i].count
        }
    }

    /// The number of trades folded in so far: one per classification, and the
    /// first trade.
    pub open spec fn trades_seen(self) -> int {
        if self.state == GeneratorState::Empty {
            0
        } else {
            self.b_ts.len() + 1int
        }
    }
}

/// After a trade the generator is out of `Empty` and remembers that trade.
proof fn lemma_step_last_trade(m: TickImbalanceModel, t: Trade)
    ensures
        m.step(t).last_trade == Some(t),
        m.step(t).state != GeneratorState::Empty,
{
}

/// Tick rule: once a trade has been seen, a trade priced above the previous one
/// is classified +1, one priced below it -1, and one at an unchanged price
/// repeats the previous classification.
pub proof fn lemma_tick_rule(m: TickImbalanceModel, t: Trade)
    requires
        m.state != GeneratorState::Empty,
    ensures
        t.price > m.last_trade.unwrap().price ==> m.step(t).b_ts == m.b_ts.push(1i8),
        t.price < m.last_trade.unwrap().price ==> m.step(t).b_ts == m.b_ts.push(-1i8),
        t.price == m.last_trade.unwrap().price && m.b_ts.len() > 0 ==> m.step(t).b_ts == m.b_ts.push(
            m.b_ts.last(),
        ),
{
}

/// Tick rule over a run: trades each priced above the one before classify as
/// +1, every one of them.
pub proof fn lemma_rising_run(m: TickImbalanceModel, trades: Seq<Trade>)
    requires
        m.state != GeneratorState::Empty,
        trades.len() > 0 ==> m.last_trade.unwrap().price < trades[0].price,
        forall|i: int| 0 < i < trades.len() ==> trades[i - 1].price < #[trigger] trades[i].price,
    ensures
        m.steps(trades).b_ts == m.b_ts + Seq::new(trades.len(), |i: int| 1i8),
        trades.len() > 0 ==> m.steps(trades).last_trade == Some(trades.last()),
    decreases trades.len(),
{
    if trades.len() > 0 {
        let prefix = trades.drop_last();
        lemma_rising_run(m, prefix);
        let p = m.steps(prefix);
        if prefix.len() > 0 {
            assert(prefix.last() == trades[trades.len() - 2]);
        }
        assert(p.state != GeneratorState::Empty) by {
            if prefix.len() > 0 {
                lemma_step_last_trade(m.steps(prefix.drop_last()), prefix.last());
            }
        }
        lemma_step_last_trade(p, trades.last());
        assert(p.step(trades.last()).b_ts =~= m.b_ts + Seq::new(trades.len(), |i: int| 1i8));
    }
}

/// The protocol: the first trade leaves `Empty` for `InitialBar` and seeds
/// exactly one bar; `InitialBar` is kept while fewer than `initial_t` ticks are
/// in the bar and left for `Working` once there are as many; `Working` is
/// never left.
pub proof fn lemma_protocol(m: TickImbalanceModel, t: Trade)
    requires
        m.wf(),
    ensures
        m.state == GeneratorState::Empty ==> m.step(t).state == GeneratorState::InitialBar
            && m.step(t).bars.len() == 1,
        m.state == GeneratorState::InitialBar ==> (m.step(t).state == GeneratorState::Working
            <==> m.count >= m.initial_t),
        m.state == GeneratorState::InitialBar ==> (m.step(t).state == GeneratorState::InitialBar
            <==> m.count < m.initial_t),
        m.state == GeneratorState::Working ==> m.step(t).state == GeneratorState::Working,
{
}

/// `Working` is kept whatever trades follow.
pub proof fn lemma_working_stays(m: TickImbalanceModel, trades: Seq<Trade>)
    requires
        m.state == GeneratorState::Working,
    ensures
        m.steps(trades).state == GeneratorState::Working,
    decreases trades.len(),
{
    if trades.len() > 0 {
        lemma_working_stays(m, trades.drop_last());
    }
}

/// Each trade adds one to the number of trades seen.
pub proof fn lemma_trades_seen(m: TickImbalanceModel, trades: Seq<Trade>)
    requires
        m.state == GeneratorState::Empty ==> m.b_ts.len() == 0,
    ensures
        m.steps(trades).trades_seen() == m.trades_seen() + trades.len(),
        m.steps(trades).state == GeneratorState::Empty ==> m.steps(trades).b_ts.len() == 0,
    decreases trades.len(),
{
    if trades.len() > 0 {
        lemma_trades_seen(m, trades.drop_last());
    }
}

impl View for TickImbalanceBars {
    type V = TickImbalanceModel;

    closed spec fn view(&self) -> TickImbalanceModel {
        TickImbalanceModel {
            bars: self.bars@,
            initial_t: self.initial_t as int,
            b_ts: self.b_ts@,
            t_vals: self.t_vals@,
            theta: self.theta as int,
            theta_expectation: self.theta_expectation as int,
            last_trade: self.last_trade,
            count: self.count as int,
            count_expectation: self.count_expectation as int,
            state: self.state,
        }
    }
}

impl TickImbalanceBars {
    /// A generator whose first bar closes after `initial_t` ticks.
    pub fn new(initial_t: u32) -> (r: TickImbalanceBars)
        requires
            initial_t >= 1,
        ensures
            r@ == TickImbalanceModel::initial(initial_t as int),
            r@.wf(),
    {
        let r = TickImbalanceBars {
            bars: Vec::new(),
            initial_t,
            b_ts: Vec::new(),
            t_vals: Vec::new(),
            theta: 0,
            theta_expectation: initial_t as u128,
            last_trade: None,
            count: 0,
            count_expectation: initial_t,
            state: GeneratorState::Empty,
        };
        proof {
            assert(r@.bars =~= Seq::<Bar>::empty());
            assert(r@.b_ts =~= Seq::<i8>::empty());
            assert(r@.t_vals =~= Seq::<u32>::empty());
        }
        r
    }

    /// The bars made so far, the last one still open.
    pub fn into_bars(self) -> (r: Vec<Bar>)
        ensures
            r@ == self@.bars,
    {
        self.bars
    }

    /// Where the generator is in its protocol.
    pub fn state(&self) -> (r: GeneratorState)
        ensures
            r == self@.state,
    {
        self.state
    }

    /// The current closing threshold on the imbalance.
    pub fn theta_expectation(&self) -> (r: u128)
        ensures
            r == self@.theta_expectation,
    {
        self.theta_expectation
    }

    /// The current expected tick count per bar.
    pub fn count_expectation(&self) -> (r: u32)
        ensures
            r == self@.count_expectation,
    {
        self.count_expectation
    }

    /// The expected imbalance per tick, scaled by `EWMA_SCALE`.
    fn implied_imbalance(&self) -> (r: u128)
        requires
            self@.count_expectation >= 1,
            forall|i: int| 0 <= i < self@.b_ts.len() ==> #[trigger] self@.b_ts[i] == 1 || self@.b_ts[i] == -1,
        ensures
            r == implied_imbalance(self@.b_ts, self@.count_expectation),
            r <= EWMA_SCALE,
    {
        if self.b_ts.len() == 0 {
            return 0;
        }
        let mut samples: Vec<u32> = Vec::new();
        let mut i: usize = 0;
        proof {
            assert forall|j: int| 0 <= j < self.b_ts@.len() implies #[trigger] self.b_ts@[j] == 1
                || self.b_ts@[j] == -1 by {
                assert(self@.b_ts[j] == self.b_ts@[j]);
            }
        }
        while i < self.b_ts.len()
            invariant
                i <= self.b_ts.len(),
                forall|j: int| 0 <= j < self.b_ts@.len() ==> #[trigger] self.b_ts@[j] == 1 || self.b_ts@[j] == -1,
                samples@.len() == i,
                forall|j: int| 0 <= j < i ==> #[trigger] samples@[j] == (self.b_ts@[j] + 1) as u32,
            decreases self.b_ts.len() - i,
        {
            let b = self.b_ts[i];
            samples.push((b + 1) as u32);
            i = i + 1;
        }
        let ghost sh = shifted(self.b_ts@);
        proof {
            assert(samples@ =~= sh);
        }
        let den: u64 = 1 + self.count_expectation as u64;
        let avg = ewma(&samples, 2, den);
        proof {
            if sh.len() > 0 {
                assert(samples_within(sh, 0, 2));
                lemma_ewma_within(sh, sh.len() as int, 2, den as int, 0, 2);
            }
        }
        if avg >= EWMA_SCALE {
            avg - EWMA_SCALE
        } else {
            EWMA_SCALE - avg
        }
    }

    /// The expected tick count per bar, from the counts of the closed bars.
    fn expected_t_value(&self) -> (r: u32)
        requires
            self@.t_vals.len() >= 1,
            forall|i: int| 0 <= i < self@.t_vals.len() ==> #[trigger] self@.t_vals[i] >= 1,
        ensures
            r == expected_count(self@.t_vals),
            r >= 1,
    {
        let avg = ewma(&self.t_vals, COUNT_ALPHA_NUM, COUNT_ALPHA_DEN);
        proof {
            let tv = self@.t_vals;
            assert(samples_within(tv, 1, u32::MAX as int));
            lemma_ewma_within(tv, tv.len() as int, 2, 21, 1, u32::MAX as int);
            assert(avg / EWMA_SCALE <= u32::MAX) by (nonlinear_arith)
                requires avg <= u32::MAX * EWMA_SCALE;
            assert(avg / EWMA_SCALE >= 1) by (nonlinear_arith)
                requires avg >= EWMA_SCALE;
        }
        (avg / EWMA_SCALE) as u32
    }

    /// Classifies `trade` by the tick rule and adds it to the imbalance.
    fn update_metrics(&mut self, trade: &Trade)
        requires
            old(self)@.last_trade is Some,
            abs(old(self)@.theta) <= old(self)@.count < u32::MAX,
        ensures
            ({
                let m = old(self)@;
                let b = tick_sign(m.last_trade.unwrap(), *trade, m.b_ts);
                final(self)@ == TickImbalanceModel { b_ts: m.b_ts.push(b), theta: m.theta + b, ..m }
            }),
    {
        let last_price = match &self.last_trade {
            Some(t) => t.price,
            None => 0,
        };
        let b: i8 = if trade.price > last_price {
            1
        } else if trade.price < last_price {
            -1
        } else if self.b_ts.len() == 0 {
            1
        } else {
            self.b_ts[self.b_ts.len() - 1]
        };
        self.b_ts.push(b);
        self.theta = self.theta + b as i64;
    }

    /// Closes the current bar: records its tick count, re-estimates the
    /// expected count and imbalance, and seeds a new bar from `trade`.
    fn new_bar(&mut self, trade: &Trade)
        requires
            old(self)@.count >= 1,
            forall|i: int| 0 <= i < old(self)@.b_ts.len() ==> #[trigger] old(self)@.b_ts[i] == 1 || old(self)@.b_ts[i] == -1,
            forall|i: int| 0 <= i < old(self)@.t_vals.len() ==> #[trigger] old(self)@.t_vals[i] >= 1,
        ensures
            ({
                let m = old(self)@;
                let tv = m.t_vals.push(m.count as u32);
                let ce = expected_count(tv);
                final(self)@ == TickImbalanceModel {
                    bars: m.bars.push(seeded(*trade)),
                    t_vals: tv,
                    theta: 0,
                    theta_expectation: expected_theta(ce, implied_imbalance(m.b_ts, ce)),
                    count: 0,
                    count_expectation: ce,
                    ..m
                }
            }),
            final(self)@.count_expectation >= 1,
    {
        self.bars.push(Bar::new(trade));
        self.t_vals.push(self.count);
        self.theta = 0;
        self.count = 0;
        self.count_expectation = self.expected_t_value();
        let imbalance = self.implied_imbalance();
        let ce = self.count_expectation as u128;
        proof {
            assert(ce * imbalance <= u32::MAX * EWMA_SCALE) by (nonlinear_arith)
                requires ce <= u32::MAX, imbalance <= EWMA_SCALE;
        }
        self.theta_expectation = (ce * imbalance + EWMA_SCALE / 2) / EWMA_SCALE;
    }

    /// Takes one trade: seeds the first bar on the first trade; afterwards
    /// classifies the trade, closes the current bar when the protocol says so,
    /// and folds the trade into the (possibly new) current bar.
    pub fn process_trade(&mut self, trade: Trade)
        requires
            old(self)@.wf(),
            old(self)@.count < u32::MAX - 2,
            trade.fits(),
        ensures
            final(self)@ == old(self)@.step(trade),
            final(self)@.wf(),
    {
        let ghost m = self@;
        let ghost after = m.step(trade);
        proof {
            lemma_fold_bounded(seeded(trade), trade);
        }
        if self.state == GeneratorState::Empty {
            self.bars.push(Bar::new(&trade));
            self.state = GeneratorState::InitialBar;
            proof {
                assert(self.bars@.drop_last() =~= Seq::<Bar>::empty());
                assert(count_total(self.bars@.drop_last()) == 0);
            }
        } else {
            self.update_metrics(&trade);
            let closes = if self.state == GeneratorState::InitialBar {
                self.count >= self.initial_t
            } else {
                let a: u128 = if self.theta < 0 {
                    (-self.theta) as u128
                } else {
                    self.theta as u128
                };
                a >= self.theta_expectation
            };
            if closes {
                proof {
                    lemma_count_total_push(self@.bars, seeded(trade));
                }
                self.new_bar(&trade);
                self.state = GeneratorState::Working;
                proof {
                    let tv = self@.t_vals;
                    assert forall|i: int| 0 <= i < tv.len() implies #[trigger] tv[i] >= 1 by {
                        if i < tv.len() - 1 {
                            assert(tv[i] == m.t_vals[i]);
                        }
                    }
                }
            } else {
                proof {
                    lemma_fold_bounded(m.bars.last(), trade);
                }
            }
        }
        let last = self.bars.len() - 1;
        let mut bar = self.bars[last];
        proof {
            lemma_count_total_update_last(self@.bars, folded(bar, trade));
        }
        bar.next(&trade);
        self.bars.set(last, bar);
        self.last_trade = Some(trade);
        self.count = self.count + 1;
        proof {
            assert(self@.bars =~= after.bars);
            assert(self@.b_ts =~= after.b_ts);
            assert(self@.t_vals =~= after.t_vals);
            let bs = self@.b_ts;
            assert forall|i: int| 0 <= i < bs.len() implies #[trigger] bs[i] == 1 || bs[i] == -1 by {
                if i < m.b_ts.len() {
                    assert(bs[i] == m.b_ts[i]);
                }
            }
            let bars = self@.bars;
            assert forall|i: int| 0 <= i < bars.len() implies (#[trigger] bars[i]).consistent() by {
                if i < m.bars.len() && i != bars.len() - 1 {
                    assert(bars[i] == m.bars[i]);
                }
            }
        }
    }

    /// Takes each trade of `trades` in turn.
    pub fn load_trades(&mut self, trades: &Vec<Trade>)
        requires
            old(self)@.wf(),
            old(self)@.count + trades.len() < u32::MAX - 2,
            crate::all_fit(trades@),
        ensures
            final(self)@ == old(self)@.steps(trades@),
            final(self)@.wf(),
            final(self)@.trades_seen() == old(self)@.trades_seen() + trades.len(),
            final(self)@.state != GeneratorState::Empty ==> count_total(final(self)@.bars)
                == old(self)@.trades_seen() + trades.len() + final(self)@.bars.len(),
    {
        let ghost m0 = self@;
        let mut i: usize = 0;
        while i < trades.len()
            invariant
                i <= trades.len(),
                m0.count + trades.len() < u32::MAX - 2,
                crate::all_fit(trades@),
                self@.wf(),
                self@ == m0.steps(trades@.take(i as int)),
                self@.count <= m0.count + i,
            decreases trades.len() - i,
        {
            proof {
                assert(trades@[i as int].fits());
                assert(trades@.take(i as int + 1).drop_last() =~= trades@.take(i as int));
            }
            self.process_trade(trades[i]);
            i = i + 1;
        }
        proof {
            assert(trades@.take(trades.len() as int) =~= trades@);
            lemma_trades_seen(m0, trades@);
        }
    }
}

} // verus!
