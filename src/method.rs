//! Choosing a generator by name and running it over a sequence of trades.
use vstd::prelude::*;
use vstd::string::StrSliceExecFns;
use crate::{all_fit, Bar, Trade};
use crate::dollar_bars::{dollar_bars_after, DollarBars};
use crate::tick_imbalance_bars::{TickImbalanceBars, TickImbalanceModel};
use crate::volume_bars::{volume_bars_after, VolumeBars};

verus! {

/// Price ticks per currency unit in the default configuration.
pub const PRICE_UNITS: u64 = 100;

/// Lots per unit of traded quantity in the default configuration.
pub const AMOUNT_UNITS: u64 = 100_000_000;

/// Default volume threshold: 500 units of quantity, in lots.
pub const DEFAULT_VOLUME_THRESHOLD: u128 = 50_000_000_000;

/// Default initial dollar threshold: 500,000 currency units, in ticks times lots.
pub const DEFAULT_DOLLAR_THRESHOLD: u128 = 5_000_000_000_000_000;

/// Default tick count of the first tick-imbalance bar.
pub const DEFAULT_INITIAL_T: u32 = 50;

/// A bar generator with its configuration.
#[derive(Clone, Copy, Debug, PartialEq, Eq, Structural)]
pub enum Method {
    Volume { threshold: u128 },
    Dollar { threshold: u128 },
    TickImbalance { initial_t: u32 },
}

/// The generator that a name selects, with the default configuration:
/// "volume", "dollar" or "tib".
pub open spec fn method_named(name: Seq<char>) -> Option<Method> {
    if name == "volume"@ {
        Some(Method::Volume { threshold: DEFAULT_VOLUME_THRESHOLD })
    } else if name == "dollar"@ {
        Some(Method::Dollar { threshold: DEFAULT_DOLLAR_THRESHOLD })
    } else if name == "tib"@ {
        Some(Method::TickImbalance { initial_t: DEFAULT_INITIAL_T })
    } else {
        None
    }
}

/// The bars that `method` makes of `trades`.
pub open spec fn bars_of(method: Method, trades: Seq<Trade>) -> Seq<Bar> {
    match method {
        Method::Volume { threshold } => volume_bars_after(trades, threshold as int, trades.len() as int),
        Method::Dollar { threshold } => dollar_bars_after(trades, threshold as int, trades.len() as int).0,
        Method::TickImbalance { initial_t } => TickImbalanceModel::initial(initial_t as int).steps(
            trades,
        ).bars,
    }
}

fn same_text(a: &str, b: &str) -> (r: bool)
    ensures
        r == (a@ == b@),
{
    let n = a.unicode_len();
    if n != b.unicode_len() {
        return false;
    }
    let mut i: usize = 0;
    while i < n
        invariant
            n == a@.len() == b@.len(),
            i <= n,
            forall|j: int| 0 <= j < i ==> a@[j] == b@[j],
        decreases n - i,
    {
        if a.get_char(i) != b.get_char(i) {
            return false;
        }
        i = i + 1;
    }
    proof {
        assert(a@ =~= b@);
    }
    true
}

impl Method {
    /// The generator selected by `name`, or `None` for an unknown name.
    pub fn from_name(name: &str) -> (r: Option<Method>)
        ensures
            r == method_named(name@),
    {
        if same_text(name, "volume") {
            Some(Method::Volume { threshold: DEFAULT_VOLUME_THRESHOLD })
        } else if same_text(name, "dollar") {
            Some(Method::Dollar { threshold: DEFAULT_DOLLAR_THRESHOLD })
        } else if same_text(name, "tib") {
            Some(Method::TickImbalance { initial_t: DEFAULT_INITIAL_T })
        } else {
            None
        }
    }

    /// Runs the generator over `trades` and returns its bars.
    pub fn generate(&self, trades: &Vec<Trade>) -> (r: Vec<Bar>)
        requires
            0 < trades.len() < u32::MAX - 3,
            all_fit(trades@),
            *self matches Method::TickImbalance { initial_t } ==> initial_t >= 1,
        ensures
            r@ == bars_of(*self, trades@),
    {
        match self {
            Method::Volume { threshold } => VolumeBars::new(trades, *threshold).bars,
            Method::Dollar { threshold } => DollarBars::new(trades, *threshold).bars,
            Method::TickImbalance { initial_t } => {
                let mut tib = TickImbalanceBars::new(*initial_t);
                tib.load_trades(trades);
                tib.into_bars()
            },
        }
    }
}

} // verus!
