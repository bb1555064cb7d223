use id_bars::dollar_bars::{calculate_tail_sum, DollarBars, WINDOW_SECONDS};
use id_bars::ewma::{ewma, EWMA_SCALE};
use id_bars::method::{Method, DEFAULT_DOLLAR_THRESHOLD, DEFAULT_INITIAL_T, DEFAULT_VOLUME_THRESHOLD};
use id_bars::tick_imbalance_bars::{GeneratorState, TickImbalanceBars};
use id_bars::volume_bars::VolumeBars;
use id_bars::{Bar, Trade};

fn trade(timestamp: u64, price: u64, amount: u64) -> Trade {
    Trade { timestamp, price, amount }
}

fn count_total(bars: &[Bar]) -> u64 {
    bars.iter().map(|b| b.count as u64).sum()
}

// Amounts are in hundredths: 25 stands for 0.25, so a dollar value of 950
// reads 950 * 100.
#[test]
fn bar_initializes_properly() {
    let trade = trade(1546016874, 3800, 25);
    let bar = Bar::new(&trade);

    assert_eq!(trade.timestamp, bar.timestamp);
    assert_eq!(trade.timestamp, bar.last_timestamp);
    assert_eq!(trade.price, bar.open);
    assert_eq!(trade.price, bar.high);
    assert_eq!(trade.price, bar.low);
    assert_eq!(trade.price, bar.close);
    assert_eq!(trade.amount as u128, bar.volume);
    assert_eq!(950 * 100, bar.dollar_volume);
    assert_eq!(1, bar.count);
}

#[test]
fn bar_updates_new_high() {
    let trade1 = trade(1546016874, 3800, 25);
    let trade2 = trade(1546016875, 3805, 50);
    let mut bar = Bar::new(&trade1);
    bar.next(&trade2);

    assert_eq!(trade1.timestamp, bar.timestamp);
    assert_eq!(trade2.timestamp, bar.last_timestamp);
    assert_eq!(trade1.price, bar.open);
    assert_eq!(trade2.price, bar.high);
    assert_eq!(trade1.price, bar.low);
    assert_eq!(trade2.price, bar.close);
    assert_eq!((trade1.amount + trade2.amount) as u128, bar.volume);
    assert_eq!(2, bar.count);
}

#[test]
fn bar_updates_new_low_and_sums() {
    let mut bar = Bar::new(&trade(10, 100, 3));
    bar.next(&trade(11, 90, 2));
    bar.next(&trade(12, 95, 1));
    assert_eq!(100, bar.open);
    assert_eq!(100, bar.high);
    assert_eq!(90, bar.low);
    assert_eq!(95, bar.close);
    assert_eq!(6, bar.volume);
    assert_eq!(300 + 180 + 95, bar.dollar_volume);
    assert_eq!(3, bar.count);
    assert_eq!(12, bar.last_timestamp);
}

#[test]
fn trade_dollar_value_is_price_times_amount() {
    assert_eq!(95000, trade(0, 3800, 25).dollar_value());
    assert_eq!(0, trade(0, 3800, 0).dollar_value());
    let big = trade(0, u64::MAX, u64::MAX);
    assert_eq!((u64::MAX as u128) * (u64::MAX as u128), big.dollar_value());
}

#[test]
fn trade_time_is_utc_text() {
    assert_eq!(Some("2015-05-15 00:00:00 UTC".to_string()), trade(1431648000, 1, 1).time());
    assert_eq!(Some("1970-01-01 00:00:00 UTC".to_string()), trade(0, 1, 1).time());
    assert_eq!(None, trade(u64::MAX, 1, 1).time());
    assert_eq!(
        Some("9999-12-31 23:59:59 UTC".to_string()),
        trade(id_bars::YEAR_9999_END_SECONDS, 1, 1).time()
    );
}

#[test]
fn ewma_of_one_sample_is_that_sample() {
    assert_eq!(7 * EWMA_SCALE, ewma(&vec![7], 2, 21));
    assert_eq!(7 * EWMA_SCALE, ewma(&vec![7], 1, 1));
}

#[test]
fn ewma_of_constant_samples_is_the_constant() {
    assert_eq!(5 * EWMA_SCALE, ewma(&vec![5, 5, 5], 2, 21));
    assert_eq!(5 * EWMA_SCALE, ewma(&vec![5, 5, 5], 1, 3));
}

#[test]
fn ewma_of_no_samples_is_zero() {
    assert_eq!(0, ewma(&vec![], 2, 21));
}

#[test]
fn ewma_weights_recent_samples() {
    // alpha = 1/2: (1 + 2) / 2
    assert_eq!(3 * EWMA_SCALE / 2, ewma(&vec![1, 2], 1, 2));
    // alpha = 1: the last sample
    assert_eq!(9 * EWMA_SCALE, ewma(&vec![1, 4, 9], 1, 1));
    // alpha = 1/4 over [4, 0, 0]: 4 -> 3 -> 2.25
    assert_eq!(9 * EWMA_SCALE / 4, ewma(&vec![4, 0, 0], 1, 4));
}

// The triggering trade closes its bar and also seeds the next one, so with a
// threshold of 1.5 (15 in tenths) the second trade already closes the first bar.
#[test]
fn volume_bars_three_trades() {
    let trades = vec![trade(0, 10, 10), trade(1, 10, 10), trade(2, 11, 10)];
    let vb = VolumeBars::new(&trades, 15);
    assert_eq!(15, vb.threshold);
    assert_eq!(3, vb.bars.len());
    assert_eq!((20, 2, 10), (vb.bars[0].volume, vb.bars[0].count, vb.bars[0].close));
    assert_eq!((0, 1), (vb.bars[0].timestamp, vb.bars[0].last_timestamp));
    assert_eq!((20, 2, 11), (vb.bars[1].volume, vb.bars[1].count, vb.bars[1].close));
    assert_eq!((10, 11, 11), (vb.bars[1].open, vb.bars[1].high, vb.bars[1].close));
    assert_eq!((10, 1, 11), (vb.bars[2].volume, vb.bars[2].count, vb.bars[2].close));
    assert_eq!(trades.len() as u64 + vb.bars.len() as u64 - 1, count_total(&vb.bars));
}

#[test]
fn volume_bars_close_only_above_threshold() {
    let trades: Vec<Trade> = (0..10).map(|t| trade(t, 5, 1)).collect();
    let vb = VolumeBars::new(&trades, 3);
    for bar in &vb.bars[..vb.bars.len() - 1] {
        assert!(bar.volume > 3);
        assert_eq!(4, bar.volume);
    }
    let last = vb.bars.last().unwrap();
    assert!(last.count == 1 || last.volume <= 3);
    assert_eq!(trades.len() as u64 + vb.bars.len() as u64 - 1, count_total(&vb.bars));
}

#[test]
fn volume_bars_single_trade() {
    let vb = VolumeBars::new(&vec![trade(3, 7, 1000)], 1);
    assert_eq!(1, vb.bars.len());
    assert_eq!(1, vb.bars[0].count);
    assert_eq!(1000, vb.bars[0].volume);
}

#[test]
fn volume_bars_zero_threshold_closes_every_fold() {
    let trades = vec![trade(0, 1, 1), trade(1, 2, 1), trade(2, 3, 1)];
    let vb = VolumeBars::new(&trades, 0);
    assert_eq!(3, vb.bars.len());
    assert_eq!(vec![2, 2, 1], vb.bars.iter().map(|b| b.count).collect::<Vec<u32>>());
}

// Price 10, amount 1, one trade a second, threshold 100: the first trade is
// folded twice, so the first bar closes on the tenth trade at 110. The next
// threshold is the nine trades before it, 90, divided by 100: 0, so from then
// on every fold closes a bar.
#[test]
fn dollar_bars_constant_trades() {
    let trades: Vec<Trade> = (0..12).map(|t| trade(t, 10, 1)).collect();
    let db = DollarBars::new(&trades, 100);
    assert_eq!(4, db.bars.len());
    assert_eq!((110, 11), (db.bars[0].dollar_volume, db.bars[0].count));
    assert_eq!((0, 9), (db.bars[0].timestamp, db.bars[0].last_timestamp));
    assert_eq!((20, 2), (db.bars[1].dollar_volume, db.bars[1].count));
    assert_eq!((20, 2), (db.bars[2].dollar_volume, db.bars[2].count));
    assert_eq!((10, 1), (db.bars[3].dollar_volume, db.bars[3].count));
    // 110 over the eleven trades before the last close
    assert_eq!(1, db.threshold);
    assert_eq!(trades.len() as u64 + db.bars.len() as u64, count_total(&db.bars));
}

#[test]
fn dollar_bars_first_trade_folded_twice() {
    let db = DollarBars::new(&vec![trade(0, 10, 1)], 1000);
    assert_eq!(1, db.bars.len());
    assert_eq!((20, 2, 2), (db.bars[0].dollar_volume, db.bars[0].count, db.bars[0].volume));
    assert_eq!(1000, db.threshold);
}

#[test]
fn dollar_bars_threshold_follows_trailing_day() {
    // two trades a day apart, then a big one that closes the bar
    let trades = vec![trade(0, 10, 5), trade(100_000, 10, 3), trade(100_001, 10, 100)];
    let db = DollarBars::new(&trades, 500);
    // folds: 50, 100, 130, 1130 > 500 on the third trade
    assert_eq!(2, db.bars.len());
    assert_eq!(1130, db.bars[0].dollar_volume);
    // the window before the third trade holds only the second: 30 / 100
    assert_eq!(0, db.threshold);
}

#[test]
fn tail_sum_stops_outside_the_window() {
    let trades = vec![trade(0, 10, 5), trade(100_000, 10, 3), trade(100_001, 10, 100)];
    assert_eq!(1030, calculate_tail_sum(&trades, 3, WINDOW_SECONDS));
    assert_eq!(30, calculate_tail_sum(&trades, 2, WINDOW_SECONDS));
    assert_eq!(50, calculate_tail_sum(&trades, 1, WINDOW_SECONDS));
    assert_eq!(0, calculate_tail_sum(&trades, 0, WINDOW_SECONDS));
    assert_eq!(1080, calculate_tail_sum(&trades, 3, 100_001));
    // a trade exactly at the window's edge is inside
    let edge = vec![trade(0, 1, 1), trade(86400, 1, 1)];
    assert_eq!(2, calculate_tail_sum(&edge, 2, WINDOW_SECONDS));
}

#[test]
fn tick_imbalance_protocol() {
    let mut tib = TickImbalanceBars::new(2);
    assert_eq!(GeneratorState::Empty, tib.state());
    assert_eq!(0, tib.bars.len());

    tib.process_trade(trade(0, 10, 1));
    assert_eq!(GeneratorState::InitialBar, tib.state());
    assert_eq!(1, tib.bars.len());
    assert_eq!(2, tib.bars[0].count);

    tib.process_trade(trade(1, 11, 1));
    assert_eq!(GeneratorState::InitialBar, tib.state());
    assert_eq!(1, tib.bars.len());

    // two ticks in the bar: the third trade closes it
    tib.process_trade(trade(2, 12, 1));
    assert_eq!(GeneratorState::Working, tib.state());
    assert_eq!(2, tib.bars.len());
    assert_eq!(3, tib.bars[0].count);
    assert_eq!(11, tib.bars[0].high);
    assert_eq!(2, tib.bars[1].count);
    assert_eq!(12, tib.bars[1].open);
    // counts [2]: expected count 2; classifications [+1, +1]: imbalance 1
    assert_eq!(2, tib.count_expectation());
    assert_eq!(2, tib.theta_expectation());

    tib.process_trade(trade(3, 13, 1));
    assert_eq!(2, tib.bars.len());
    tib.process_trade(trade(4, 14, 1));
    assert_eq!(GeneratorState::Working, tib.state());
    assert_eq!(3, tib.bars.len());
    assert_eq!(3, tib.bars[1].count);
    assert_eq!(5 + 3, count_total(&tib.bars));
}

#[test]
fn tick_imbalance_alternating_prices_keep_working() {
    let mut tib = TickImbalanceBars::new(3);
    let trades: Vec<Trade> = (0..40).map(|t| trade(t, if t % 2 == 0 { 10 } else { 11 }, 1)).collect();
    tib.load_trades(&trades);
    assert_eq!(GeneratorState::Working, tib.state());
    for bar in &tib.bars {
        assert!(bar.low <= bar.open && bar.open <= bar.high);
        assert!(bar.low <= bar.close && bar.close <= bar.high);
        assert!(bar.count >= 1);
    }
    assert_eq!(trades.len() as u64 + tib.bars.len() as u64, count_total(&tib.bars));
}

#[test]
fn tick_imbalance_flat_prices_repeat_the_classification() {
    // all flat: every classification is +1, the imbalance grows by one a tick
    let mut tib = TickImbalanceBars::new(1);
    tib.load_trades(&vec![trade(0, 10, 1), trade(1, 10, 1)]);
    assert_eq!(GeneratorState::Working, tib.state());
    assert_eq!(1, tib.count_expectation());
    assert_eq!(1, tib.theta_expectation());
    let bars = tib.into_bars();
    assert_eq!(2, bars.len());
}

#[test]
fn method_names() {
    assert_eq!(
        Some(Method::Volume { threshold: DEFAULT_VOLUME_THRESHOLD }),
        Method::from_name("volume")
    );
    assert_eq!(
        Some(Method::Dollar { threshold: DEFAULT_DOLLAR_THRESHOLD }),
        Method::from_name("dollar")
    );
    assert_eq!(
        Some(Method::TickImbalance { initial_t: DEFAULT_INITIAL_T }),
        Method::from_name("tib")
    );
    assert_eq!(None, Method::from_name("tibs"));
    assert_eq!(None, Method::from_name(""));
}

#[test]
fn method_generate_matches_generators() {
    let trades: Vec<Trade> = (0..30).map(|t| trade(t, 10 + t % 3, 2)).collect();
    let v = Method::Volume { threshold: 5 }.generate(&trades);
    assert_eq!(VolumeBars::new(&trades, 5).bars, v);
    let d = Method::Dollar { threshold: 50 }.generate(&trades);
    assert_eq!(DollarBars::new(&trades, 50).bars, d);
    let t = Method::TickImbalance { initial_t: 4 }.generate(&trades);
    let mut tib = TickImbalanceBars::new(4);
    tib.load_trades(&trades);
    assert_eq!(tib.bars, t);
}
