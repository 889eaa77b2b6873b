use updown_trader::decision::{Decision, DecisionInput, DecisionParams, Quote};
use updown_trader::position::{Holdings, Side};
use updown_trader::trend::{classify, PriceSample, PriceWindow, Trend};
use updown_trader::wave::WaveState;

fn sample(t: u64, up: u32, down: u32) -> PriceSample {
    PriceSample { timestamp: t, up_ask: up, down_ask: down }
}

fn params() -> DecisionParams {
    DecisionParams { cost_per_pair_max: 1_010_000, min_side_price: 50_000, max_side_price: 990_000 }
}

fn input(holdings: Holdings, up: u32, down: u32, trend: Trend, size: u64) -> DecisionInput {
    DecisionInput {
        holdings,
        quote: Quote { up_ask: up, down_ask: down },
        trend,
        wave: WaveState::new(),
        params: params(),
        size,
        time_remaining: 600,
    }
}

fn held(up_shares: u64, up_price: u32, down_shares: u64, down_price: u32) -> Holdings {
    let mut h = Holdings::empty();
    if up_shares > 0 {
        h.record_buy(Side::Up, up_shares, up_price);
    }
    if down_shares > 0 {
        h.record_buy(Side::Down, down_shares, down_price);
    }
    h
}

#[test]
fn rising_up_window_buys_up_without_lock() {
    let mut w = PriceWindow::new();
    let ups = [400_000u32, 420_000, 440_000, 460_000, 480_000];
    let mut trend = Trend::Flat;
    for (i, up) in ups.iter().enumerate() {
        trend = w.observe(sample(i as u64, *up, 500_000));
    }
    assert_eq!(trend, Trend::UpRising);
    let d = input(Holdings::empty(), 480_000, 500_000, trend, 2400).decide();
    assert_eq!(d, Decision::Buy { side: Side::Up, is_lock: false });
    let mut wave = WaveState::new();
    wave.record_buy(Side::Up, false, false);
    assert_eq!(wave.buys_up_since_lock, 1);
    assert_eq!(wave.buys_down_since_lock, 0);
    assert_eq!(wave.flat_buys_since_lock, 0);
}

#[test]
fn fewer_than_four_samples_is_flat() {
    let mut w = PriceWindow::new();
    assert_eq!(w.observe(sample(0, 100_000, 500_000)), Trend::Flat);
    assert_eq!(w.observe(sample(1, 300_000, 500_000)), Trend::Flat);
    assert_eq!(w.observe(sample(2, 500_000, 500_000)), Trend::Flat);
    assert_eq!(w.observe(sample(3, 700_000, 500_000)), Trend::UpRising);
}

#[test]
fn window_keeps_five_newest_samples() {
    let mut w = PriceWindow::new();
    for i in 0..5u64 {
        w.observe(sample(i, 500_000, 500_000));
    }
    assert_eq!(w.len(), 5);
    // the oldest sample is now the flat one at 500_000; the newest is 10% higher
    assert_eq!(w.observe(sample(5, 600_000, 500_000)), Trend::UpRising);
    assert_eq!(w.len(), 5);
}

#[test]
fn trend_depends_only_on_endpoints() {
    let mut a = PriceWindow::new();
    let mut b = PriceWindow::new();
    let middles_a = [100_000u32, 900_000, 200_000];
    let middles_b = [500_000u32, 500_000, 500_000];
    a.observe(sample(0, 400_000, 500_000));
    b.observe(sample(0, 400_000, 500_000));
    for i in 0..3 {
        a.observe(sample(1 + i as u64, middles_a[i], 500_000));
        b.observe(sample(1 + i as u64, middles_b[i], 500_000));
    }
    let ta = a.observe(sample(9, 380_000, 530_000));
    let tb = b.observe(sample(9, 380_000, 530_000));
    assert_eq!(ta, tb);
    assert_eq!(ta, Trend::DownRising);
}

#[test]
fn classify_thresholds() {
    let base = sample(0, 500_000, 500_000);
    assert_eq!(classify(base, sample(1, 505_000, 500_000)), Trend::UpRising);
    assert_eq!(classify(base, sample(1, 504_999, 500_000)), Trend::Flat);
    assert_eq!(classify(base, sample(1, 500_000, 505_000)), Trend::DownRising);
    assert_eq!(classify(base, sample(1, 500_000, 495_000)), Trend::DownFalling);
    assert_eq!(classify(base, sample(1, 495_000, 500_000)), Trend::UpFalling);
    // equal rises: Up is checked first
    assert_eq!(classify(base, sample(1, 510_000, 510_000)), Trend::UpRising);
    // both fall equally: Down falling is checked before Up falling
    assert_eq!(classify(base, sample(1, 490_000, 490_000)), Trend::DownFalling);
}

#[test]
fn average_price_is_cost_weighted_mean() {
    let mut h = Holdings::empty();
    h.record_buy(Side::Up, 1000, 400_000);
    h.record_buy(Side::Up, 3000, 600_000);
    // (10 * 0.40 + 30 * 0.60) / 40 = 0.55
    assert_eq!(h.average_price(Side::Up), 550_000);
    assert_eq!(h.up_shares, 4000);
    assert_eq!(h.up_cost, 1000 * 400_000 + 3000 * 600_000);
    assert_eq!(h.average_price(Side::Down), 0);
}

#[test]
fn pair_cost_uses_paired_slice_of_excess_side() {
    // Up 10 @ $0.40, Down 4 @ $0.50; buy 2 more Down at $0.50
    let h = held(1000, 400_000, 400, 500_000);
    assert_eq!(h.pair_cost_after(Side::Down, 200, 500_000), Some(900_000));
}

#[test]
fn pair_cost_with_no_pair_is_none() {
    let h = held(1000, 400_000, 0, 0);
    assert_eq!(h.pair_cost_after(Side::Up, 200, 500_000), None);
}

#[test]
fn pair_cost_when_buying_side_overtakes() {
    // Up 20 @ $0.45; buying 30 Down at $0.55 leaves Up the smaller side:
    // (9 + 16.5) / 20 = 1.275
    let h = held(2000, 450_000, 0, 0);
    assert_eq!(h.pair_cost_after(Side::Down, 3000, 550_000), Some(1_275_000));
}

#[test]
fn lock_follows_pair_cost_formula_for_one_sided_up() {
    // Up 20 @ $0.45, Down none; a Down buy of 10 pairs with 10 of the 20 Up
    // shares, so only that slice of the Up cost counts: (4.5 + 5.5) / 10 = 1.00
    let h = held(2000, 450_000, 0, 0);
    assert_eq!(h.pair_cost_after(Side::Down, 1000, 550_000), Some(1_000_000));
    let d = input(h, 460_000, 550_000, Trend::Flat, 1000).decide();
    assert_eq!(d, Decision::Buy { side: Side::Down, is_lock: true });
    // at $0.52: (4.5 + 5.2) / 10 = 0.97
    assert_eq!(h.pair_cost_after(Side::Down, 1000, 520_000), Some(970_000));
}

#[test]
fn no_lock_when_pair_cost_exceeds_max() {
    // Up 20 @ $0.45; buying 20 Down at $0.60 costs (9 + 12) / 20 = 1.05 a pair
    let h = held(2000, 450_000, 0, 0);
    assert_eq!(h.pair_cost_after(Side::Down, 2000, 600_000), Some(1_050_000));
    let d = input(h, 400_000, 600_000, Trend::Flat, 2000).decide();
    assert_eq!(d, Decision::Abstain);
}

#[test]
fn zero_time_remaining_abstains() {
    let mut inp = input(Holdings::empty(), 480_000, 500_000, Trend::UpRising, 2400);
    inp.time_remaining = 0;
    assert_eq!(inp.decide(), Decision::Abstain);
    let mut inp = input(held(2000, 450_000, 0, 0), 460_000, 500_000, Trend::Flat, 1000);
    inp.time_remaining = 0;
    assert_eq!(inp.decide(), Decision::Abstain);
}

#[test]
fn zero_ask_abstains() {
    let inp = input(Holdings::empty(), 0, 500_000, Trend::Flat, 2400);
    assert_eq!(inp.decide(), Decision::Abstain);
}

#[test]
fn flat_no_position_buys_higher_side() {
    let d = input(Holdings::empty(), 450_000, 550_000, Trend::Flat, 2400).decide();
    assert_eq!(d, Decision::Buy { side: Side::Down, is_lock: false });
    let d = input(Holdings::empty(), 500_000, 500_000, Trend::UpFalling, 2400).decide();
    assert_eq!(d, Decision::Buy { side: Side::Up, is_lock: false });
}

#[test]
fn flat_buy_cap_stops_buying() {
    let mut inp = input(Holdings::empty(), 450_000, 550_000, Trend::Flat, 2400);
    inp.wave.flat_buys_since_lock = 4;
    assert_eq!(inp.decide(), Decision::Abstain);
}

#[test]
fn out_of_band_prices_abstain() {
    let d = input(Holdings::empty(), 995_000, 10_000, Trend::Flat, 2400).decide();
    assert_eq!(d, Decision::Abstain);
}

#[test]
fn lock_resets_wave_and_other_buys_count() {
    let mut w = WaveState::new();
    w.record_buy(Side::Up, false, true);
    w.record_buy(Side::Up, false, false);
    assert_eq!((w.buys_up_since_lock, w.buys_down_since_lock, w.flat_buys_since_lock), (2, 0, 1));
    for _ in 0..5 {
        w.record_buy(Side::Up, false, false);
    }
    assert_eq!(w.buys_up_since_lock, 3);
    w.record_buy(Side::Down, true, false);
    assert_eq!((w.buys_up_since_lock, w.buys_down_since_lock, w.flat_buys_since_lock), (0, 0, 0));
}

#[test]
fn two_sided_underweight_lock() {
    // Up 20 @ 0.45, Down 10 @ 0.50; buying 10 Down at 0.50 costs (9 + 10) / 20 = 0.95
    let h = held(2000, 450_000, 1000, 500_000);
    let d = input(h, 500_000, 500_000, Trend::Flat, 1000).decide();
    assert_eq!(d, Decision::Buy { side: Side::Down, is_lock: true });
}

#[test]
fn two_sided_continuation_on_falling_other_side() {
    // Up 10 @ 0.60, Down 10 @ 0.45: balanced, no lock possible at these asks
    let h = held(1000, 600_000, 1000, 450_000);
    let d = input(h, 700_000, 400_000, Trend::DownFalling, 1000).decide();
    assert_eq!(d, Decision::Buy { side: Side::Up, is_lock: false });
    let d = input(h, 700_000, 400_000, Trend::Flat, 1000).decide();
    assert_eq!(d, Decision::Abstain);
}

#[test]
fn pnl_if_each_side_wins() {
    let h = held(2000, 450_000, 1000, 500_000);
    // total cost $14: Up wins pays $20, Down wins pays $10
    assert_eq!(h.pnl_if(Side::Up), 600_000_000);
    assert_eq!(h.pnl_if(Side::Down), -400_000_000);
}
