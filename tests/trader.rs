use updown_trader::market::{MarketKey, MarketSnapshot};
use updown_trader::position::Side;
use updown_trader::settlement::{Resolution, ResolvedToken};
use updown_trader::trader::Trader;

fn sim_trader(cooldown: u64) -> Trader {
    Trader::new(true, 1_010_000, 50_000, 990_000, cooldown, 45, None, 300, 500_000, 500)
}

fn snapshot(up: Option<u32>, down: Option<u32>, time_remaining: u64) -> MarketSnapshot {
    MarketSnapshot {
        market_name: "BTC 15m".to_string(),
        condition_id: "0xabc".to_string(),
        period_timestamp: 1_000,
        up_token_id: Some("up-token".to_string()),
        down_token_id: Some("down-token".to_string()),
        up_ask: up,
        down_ask: down,
        time_remaining,
        market_duration_secs: 900,
    }
}

fn key() -> MarketKey {
    MarketKey { condition_id: "0xabc".to_string(), period_timestamp: 1_000 }
}

#[test]
fn simulation_buy_is_recorded_at_once() {
    let mut t = sim_trader(0);
    let order = t.process_snapshot(&snapshot(Some(450_000), Some(550_000), 600), 1_100).unwrap();
    assert_eq!(order.side, Side::Down);
    assert!(!order.is_lock);
    assert!(order.flat_entry);
    assert!(!order.pending);
    assert_eq!(order.size, 2400);
    assert_eq!(order.price, 550_000);
    assert_eq!(order.token_id.as_deref(), Some("down-token"));
    assert_eq!(t.closures_due(1_900).len(), 1);
    assert_eq!(t.closures_due(1_899).len(), 0);
}

#[test]
fn zero_time_remaining_changes_nothing() {
    let mut t = sim_trader(0);
    assert!(t.process_snapshot(&snapshot(Some(450_000), Some(550_000), 0), 1_100).is_none());
    assert_eq!(t.closures_due(u64::MAX).len(), 0);
}

#[test]
fn missing_ask_changes_nothing() {
    let mut t = sim_trader(0);
    assert!(t.process_snapshot(&snapshot(None, Some(550_000), 600), 1_100).is_none());
    assert!(t.process_snapshot(&snapshot(Some(450_000), Some(0), 600), 1_100).is_none());
    assert_eq!(t.closures_due(u64::MAX).len(), 0);
}

#[test]
fn cooldown_suppresses_second_buy_in_period() {
    let mut t = sim_trader(10);
    assert!(t.process_snapshot(&snapshot(Some(450_000), Some(550_000), 600), 1_100).is_some());
    assert!(t.process_snapshot(&snapshot(Some(450_000), Some(550_000), 590), 1_105).is_none());
    assert!(t.process_snapshot(&snapshot(Some(450_000), Some(550_000), 580), 1_110).is_some());
}

#[test]
fn hourly_market_uses_long_cooldown() {
    let mut t = sim_trader(0);
    let mut s = snapshot(Some(450_000), Some(550_000), 600);
    s.market_name = "btc 1h".to_string();
    assert!(t.process_snapshot(&s, 1_100).is_some());
    assert!(t.process_snapshot(&s, 1_140).is_none());
    assert!(t.process_snapshot(&s, 1_145).is_some());
}

#[test]
fn production_order_waits_for_confirmation() {
    let mut t = Trader::new(false, 1_010_000, 50_000, 990_000, 0, 45, Some(1000), 300, 500_000, 500);
    let order = t.process_snapshot(&snapshot(Some(450_000), Some(550_000), 600), 1_100).unwrap();
    assert!(order.pending);
    assert_eq!(order.size, 1000);
    assert_eq!(t.closures_due(u64::MAX).len(), 0);
    assert!(t.confirm_buy(&order));
    assert_eq!(t.closures_due(u64::MAX).len(), 1);
}

#[test]
fn settlement_counts_once() {
    let mut t = sim_trader(0);
    // buys 24 Down at $0.55: cost $13.20
    t.process_snapshot(&snapshot(Some(450_000), Some(550_000), 600), 1_100).unwrap();
    let due = t.closures_due(1_900);
    assert_eq!(due.len(), 1);
    let res = Resolution {
        closed: true,
        tokens: vec![
            ResolvedToken { token_id: "up-token".to_string(), winner: false },
            ResolvedToken { token_id: "down-token".to_string(), winner: true },
        ],
    };
    let s = t.check_market_closure(&due[0], &res).unwrap();
    assert_eq!(s.winner, Some(Side::Down));
    assert_eq!(s.cost, 2400 * 550_000);
    assert_eq!(s.payout, 2400 * 1_000_000);
    assert_eq!(s.pnl, 2400 * 450_000);
    assert!(s.redeem.is_none());
    assert_eq!(t.get_total_profit(), 2400 * 450_000);
    assert_eq!(t.get_period_profit(), 2400 * 450_000);
    assert!(t.check_market_closure(&key(), &res).is_none());
    assert_eq!(t.get_total_profit(), 2400 * 450_000);
    assert_eq!(t.closures_due(u64::MAX).len(), 0);
}

#[test]
fn open_market_is_not_settled() {
    let mut t = sim_trader(0);
    t.process_snapshot(&snapshot(Some(450_000), Some(550_000), 600), 1_100).unwrap();
    let res = Resolution { closed: false, tokens: vec![] };
    assert!(t.check_market_closure(&key(), &res).is_none());
    assert_eq!(t.closures_due(1_900).len(), 1);
}

#[test]
fn losing_side_settles_at_a_loss() {
    let mut t = Trader::new(false, 1_010_000, 50_000, 990_000, 0, 45, None, 300, 500_000, 500);
    let order = t.process_snapshot(&snapshot(Some(450_000), Some(550_000), 600), 1_100).unwrap();
    assert!(t.confirm_buy(&order));
    let res = Resolution {
        closed: true,
        tokens: vec![
            ResolvedToken { token_id: "up-token".to_string(), winner: true },
            ResolvedToken { token_id: "down-token".to_string(), winner: false },
        ],
    };
    // only Down was bought, so no recorded token won
    let s = t.check_market_closure(&key(), &res).unwrap();
    assert_eq!(s.winner, None);
    assert_eq!(s.payout, 0);
    assert_eq!(s.pnl, -(2400 * 550_000));
    assert!(s.redeem.is_none());
    assert_eq!(t.get_total_profit(), -(2400 * 550_000));
}

#[test]
fn production_win_requests_redeem() {
    let mut t = Trader::new(false, 1_010_000, 50_000, 990_000, 0, 45, None, 300, 500_000, 500);
    let order = t.process_snapshot(&snapshot(Some(450_000), Some(550_000), 600), 1_100).unwrap();
    assert!(t.confirm_buy(&order));
    let res = Resolution {
        closed: true,
        tokens: vec![ResolvedToken { token_id: "down-token".to_string(), winner: true }],
    };
    let s = t.check_market_closure(&key(), &res).unwrap();
    assert_eq!(s.winner, Some(Side::Down));
    let rq = s.redeem.unwrap();
    assert_eq!(rq.outcome, Side::Down);
    assert_eq!(rq.token_id, "down-token");
    assert_eq!(rq.condition_id, "0xabc");
}

#[test]
fn reset_period_clears_period_profit_and_flags() {
    let mut t = sim_trader(1000);
    t.process_snapshot(&snapshot(Some(450_000), Some(550_000), 600), 1_100).unwrap();
    let res = Resolution {
        closed: true,
        tokens: vec![ResolvedToken { token_id: "down-token".to_string(), winner: true }],
    };
    assert!(t.check_market_closure(&key(), &res).is_some());
    t.reset_period();
    assert_eq!(t.get_period_profit(), 0);
    assert_eq!(t.get_total_profit(), 2400 * 450_000);
    // the cooldown is gone too
    assert!(t.process_snapshot(&snapshot(Some(450_000), Some(550_000), 500), 1_200).is_some());
}

#[test]
fn one_sided_position_locks_through_trader() {
    let mut t = Trader::new(true, 1_010_000, 50_000, 990_000, 0, 45, Some(1000), 0, 500_000, 500);
    // flat and Up higher: buys 10 Up at $0.60
    let first = t.process_snapshot(&snapshot(Some(600_000), Some(380_000), 600), 1_100).unwrap();
    assert_eq!(first.side, Side::Up);
    // 10 Down at $0.38 pairs at $0.98
    let second = t.process_snapshot(&snapshot(Some(600_000), Some(380_000), 590), 1_101).unwrap();
    assert_eq!(second.side, Side::Down);
    assert!(second.is_lock);
    assert_eq!(second.cost_per_pair, Some(980_000));
    let w = t.wave_of(&key());
    assert_eq!((w.buys_up_since_lock, w.buys_down_since_lock, w.flat_buys_since_lock), (0, 0, 0));
    let h = t.holdings_of(&key());
    assert_eq!((h.up_shares, h.down_shares), (1000, 1000));
}

#[test]
fn non_lock_buy_counts_in_wave() {
    let mut t = sim_trader(0);
    t.process_snapshot(&snapshot(Some(450_000), Some(550_000), 600), 1_100).unwrap();
    let w = t.wave_of(&key());
    assert_eq!((w.buys_up_since_lock, w.buys_down_since_lock, w.flat_buys_since_lock), (0, 1, 1));
}

#[test]
fn rollover_forgets_windows_and_waves_but_keeps_ledger() {
    let mut t = sim_trader(0);
    t.process_snapshot(&snapshot(Some(450_000), Some(550_000), 600), 1_100).unwrap();
    assert_eq!(t.wave_of(&key()).buys_down_since_lock, 1);
    t.rollover(&"0xabc".to_string());
    let w = t.wave_of(&key());
    assert_eq!((w.buys_up_since_lock, w.buys_down_since_lock, w.flat_buys_since_lock), (0, 0, 0));
    assert_eq!(t.holdings_of(&key()).down_shares, 2400);
    assert_eq!(t.closures_due(1_900).len(), 1);
}
