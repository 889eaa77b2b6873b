use updown_trader::config::{default_markets, default_timeframes, Args, Config};
use updown_trader::history::{extract_won, parse_iso_to_secs};
use updown_trader::sizing::{base_shares_for_market, cooldown_for_market, size_for_time, SizingParams};
use updown_trader::text::{contains, starts_with};

fn sizing(window: u32) -> SizingParams {
    SizingParams { shares_override: None, size_reduce_after_secs: window, size_min_ratio: 500_000, size_min_shares: 500 }
}

#[test]
fn base_shares_by_market_name() {
    assert_eq!(base_shares_for_market(None, "BTC 15m"), 2400);
    assert_eq!(base_shares_for_market(None, "eth 15m"), 1400);
    assert_eq!(base_shares_for_market(None, "btc 1h"), 2600);
    assert_eq!(base_shares_for_market(None, "ETH 1 h"), 1600);
    assert_eq!(base_shares_for_market(None, "SOL 15m"), 2400);
    assert_eq!(base_shares_for_market(Some(0), "eth 15m"), 1400);
    assert_eq!(base_shares_for_market(Some(750), "eth 15m"), 750);
}

#[test]
fn size_shrinks_toward_the_end() {
    let p = sizing(300);
    assert_eq!(size_for_time(&p, 2400, 300), 2400);
    assert_eq!(size_for_time(&p, 2400, 150), 1800);
    assert_eq!(size_for_time(&p, 2400, 0), 1200);
    assert_eq!(size_for_time(&p, 2400, 1), 1204);
    // floored at five shares
    assert_eq!(size_for_time(&p, 600, 0), 500);
    // no shrinking with a zero window
    assert_eq!(size_for_time(&sizing(0), 2400, 0), 2400);
}

#[test]
fn size_rounds_half_up() {
    // 1001 * 0.5 = 500.5 rounds to 501
    let p = SizingParams { shares_override: None, size_reduce_after_secs: 300, size_min_ratio: 500_000, size_min_shares: 0 };
    assert_eq!(size_for_time(&p, 1001, 0), 501);
}

#[test]
fn cooldown_by_duration_or_name() {
    assert_eq!(cooldown_for_market(10, 45, 900, "BTC 15m"), 10);
    assert_eq!(cooldown_for_market(10, 45, 3600, "BTC 15m"), 45);
    assert_eq!(cooldown_for_market(10, 45, 900, "btc 1h"), 45);
}

#[test]
fn text_search() {
    assert!(contains("BTC 15m", "15"));
    assert!(!contains("BTC 1h", "15"));
    assert!(contains("abc", ""));
    assert!(starts_with("BTC 15m", "BTC"));
    assert!(!starts_with("BT", "BTC"));
}

#[test]
fn args_simulation_unless_production() {
    let mut a = Args { simulation: true, production: false, config: "config.json".to_string(), redeem: false, condition_id: None };
    assert!(a.is_simulation());
    a.production = true;
    assert!(!a.is_simulation());
    a.production = false;
    a.simulation = false;
    assert!(!a.is_simulation());
}

#[test]
fn config_defaults() {
    let c = Config::default();
    assert_eq!(c.polymarket.gamma_api_url, "https://gamma-api.polymarket.com");
    assert_eq!(c.polymarket.clob_api_url, "https://clob.polymarket.com");
    assert!(c.polymarket.api_key.is_none());
    assert_eq!(c.trading.check_interval_ms, 1000);
    assert_eq!(c.trading.market_closure_check_interval_seconds, 20);
    assert_eq!(c.trading.data_source, "api");
    assert_eq!(c.trading.markets, vec!["btc".to_string()]);
    assert_eq!(c.trading.timeframes, vec!["15m".to_string(), "1h".to_string()]);
    assert_eq!(c.trading.cost_per_pair_max, 1_010_000);
    assert_eq!(c.trading.min_side_price, 50_000);
    assert_eq!(c.trading.max_side_price, 990_000);
    assert_eq!(c.trading.cooldown_seconds, 0);
    assert_eq!(c.trading.cooldown_seconds_1h, 45);
    assert_eq!(c.trading.size_reduce_after_secs, 300);
    assert_eq!(c.trading.size_min_ratio, 500_000);
    assert_eq!(c.trading.size_min_shares, 500);
    assert_eq!(default_markets(), vec!["btc".to_string()]);
    assert_eq!(default_timeframes().len(), 2);
}

#[test]
fn won_label_from_history() {
    assert_eq!(extract_won("Market closed | Won: Down token"), "Down");
    assert_eq!(extract_won("...\nWon: Up\n"), "Up");
    assert_eq!(extract_won("Won: Up token and Won: Down"), "Down");
    assert_eq!(extract_won("no result yet"), "Unknown");
}

#[test]
fn iso_timestamps_as_seconds() {
    assert_eq!(parse_iso_to_secs("2026-02-03T06:12:28.000Z"), Some(1_768_889_548));
    assert_eq!(parse_iso_to_secs("1970-01-01T00:00:00Z"), Some(0));
    assert_eq!(parse_iso_to_secs("1970-01-01T00:00:07"), Some(7));
    assert_eq!(parse_iso_to_secs("1970-01-02T01:02:03.5ZZ"), Some(86_400 + 3_723));
    assert_eq!(parse_iso_to_secs("1970-01-01 00:00:00"), None);
    assert_eq!(parse_iso_to_secs("1970-01-01T00:00"), None);
    assert_eq!(parse_iso_to_secs("1970-xx-01T00:00:00"), None);
    assert_eq!(parse_iso_to_secs("+1970-01-01T00:00:-5"), Some(-5));
    assert_eq!(parse_iso_to_secs("999999999999-01-01T00:00:00"), None);
}
