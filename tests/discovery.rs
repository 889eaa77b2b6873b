use updown_trader::discovery::{
    discovery_starts, hourly_slug_from_clock, market_slug, normalize_condition_id, quarter_hour_slug_for,
    slug_1h_human_readable, slug_prefix_for_asset,
};
use updown_trader::text::decimal_string;

#[test]
fn hourly_slug_uses_new_york_time() {
    // 2026-02-03 04:00 UTC is 11pm on February 2 in New York
    assert_eq!(slug_1h_human_readable(1_770_091_200, "btc"), "bitcoin-up-or-down-february-2-11pm-et");
    // 2025-07-04 16:00 UTC is noon in New York (daylight time)
    assert_eq!(slug_1h_human_readable(1_751_644_800, "eth"), "ethereum-up-or-down-july-4-12pm-et");
}

#[test]
fn hourly_slug_from_clock_fields() {
    assert_eq!(hourly_slug_from_clock("eth", 7, 4, 0), "ethereum-up-or-down-july-4-12am-et");
    assert_eq!(hourly_slug_from_clock("sol", 12, 25, 12), "sol-up-or-down-december-25-12pm-et");
    assert_eq!(hourly_slug_from_clock("btc", 1, 31, 13), "bitcoin-up-or-down-january-31-1pm-et");
    assert_eq!(hourly_slug_from_clock("xrp", 5, 9, 11), "xrp-up-or-down-may-9-11am-et");
}

#[test]
fn quarter_hour_slug() {
    assert_eq!(quarter_hour_slug_for("btc", 1_770_000_000), "btc-updown-15m-1770000000");
    assert_eq!(market_slug("eth", 15, 900), Some("eth-updown-15m-900".to_string()));
    assert_eq!(market_slug("btc", 30, 900), None);
    assert_eq!(market_slug("btc", 60, 9_000_000_000_000), None);
}

#[test]
fn candidate_period_starts() {
    assert_eq!(discovery_starts(100_000, 15), Some(vec![99_900, 99_000, 98_100, 97_200]));
    assert_eq!(discovery_starts(4_000, 60), Some(vec![3_600, 0]));
    assert_eq!(discovery_starts(1_000, 15), Some(vec![900, 0]));
    assert_eq!(discovery_starts(1_000, 5), None);
}

#[test]
fn asset_prefixes() {
    assert_eq!(slug_prefix_for_asset("BTC"), Some("btc".to_string()));
    assert_eq!(slug_prefix_for_asset("Xrp"), Some("xrp".to_string()));
    assert_eq!(slug_prefix_for_asset("doge"), None);
}

#[test]
fn condition_ids_get_hex_prefix() {
    assert_eq!(normalize_condition_id("abc"), "0xabc");
    assert_eq!(normalize_condition_id("0xabc"), "0xabc");
}

#[test]
fn decimal_strings() {
    assert_eq!(decimal_string(0), "0");
    assert_eq!(decimal_string(7), "7");
    assert_eq!(decimal_string(1_234_567_890), "1234567890");
    assert_eq!(decimal_string(u64::MAX), "18446744073709551615");
}
