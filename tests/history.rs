use updown_trader::history::{analyze_content, parse_line, summarize, HistoryTrade};
use updown_trader::position::Side;

#[test]
fn buy_line_with_market_column() {
    let t = parse_line("2026-02-03T06:12:28.000Z BUY btc-15m Up 0.45 10").unwrap();
    assert_eq!(t, HistoryTrade { time_secs: 1_768_889_548, side: Side::Up, price: 450_000, size: 1000 });
}

#[test]
fn line_with_side_in_third_column() {
    let t = parse_line("  1970-01-01T00:01:00Z filled Down 0.5 2.5 extra  ").unwrap();
    assert_eq!(t, HistoryTrade { time_secs: 60, side: Side::Down, price: 500_000, size: 250 });
}

#[test]
fn headers_and_bad_lines_are_skipped() {
    assert_eq!(parse_line(""), None);
    assert_eq!(parse_line("   "), None);
    assert_eq!(parse_line("Market: btc 15m a b c d"), None);
    assert_eq!(parse_line("> note 1 2 3 4 5"), None);
    assert_eq!(parse_line("----------"), None);
    assert_eq!(parse_line("Time Side Price Size a b"), None);
    assert_eq!(parse_line("2026-02-03T06:12:28Z BUY m Up abc 10"), None);
    assert_eq!(parse_line("2026-02-03T06:12:28Z BUY m Sideways 0.4 10"), None);
    assert_eq!(parse_line("2026-02-03 BUY m Up 0.4 10"), None);
    assert_eq!(parse_line("2026-02-03T06:12:28Z BUY m Up 0.4"), None);
}

#[test]
fn decimals_are_truncated_to_units() {
    let t = parse_line("1970-01-01T00:00:01Z BUY m Up 0.4567891 1.239").unwrap();
    assert_eq!(t.price, 456_789);
    assert_eq!(t.size, 123);
    let t = parse_line("1970-01-01T00:00:01Z BUY m Up .5 +3.").unwrap();
    assert_eq!(t.price, 500_000);
    assert_eq!(t.size, 300);
    assert_eq!(parse_line("1970-01-01T00:00:01Z BUY m Up -0.5 3"), None);
    assert_eq!(parse_line("1970-01-01T00:00:01Z BUY m Up . 3"), None);
}

fn trade(time_secs: i64, side: Side, price: u64, size: u64) -> HistoryTrade {
    HistoryTrade { time_secs, side, price, size }
}

#[test]
fn summary_totals_and_switches() {
    let ts = vec![
        trade(0, Side::Up, 450_000, 1000),
        trade(60, Side::Down, 500_000, 1000),
        trade(180, Side::Up, 400_000, 500),
    ];
    let s = summarize(&ts, "Up").unwrap();
    assert_eq!(s.trades, 3);
    assert_eq!(s.shares_up, 1500);
    assert_eq!(s.shares_down, 1000);
    assert_eq!(s.total_cost, 1_150_000_000);
    assert_eq!(s.pnl_if_up, 350_000_000);
    assert_eq!(s.pnl_if_down, -150_000_000);
    assert_eq!(s.realized, 350_000_000);
    assert_eq!(s.switches, 2);
    assert_eq!(s.avg_switch_interval, Some(120));
    let s = summarize(&ts, "Unknown").unwrap();
    assert_eq!(s.realized, -150_000_000);
}

#[test]
fn summary_of_nothing() {
    let s = summarize(&vec![], "Down").unwrap();
    assert_eq!(s.trades, 0);
    assert_eq!(s.total_cost, 0);
    assert_eq!(s.switches, 0);
    assert_eq!(s.avg_switch_interval, None);
}

#[test]
fn content_is_read_and_ordered() {
    let content = "Won: Up\nMarket x\n2026-01-01T00:00:10Z BUY m Up 0.5 1\r\n2026-01-01T00:00:05Z BUY m Down 0.4 2\n";
    let (won, trades) = analyze_content(content);
    assert_eq!(won, "Up");
    assert_eq!(trades.len(), 2);
    assert_eq!(trades[0].side, Side::Down);
    assert_eq!(trades[0].size, 200);
    assert_eq!(trades[1].side, Side::Up);
    assert!(trades[0].time_secs < trades[1].time_secs);
}
