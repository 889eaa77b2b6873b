//! Reading trading history files and adding them up.
use vstd::prelude::*;
use crate::position::Side;
use crate::scan::{
    copy_range, fixed_value, int_value, parse_fixed, parse_int, split_at_first, split_lines,
    split_once, split_words, text_lines, trim_bounds, trim_end, trim_ws, trimmed_end, words,
};
use crate::text::{chars_equal, chars_of, chars_start_with, contains_chars, has_infix, has_prefix, str_equals};

verus! {

/// The winner a history file names: "Down" where it holds "Won: Down",
/// else "Up" where it holds "Won: Up", else "Unknown".
pub open spec fn won_label(content: Seq<char>) -> Seq<char> {
    if has_infix(content, "Won: Down token"@) || has_infix(content, "Won: Down"@) {
        "Down"@
    } else if has_infix(content, "Won: Up token"@) || has_infix(content, "Won: Up"@) {
        "Up"@
    } else {
        "Unknown"@
    }
}

/// Which side a history file reports as the winner.
pub fn extract_won(content: &str) -> (r: &'static str)
    ensures
        r@ == won_label(content@),
{
    let c = chars_of(content);
    if contains_chars(&c, &chars_of("Won: Down token")) || contains_chars(&c, &chars_of("Won: Down")) {
        "Down"
    } else if contains_chars(&c, &chars_of("Won: Up token")) || contains_chars(&c, &chars_of("Won: Up")) {
        "Up"
    } else {
        "Unknown"
    }
}

/// The six fields of a timestamp such as `2026-02-03T06:12:28.000Z`:
/// trailing `Z`s dropped, split at the first `T`, the date at its first two
/// `-`, the time at its first two `:`, the seconds cut at the first `.`.
pub open spec fn iso_fields(s: Seq<char>) -> Option<Seq<Seq<char>>> {
    let s = trim_end(s, 'Z');
    match split_once(s, 'T') {
        None => None,
        Some((date, time)) => match split_once(date, '-') {
            None => None,
            Some((y, rest)) => match split_once(rest, '-') {
                None => None,
                Some((m, d)) => match split_once(time, ':') {
                    None => None,
                    Some((h, rest2)) => match split_once(rest2, ':') {
                        None => None,
                        Some((mi, rest3)) => {
                            let sec = match split_once(rest3, '.') {
                                Some((whole, _)) => whole,
                                None => rest3,
                            };
                            Some(seq![y, m, d, h, mi, sec])
                        },
                    },
                },
            },
        },
    }
}

/// Seconds for ordering: every year 365 days, every month 31 days.
pub open spec fn iso_formula(y: int, m: int, d: int, h: int, mi: int, sec: int) -> int {
    (y - 1970) * 365 * 24 * 3600 + (m - 1) * 31 * 24 * 3600 + (d - 1) * 24 * 3600 + h * 3600
        + mi * 60 + sec
}

/// A timestamp as seconds for ordering; `None` where a field is missing or
/// not an `i64`, or the result does not fit in an `i64`.
pub open spec fn iso_secs(s: Seq<char>) -> Option<int> {
    match iso_fields(s) {
        None => None,
        Some(f) => match (int_value(f[0]), int_value(f[1]), int_value(f[2]), int_value(f[3]), int_value(f[4]), int_value(f[5])) {
            (Some(y), Some(m), Some(d), Some(h), Some(mi), Some(sec)) => {
                let v = iso_formula(y, m, d, h, mi, sec);
                if i64::MIN <= v <= i64::MAX { Some(v) } else { None }
            },
            _ => None,
        },
    }
}


/// A timestamp such as `2026-02-03T06:12:28.000Z` as seconds, good for
/// ordering; see `iso_secs`.
pub fn parse_iso_to_secs(s: &str) -> (r: Option<i64>)
    ensures
        r matches Some(v) ==> iso_secs(s@) == Some(v as int),
        r is None ==> iso_secs(s@) is None,
{
    let c = chars_of(s);
    iso_secs_of_chars(&c)
}

fn iso_secs_of_chars(c: &Vec<char>) -> (r: Option<i64>)
    ensures
        r matches Some(v) ==> iso_secs(c@) == Some(v as int),
        r is None ==> iso_secs(c@) is None,
{
    let end = trimmed_end(c, 'Z');
    let ghost cs = c@;
    assert(cs.subrange(0, end as int) =~= cs.take(end as int));
    let t = match split_at_first(c, 0, end, 'T') {
        Some(t) => t,
        None => return None,
    };
    assert(cs.subrange(0, t as int).subrange(0, 0) =~= cs.subrange(0, 0));
    let dash1 = match split_at_first(c, 0, t, '-') {
        Some(i) => i,
        None => return None,
    };
    let dash2 = match split_at_first(c, dash1 + 1, t, '-') {
        Some(i) => i,
        None => return None,
    };
    let colon1 = match split_at_first(c, t + 1, end, ':') {
        Some(i) => i,
        None => return None,
    };
    let colon2 = match split_at_first(c, colon1 + 1, end, ':') {
        Some(i) => i,
        None => return None,
    };
    let sec_end = match split_at_first(c, colon2 + 1, end, '.') {
        Some(i) => i,
        None => end,
    };
    let ghost fields = seq![
        cs.subrange(0, dash1 as int),
        cs.subrange(dash1 + 1, dash2 as int),
        cs.subrange(dash2 + 1, t as int),
        cs.subrange(t + 1, colon1 as int),
        cs.subrange(colon1 + 1, colon2 as int),
        cs.subrange(colon2 + 1, sec_end as int),
    ];
    assert(iso_fields(c@) == Some(fields));
    let y = match parse_int(c, 0, dash1) {
        Some(v) => v,
        None => return None,
    };
    let m = match parse_int(c, dash1 + 1, dash2) {
        Some(v) => v,
        None => return None,
    };
    let d = match parse_int(c, dash2 + 1, t) {
        Some(v) => v,
        None => return None,
    };
    let h = match parse_int(c, t + 1, colon1) {
        Some(v) => v,
        None => return None,
    };
    let mi = match parse_int(c, colon1 + 1, colon2) {
        Some(v) => v,
        None => return None,
    };
    let sec = match parse_int(c, colon2 + 1, sec_end) {
        Some(v) => v,
        None => return None,
    };
    let v: i128 = (y - 1970) * 365 * 24 * 3600 + (m - 1) * 31 * 24 * 3600 + (d - 1) * 24 * 3600
        + h * 3600 + mi * 60 + sec;
    if v < i64::MIN as i128 || v > i64::MAX as i128 {
        None
    } else {
        Some(v as i64)
    }
}


/// One buy read from a history file: when, which side, at what price (in
/// price units) and how many share units.
#[derive(Clone, Copy, Debug, PartialEq, Eq, Structural)]
pub struct HistoryTrade {
    pub time_secs: i64,
    pub side: Side,
    pub price: u64,
    pub size: u64,
}

/// Headers, separators and blank lines carry no trade.
pub open spec fn is_header_line(t: Seq<char>) -> bool {
    t.len() == 0 || has_prefix(t, ">"@) || has_prefix(t, "Market"@) || has_prefix(t, "Condition"@)
        || has_prefix(t, "Time"@) || has_prefix(t, "-"@)
}

pub open spec fn side_named(w: Seq<char>) -> Option<Side> {
    if w == "Up"@ {
        Some(Side::Up)
    } else if w == "Down"@ {
        Some(Side::Down)
    } else {
        None
    }
}

/// Where the time, side, price and size stand among a line's words: after
/// `<time> BUY <market> <side> <price> <size>`, `<time> <x> <side> <price>
/// <size>`, or else as in the first.
pub open spec fn line_fields(p: Seq<Seq<char>>) -> (int, int, int, int) {
    if p[1] == "BUY"@ {
        (0, 3, 4, 5)
    } else if p[2] == "Up"@ || p[2] == "Down"@ {
        (0, 2, 3, 4)
    } else {
        (0, 3, 4, 5)
    }
}

/// The trade a history line records, if any.
pub open spec fn parsed_line(line: Seq<char>) -> Option<HistoryTrade> {
    let t = trim_ws(line);
    let p = words(t);
    if is_header_line(t) || p.len() < 6 {
        None
    } else {
        let (ti, si, pi, zi) = line_fields(p);
        match (side_named(p[si]), fixed_value(p[pi], 6), fixed_value(p[zi], 2), iso_secs(p[ti])) {
            (Some(side), Some(price), Some(size), Some(secs)) => Some(
                HistoryTrade { time_secs: secs as i64, side, price: price as u64, size: size as u64 },
            ),
            _ => None,
        }
    }
}

fn side_of_word(w: &Vec<char>) -> (r: Option<Side>)
    ensures
        r == side_named(w@),
{
    if chars_equal(w, &chars_of("Up")) {
        Some(Side::Up)
    } else if chars_equal(w, &chars_of("Down")) {
        Some(Side::Down)
    } else {
        None
    }
}

/// Reads the trade a history line records; `None` for headers, separators,
/// blank lines and anything malformed.
pub fn parse_line(line: &str) -> (r: Option<HistoryTrade>)
    ensures
        r == parsed_line(line@),
{
    let c = chars_of(line);
    parse_line_chars(&c)
}

fn parse_line_chars(c: &Vec<char>) -> (r: Option<HistoryTrade>)
    ensures
        r == parsed_line(c@),
{
    let (a, b) = trim_bounds(c);
    let t = copy_range(c, a, b);
    if t.len() == 0 || chars_start_with(&t, &chars_of(">")) || chars_start_with(&t, &chars_of("Market"))
        || chars_start_with(&t, &chars_of("Condition")) || chars_start_with(&t, &chars_of("Time"))
        || chars_start_with(&t, &chars_of("-")) {
        return None;
    }
    let parts = split_words(&t);
    let ghost p = parts@.map_values(|w: Vec<char>| w@);
    if parts.len() < 6 {
        return None;
    }
    assert(p[1] == parts@[1]@ && p[2] == parts@[2]@);
    let (ti, si, pi, zi): (usize, usize, usize, usize) = if chars_equal(&parts[1], &chars_of("BUY")) {
        (0, 3, 4, 5)
    } else if chars_equal(&parts[2], &chars_of("Up")) || chars_equal(&parts[2], &chars_of("Down")) {
        (0, 2, 3, 4)
    } else {
        (0, 3, 4, 5)
    };
    assert(line_fields(p) == (ti as int, si as int, pi as int, zi as int));
    let side = match side_of_word(&parts[si]) {
        Some(s) => s,
        None => return None,
    };
    let pw = &parts[pi];
    let zw = &parts[zi];
    assert(pw@.subrange(0, pw@.len() as int) =~= pw@);
    assert(zw@.subrange(0, zw@.len() as int) =~= zw@);
    let price = match parse_fixed(pw, 0, pw.len(), 6) {
        Some(v) => v,
        None => return None,
    };
    let size = match parse_fixed(zw, 0, zw.len(), 2) {
        Some(v) => v,
        None => return None,
    };
    let secs = match iso_secs_of_chars(&parts[ti]) {
        Some(v) => v,
        None => return None,
    };
    Some(HistoryTrade { time_secs: secs, side, price, size })
}


/// What a history file adds up to. Shares are in share units, money in
/// cost units (share unit times price unit).
#[derive(Clone, Copy, Debug, PartialEq, Eq, Structural)]
pub struct HistorySummary {
    pub trades: usize,
    pub shares_up: u128,
    pub shares_down: u128,
    pub total_cost: u128,
    pub pnl_if_up: i128,
    pub pnl_if_down: i128,
    /// Profit for the side named the winner; Down's unless Up won.
    pub realized: i128,
    /// Buys whose side differs from the buy before.
    pub switches: usize,
    /// Mean seconds between switches, rounded toward zero; none below two.
    pub avg_switch_interval: Option<i128>,
}

pub open spec fn side_shares(ts: Seq<HistoryTrade>, side: Side) -> int
    decreases ts.len(),
{
    if ts.len() == 0 {
        0
    } else {
        side_shares(ts.drop_last(), side) + if ts.last().side == side { ts.last().size as int } else { 0 }
    }
}

pub open spec fn side_cost(ts: Seq<HistoryTrade>, side: Side) -> int
    decreases ts.len(),
{
    if ts.len() == 0 {
        0
    } else {
        side_cost(ts.drop_last(), side) + if ts.last().side == side {
            ts.last().size * ts.last().price
        } else {
            0
        }
    }
}

/// Times of the buys that switch side.
pub open spec fn switch_times(ts: Seq<HistoryTrade>) -> Seq<int>
    decreases ts.len(),
{
    if ts.len() < 2 {
        Seq::empty()
    } else if ts.last().side != ts[ts.len() - 2].side {
        switch_times(ts.drop_last()).push(ts.last().time_secs as int)
    } else {
        switch_times(ts.drop_last())
    }
}

/// Division rounded toward zero, for a positive divisor.
pub open spec fn div_toward_zero(a: int, b: int) -> int {
    if a >= 0 {
        a / b
    } else {
        -((-a) / b)
    }
}

/// The mean gap between consecutive switch times: the gaps sum to the span
/// from the first to the last.
pub open spec fn mean_gap(sw: Seq<int>) -> Option<int> {
    if sw.len() < 2 {
        None
    } else {
        Some(div_toward_zero(sw.last() - sw[0], sw.len() - 1))
    }
}

/// The summary of a list of trades in file order, given the winner a file
/// names; `None` where a payout or the total cost exceeds `i128`.
pub open spec fn summary_of(ts: Seq<HistoryTrade>, won_up: bool) -> Option<HistorySummary> {
    let su = side_shares(ts, Side::Up);
    let sd = side_shares(ts, Side::Down);
    let cost = side_cost(ts, Side::Up) + side_cost(ts, Side::Down);
    let pu = su * 1_000_000 - cost;
    let pd = sd * 1_000_000 - cost;
    if cost > i128::MAX || su * 1_000_000 > i128::MAX || sd * 1_000_000 > i128::MAX {
        None
    } else {
        Some(HistorySummary {
            trades: ts.len() as usize,
            shares_up: su as u128,
            shares_down: sd as u128,
            total_cost: cost as u128,
            pnl_if_up: pu as i128,
            pnl_if_down: pd as i128,
            realized: (if won_up { pu } else { pd }) as i128,
            switches: switch_times(ts).len() as usize,
            avg_switch_interval: match mean_gap(switch_times(ts)) {
                Some(g) => Some(g as i128),
                None => None,
            },
        })
    }
}

proof fn lemma_sums_grow(ts: Seq<HistoryTrade>, i: int, side: Side)
    requires
        0 <= i <= ts.len(),
    ensures
        0 <= side_shares(ts.take(i), side) <= side_shares(ts, side),
        0 <= side_cost(ts.take(i), side) <= side_cost(ts, side),
    decreases ts.len(),
{
    if ts.len() > 0 {
        if i == ts.len() {
            assert(ts.take(i) =~= ts);
            lemma_sums_grow(ts.drop_last(), i - 1, side);
            assert(ts.drop_last().take(i - 1) =~= ts.drop_last().take(i - 1));
        } else {
            lemma_sums_grow(ts.drop_last(), i, side);
            assert(ts.drop_last().take(i) =~= ts.take(i));
        }
        assert(ts.last().size * ts.last().price >= 0) by (nonlinear_arith)
            requires ts.last().size >= 0, ts.last().price >= 0;
    } else {
        assert(ts.take(i) =~= ts);
    }
}

/// Adds up a list of trades; see `summary_of`.
pub fn summarize(trades: &Vec<HistoryTrade>, won: &str) -> (r: Option<HistorySummary>)
    ensures
        r == summary_of(trades@, won@ == "Up"@),
{
    let ghost ts = trades@;
    let mut su: u128 = 0;
    let mut sd: u128 = 0;
    let mut cu: u128 = 0;
    let mut cd: u128 = 0;
    let mut switches: usize = 0;
    let mut first_switch: i64 = 0;
    let mut last_switch: i64 = 0;
    let mut i: usize = 0;
    while i < trades.len()
        invariant
            ts == trades@,
            i <= ts.len(),
            su == side_shares(ts.take(i as int), Side::Up),
            sd == side_shares(ts.take(i as int), Side::Down),
            cu == side_cost(ts.take(i as int), Side::Up),
            cd == side_cost(ts.take(i as int), Side::Down),
            switches == switch_times(ts.take(i as int)).len(),
            switches <= i,
            switches > 0 ==> first_switch == switch_times(ts.take(i as int))[0],
            switches > 0 ==> last_switch == switch_times(ts.take(i as int)).last(),
        decreases ts.len() - i,
    {
        let t = trades[i];
        let ghost pre = ts.take(i as int);
        let ghost next = ts.take(i + 1);
        assert(next.drop_last() =~= pre);
        proof {
            lemma_sums_grow(ts, i + 1, t.side);
            lemma_sums_grow(ts, i + 1, Side::Up);
            lemma_sums_grow(ts, i + 1, Side::Down);
            assert(t.size * t.price <= u64::MAX * u64::MAX) by (nonlinear_arith)
                requires t.size <= u64::MAX, t.price <= u64::MAX;
        }
        let cost: u128 = t.size as u128 * t.price as u128;
        match t.side {
            Side::Up => {
                su = match su.checked_add(t.size as u128) {
                    Some(v) => v,
                    None => return None,
                };
                cu = match cu.checked_add(cost) {
                    Some(v) => v,
                    None => return None,
                };
            },
            Side::Down => {
                sd = match sd.checked_add(t.size as u128) {
                    Some(v) => v,
                    None => return None,
                };
                cd = match cd.checked_add(cost) {
                    Some(v) => v,
                    None => return None,
                };
            },
        }
        if i > 0 && trades[i - 1].side != t.side {
            if switches == 0 {
                first_switch = t.time_secs;
            }
            last_switch = t.time_secs;
            switches = switches + 1;
        }
        i = i + 1;
    }
    assert(ts.take(ts.len() as int) =~= ts);
    let limit: u128 = i128::MAX as u128;
    if cu > limit || cd > limit - cu {
        return None;
    }
    let cost: u128 = cu + cd;
    if su > limit / 1_000_000 || sd > limit / 1_000_000 {
        return None;
    }
    let pay_up: u128 = su * 1_000_000;
    let pay_down: u128 = sd * 1_000_000;
    let pnl_if_up: i128 = pay_up as i128 - cost as i128;
    let pnl_if_down: i128 = pay_down as i128 - cost as i128;
    let realized = if str_equals(won, "Up") { pnl_if_up } else { pnl_if_down };
    let avg_switch_interval = if switches < 2 {
        None
    } else {
        let n: u128 = (switches - 1) as u128;
        if last_switch >= first_switch {
            Some(((last_switch as i128 - first_switch as i128) as u128 / n) as i128)
        } else {
            Some(-(((first_switch as i128 - last_switch as i128) as u128 / n) as i128))
        }
    };
    Some(HistorySummary {
        trades: trades.len(),
        shares_up: su,
        shares_down: sd,
        total_cost: cost,
        pnl_if_up,
        pnl_if_down,
        realized,
        switches,
        avg_switch_interval,
    })
}


/// The trades that the lines record, in line order.
pub open spec fn parsed_all(ls: Seq<Seq<char>>) -> Seq<HistoryTrade>
    decreases ls.len(),
{
    if ls.len() == 0 {
        Seq::empty()
    } else {
        let rest = parsed_all(ls.drop_last());
        match parsed_line(ls.last()) {
            Some(t) => rest.push(t),
            None => rest,
        }
    }
}

pub open spec fn sorted_by_time(v: Seq<HistoryTrade>) -> bool {
    forall|i: int, j: int| 0 <= i < j < v.len() ==> v[i].time_secs <= v[j].time_secs
}

/// Relies on std's `slice::sort_by_key`, a stable sort: the same trades
/// come out ordered by time.
#[verifier::external_body]
fn sort_by_time(v: &mut Vec<HistoryTrade>)
    ensures
        final(v)@.to_multiset() == old(v)@.to_multiset(),
        sorted_by_time(final(v)@),
{
    v.sort_by_key(|t| t.time_secs)
}

/// Reads a history file's text: the winner it names and its trades
/// ordered by time.
pub fn analyze_content(content: &str) -> (r: (&'static str, Vec<HistoryTrade>))
    ensures
        r.0@ == won_label(content@),
        r.1@.to_multiset() == parsed_all(text_lines(content@)).to_multiset(),
        sorted_by_time(r.1@),
{
    let won = extract_won(content);
    let c = chars_of(content);
    let lines = split_lines(&c);
    let ghost ls = lines@.map_values(|l: Vec<char>| l@);
    let mut trades: Vec<HistoryTrade> = Vec::new();
    let mut i: usize = 0;
    while i < lines.len()
        invariant
            i <= lines@.len(),
            ls == lines@.map_values(|l: Vec<char>| l@),
            trades@ == parsed_all(ls.take(i as int)),
        decreases lines@.len() - i,
    {
        assert(ls.take(i + 1).drop_last() =~= ls.take(i as int));
        if let Some(t) = parse_line_chars(&lines[i]) {
            trades.push(t);
        }
        i = i + 1;
    }
    assert(ls.take(ls.len() as int) =~= ls);
    sort_by_time(&mut trades);
    (won, trades)
}

} // verus!
