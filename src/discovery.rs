//! Market slugs and the periods to look for when discovering markets.
use vstd::prelude::*;
use chrono::{Datelike, TimeZone, Timelike};
use crate::text::{decimal_of, decimal_string, has_prefix, lower_of, lowercase, starts_with, str_equals};

verus! {

/// Latest Unix time the calendar conversion accepts: early in the year
/// 255,000, inside chrono's range.
pub const MAX_CALENDAR_SECS: u64 = 8_000_000_000_000;

/// Seconds in an hourly period.
pub const HOUR_PERIOD_SECS: u64 = 3600;

/// Seconds in a quarter-hour period.
pub const QUARTER_PERIOD_SECS: u64 = 900;

/// Month (1 to 12), day of month (1 to 31) and hour (0 to 23) of a Unix
/// time on New York's wall clock.
pub uninterp spec fn new_york_clock(secs: int) -> (int, int, int);

/// Relies on chrono's `Utc.timestamp_opt` with `DateTime::with_timezone`
/// and chrono-tz's `America::New_York` rules: the New York month, day and
/// hour of a Unix time. chrono maps every second up to the year 262142, and
/// chrono-tz finds an offset for every instant.
#[verifier::external_body]
fn new_york_month_day_hour(secs: u64) -> (r: (u32, u32, u32))
    requires
        secs <= MAX_CALENDAR_SECS,
    ensures
        (r.0 as int, r.1 as int, r.2 as int) == new_york_clock(secs as int),
        1 <= r.0 <= 12,
        1 <= r.1 <= 31,
        r.2 <= 23,
{
    let utc = chrono::Utc.timestamp_opt(secs as i64, 0).single().unwrap();
    let local = utc.with_timezone(&chrono_tz::America::New_York);
    (local.month(), local.day(), local.hour())
}

pub open spec fn month_name(m: int) -> Seq<char> {
    if m == 2 {
        "february"@
    } else if m == 3 {
        "march"@
    } else if m == 4 {
        "april"@
    } else if m == 5 {
        "may"@
    } else if m == 6 {
        "june"@
    } else if m == 7 {
        "july"@
    } else if m == 8 {
        "august"@
    } else if m == 9 {
        "september"@
    } else if m == 10 {
        "october"@
    } else if m == 11 {
        "november"@
    } else if m == 12 {
        "december"@
    } else {
        "january"@
    }
}

/// The hour on a 12-hour clock.
pub open spec fn hour_of_12(h: int) -> int {
    if h == 0 {
        12
    } else if h <= 12 {
        h
    } else {
        h - 12
    }
}

pub open spec fn am_pm(h: int) -> Seq<char> {
    if h < 12 {
        "am"@
    } else {
        "pm"@
    }
}

/// The asset's name in hourly slugs.
pub open spec fn asset_name(prefix: Seq<char>) -> Seq<char> {
    if prefix == "btc"@ {
        "bitcoin"@
    } else if prefix == "eth"@ {
        "ethereum"@
    } else {
        prefix
    }
}

/// Slug of an hourly market, such as `bitcoin-up-or-down-february-2-11pm-et`.
pub open spec fn hourly_slug(prefix: Seq<char>, month: int, day: nat, hour: int) -> Seq<char> {
    asset_name(prefix) + "-up-or-down-"@ + month_name(month) + "-"@ + decimal_of(day) + "-"@
        + decimal_of(hour_of_12(hour) as nat) + am_pm(hour) + "-et"@
}

/// Slug of a quarter-hour market, such as `btc-updown-15m-1770000000`.
pub open spec fn quarter_hour_slug(prefix: Seq<char>, period_start: nat) -> Seq<char> {
    prefix + "-updown-15m-"@ + decimal_of(period_start)
}

fn month_str(m: u32) -> (r: &'static str)
    ensures
        r@ == month_name(m as int),
{
    if m == 2 {
        "february"
    } else if m == 3 {
        "march"
    } else if m == 4 {
        "april"
    } else if m == 5 {
        "may"
    } else if m == 6 {
        "june"
    } else if m == 7 {
        "july"
    } else if m == 8 {
        "august"
    } else if m == 9 {
        "september"
    } else if m == 10 {
        "october"
    } else if m == 11 {
        "november"
    } else if m == 12 {
        "december"
    } else {
        "january"
    }
}

/// Slug of an hourly market from its New York month, day and hour.
pub fn hourly_slug_from_clock(slug_prefix: &str, month: u32, day: u32, hour: u32) -> (r: String)
    ensures
        r@ == hourly_slug(slug_prefix@, month as int, day as nat, hour as int),
{
    let mut s = if str_equals(slug_prefix, "btc") {
        String::from_str("bitcoin")
    } else if str_equals(slug_prefix, "eth") {
        String::from_str("ethereum")
    } else {
        String::from_str(slug_prefix)
    };
    s.append("-up-or-down-");
    s.append(month_str(month));
    s.append("-");
    s.append(decimal_string(day as u64).as_str());
    s.append("-");
    let h12: u32 = if hour == 0 {
        12
    } else if hour <= 12 {
        hour
    } else {
        hour - 12
    };
    s.append(decimal_string(h12 as u64).as_str());
    s.append(if hour < 12 { "am" } else { "pm" });
    s.append("-et");
    s
}

/// Slug of the hourly market whose period starts at `period_start_unix`.
pub fn slug_1h_human_readable(period_start_unix: u64, slug_prefix: &str) -> (r: String)
    requires
        period_start_unix <= MAX_CALENDAR_SECS,
    ensures
        r@ == hourly_slug(
            slug_prefix@,
            new_york_clock(period_start_unix as int).0,
            new_york_clock(period_start_unix as int).1 as nat,
            new_york_clock(period_start_unix as int).2,
        ),
{
    let (month, day, hour) = new_york_month_day_hour(period_start_unix);
    hourly_slug_from_clock(slug_prefix, month, day, hour)
}

/// Slug of the quarter-hour market whose period starts at `period_start`.
pub fn quarter_hour_slug_for(slug_prefix: &str, period_start: u64) -> (r: String)
    ensures
        r@ == quarter_hour_slug(slug_prefix@, period_start as nat),
{
    let mut s = String::from_str(slug_prefix);
    s.append("-updown-15m-");
    s.append(decimal_string(period_start).as_str());
    s
}

/// Length of a market's period, by its duration in minutes; only quarter-hour
/// and hourly markets are traded.
pub open spec fn period_secs_for(duration_minutes: u64) -> Option<u64> {
    if duration_minutes == 60 {
        Some(HOUR_PERIOD_SECS)
    } else if duration_minutes == 15 {
        Some(QUARTER_PERIOD_SECS)
    } else {
        None
    }
}

/// Slug of the market of `duration_minutes` whose period starts at
/// `period_start`; `None` for other durations, and for an hourly period
/// beyond the calendar's range.
pub fn market_slug(slug_prefix: &str, duration_minutes: u64, period_start: u64) -> (r: Option<String>)
    ensures
        duration_minutes == 60 && period_start <= MAX_CALENDAR_SECS ==> (r matches Some(s) && s@
            == hourly_slug(
            slug_prefix@,
            new_york_clock(period_start as int).0,
            new_york_clock(period_start as int).1 as nat,
            new_york_clock(period_start as int).2,
        )),
        duration_minutes == 15 ==> (r matches Some(s) && s@ == quarter_hour_slug(slug_prefix@, period_start as nat)),
        r is Some <==> (duration_minutes == 15 || (duration_minutes == 60 && period_start <= MAX_CALENDAR_SECS)),
{
    if duration_minutes == 60 {
        if period_start <= MAX_CALENDAR_SECS {
            Some(slug_1h_human_readable(period_start, slug_prefix))
        } else {
            None
        }
    } else if duration_minutes == 15 {
        Some(quarter_hour_slug_for(slug_prefix, period_start))
    } else {
        None
    }
}

/// Start times to try when looking for a market at `now`: the current
/// period first, then up to three earlier ones (none before time zero).
pub open spec fn candidate_starts(now: u64, period: u64) -> Seq<int> {
    let current = (now / period) * period;
    Seq::new(4, |i: int| current - i * period).filter(|t: int| t >= 0)
}

/// The period starts to try for a market of `duration_minutes` at `now`;
/// `None` for durations other than 15 and 60 minutes.
pub fn discovery_starts(now: u64, duration_minutes: u64) -> (r: Option<Vec<u64>>)
    ensures
        r is Some <==> period_secs_for(duration_minutes) is Some,
        r matches Some(v) ==> v@.map_values(|t: u64| t as int) == candidate_starts(
            now,
            period_secs_for(duration_minutes)->0,
        ),
{
    let period: u64 = if duration_minutes == 60 {
        HOUR_PERIOD_SECS
    } else if duration_minutes == 15 {
        QUARTER_PERIOD_SECS
    } else {
        return None;
    };
    let current: u64 = (now / period) * period;
    let ghost all = Seq::new(4, |i: int| current - i * period);
    let mut out: Vec<u64> = Vec::new();
    let mut i: u64 = 0;
    while i < 4
        invariant
            i <= 4,
            period > 0,
            period <= HOUR_PERIOD_SECS,
            current == (now / period) * period,
            all == Seq::new(4, |j: int| current - j * period),
            out@.map_values(|t: u64| t as int) == all.take(i as int).filter(|t: int| t >= 0),
        decreases 4 - i,
    {
        assert(i * period <= 4 * 3600) by (nonlinear_arith)
            requires i < 4, period <= 3600;
        let step: u64 = i * period;
        proof {
            assert(all.take(i + 1).drop_last() =~= all.take(i as int));
            reveal(Seq::filter);
            assert(all.take(i + 1).filter(|t: int| t >= 0) == if all[i as int] >= 0 {
                all.take(i as int).filter(|t: int| t >= 0).push(all[i as int])
            } else {
                all.take(i as int).filter(|t: int| t >= 0)
            });
            assert(all.take(i as int).push(all[i as int]) =~= all.take(i + 1));
        }
        if step <= current {
            out.push(current - step);
            assert(out@.map_values(|t: u64| t as int) =~= all.take(i as int).filter(|t: int| t >= 0).push(current - step));
        }
        i = i + 1;
    }
    assert(all.take(4) =~= all);
    Some(out)
}

/// Assets with up/down markets, by their lower-cased name.
pub open spec fn is_supported_asset(lower: Seq<char>) -> bool {
    lower == "btc"@ || lower == "eth"@ || lower == "sol"@ || lower == "xrp"@
}

/// The slug prefix of a lower-cased asset name: the name itself where the
/// asset is supported.
pub fn slug_prefix_for_lower(lower: &str) -> (r: Option<String>)
    ensures
        r is Some <==> is_supported_asset(lower@),
        r matches Some(p) ==> p@ == lower@,
{
    if str_equals(lower, "btc") || str_equals(lower, "eth") || str_equals(lower, "sol")
        || str_equals(lower, "xrp") {
        Some(String::from_str(lower))
    } else {
        None
    }
}

/// The slug prefix of an asset, in any case; `None` for an unsupported asset.
pub fn slug_prefix_for_asset(asset: &str) -> (r: Option<String>)
    ensures
        r is Some <==> is_supported_asset(lower_of(asset@)),
        r matches Some(p) ==> p@ == lower_of(asset@),
{
    let lower = lowercase(asset);
    slug_prefix_for_lower(lower.as_str())
}

/// A condition id with its `0x` prefix.
pub open spec fn with_hex_prefix(cid: Seq<char>) -> Seq<char> {
    if has_prefix(cid, "0x"@) {
        cid
    } else {
        "0x"@ + cid
    }
}

/// Adds the `0x` prefix to a condition id that lacks it.
pub fn normalize_condition_id(cid: &str) -> (r: String)
    ensures
        r@ == with_hex_prefix(cid@),
{
    if starts_with(cid, "0x") {
        String::from_str(cid)
    } else {
        let mut s = String::from_str("0x");
        s.append(cid);
        s
    }
}

} // verus!
