//! Order sizes and cooldown lengths.
use vstd::prelude::*;
use crate::text::{contains, has_infix, has_prefix, starts_with, upper_of, uppercase};

verus! {

/// A ratio of one, in parts per million.
pub const RATIO_ONE: u32 = 1_000_000;

/// Markets of an hour or longer use the longer cooldown.
pub const LONG_MARKET_SECS: u64 = 3600;

/// How order sizes are chosen, in share units and seconds.
#[derive(Clone, Copy, Debug, PartialEq, Eq, Structural)]
pub struct SizingParams {
    /// Fixed size per order; unset or zero means the per-market default.
    pub shares_override: Option<u32>,
    /// Size shrinks within this many seconds of the end; zero disables it.
    pub size_reduce_after_secs: u32,
    /// Share of the base size kept at the very end, in parts per million.
    pub size_min_ratio: u32,
    /// Size never shrinks below this.
    pub size_min_shares: u32,
}

/// Default size for a market by its upper-cased display name.
pub open spec fn default_shares_for_upper(u: Seq<char>) -> int {
    let hourly = has_infix(u, "1H"@) || has_infix(u, "1 H"@);
    if has_prefix(u, "BTC"@) && has_infix(u, "15"@) {
        2400
    } else if has_prefix(u, "ETH"@) && has_infix(u, "15"@) {
        1400
    } else if has_prefix(u, "BTC"@) && hourly {
        2600
    } else if has_prefix(u, "ETH"@) && hourly {
        1600
    } else {
        2400
    }
}

/// Base order size: the override when set and positive, else the default
/// for the market.
pub open spec fn base_shares(shares_override: Option<u32>, upper: Seq<char>) -> int {
    match shares_override {
        Some(s) if s > 0 => s as int,
        _ => default_shares_for_upper(upper),
    }
}

/// `n / d` rounded to the nearest integer, halves up.
pub open spec fn round_div(n: int, d: int) -> int {
    (2 * n + d) / (2 * d)
}

/// Order size from a base size: within the last `size_reduce_after_secs`
/// seconds the base is scaled by `min_ratio + (1 - min_ratio) * left / window`,
/// rounded to a share unit, and floored at `size_min_shares`.
pub open spec fn sized_for_time(p: SizingParams, base: int, time_remaining: int) -> int {
    let w = p.size_reduce_after_secs as int;
    let r = p.size_min_ratio as int;
    if w == 0 || time_remaining >= w {
        base
    } else {
        let scaled = round_div(base * (r * w + (RATIO_ONE - r) * time_remaining), RATIO_ONE * w);
        if scaled >= p.size_min_shares { scaled } else { p.size_min_shares as int }
    }
}

/// Base order size from an upper-cased market name.
pub fn base_shares_for_upper(shares_override: Option<u32>, upper: &str) -> (r: u32)
    ensures
        r == base_shares(shares_override, upper@),
{
    if let Some(s) = shares_override {
        if s > 0 {
            return s;
        }
    }
    let hourly = contains(upper, "1H") || contains(upper, "1 H");
    if starts_with(upper, "BTC") && contains(upper, "15") {
        2400
    } else if starts_with(upper, "ETH") && contains(upper, "15") {
        1400
    } else if starts_with(upper, "BTC") && hourly {
        2600
    } else if starts_with(upper, "ETH") && hourly {
        1600
    } else {
        2400
    }
}

/// Base order size for a market by its display name.
pub fn base_shares_for_market(shares_override: Option<u32>, market_name: &str) -> (r: u32)
    ensures
        r == base_shares(shares_override, upper_of(market_name@)),
{
    let upper = uppercase(market_name);
    base_shares_for_upper(shares_override, upper.as_str())
}

/// Order size from a base size and the seconds left; see `sized_for_time`.
pub fn size_for_time(p: &SizingParams, base: u32, time_remaining: u64) -> (r: u64)
    ensures
        r == sized_for_time(*p, base as int, time_remaining as int),
{
    let w = p.size_reduce_after_secs;
    if w == 0 || time_remaining >= w as u64 {
        return base as u64;
    }
    let t: u32 = time_remaining as u32;
    let r = p.size_min_ratio;
    let ghost wi = w as int;
    let ghost ri = r as int;
    let ghost ti = t as int;
    let ghost bi = base as int;
    proof {
        assert(ri * (wi - ti) <= 0xffff_ffff * 0xffff_ffff) by (nonlinear_arith)
            requires 0 <= ri <= 0xffff_ffff, 0 <= wi - ti <= 0xffff_ffff;
        assert(ri * wi + (RATIO_ONE - ri) * ti == ri * (wi - ti) + RATIO_ONE * ti)
            by (nonlinear_arith);
        assert(bi * (ri * (wi - ti) + RATIO_ONE * ti) <= 0xffff_ffff * (0xffff_ffff * 0xffff_ffff
            + 1_000_000 * 0xffff_ffff)) by (nonlinear_arith)
            requires
                0 <= bi <= 0xffff_ffff,
                0 <= ri * (wi - ti) <= 0xffff_ffff * 0xffff_ffff,
                0 <= ti <= 0xffff_ffff;
    }
    let factor: u128 = r as u128 * (w - t) as u128 + RATIO_ONE as u128 * t as u128;
    let num: u128 = base as u128 * factor;
    let den: u128 = RATIO_ONE as u128 * w as u128;
    let q: u128 = (2 * num + den) / (2 * den);
    proof {
        let qi = q as int;
        let ni = num as int;
        let di = den as int;
        assert(qi * (2 * di) <= 2 * ni + di) by (nonlinear_arith)
            requires qi == (2 * ni + di) / (2 * di), di > 0, ni >= 0;
        assert(factor <= (ri + RATIO_ONE) * wi) by (nonlinear_arith)
            requires factor == ri * (wi - ti) + RATIO_ONE * ti, 0 <= ti < wi, ri >= 0;
        assert(ni <= bi * (ri + RATIO_ONE) * wi) by (nonlinear_arith)
            requires ni == bi * factor, factor <= (ri + RATIO_ONE) * wi, bi >= 0;
        assert(qi * (2 * RATIO_ONE) <= 2 * bi * (ri + RATIO_ONE) + RATIO_ONE) by (nonlinear_arith)
            requires
                qi * (2 * di) <= 2 * ni + di,
                di == RATIO_ONE * wi,
                ni <= bi * (ri + RATIO_ONE) * wi,
                wi > 0, qi >= 0;
        assert(2 * bi * (ri + RATIO_ONE) + RATIO_ONE <= 2 * 0xffff_ffff * (0xffff_ffff
            + 1_000_000) + 1_000_000) by (nonlinear_arith)
            requires 0 <= bi <= 0xffff_ffff, 0 <= ri <= 0xffff_ffff;
        assert(qi <= 0xffff_ffff_ffff_ffff) by (nonlinear_arith)
            requires
                qi * (2 * RATIO_ONE) <= 2 * 0xffff_ffff * (0xffff_ffff + 1_000_000) + 1_000_000;
        assert(ni == bi * (ri * wi + (RATIO_ONE - ri) * ti));
    }
    let scaled: u64 = q as u64;
    if scaled >= p.size_min_shares as u64 {
        scaled
    } else {
        p.size_min_shares as u64
    }
}

/// Order size for a market at this point of its period.
pub fn shares_for_market_with_time(p: &SizingParams, market_name: &str, time_remaining: u64) -> (r: u64)
    ensures
        r == sized_for_time(
            *p,
            base_shares(p.shares_override, upper_of(market_name@)),
            time_remaining as int,
        ),
{
    let base = base_shares_for_market(p.shares_override, market_name);
    size_for_time(p, base, time_remaining)
}

/// Cooldown between buys: the long one for markets of an hour or more,
/// known by duration or by "1H" in the upper-cased name.
pub open spec fn cooldown_for(
    short_secs: u64,
    long_secs: u64,
    duration_secs: u64,
    upper: Seq<char>,
) -> u64 {
    if duration_secs >= LONG_MARKET_SECS || has_infix(upper, "1H"@) {
        long_secs
    } else {
        short_secs
    }
}

/// The cooldown for a market from its upper-cased name.
pub fn cooldown_for_upper(short_secs: u64, long_secs: u64, duration_secs: u64, upper: &str) -> (r: u64)
    ensures
        r == cooldown_for(short_secs, long_secs, duration_secs, upper@),
{
    if duration_secs >= LONG_MARKET_SECS || contains(upper, "1H") {
        long_secs
    } else {
        short_secs
    }
}

/// The cooldown for a market by its display name.
pub fn cooldown_for_market(short_secs: u64, long_secs: u64, duration_secs: u64, market_name: &str) -> (r: u64)
    ensures
        r == cooldown_for(short_secs, long_secs, duration_secs, upper_of(market_name@)),
{
    let upper = uppercase(market_name);
    cooldown_for_upper(short_secs, long_secs, duration_secs, upper.as_str())
}

} // verus!
