//! Command-line options and settings with their defaults.
use vstd::prelude::*;

verus! {

/// Command-line options.
#[derive(Debug)]
pub struct Args {
    pub simulation: bool,
    pub production: bool,
    /// Path of the configuration file.
    pub config: String,
    pub redeem: bool,
    pub condition_id: Option<String>,
}

impl Args {
    /// Simulation unless production is asked for.
    pub fn is_simulation(&self) -> (r: bool)
        ensures
            r == (!self.production && self.simulation),
    {
        if self.production {
            false
        } else {
            self.simulation
        }
    }
}

/// Venue endpoints and credentials.
#[derive(Debug)]
pub struct PolymarketConfig {
    pub gamma_api_url: String,
    pub clob_api_url: String,
    pub api_key: Option<String>,
    pub api_secret: Option<String>,
    pub api_passphrase: Option<String>,
    pub private_key: Option<String>,
    pub proxy_wallet_address: Option<String>,
    pub signature_type: Option<u8>,
}

/// Trading settings. Prices are in price units (micro-dollars), sizes in
/// share units (hundredths of a share), ratios in parts per million.
#[derive(Debug)]
pub struct TradingConfig {
    pub check_interval_ms: u64,
    pub market_closure_check_interval_seconds: u64,
    pub data_source: String,
    pub markets: Vec<String>,
    /// Timeframes to trade, such as "15m" and "1h".
    pub timeframes: Vec<String>,
    /// Highest cost per pair at which a buy locks.
    pub cost_per_pair_max: u32,
    /// No side is bought below this ask.
    pub min_side_price: u32,
    /// No side is bought above this ask.
    pub max_side_price: u32,
    /// Least seconds between buys of one market; zero for none.
    pub cooldown_seconds: u64,
    /// Least seconds between buys of one hourly market.
    pub cooldown_seconds_1h: u64,
    /// Order size; unset or zero means the per-market default.
    pub shares: Option<u32>,
    /// Order size shrinks within this many seconds of the end.
    pub size_reduce_after_secs: u32,
    /// Share of the size kept at the very end.
    pub size_min_ratio: u32,
    /// Least order size while shrinking.
    pub size_min_shares: u32,
}

/// Venue settings and trading settings.
#[derive(Debug)]
pub struct Config {
    pub polymarket: PolymarketConfig,
    pub trading: TradingConfig,
}

pub fn default_market_closure_check_interval() -> (r: u64)
    ensures
        r == 20,
{
    20
}

pub fn default_data_source() -> (r: String)
    ensures
        r@ == "api"@,
{
    String::from_str("api")
}

pub fn default_markets() -> (r: Vec<String>)
    ensures
        r@.len() == 1,
        r@[0]@ == "btc"@,
{
    let mut v: Vec<String> = Vec::new();
    v.push(String::from_str("btc"));
    v
}

pub fn default_timeframes() -> (r: Vec<String>)
    ensures
        r@.len() == 2,
        r@[0]@ == "15m"@,
        r@[1]@ == "1h"@,
{
    let mut v: Vec<String> = Vec::new();
    v.push(String::from_str("15m"));
    v.push(String::from_str("1h"));
    v
}

/// $1.01.
pub fn default_cost_per_pair_max() -> (r: u32)
    ensures
        r == 1_010_000,
{
    1_010_000
}

/// $0.05.
pub fn default_min_side_price() -> (r: u32)
    ensures
        r == 50_000,
{
    50_000
}

/// $0.99.
pub fn default_max_side_price() -> (r: u32)
    ensures
        r == 990_000,
{
    990_000
}

pub fn default_cooldown_seconds() -> (r: u64)
    ensures
        r == 0,
{
    0
}

pub fn default_cooldown_seconds_1h() -> (r: u64)
    ensures
        r == 45,
{
    45
}

pub fn default_size_reduce_after_secs() -> (r: u32)
    ensures
        r == 300,
{
    300
}

/// One half.
pub fn default_size_min_ratio() -> (r: u32)
    ensures
        r == 500_000,
{
    500_000
}

/// Five shares.
pub fn default_size_min_shares() -> (r: u32)
    ensures
        r == 500,
{
    500
}

impl Config {
    /// The settings written out when no configuration file exists.
    pub open spec fn is_default(&self) -> bool {
        let p = &self.polymarket;
        let t = &self.trading;
        &&& p.gamma_api_url@ == "https://gamma-api.polymarket.com"@
        &&& p.clob_api_url@ == "https://clob.polymarket.com"@
        &&& p.api_key is None
        &&& p.api_secret is None
        &&& p.api_passphrase is None
        &&& p.private_key is None
        &&& p.proxy_wallet_address is None
        &&& p.signature_type is None
        &&& t.check_interval_ms == 1000
        &&& t.market_closure_check_interval_seconds == 20
        &&& t.data_source@ == "api"@
        &&& t.markets@.len() == 1
        &&& t.markets@[0]@ == "btc"@
        &&& t.timeframes@.len() == 2
        &&& t.timeframes@[0]@ == "15m"@
        &&& t.timeframes@[1]@ == "1h"@
        &&& t.cost_per_pair_max == 1_010_000
        &&& t.min_side_price == 50_000
        &&& t.max_side_price == 990_000
        &&& t.cooldown_seconds == 0
        &&& t.cooldown_seconds_1h == 45
        &&& t.shares is None
        &&& t.size_reduce_after_secs == 300
        &&& t.size_min_ratio == 500_000
        &&& t.size_min_shares == 500
    }
}

impl Default for Config {
    fn default() -> (r: Self)
        ensures
            r.is_default(),
    {
        Config {
            polymarket: PolymarketConfig {
                gamma_api_url: String::from_str("https://gamma-api.polymarket.com"),
                clob_api_url: String::from_str("https://clob.polymarket.com"),
                api_key: None,
                api_secret: None,
                api_passphrase: None,
                private_key: None,
                proxy_wallet_address: None,
                signature_type: None,
            },
            trading: TradingConfig {
                check_interval_ms: 1000,
                market_closure_check_interval_seconds: 20,
                data_source: String::from_str("api"),
                markets: default_markets(),
                timeframes: default_timeframes(),
                cost_per_pair_max: default_cost_per_pair_max(),
                min_side_price: default_min_side_price(),
                max_side_price: default_max_side_price(),
                cooldown_seconds: default_cooldown_seconds(),
                cooldown_seconds_1h: default_cooldown_seconds_1h(),
                shares: None,
                size_reduce_after_secs: default_size_reduce_after_secs(),
                size_min_ratio: default_size_min_ratio(),
                size_min_shares: default_size_min_shares(),
            },
        }
    }
}

} // verus!
