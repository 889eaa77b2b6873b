//! Market keys, snapshots and ledger entries.
use vstd::prelude::*;
use crate::position::{Holdings, Side};
use crate::table::TableKey;

verus! {

/// One trading cycle of one market: its condition id and period start.
#[derive(Debug)]
pub struct MarketKey {
    pub condition_id: String,
    pub period_timestamp: u64,
}

impl View for MarketKey {
    type V = (Seq<char>, u64);

    open spec fn view(&self) -> (Seq<char>, u64) {
        (self.condition_id@, self.period_timestamp)
    }
}

impl TableKey for MarketKey {
    fn same(&self, other: &Self) -> (r: bool) {
        self.period_timestamp == other.period_timestamp && self.condition_id == other.condition_id
    }

    fn duplicate(&self) -> (r: Self) {
        MarketKey { condition_id: self.condition_id.clone(), period_timestamp: self.period_timestamp }
    }
}

impl MarketKey {
    pub fn new(condition_id: &String, period_timestamp: u64) -> (k: MarketKey)
        ensures
            k@ == (condition_id@, period_timestamp),
    {
        MarketKey { condition_id: condition_id.clone(), period_timestamp }
    }
}

pub open spec fn opt_view(o: Option<String>) -> Option<Seq<char>> {
    match o {
        Some(s) => Some(s@),
        None => None,
    }
}

pub fn clone_opt(o: &Option<String>) -> (r: Option<String>)
    ensures
        opt_view(r) == opt_view(*o),
{
    match o {
        Some(s) => Some(s.clone()),
        None => None,
    }
}

/// One observation of a market, as handed over by the snapshot producer.
/// An ask is absent where the book has no liquidity.
#[derive(Debug)]
pub struct MarketSnapshot {
    pub market_name: String,
    pub condition_id: String,
    pub period_timestamp: u64,
    pub up_token_id: Option<String>,
    pub down_token_id: Option<String>,
    pub up_ask: Option<u32>,
    pub down_ask: Option<u32>,
    pub time_remaining: u64,
    pub market_duration_secs: u64,
}

impl MarketSnapshot {
    pub open spec fn key(&self) -> (Seq<char>, u64) {
        (self.condition_id@, self.period_timestamp)
    }

    pub open spec fn token(&self, side: Side) -> Option<Seq<char>> {
        match side {
            Side::Up => opt_view(self.up_token_id),
            Side::Down => opt_view(self.down_token_id),
        }
    }

    /// The ask of a side, zero where it is absent.
    pub open spec fn ask(&self, side: Side) -> u32 {
        let a = match side {
            Side::Up => self.up_ask,
            Side::Down => self.down_ask,
        };
        match a {
            Some(p) => p,
            None => 0,
        }
    }
}

/// What the ledger keeps of one trading cycle, as plain values.
pub struct CycleTradeView {
    pub condition_id: Seq<char>,
    pub period_timestamp: u64,
    pub market_duration_secs: u64,
    pub up_token_id: Option<Seq<char>>,
    pub down_token_id: Option<Seq<char>>,
    pub holdings: Holdings,
}

/// The ledger entry of one trading cycle.
#[derive(Debug)]
pub struct CycleTrade {
    pub condition_id: String,
    pub period_timestamp: u64,
    pub market_duration_secs: u64,
    pub up_token_id: Option<String>,
    pub down_token_id: Option<String>,
    pub holdings: Holdings,
}

impl View for CycleTrade {
    type V = CycleTradeView;

    open spec fn view(&self) -> CycleTradeView {
        CycleTradeView {
            condition_id: self.condition_id@,
            period_timestamp: self.period_timestamp,
            market_duration_secs: self.market_duration_secs,
            up_token_id: opt_view(self.up_token_id),
            down_token_id: opt_view(self.down_token_id),
            holdings: self.holdings,
        }
    }
}

impl CycleTradeView {
    pub open spec fn token(self, side: Side) -> Option<Seq<char>> {
        match side {
            Side::Up => self.up_token_id,
            Side::Down => self.down_token_id,
        }
    }

    /// The entry after a recorded buy of `side`: shares and cost grow and
    /// the side's token id becomes the one bought.
    pub open spec fn after_buy(self, side: Side, token: Seq<char>, size: int, price: int) -> CycleTradeView {
        let h = self.holdings.after_buy(side, size, price);
        match side {
            Side::Up => CycleTradeView { up_token_id: Some(token), holdings: h, ..self },
            Side::Down => CycleTradeView { down_token_id: Some(token), holdings: h, ..self },
        }
    }
}

/// A fresh ledger entry with nothing held.
pub open spec fn fresh_trade(key: (Seq<char>, u64), duration: u64) -> CycleTradeView {
    CycleTradeView {
        condition_id: key.0,
        period_timestamp: key.1,
        market_duration_secs: duration,
        up_token_id: None,
        down_token_id: None,
        holdings: Holdings { up_shares: 0, down_shares: 0, up_cost: 0, down_cost: 0 },
    }
}

impl CycleTrade {
    pub fn new(condition_id: &String, period_timestamp: u64, market_duration_secs: u64) -> (t: CycleTrade)
        ensures
            t@ == fresh_trade((condition_id@, period_timestamp), market_duration_secs),
            t.holdings.wf(),
    {
        CycleTrade {
            condition_id: condition_id.clone(),
            period_timestamp,
            market_duration_secs,
            up_token_id: None,
            down_token_id: None,
            holdings: Holdings::empty(),
        }
    }

    pub fn record_buy(&mut self, side: Side, token: String, size: u64, price: u32)
        requires
            old(self).holdings.wf(),
            old(self).holdings.fits(side, size as int),
        ensures
            final(self).holdings.wf(),
            final(self)@ == old(self)@.after_buy(side, token@, size as int, price as int),
    {
        self.holdings.record_buy(side, size, price);
        match side {
            Side::Up => self.up_token_id = Some(token),
            Side::Down => self.down_token_id = Some(token),
        }
    }
}

} // verus!
