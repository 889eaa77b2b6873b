//! The buy/abstain decision for one snapshot, as named rules in priority order.
use vstd::prelude::*;
use crate::position::{Holdings, Side};
use crate::trend::Trend;
use crate::wave::{
    is_flat_like, WaveState, MAX_FLAT_BUYS_NO_POSITION, MAX_REBALANCE_BUYS,
    MAX_RISING_BUYS_NO_POSITION, MAX_RISING_BUYS_PER_WAVE,
};

verus! {

/// Looser cost-per-pair ceiling for riding a winner or rebalancing: $1.02.
pub const REBALANCE_COST_PER_PAIR_MAX: u32 = 1_020_000;

/// Best asks of both sides, in price units.
#[derive(Clone, Copy, Debug, PartialEq, Eq, Structural)]
pub struct Quote {
    pub up_ask: u32,
    pub down_ask: u32,
}

impl Quote {
    pub open spec fn ask(self, side: Side) -> int {
        match side {
            Side::Up => self.up_ask as int,
            Side::Down => self.down_ask as int,
        }
    }

    pub fn ask_of(&self, side: Side) -> (r: u32)
        ensures
            r == self.ask(side),
    {
        match side {
            Side::Up => self.up_ask,
            Side::Down => self.down_ask,
        }
    }
}

/// The configured price band and lock ceiling, in price units.
#[derive(Clone, Copy, Debug, PartialEq, Eq, Structural)]
pub struct DecisionParams {
    pub cost_per_pair_max: u32,
    pub min_side_price: u32,
    pub max_side_price: u32,
}

/// Everything one decision reads.
#[derive(Clone, Copy, Debug, PartialEq, Eq, Structural)]
pub struct DecisionInput {
    pub holdings: Holdings,
    pub quote: Quote,
    pub trend: Trend,
    pub wave: WaveState,
    pub params: DecisionParams,
    /// Order size for this snapshot, in share units.
    pub size: u64,
    pub time_remaining: u64,
}

/// What to do with one snapshot.
#[derive(Clone, Copy, Debug, PartialEq, Eq, Structural)]
pub enum Decision {
    Abstain,
    Buy { side: Side, is_lock: bool },
}

pub open spec fn rising(side: Side) -> Trend {
    match side {
        Side::Up => Trend::UpRising,
        Side::Down => Trend::DownRising,
    }
}

pub open spec fn buy(side: Side) -> Option<Decision> {
    Some(Decision::Buy { side, is_lock: false })
}

pub open spec fn first_of(a: Option<Decision>, b: Option<Decision>) -> Option<Decision> {
    if a is Some { a } else { b }
}

impl DecisionInput {
    /// A side may be bought when its ask lies in the configured band and the
    /// buy fits within the position's capacity.
    pub open spec fn eligible(self, side: Side) -> bool {
        &&& self.params.min_side_price <= self.quote.ask(side) <= self.params.max_side_price
        &&& self.holdings.fits(side, self.size as int)
    }

    /// Buying `side` now would give a cost per pair of at most `limit`.
    pub open spec fn pair_cost_within(self, side: Side, limit: int) -> bool {
        &&& self.holdings.fits(side, self.size as int)
        &&& self.holdings.cost_per_pair(side, self.size as int, self.quote.ask(side)) matches Some(c)
        &&& c <= limit
    }

    /// Buying `side` now would lock: the other side is held and the cost
    /// per pair would be within the configured maximum.
    pub open spec fn can_lock(self, side: Side) -> bool {
        self.holdings.shares(side.other()) > 0
            && self.pair_cost_within(side, self.params.cost_per_pair_max as int)
    }

    pub open spec fn pnl_worse(self, side: Side) -> bool {
        self.holdings.pnl_if_wins(side) < self.holdings.pnl_if_wins(side.other())
    }

    /// Nothing held: follow a rising side a couple of times, or on a flat or
    /// falling market buy the higher-priced eligible side (Up on a tie).
    pub open spec fn no_position_rule(self) -> Option<Decision> {
        if self.trend == Trend::UpRising && self.eligible(Side::Up)
            && self.wave.buys_up_since_lock < MAX_RISING_BUYS_NO_POSITION {
            buy(Side::Up)
        } else if self.trend == Trend::DownRising && self.eligible(Side::Down)
            && self.wave.buys_down_since_lock < MAX_RISING_BUYS_NO_POSITION {
            buy(Side::Down)
        } else if is_flat_like(self.trend) && self.wave.flat_buys_since_lock
            < MAX_FLAT_BUYS_NO_POSITION {
            if self.quote.up_ask >= self.quote.down_ask && self.eligible(Side::Up) {
                buy(Side::Up)
            } else if self.eligible(Side::Down) {
                buy(Side::Down)
            } else {
                None
            }
        } else {
            None
        }
    }

    /// Only `held` is held: lock with the other side when affordable; else
    /// expand into the other side when it is rising and its outcome is
    /// worse; else keep buying `held` while it rises.
    pub open spec fn one_sided_rule(self, held: Side) -> Option<Decision> {
        let other = held.other();
        if self.can_lock(other) && self.eligible(other) {
            Some(Decision::Buy { side: other, is_lock: true })
        } else if !self.can_lock(other) && self.trend == rising(other) && self.pnl_worse(other)
            && self.eligible(other) && self.wave.count(other) < MAX_REBALANCE_BUYS {
            buy(other)
        } else if self.trend == rising(held) && self.eligible(held) && self.wave.count(held)
            < MAX_RISING_BUYS_PER_WAVE {
            buy(held)
        } else {
            None
        }
    }

    /// Both held: lock with the underweight side when affordable.
    pub open spec fn lock_rule(self, side: Side) -> Option<Decision> {
        if self.holdings.shares(side.other()) > self.holdings.shares(side) && self.can_lock(side)
            && self.eligible(side) {
            Some(Decision::Buy { side, is_lock: true })
        } else {
            None
        }
    }

    /// Both held: buy a rising side that cannot lock while its outcome is
    /// the worse one.
    pub open spec fn expansion_rule(self, side: Side) -> Option<Decision> {
        if self.trend == rising(side) && !self.can_lock(side) && self.pnl_worse(side)
            && self.eligible(side) && self.wave.count(side) < MAX_REBALANCE_BUYS {
            buy(side)
        } else {
            None
        }
    }

    /// Both held: ride a rising side while its cost per pair stays within
    /// the looser ceiling.
    pub open spec fn ride_winner_rule(self, side: Side) -> Option<Decision> {
        if self.trend == rising(side) && self.eligible(side)
            && self.pair_cost_within(side, REBALANCE_COST_PER_PAIR_MAX as int)
            && self.wave.count(side) < MAX_REBALANCE_BUYS {
            buy(side)
        } else {
            None
        }
    }

    /// Both held: buy a side whose outcome is a loss and the worse one,
    /// unless the market is flat or the other side is rising.
    pub open spec fn rebalance_rule(self, side: Side) -> Option<Decision> {
        if self.trend != Trend::Flat && self.holdings.pnl_if_wins(side) < 0 && self.pnl_worse(side)
            && self.trend != rising(side.other()) && self.eligible(side)
            && self.pair_cost_within(side, REBALANCE_COST_PER_PAIR_MAX as int)
            && self.wave.count(side) < MAX_REBALANCE_BUYS {
            buy(side)
        } else {
            None
        }
    }

    /// Both held: when the other side's price falls, buy this side.
    pub open spec fn continuation_rule(self, side: Side) -> Option<Decision> {
        let falling_other = match side {
            Side::Up => Trend::DownFalling,
            Side::Down => Trend::UpFalling,
        };
        if self.trend == falling_other && self.eligible(side) && self.wave.count(side)
            < MAX_RISING_BUYS_PER_WAVE {
            buy(side)
        } else {
            None
        }
    }

    /// Both held: the rules in priority order; the first that applies wins.
    pub open spec fn two_sided_rule(self) -> Option<Decision> {
        first_of(self.lock_rule(Side::Down),
        first_of(self.lock_rule(Side::Up),
        first_of(self.expansion_rule(Side::Down),
        first_of(self.expansion_rule(Side::Up),
        first_of(self.ride_winner_rule(Side::Up),
        first_of(self.ride_winner_rule(Side::Down),
        first_of(self.rebalance_rule(Side::Down),
        first_of(self.rebalance_rule(Side::Up),
        first_of(self.continuation_rule(Side::Up),
        self.continuation_rule(Side::Down))))))))))
    }

    /// The decision for one snapshot.
    pub open spec fn decision(self) -> Decision {
        let h = self.holdings;
        let rule = if self.time_remaining == 0 || self.quote.up_ask == 0
            || self.quote.down_ask == 0 {
            None
        } else if !self.eligible(Side::Up) && !self.eligible(Side::Down) {
            None
        } else if h.up_shares == 0 && h.down_shares == 0 {
            self.no_position_rule()
        } else if h.up_shares == 0 {
            self.one_sided_rule(Side::Down)
        } else if h.down_shares == 0 {
            self.one_sided_rule(Side::Up)
        } else {
            self.two_sided_rule()
        };
        match rule {
            Some(d) => d,
            None => Decision::Abstain,
        }
    }
}

} // verus!

verus! {

fn rising_of(side: Side) -> (t: Trend)
    ensures
        t == rising(side),
{
    match side {
        Side::Up => Trend::UpRising,
        Side::Down => Trend::DownRising,
    }
}

impl DecisionInput {
    pub fn is_eligible(&self, side: Side) -> (r: bool)
        requires
            self.holdings.wf(),
        ensures
            r == self.eligible(side),
    {
        let ask = self.quote.ask_of(side);
        self.params.min_side_price <= ask && ask <= self.params.max_side_price
            && self.holdings.can_fit(side, self.size)
    }

    pub fn is_pair_cost_within(&self, side: Side, limit: u32) -> (r: bool)
        requires
            self.holdings.wf(),
        ensures
            r == self.pair_cost_within(side, limit as int),
    {
        if !self.holdings.can_fit(side, self.size) {
            return false;
        }
        match self.holdings.pair_cost_after(side, self.size, self.quote.ask_of(side)) {
            Some(c) => c <= limit as u128,
            None => false,
        }
    }

    pub fn is_lockable(&self, side: Side) -> (r: bool)
        requires
            self.holdings.wf(),
        ensures
            r == self.can_lock(side),
    {
        self.holdings.shares_of(side.opposite()) > 0
            && self.is_pair_cost_within(side, self.params.cost_per_pair_max)
    }

    pub fn is_pnl_worse(&self, side: Side) -> (r: bool)
        requires
            self.holdings.wf(),
        ensures
            r == self.pnl_worse(side),
    {
        self.holdings.pnl_if(side) < self.holdings.pnl_if(side.opposite())
    }

    pub fn apply_no_position_rule(&self) -> (r: Option<Decision>)
        requires
            self.holdings.wf(),
        ensures
            r == self.no_position_rule(),
    {
        if self.trend == Trend::UpRising && self.is_eligible(Side::Up)
            && self.wave.buys_up_since_lock < MAX_RISING_BUYS_NO_POSITION {
            Some(Decision::Buy { side: Side::Up, is_lock: false })
        } else if self.trend == Trend::DownRising && self.is_eligible(Side::Down)
            && self.wave.buys_down_since_lock < MAX_RISING_BUYS_NO_POSITION {
            Some(Decision::Buy { side: Side::Down, is_lock: false })
        } else if (self.trend == Trend::Flat || self.trend == Trend::UpFalling || self.trend
            == Trend::DownFalling) && self.wave.flat_buys_since_lock < MAX_FLAT_BUYS_NO_POSITION {
            if self.quote.up_ask >= self.quote.down_ask && self.is_eligible(Side::Up) {
                Some(Decision::Buy { side: Side::Up, is_lock: false })
            } else if self.is_eligible(Side::Down) {
                Some(Decision::Buy { side: Side::Down, is_lock: false })
            } else {
                None
            }
        } else {
            None
        }
    }

    pub fn apply_one_sided_rule(&self, held: Side) -> (r: Option<Decision>)
        requires
            self.holdings.wf(),
        ensures
            r == self.one_sided_rule(held),
    {
        let other = held.opposite();
        let lockable = self.is_lockable(other);
        if lockable && self.is_eligible(other) {
            Some(Decision::Buy { side: other, is_lock: true })
        } else if !lockable && self.trend == rising_of(other) && self.is_pnl_worse(other)
            && self.is_eligible(other) && self.wave.count_of(other) < MAX_REBALANCE_BUYS {
            Some(Decision::Buy { side: other, is_lock: false })
        } else if self.trend == rising_of(held) && self.is_eligible(held) && self.wave.count_of(
            held,
        ) < MAX_RISING_BUYS_PER_WAVE {
            Some(Decision::Buy { side: held, is_lock: false })
        } else {
            None
        }
    }

    pub fn apply_lock_rule(&self, side: Side) -> (r: Option<Decision>)
        requires
            self.holdings.wf(),
        ensures
            r == self.lock_rule(side),
    {
        if self.holdings.shares_of(side.opposite()) > self.holdings.shares_of(side)
            && self.is_lockable(side) && self.is_eligible(side) {
            Some(Decision::Buy { side, is_lock: true })
        } else {
            None
        }
    }

    pub fn apply_expansion_rule(&self, side: Side) -> (r: Option<Decision>)
        requires
            self.holdings.wf(),
        ensures
            r == self.expansion_rule(side),
    {
        if self.trend == rising_of(side) && !self.is_lockable(side) && self.is_pnl_worse(side)
            && self.is_eligible(side) && self.wave.count_of(side) < MAX_REBALANCE_BUYS {
            Some(Decision::Buy { side, is_lock: false })
        } else {
            None
        }
    }

    pub fn apply_ride_winner_rule(&self, side: Side) -> (r: Option<Decision>)
        requires
            self.holdings.wf(),
        ensures
            r == self.ride_winner_rule(side),
    {
        if self.trend == rising_of(side) && self.is_eligible(side) && self.is_pair_cost_within(
            side,
            REBALANCE_COST_PER_PAIR_MAX,
        ) && self.wave.count_of(side) < MAX_REBALANCE_BUYS {
            Some(Decision::Buy { side, is_lock: false })
        } else {
            None
        }
    }

    pub fn apply_rebalance_rule(&self, side: Side) -> (r: Option<Decision>)
        requires
            self.holdings.wf(),
        ensures
            r == self.rebalance_rule(side),
    {
        if self.trend != Trend::Flat && self.holdings.pnl_if(side) < 0 && self.is_pnl_worse(side)
            && self.trend != rising_of(side.opposite()) && self.is_eligible(side)
            && self.is_pair_cost_within(side, REBALANCE_COST_PER_PAIR_MAX) && self.wave.count_of(
            side,
        ) < MAX_REBALANCE_BUYS {
            Some(Decision::Buy { side, is_lock: false })
        } else {
            None
        }
    }

    pub fn apply_continuation_rule(&self, side: Side) -> (r: Option<Decision>)
        requires
            self.holdings.wf(),
        ensures
            r == self.continuation_rule(side),
    {
        let falling_other = match side {
            Side::Up => Trend::DownFalling,
            Side::Down => Trend::UpFalling,
        };
        if self.trend == falling_other && self.is_eligible(side) && self.wave.count_of(side)
            < MAX_RISING_BUYS_PER_WAVE {
            Some(Decision::Buy { side, is_lock: false })
        } else {
            None
        }
    }

    pub fn apply_two_sided_rule(&self) -> (r: Option<Decision>)
        requires
            self.holdings.wf(),
        ensures
            r == self.two_sided_rule(),
    {
        let r = self.apply_lock_rule(Side::Down);
        if r.is_some() {
            return r;
        }
        let r = self.apply_lock_rule(Side::Up);
        if r.is_some() {
            return r;
        }
        let r = self.apply_expansion_rule(Side::Down);
        if r.is_some() {
            return r;
        }
        let r = self.apply_expansion_rule(Side::Up);
        if r.is_some() {
            return r;
        }
        let r = self.apply_ride_winner_rule(Side::Up);
        if r.is_some() {
            return r;
        }
        let r = self.apply_ride_winner_rule(Side::Down);
        if r.is_some() {
            return r;
        }
        let r = self.apply_rebalance_rule(Side::Down);
        if r.is_some() {
            return r;
        }
        let r = self.apply_rebalance_rule(Side::Up);
        if r.is_some() {
            return r;
        }
        let r = self.apply_continuation_rule(Side::Up);
        if r.is_some() {
            return r;
        }
        self.apply_continuation_rule(Side::Down)
    }

    /// Decides what to do with one snapshot.
    pub fn decide(&self) -> (d: Decision)
        requires
            self.holdings.wf(),
        ensures
            d == self.decision(),
            self.time_remaining == 0 ==> d == Decision::Abstain,
    {
        let h = &self.holdings;
        let rule = if self.time_remaining == 0 || self.quote.up_ask == 0 || self.quote.down_ask
            == 0 {
            None
        } else if !self.is_eligible(Side::Up) && !self.is_eligible(Side::Down) {
            None
        } else if h.up_shares == 0 && h.down_shares == 0 {
            self.apply_no_position_rule()
        } else if h.up_shares == 0 {
            self.apply_one_sided_rule(Side::Down)
        } else if h.down_shares == 0 {
            self.apply_one_sided_rule(Side::Up)
        } else {
            self.apply_two_sided_rule()
        };
        match rule {
            Some(d) => d,
            None => Decision::Abstain,
        }
    }
}

} // verus!
