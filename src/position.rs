//! Holdings of one market and the cost of matched pairs.
use vstd::prelude::*;
use crate::units::COST_PER_SHARE_DOLLAR;

verus! {

/// Most share units a position may hold on one side.
pub const MAX_POSITION_SHARES: u64 = 1_099_511_627_776;

/// Highest price a `u32` can carry, as an integer.
pub open spec fn max_price() -> int {
    u32::MAX as int
}

/// One of the two outcomes of a market.
#[derive(Clone, Copy, Debug, PartialEq, Eq, Structural)]
pub enum Side {
    Up,
    Down,
}

impl Side {
    pub open spec fn other(self) -> Side {
        match self {
            Side::Up => Side::Down,
            Side::Down => Side::Up,
        }
    }

    pub fn opposite(self) -> (r: Side)
        ensures
            r == self.other(),
    {
        match self {
            Side::Up => Side::Down,
            Side::Down => Side::Up,
        }
    }
}

/// Shares held on each side and what they cost in total.
///
/// Keeping the total cost rather than an average makes the average price
/// of a side exactly the cost-weighted mean of every buy on that side.
#[derive(Clone, Copy, Debug, PartialEq, Eq, Structural)]
pub struct Holdings {
    pub up_shares: u64,
    pub down_shares: u64,
    pub up_cost: u128,
    pub down_cost: u128,
}

pub open spec fn min_int(a: int, b: int) -> int {
    if a <= b { a } else { b }
}

proof fn lemma_mul_le(a: int, b: int, c: int, d: int)
    requires
        0 <= a <= c,
        0 <= b <= d,
    ensures
        0 <= a * b <= c * d,
{
    assert(0 <= a * b <= c * d) by (nonlinear_arith)
        requires 0 <= a <= c, 0 <= b <= d;
}

impl Holdings {
    pub open spec fn shares(self, side: Side) -> int {
        match side {
            Side::Up => self.up_shares as int,
            Side::Down => self.down_shares as int,
        }
    }

    pub open spec fn cost(self, side: Side) -> int {
        match side {
            Side::Up => self.up_cost as int,
            Side::Down => self.down_cost as int,
        }
    }

    pub open spec fn total_cost(self) -> int {
        self.up_cost + self.down_cost
    }

    /// Each side within capacity, and bought at no more than the highest price.
    pub open spec fn wf(self) -> bool {
        &&& self.up_shares <= MAX_POSITION_SHARES
        &&& self.down_shares <= MAX_POSITION_SHARES
        &&& self.up_cost <= self.up_shares * max_price()
        &&& self.down_cost <= self.down_shares * max_price()
    }

    pub open spec fn is_flat(self) -> bool {
        self.up_shares == 0 && self.down_shares == 0
    }

    /// Profit if `side` wins: its shares pay a dollar each, less everything paid.
    pub open spec fn pnl_if_wins(self, side: Side) -> int {
        self.shares(side) * COST_PER_SHARE_DOLLAR - self.total_cost()
    }

    /// Average price of a side, rounded down; zero where nothing is held.
    pub open spec fn avg_price(self, side: Side) -> int {
        if self.shares(side) == 0 {
            0
        } else {
            self.cost(side) / self.shares(side)
        }
    }

    /// The holdings after buying `size` share units of `side` at `price`.
    pub open spec fn after_buy(self, side: Side, size: int, price: int) -> Holdings {
        match side {
            Side::Up => Holdings {
                up_shares: (self.up_shares + size) as u64,
                up_cost: (self.up_cost + size * price) as u128,
                ..self
            },
            Side::Down => Holdings {
                down_shares: (self.down_shares + size) as u64,
                down_cost: (self.down_cost + size * price) as u128,
                ..self
            },
        }
    }

    /// Whether a buy of `size` units of `side` fits within capacity.
    pub open spec fn fits(self, side: Side, size: int) -> bool {
        self.shares(side) + size <= MAX_POSITION_SHARES
    }

    /// Cost per matched Up+Down pair after a hypothetical buy, in price
    /// units and rounded down; `None` when the buy would leave no pair.
    ///
    /// Where the other side would still hold at least as many shares as the
    /// buying side, only the paired slice of the other side's cost counts
    /// (the pairs times its average price); otherwise both whole costs do.
    pub open spec fn cost_per_pair(self, side: Side, size: int, price: int) -> Option<int> {
        let mine = self.shares(side) + size;
        let mine_cost = self.cost(side) + size * price;
        let other = self.shares(side.other());
        let other_cost = self.cost(side.other());
        let pairs = min_int(mine, other);
        if pairs <= 0 {
            None
        } else if other >= mine {
            Some((pairs * other_cost + mine_cost * other) / (pairs * other))
        } else {
            Some((mine_cost + other_cost) / pairs)
        }
    }

    pub fn empty() -> (h: Holdings)
        ensures
            h.wf(),
            h.is_flat(),
            h.total_cost() == 0,
    {
        Holdings { up_shares: 0, down_shares: 0, up_cost: 0, down_cost: 0 }
    }

    pub fn shares_of(&self, side: Side) -> (r: u64)
        ensures
            r == self.shares(side),
    {
        match side {
            Side::Up => self.up_shares,
            Side::Down => self.down_shares,
        }
    }

    pub fn cost_of(&self, side: Side) -> (r: u128)
        ensures
            r == self.cost(side),
    {
        match side {
            Side::Up => self.up_cost,
            Side::Down => self.down_cost,
        }
    }

    pub fn can_fit(&self, side: Side, size: u64) -> (r: bool)
        requires
            self.wf(),
        ensures
            r == self.fits(side, size as int),
    {
        let held = self.shares_of(side);
        size <= MAX_POSITION_SHARES - held
    }

    /// Average price of a side, rounded down.
    pub fn average_price(&self, side: Side) -> (r: u128)
        ensures
            r == self.avg_price(side),
    {
        let s = self.shares_of(side);
        if s == 0 {
            0
        } else {
            self.cost_of(side) / (s as u128)
        }
    }

    /// Profit if `side` wins, in cost units.
    pub fn pnl_if(&self, side: Side) -> (r: i128)
        requires
            self.wf(),
        ensures
            r == self.pnl_if_wins(side),
    {
        proof {
            lemma_mul_le(self.up_shares as int, max_price(), MAX_POSITION_SHARES as int, max_price());
            lemma_mul_le(self.down_shares as int, max_price(), MAX_POSITION_SHARES as int, max_price());
            lemma_mul_le(self.shares(side), COST_PER_SHARE_DOLLAR as int, MAX_POSITION_SHARES as int, COST_PER_SHARE_DOLLAR as int);
        }
        let payout: i128 = self.shares_of(side) as i128 * COST_PER_SHARE_DOLLAR as i128;
        payout - (self.up_cost as i128 + self.down_cost as i128)
    }

    /// Records a buy of `size` share units of `side` at `price`.
    pub fn record_buy(&mut self, side: Side, size: u64, price: u32)
        requires
            old(self).wf(),
            old(self).fits(side, size as int),
        ensures
            final(self).wf(),
            *final(self) == old(self).after_buy(side, size as int, price as int),
    {
        proof {
            lemma_mul_le(size as int, price as int, size as int, max_price());
            lemma_mul_le(self.shares(side) + size, max_price(), MAX_POSITION_SHARES as int, max_price());
            assert((self.shares(side) + size) * max_price() == self.shares(side) * max_price() + size * max_price())
                by (nonlinear_arith);
        }
        let added: u128 = size as u128 * price as u128;
        match side {
            Side::Up => {
                self.up_shares = self.up_shares + size;
                self.up_cost = self.up_cost + added;
            },
            Side::Down => {
                self.down_shares = self.down_shares + size;
                self.down_cost = self.down_cost + added;
            },
        }
    }

    /// Cost per pair after a hypothetical buy; see the spec function of the
    /// same name.
    pub fn pair_cost_after(&self, side: Side, size: u64, price: u32) -> (r: Option<u128>)
        requires
            self.wf(),
            self.fits(side, size as int),
        ensures
            r matches Some(v) ==> self.cost_per_pair(side, size as int, price as int) == Some(v as int),
            r is None ==> self.cost_per_pair(side, size as int, price as int) is None,
    {
        let mine: u64 = self.shares_of(side) + size;
        let other: u64 = self.shares_of(side.opposite());
        let other_cost: u128 = self.cost_of(side.opposite());
        proof {
            lemma_mul_le(size as int, price as int, size as int, max_price());
            lemma_mul_le(mine as int, max_price(), MAX_POSITION_SHARES as int, max_price());
            assert((self.shares(side) + size) * max_price() == self.shares(side) * max_price() + size * max_price())
                by (nonlinear_arith);
            lemma_mul_le(other as int, max_price(), MAX_POSITION_SHARES as int, max_price());
        }
        let mine_cost: u128 = self.cost_of(side) + size as u128 * price as u128;
        let pairs: u64 = if mine <= other { mine } else { other };
        if pairs == 0 {
            None
        } else if other >= mine {
            proof {
                lemma_mul_le(pairs as int, other_cost as int, MAX_POSITION_SHARES as int, MAX_POSITION_SHARES * max_price());
                lemma_mul_le(mine_cost as int, other as int, MAX_POSITION_SHARES * max_price(), MAX_POSITION_SHARES as int);
                lemma_mul_le(pairs as int, other as int, MAX_POSITION_SHARES as int, MAX_POSITION_SHARES as int);
                lemma_mul_le(1, other as int, pairs as int, other as int);
            }
            let num: u128 = pairs as u128 * other_cost + mine_cost * other as u128;
            let den: u128 = pairs as u128 * other as u128;
            Some(num / den)
        } else {
            Some((mine_cost + other_cost) / pairs as u128)
        }
    }
}

/// Recording a buy leaves the bought side's average price equal to the
/// cost-weighted mean of the old holding and the new buy: the side's cost
/// grows by exactly `size * price`, so the average is
/// `(old_shares * old_avg + size * price) / (old_shares + size)`, with
/// `old_shares * old_avg` the side's exact old cost. The other side is
/// untouched.
pub proof fn lemma_average_is_cost_weighted_mean(h: Holdings, side: Side, size: int, price: int)
    requires
        h.wf(),
        h.fits(side, size),
        size > 0,
        0 <= price <= max_price(),
    ensures
        h.after_buy(side, size, price).shares(side) == h.shares(side) + size,
        h.after_buy(side, size, price).cost(side) == h.cost(side) + size * price,
        h.after_buy(side, size, price).avg_price(side) == (h.cost(side) + size * price) / (
        h.shares(side) + size),
        h.after_buy(side, size, price).shares(side.other()) == h.shares(side.other()),
        h.after_buy(side, size, price).cost(side.other()) == h.cost(side.other()),
{
    lemma_mul_le(size, price, size, max_price());
    lemma_mul_le(h.shares(side) + size, max_price(), MAX_POSITION_SHARES as int, max_price());
    assert((h.shares(side) + size) * max_price() == h.shares(side) * max_price() + size * max_price())
        by (nonlinear_arith);
}

} // verus!
