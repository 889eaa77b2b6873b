//! Realized profit of resolved markets.
use vstd::prelude::*;
use crate::market::{clone_opt, opt_view, CycleTrade, CycleTradeView};
use crate::position::Side;
use crate::units::COST_PER_SHARE_DOLLAR;

verus! {

/// One outcome token of a resolved market as the venue reports it.
#[derive(Debug)]
pub struct ResolvedToken {
    pub token_id: String,
    pub winner: bool,
}

/// A market's resolution state as the venue reports it.
#[derive(Debug)]
pub struct Resolution {
    pub closed: bool,
    pub tokens: Vec<ResolvedToken>,
}

/// A request to redeem the winning tokens of a settled market.
#[derive(Debug)]
pub struct RedeemRequest {
    pub condition_id: String,
    pub token_id: String,
    pub outcome: Side,
}

/// The accounting of one settled market.
#[derive(Debug)]
pub struct Settlement {
    pub condition_id: String,
    pub winner: Option<Side>,
    /// Everything paid, in cost units.
    pub cost: u128,
    /// What the winning shares pay, in cost units.
    pub payout: u128,
    /// Realized profit: payout less cost.
    pub pnl: i128,
    pub redeem: Option<RedeemRequest>,
}

/// The venue reports `token` as a winning token.
pub open spec fn token_won(token: Option<Seq<char>>, tokens: Seq<ResolvedToken>) -> bool {
    match token {
        Some(id) => exists|i: int| 0 <= i < tokens.len() && tokens[i].token_id@ == id && tokens[i].winner,
        None => false,
    }
}

/// The winning side of a trade: Up where its token won, else Down where
/// its token won, else none.
pub open spec fn winner_of(t: CycleTradeView, tokens: Seq<ResolvedToken>) -> Option<Side> {
    if token_won(t.up_token_id, tokens) {
        Some(Side::Up)
    } else if token_won(t.down_token_id, tokens) {
        Some(Side::Down)
    } else {
        None
    }
}

/// What the winning side pays: a dollar per share.
pub open spec fn payout_of(t: CycleTradeView, winner: Option<Side>) -> int {
    match winner {
        Some(side) => t.holdings.shares(side) * COST_PER_SHARE_DOLLAR,
        None => 0,
    }
}

/// The token to redeem, outside simulation and only for a market with a
/// winner: Up's when Up won with shares held, else Down's (empty where
/// unknown).
pub open spec fn redeem_of(t: CycleTradeView, winner: Option<Side>, simulation: bool) -> Option<(Seq<char>, Side)> {
    if simulation || winner is None {
        None
    } else {
        let side = if winner == Some(Side::Up) && t.holdings.up_shares > 0 {
            Side::Up
        } else {
            Side::Down
        };
        let token = match t.token(side) {
            Some(id) => id,
            None => Seq::<char>::empty(),
        };
        Some((token, side))
    }
}

/// `s` is the settlement of `t` under `tokens`.
pub open spec fn settles_as(s: Settlement, t: CycleTradeView, tokens: Seq<ResolvedToken>, simulation: bool) -> bool {
    let w = winner_of(t, tokens);
    &&& s.condition_id@ == t.condition_id
    &&& s.winner == w
    &&& s.cost == t.holdings.total_cost()
    &&& s.payout == payout_of(t, w)
    &&& s.pnl == payout_of(t, w) - t.holdings.total_cost()
    &&& match redeem_of(t, w, simulation) {
        Some((token, side)) => s.redeem matches Some(rq) && rq.token_id@ == token && rq.outcome == side
            && rq.condition_id@ == t.condition_id,
        None => s.redeem is None,
    }
}

/// Whether the venue reports `token` as a winner.
pub fn is_winning_token(token: &Option<String>, tokens: &Vec<ResolvedToken>) -> (r: bool)
    ensures
        r == token_won(opt_view(*token), tokens@),
{
    match token.as_ref() {
        Some(id) => {
            let mut i: usize = 0;
            while i < tokens.len()
                invariant
                    i <= tokens@.len(),
                    opt_view(*token) == Some(id@),
                    forall|j: int| 0 <= j < i ==> !(tokens@[j].token_id@ == id@ && tokens@[j].winner),
                decreases tokens@.len() - i,
            {
                if tokens[i].winner && tokens[i].token_id == *id {
                    return true;
                }
                i = i + 1;
            }
            false
        },
        None => false,
    }
}

/// Settles a trade against a market's resolution.
pub fn settle_trade(t: &CycleTrade, tokens: &Vec<ResolvedToken>, simulation: bool) -> (s: Settlement)
    requires
        t.holdings.wf(),
    ensures
        settles_as(s, t@, tokens@, simulation),
{
    let h = &t.holdings;
    let winner = if is_winning_token(&t.up_token_id, tokens) {
        Some(Side::Up)
    } else if is_winning_token(&t.down_token_id, tokens) {
        Some(Side::Down)
    } else {
        None
    };
    proof {
        assert(h.up_cost <= h.up_shares * 0xffff_ffff) by (nonlinear_arith)
            requires h.up_cost <= h.up_shares * 0xffff_ffffint, h.up_shares <= 0x100_0000_0000int;
        assert(h.up_shares * 0xffff_ffff <= 0x100_0000_0000 * 0xffff_ffff) by (nonlinear_arith)
            requires h.up_shares <= 0x100_0000_0000int;
        assert(h.down_shares * 0xffff_ffff <= 0x100_0000_0000 * 0xffff_ffff) by (nonlinear_arith)
            requires h.down_shares <= 0x100_0000_0000int;
        assert(h.up_shares * 1_000_000 <= 0x100_0000_0000 * 1_000_000) by (nonlinear_arith)
            requires h.up_shares <= 0x100_0000_0000int;
        assert(h.down_shares * 1_000_000 <= 0x100_0000_0000 * 1_000_000) by (nonlinear_arith)
            requires h.down_shares <= 0x100_0000_0000int;
    }
    let cost: u128 = h.up_cost + h.down_cost;
    let payout: u128 = match winner {
        Some(Side::Up) => h.up_shares as u128 * COST_PER_SHARE_DOLLAR as u128,
        Some(Side::Down) => h.down_shares as u128 * COST_PER_SHARE_DOLLAR as u128,
        None => 0,
    };
    let pnl: i128 = payout as i128 - cost as i128;
    let redeem = match winner {
        Some(w) if !simulation => {
            let side = if w == Side::Up && h.up_shares > 0 {
                Side::Up
            } else {
                Side::Down
            };
            let token = match side {
                Side::Up => clone_opt(&t.up_token_id),
                Side::Down => clone_opt(&t.down_token_id),
            };
            let token_id = match token {
                Some(id) => id,
                None => String::new(),
            };
            Some(RedeemRequest { condition_id: t.condition_id.clone(), token_id, outcome: side })
        },
        _ => None,
    };
    Settlement { condition_id: t.condition_id.clone(), winner, cost, payout, pnl, redeem }
}

} // verus!
