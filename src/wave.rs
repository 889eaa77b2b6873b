//! Counters that bound repeated buys between locks.
use vstd::prelude::*;
use crate::position::Side;
use crate::trend::Trend;

verus! {

/// Buys of one side allowed per wave while following a trend.
pub const MAX_RISING_BUYS_PER_WAVE: u32 = 3;

/// Buys of the rising side allowed when nothing is held yet.
pub const MAX_RISING_BUYS_NO_POSITION: u32 = 2;

/// Buys of the higher-priced side allowed when nothing is held and the
/// market is flat.
pub const MAX_FLAT_BUYS_NO_POSITION: u32 = 4;

/// Buys of one side allowed while rebalancing a skewed outcome.
pub const MAX_REBALANCE_BUYS: u32 = 8;

/// Buys made since the last lock of one market.
#[derive(Clone, Copy, Debug, PartialEq, Eq, Structural)]
pub struct WaveState {
    pub buys_up_since_lock: u32,
    pub buys_down_since_lock: u32,
    pub flat_buys_since_lock: u32,
}

pub open spec fn capped_increment(c: int, cap: int) -> int {
    if c + 1 <= cap { c + 1 } else { cap }
}

/// Whether a trend counts as flat for a first buy: flat or falling.
pub open spec fn is_flat_like(t: Trend) -> bool {
    t == Trend::Flat || t == Trend::UpFalling || t == Trend::DownFalling
}

impl WaveState {
    pub open spec fn count(self, side: Side) -> int {
        match side {
            Side::Up => self.buys_up_since_lock as int,
            Side::Down => self.buys_down_since_lock as int,
        }
    }

    /// Each counter within its ceiling.
    pub open spec fn wf(self) -> bool {
        &&& self.buys_up_since_lock <= MAX_RISING_BUYS_PER_WAVE
        &&& self.buys_down_since_lock <= MAX_RISING_BUYS_PER_WAVE
        &&& self.flat_buys_since_lock <= MAX_FLAT_BUYS_NO_POSITION
    }

    pub open spec fn is_zero(self) -> bool {
        self.buys_up_since_lock == 0 && self.buys_down_since_lock == 0
            && self.flat_buys_since_lock == 0
    }

    /// The counters after a buy of `side`. A lock starts a new wave; any
    /// other buy counts toward its side, and toward the flat counter when it
    /// opened a position on a flat-like trend.
    pub open spec fn after_buy(self, side: Side, is_lock: bool, flat_entry: bool) -> WaveState {
        if is_lock {
            WaveState { buys_up_since_lock: 0, buys_down_since_lock: 0, flat_buys_since_lock: 0 }
        } else {
            let flat = if flat_entry {
                capped_increment(self.flat_buys_since_lock as int, MAX_FLAT_BUYS_NO_POSITION as int)
            } else {
                self.flat_buys_since_lock as int
            };
            match side {
                Side::Up => WaveState {
                    buys_up_since_lock: capped_increment(self.buys_up_since_lock as int, MAX_RISING_BUYS_PER_WAVE as int) as u32,
                    flat_buys_since_lock: flat as u32,
                    ..self
                },
                Side::Down => WaveState {
                    buys_down_since_lock: capped_increment(self.buys_down_since_lock as int, MAX_RISING_BUYS_PER_WAVE as int) as u32,
                    flat_buys_since_lock: flat as u32,
                    ..self
                },
            }
        }
    }

    pub fn new() -> (w: WaveState)
        ensures
            w.is_zero(),
            w.wf(),
    {
        WaveState { buys_up_since_lock: 0, buys_down_since_lock: 0, flat_buys_since_lock: 0 }
    }

    pub fn count_of(&self, side: Side) -> (r: u32)
        ensures
            r == self.count(side),
    {
        match side {
            Side::Up => self.buys_up_since_lock,
            Side::Down => self.buys_down_since_lock,
        }
    }

    /// Updates the counters for a buy; see `after_buy`.
    pub fn record_buy(&mut self, side: Side, is_lock: bool, flat_entry: bool)
        requires
            old(self).wf(),
        ensures
            final(self).wf(),
            *final(self) == old(self).after_buy(side, is_lock, flat_entry),
    {
        if is_lock {
            self.buys_up_since_lock = 0;
            self.buys_down_since_lock = 0;
            self.flat_buys_since_lock = 0;
        } else {
            match side {
                Side::Up => {
                    if self.buys_up_since_lock < MAX_RISING_BUYS_PER_WAVE {
                        self.buys_up_since_lock = self.buys_up_since_lock + 1;
                    }
                },
                Side::Down => {
                    if self.buys_down_since_lock < MAX_RISING_BUYS_PER_WAVE {
                        self.buys_down_since_lock = self.buys_down_since_lock + 1;
                    }
                },
            }
            if flat_entry && self.flat_buys_since_lock < MAX_FLAT_BUYS_NO_POSITION {
                self.flat_buys_since_lock = self.flat_buys_since_lock + 1;
            }
        }
    }
}

/// A lock resets every counter of its wave to zero; any other buy leaves
/// every counter at least where it was.
pub proof fn lemma_lock_resets_and_other_buys_never_decrease(
    w: WaveState,
    side: Side,
    is_lock: bool,
    flat_entry: bool,
)
    requires
        w.wf(),
    ensures
        is_lock ==> w.after_buy(side, is_lock, flat_entry).is_zero(),
        !is_lock ==> {
            let n = w.after_buy(side, is_lock, flat_entry);
            &&& n.buys_up_since_lock >= w.buys_up_since_lock
            &&& n.buys_down_since_lock >= w.buys_down_since_lock
            &&& n.flat_buys_since_lock >= w.flat_buys_since_lock
        },
        w.after_buy(side, is_lock, flat_entry).wf(),
{
}

} // verus!
