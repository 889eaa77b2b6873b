//! The fixed-point units of prices, shares and costs.
use vstd::prelude::*;

verus! {

/// One dollar, in the price unit (micro-dollars per share).
pub const PRICE_ONE: u64 = 1_000_000;

/// One share, in the share unit (hundredths of a share).
pub const SHARE_ONE: u64 = 100;

/// What one share unit pays out when its side wins, in cost units
/// (share unit times price unit).
pub const COST_PER_SHARE_DOLLAR: u64 = 1_000_000;

} // verus!
