//! Decision engine for binary Up/Down prediction markets.
//!
//! Prices are integers in micro-dollars per share, share counts are
//! integers in hundredths of a share, and costs are their products
//! (units of 1e-8 dollars). All arithmetic is exact.
mod units;
pub mod text;
pub mod table;
pub mod trend;
pub mod position;
pub mod wave;
pub mod decision;
pub mod sizing;
pub mod market;
pub mod settlement;
pub mod trader;
pub mod config;
pub mod scan;
pub mod history;
pub mod discovery;

pub use units::{COST_PER_SHARE_DOLLAR, PRICE_ONE, SHARE_ONE};
