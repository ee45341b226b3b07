//! A temporal allocation engine: splits a calendar-date span into a fixed
//! number of contiguous sub-ranges and rebalances the integer weights
//! assigned to them, keeping the weights' total near 100.

pub mod adjust;
pub mod dates;
pub mod errors;
pub mod forecasts;
pub mod labels;
pub mod ranges;
pub mod rebalance;
