//! Backtesting of trading strategies on historical price bars.
//!
//! A strategy decides at every bar whether to be long, short or out of the
//! market. The [`engine`] turns those decisions into a position and a cash
//! balance for every bar: the decision of one bar is executed at the
//! opening price of the next, and every trade pays a proportional
//! commission. [`metrics`] derives market value, net worth, cash flows and
//! commission from the two series.
//!
//! All amounts are exact. Prices and cash are whole numbers of a minor unit
//! of the caller's choice, positions are whole lots, and a commission rate
//! is a number of parts per [`arith::RATE_SCALE`]; see [`arith`] for how
//! results are rounded. Nothing here reads or writes files or talks to a
//! data provider: callers hand in columns of numbers and get columns back.

pub mod arith;
pub mod backtester;
pub mod charts;
pub mod datas;
pub mod engine;
pub mod errors;
pub mod metrics;
pub mod orders;
pub mod strategies;
pub mod ta;
