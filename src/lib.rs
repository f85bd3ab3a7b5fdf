//! Opportunity pipeline of a trading agent: pool state cache, arbitrage
//! detection, risk and profitability checks, position accounting, trade
//! history scanning and execution dispatch.
pub mod pool_cache;
pub mod position;
pub mod risk;
pub mod detector;
pub mod scanner;
pub mod execution;
pub mod copy_trade_strategy;
pub mod arbitrage_strategy;
