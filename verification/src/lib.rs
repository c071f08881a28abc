//! Decision logic of a Polymarket up/down trading bot: order-book summaries, market
//! discovery rules, six signal strategies, order pre-validation, risk tiers, safety
//! guards and position management, all over fixed-point quantities.

pub mod fixed;
pub mod decimal;
pub mod clock;
pub mod text;
pub mod config;
pub mod data;
pub mod strategies;
pub mod trading;
pub mod scan;
