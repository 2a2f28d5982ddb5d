//! A single-round lottery: a ticket ledger, a weighted draw and the
//! lifecycle that ties them to a block-height clock.

pub mod account;
pub mod clock;
pub mod draw;
pub mod error;
pub mod laws;
pub mod ledger;
pub mod lottery;
pub mod pool;
pub mod random;
pub mod round;
