//! Core of a multi-exchange spot-trading bot: order-book maintenance,
//! signal generation, order sizing and the transaction stage machine.
//!
//! All prices, quantities and balances are fixed-point decimals: an `i64`
//! counting units of 10^-8 (see [`crypto::UNIT`]).

pub mod bot;
pub mod crypto;
pub mod exchanges;
pub mod database;
pub mod utils;
