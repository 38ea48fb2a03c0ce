//! Accounting and risk core of a perpetual-futures exchange: pricing with
//! open-interest impact, funding and borrowing accrual, the margin engine,
//! liquidity-pool shares and the order state machine, over one ledger.
pub mod types;
pub mod arith;
pub mod pricing;
pub mod risk;
pub mod position;
pub mod keys;
pub mod ledger;
pub mod market;
pub mod trading;
