//! An on-chain insurance marketplace: users purchase cover against risk
//! pools, liquidity providers deposit capital that backs the cover, and a
//! governance module arbitrates claims by weighted vote before funds are
//! released.
//!
//! The three services (pool, cover, governance) each own their state and
//! coordinate only through remote calls that can fail independently.  This
//! crate holds every local decision and state mutation of that settlement
//! protocol as verified functions over plain values; the host shell performs
//! the remote calls and the asset transfers between the steps.

pub mod cover;
pub mod gateway;
pub mod governance;
pub mod math;
pub mod pool;
pub mod roster;
pub mod settlement;
pub mod table;
pub mod types;

