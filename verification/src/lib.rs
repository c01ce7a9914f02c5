//! A periodic automation engine for a value-custody component.
//!
//! On every crank the engine advances a persistent round-robin cursor over a
//! ledger of conversion actions, selects at most one of them, and either asks
//! for the capped external operation or sweeps the held balances to a weighted
//! list of recipients.

pub mod contract;
pub mod denom;
pub mod distribution;
pub mod error;
pub mod fairness;
pub mod host;
pub mod math;
pub mod msg;
pub mod state;
