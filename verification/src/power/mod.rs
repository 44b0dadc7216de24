//! The storage power actor: the methods it answers, the power claimed by
//! each miner with the network totals, and the queue of deferred cron
//! events.

pub mod actor;
pub mod laws;
pub mod method;
pub mod state;
