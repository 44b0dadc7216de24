//! The verified-claim registry: allocations indexed by client, claims indexed
//! by provider, and the batch operations on them.

pub mod hook;
pub mod laws;
pub mod lemmas;
pub mod rules;
pub mod state;
pub mod types;
