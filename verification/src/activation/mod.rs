//! Sector data activation on the provider's side: validation of sector
//! manifests, the claim and notification requests they give rise to, and
//! the weights, fees and power that follow from the outcome.
//!
//! A sector enters the provider's state without data and receives its data
//! once, whether with its first proof or with a later replica update; a
//! sector that holds data is never given other data.

pub mod fees;
pub mod laws;
pub mod ledger;
pub mod lemmas;
pub mod orchestrator;
pub mod pipeline;
pub mod quant;
pub mod rules;
pub mod state;
pub mod types;
