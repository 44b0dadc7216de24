//! The multisig actor's state: signers, the linear vesting lock, and the
//! pending transactions with their approvals.

pub mod index;
pub mod state;
