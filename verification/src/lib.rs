//! Verified accounting rules for storage actors: arbitrary-precision amounts,
//! the verified-claim registry, sector data activation, and the multisig,
//! power and init state rules that surround them.

pub mod activation;
pub mod bigint;
pub mod econ;
pub mod exit;
pub mod init;
pub mod multisig;
pub mod owner_map;
pub mod policy;
pub mod power;
pub mod registry;
pub mod types;
