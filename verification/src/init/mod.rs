//! The init actor's state and the check of its invariants.

pub mod testing;
