//! Custody of a fungible asset in per-principal escrow vaults, and the
//! configuration and pricing rules of a two-asset constant-product pool.
//!
//! Account addresses are derived from a label and seed values under a program
//! id; each stored derivation carries its bump so it can be re-verified.
pub mod error;
pub mod address;
pub mod vault;
pub mod curve;
pub mod pool;
