//! Signing and migration core for moving funds from a legacy ternary ledger
//! into a binary ledger: hierarchical address derivation, migration-bundle
//! construction, one-time-signature signing with address-set validation,
//! essence-mining preparation, and wire-format serialization.

pub mod address;
pub mod bundle;
pub mod crypto;
pub mod errors;
pub mod finalize;
pub mod mining;
pub mod sign;
pub mod ternary;
pub mod transaction;
