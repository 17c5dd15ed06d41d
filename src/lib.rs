//! Provisioning of a program-owned storage account at a derived address.
//!
//! The account's address is derived from a seed set and the owning program's
//! identifier; the pipeline checks the caller-supplied address against it,
//! asks the ledger to create and fund the account, and writes its payload.

pub mod address;
pub mod error;
pub mod payload;
pub mod ledger;
pub mod provision;
