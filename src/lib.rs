//! Deterministically addressed attestation and loan records on an account ledger.
//!
//! The library derives record addresses from seeds, encodes and decodes the
//! fixed-width record layouts, keeps an in-memory model of the ledger's accounts
//! and runs the record lifecycle (create, update, close, request a loan) on it.
pub mod error;
pub mod key;
pub mod derive;
pub mod record;
pub mod codec;
pub mod ledger;
pub mod lifecycle;
pub mod guarantees;
