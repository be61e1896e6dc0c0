//! Parsing and assembly of untrusted client input for an isolated ledger harness.

pub mod address;
pub mod environment;
pub mod harness;
pub mod identity;
pub mod instruction;
pub mod protocol;
pub mod session;
