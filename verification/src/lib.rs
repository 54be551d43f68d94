//! Witness-generation core for the EVM `SHA3` (Keccak-256) opcode.
//!
//! Given a stack offset and size, the handler reconstructs the word-aligned
//! memory accesses behind the hash, logs a globally ordered sequence of
//! stack and memory records, and packages the aligned bytes (with padding
//! markers) into a copy event for a downstream constraint checker.

pub mod align;
pub mod copy_event;
pub mod error;
pub mod keccak;
pub mod memory;
pub mod record;
pub mod sha3;
pub mod stack;
pub mod state;
pub mod word;
