//! A minimal runtime state module for a blockchain-style system: the chain's
//! current block number and a per-account transaction counter (nonce), with
//! overflow-checked increments that leave the state untouched on failure.

pub mod laws;
pub mod support;
pub mod system;
