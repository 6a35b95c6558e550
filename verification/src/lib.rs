//! A minimal deterministic state-transition engine for a single-chain ledger.
//!
//! The runtime tracks account balances, per-account nonces and the current
//! block height, and applies blocks of extrinsics to that state one block at
//! a time. Every executable item carries a contract over a mathematical
//! model of the state, and the central invariants (conservation of value,
//! nonce accounting, block sequencing) are proved against those contracts.
//!
//! - [`balances`]: the ledger and the transfer between two accounts.
//! - [`system`]: the block number and the nonces.
//! - [`proof_of_existence`]: the registry of claims on content.
//! - [`runtime`]: the pallets together, call routing and block execution.
//! - [`support`]: errors and the shape of blocks.
//! - [`storage`]: the map that the pallets keep their state in.
//! - [`types`]: the concrete types of this runtime.

pub mod balances;
mod numeric;
pub mod proof_of_existence;
pub mod runtime;
pub mod storage;
pub mod support;
pub mod system;
pub mod types;

pub use crate::runtime::{Runtime, RuntimeCall};
