//! An append-only, hash-linked ledger whose records commit to their
//! predecessors, with whole-chain validation.

pub mod block;
pub mod chain;
pub mod encoding;

pub use block::Block;
pub use chain::Blockchain;
