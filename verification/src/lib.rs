//! A minimal proof-of-work blockchain: hash-committed blocks linked into an
//! append-only chain, produced by a nonce-searching miner and fed by a
//! producer/consumer pipeline.

pub mod block;
pub mod chain;
pub mod difficulty;
pub mod digest;
pub mod pipeline;
