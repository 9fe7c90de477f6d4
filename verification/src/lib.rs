//! A single in-memory, hash-linked ledger of transaction batches.
//!
//! Blocks are assembled from a pool of pending transactions, summarised by a
//! Merkle root, sealed by a proof-of-work search over the header's nonce, and
//! chained to their predecessor by the digest of its header.

pub mod codec;
pub mod hasher;
pub mod ledger;
pub mod merkle;
pub mod mining;
pub mod records;
