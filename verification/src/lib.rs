//! Core of a peer-to-peer blockchain node: the canonical ledger state machine
//! (append, revert, block locators), the peer manager and per-connection
//! protocol engine (admission, handshake, gossip deduplication, abuse limits),
//! and the read-mostly RPC facade.
//!
//! The cryptographic machinery of the chain (zero-knowledge proofs, the mining
//! search, the on-disk store) is a delegated collaborator: blocks, transactions
//! and hashes are modelled here as plain values with a stable identity, and
//! every decision the node takes over them is verified.

pub mod address;
pub mod assoc;
pub mod block;
pub mod codec;
pub mod config;
pub mod ledger;
pub mod ledger_tree;
pub mod locators;
pub mod message;
pub mod peer;
pub mod peers;
pub mod random;
pub mod rpc;
