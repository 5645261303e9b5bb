//! The logical message set of the wire protocol, and the request types the
//! peer layer and the ledger exchange. Byte-level encoding is the framing
//! layer's concern; here only the message semantics matter.

use vstd::prelude::*;
use crate::address::Addr;
use crate::block::{Block, BlockHeader, Transaction};
use crate::locators::BlockLocators;

verus! {

/// A message of the peer-to-peer protocol.
#[derive(Clone, Debug)]
pub enum Message {
    /// `(version, listener_port, nonce, block_height)`: the opening of the
    /// two-phase handshake.
    ChallengeRequest(u32, u16, u64, u32),
    /// The genesis header, proving both sides share the same chain origin.
    ChallengeResponse(BlockHeader),
    /// `(version, block_height, block_hash)`: a liveness probe carrying the
    /// sender's tip.
    Ping(u32, u32, u64),
    /// `(is_fork, block_locators)`: the reply to a ping.
    Pong(Option<bool>, BlockLocators),
    /// A request for the recipient's connected peers.
    PeerRequest,
    /// The sender's connected peers.
    PeerResponse(Vec<Addr>),
    /// `(start_height, end_height)`: a request for a block range.
    BlockRequest(u32, u32),
    /// One block of a requested range.
    BlockResponse(Block),
    /// A freshly seen block, gossiped.
    UnconfirmedBlock(Block),
    /// A freshly seen transaction, gossiped.
    UnconfirmedTransaction(Transaction),
    /// The sender is closing the connection.
    Disconnect,
    /// A variant this build does not understand; receiving it tears the
    /// connection down.
    Unused,
}

/// Where an unconfirmed transaction entered the node.
#[derive(Clone, Copy, PartialEq, Eq, Structural, Debug)]
pub enum Origin {
    /// Submitted by a local client.
    Local,
    /// Gossiped by this peer.
    Peer(Addr),
}

/// A request into the ledger's event loop.
#[derive(Clone, Debug, PartialEq)]
pub enum LedgerRequest {
    /// `(peer_ip, start_height, end_height)`: a peer asks for blocks.
    BlockRequest(Addr, u32, u32),
    /// `(peer_ip, block)`: a peer answers a block request.
    BlockResponse(Addr, Block),
    /// `(peer_ip)`: the connection to this peer ended.
    Disconnect(Addr),
    /// `(peer_ip, block_height, block_hash)`: a peer's liveness probe.
    Ping(Addr, u32, u64),
    /// `(peer_ip, is_fork, block_locators)`: a peer's pong.
    Pong(Addr, Option<bool>, BlockLocators),
    /// `(peer_ip)`: greet a freshly connected peer with a ping.
    SendPing(Addr),
    /// `(peer_ip, block)`: a gossiped block to consider.
    UnconfirmedBlock(Addr, Block),
    /// `(origin, transaction)`: a gossiped or locally submitted transaction.
    UnconfirmedTransaction(Origin, Transaction),
}

} // verus!
