//! Per-node configuration: the protocol constants and the node's role.

use vstd::prelude::*;

verus! {

/// The version of the message protocol; peers announcing an older version are
/// rejected during the handshake and in every `Ping`.
pub const MESSAGE_VERSION: u32 = 12;

/// The height exchanged in the handshake challenge; both sides prove they
/// share the same genesis block.
pub const CHALLENGE_HEIGHT: u32 = 0;

/// The maximum number of connected peers after heartbeat convergence.
pub const MAXIMUM_NUMBER_OF_PEERS: usize = 21;

/// Below this many connections, the heartbeat seeds candidates and dials.
pub const MINIMUM_NUMBER_OF_PEERS: usize = 2;

/// The cap on the candidate set; a peer list that would push the combined
/// size past this cap is rejected wholesale.
pub const MAXIMUM_CANDIDATE_PEERS: usize = 10000;

/// The cap on repeated inbound connection attempts from one host inside a
/// radio-silence window.
pub const MAXIMUM_CONNECTION_FAILURES: u32 = 3;

/// Hard timeout on outbound dials and reachability probes, in seconds.
pub const CONNECTION_TIMEOUT_IN_SECS: u64 = 1;

/// The minimum interval, in seconds, between two otherwise-equivalent events
/// with the same peer: a repeated dial, or gossip of the same item.
pub const RADIO_SILENCE_IN_SECS: u64 = 210;

/// The largest number of blocks served for one block request.
pub const MAXIMUM_BLOCK_REQUEST: u32 = 250;

/// How many of the most recent heights a block locator covers densely,
/// each with its header.
pub const NUM_RECENT_LOCATORS: u32 = 64;

/// The number of unconfirmed blocks from one peer inside the spam window at
/// which the connection is torn down and the peer restricted.
pub const BLOCK_SPAM_THRESHOLD: usize = 5;

/// The number of unconfirmed transactions from one peer inside the spam
/// window at which the connection is torn down and the peer restricted.
pub const TRANSACTION_SPAM_THRESHOLD: usize = 500;

/// The length of the gossip spam window, in seconds.
pub const SPAM_WINDOW_IN_SECS: u64 = 5;

/// The role this node plays in the network.
#[derive(Clone, Copy, PartialEq, Eq, Structural, Debug)]
pub enum NodeType {
    /// An ordinary client.
    Client,
    /// A miner producing new blocks.
    Miner,
    /// A well-known synchronization node.
    Sync,
}

/// Elapsed seconds between a stored timestamp and `now`, clamped at zero so a
/// stale clock can never underflow.
pub open spec fn spec_elapsed(now: u64, earlier: u64) -> u64 {
    if now >= earlier {
        (now - earlier) as u64
    } else {
        0
    }
}

/// Executable twin of [`spec_elapsed`].
pub fn elapsed_secs(now: u64, earlier: u64) -> (r: u64)
    ensures
        r == spec_elapsed(now, earlier),
{
    if now >= earlier {
        now - earlier
    } else {
        0
    }
}

} // verus!
