//! The RPC facade: read endpoints over the ledger and the peer registry,
//! and the submit path that decodes a hex transaction and hands it to the
//! ledger's event loop. The HTTP/JSON transport around these endpoints is
//! the server's concern; every endpoint here takes and returns plain values.
//!
//! There is deliberately no ledger-inclusion-proof endpoint: Merkle witness
//! construction belongs wholly to the delegated cryptographic layer, and
//! the model keeps no commitment-to-witness index to answer from.

use vstd::prelude::*;
use crate::address::Addr;
use crate::block::{Block, BlockHeader, Metadata, Transaction, spec_block_hash};
use crate::codec::{CodecError, spec_le64, TRANSACTION_BYTES};
use crate::config::MAXIMUM_BLOCK_REQUEST;
use crate::ledger::{
    LedgerState, LedgerError, spec_chain_hashes, spec_find_location,
};
use crate::ledger_tree::spec_root;
use crate::message::{LedgerRequest, Origin};
use crate::peers::{Peers, spec_connected_addrs};

verus! {

/// A fault while decoding a hexadecimal string.
#[derive(Clone, Copy, PartialEq, Eq, Structural, Debug)]
pub enum HexError {
    /// A character outside `0..9`, `a..f`, `A..F`.
    InvalidHexCharacter {
        /// The offending character.
        c: char,
        /// Its position.
        index: usize,
    },
    /// Two digits make a byte, so the length must be even.
    OddLength,
    /// A length that does not fit the expected container.
    InvalidStringLength,
}

/// Everything an RPC endpoint can report.
#[derive(Clone, Debug, PartialEq)]
pub enum RpcError {
    /// A ledger fault, passed through.
    Upstream(LedgerError),
    /// A hexadecimal decoding fault.
    FromHexError(HexError),
    /// A byte-layout fault.
    Codec(CodecError),
    /// A free-form message.
    Message(String),
}

/// Whether this character is a hexadecimal digit.
pub open spec fn spec_is_hex_digit(c: char) -> bool {
    (48 <= c as u32 && c as u32 <= 57) || (97 <= c as u32 && c as u32 <= 102) || (65 <= c as u32
        && c as u32 <= 70)
}

/// The value of a hexadecimal digit.
pub open spec fn spec_hex_val(c: char) -> int {
    if 48 <= c as u32 && c as u32 <= 57 {
        c as u32 - 48
    } else if 97 <= c as u32 && c as u32 <= 102 {
        c as u32 - 87
    } else {
        c as u32 - 55
    }
}

/// The bytes a hexadecimal string denotes, two digits each.
pub open spec fn spec_hex_bytes(s: Seq<char>) -> Seq<u8> {
    Seq::new((s.len() / 2) as nat, |i: int| (16 * spec_hex_val(s[2 * i]) + spec_hex_val(s[2 * i + 1])) as u8)
}

/// Every character is plain ASCII.
pub open spec fn spec_all_ascii(s: Seq<char>) -> bool {
    forall|i: int| 0 <= i < s.len() ==> ((#[trigger] s[i]) as u32) < 128
}

/// The first position holding something other than a hexadecimal digit
/// (the length, if there is none).
pub open spec fn spec_first_non_hex(s: Seq<char>) -> int
    decreases s.len(),
{
    if s.len() == 0 {
        0
    } else if !spec_is_hex_digit(s.first()) {
        0
    } else {
        1 + spec_first_non_hex(s.drop_first())
    }
}

/// Relies on hex::decode: a string of an even number of hexadecimal digits
/// decodes to one byte per digit pair; an odd length is rejected as such,
/// and otherwise the first character that is no hexadecimal digit is
/// reported with its position (stated here for plain-ASCII input, where
/// character and byte positions agree).
#[verifier::external_body]
fn hex_decode(s: &str) -> (r: Result<Vec<u8>, HexError>)
    ensures
        (match r {
            Ok(v) => {
                &&& s@.len() % 2 == 0
                &&& (forall|i: int| 0 <= i < s@.len() ==> spec_is_hex_digit(#[trigger] s@[i]))
                &&& v@ == spec_hex_bytes(s@)
            },
            Err(e) => {
                &&& !(s@.len() % 2 == 0 && (forall|i: int|
                    0 <= i < s@.len() ==> spec_is_hex_digit(#[trigger] s@[i])))
                &&& (spec_all_ascii(s@) ==> e == (if s@.len() % 2 != 0 {
                    HexError::OddLength
                } else {
                    HexError::InvalidHexCharacter {
                        c: s@[spec_first_non_hex(s@)],
                        index: spec_first_non_hex(s@) as usize,
                    }
                }))
            },
        }),
{
    match hex::decode(s) {
        Ok(v) => Ok(v),
        Err(hex::FromHexError::InvalidHexCharacter { c, index }) => Err(
            HexError::InvalidHexCharacter { c, index },
        ),
        Err(hex::FromHexError::OddLength) => Err(HexError::OddLength),
        Err(hex::FromHexError::InvalidStringLength) => Err(HexError::InvalidStringLength),
    }
}

/// RPC credentials for guarded endpoints.
#[derive(Clone, Debug)]
pub struct RpcCredentials {
    /// The account name.
    pub username: String,
    /// Its password.
    pub password: String,
}

/// The state behind the RPC endpoints.
pub struct RpcInner {
    /// The peer registry, for peer queries.
    pub peers: Peers,
    /// The ledger, for chain queries.
    pub ledger: LedgerState,
    /// Credentials for guarded endpoints.
    pub credentials: RpcCredentials,
}

/// The RPC endpoints of a node.
pub struct RpcImpl(pub RpcInner);

/// The clipped start of a block-range request: at most
/// `MAXIMUM_BLOCK_REQUEST` blocks ending at `end` are served.
pub open spec fn spec_safe_start(start: u32, end: u32) -> u32 {
    let floor = if end >= MAXIMUM_BLOCK_REQUEST - 1 {
        (end - (MAXIMUM_BLOCK_REQUEST - 1)) as u32
    } else {
        0u32
    };
    if start >= floor {
        start
    } else {
        floor
    }
}

impl RpcImpl {
    /// The endpoints answer against well-formed state.
    pub open spec fn wf(&self) -> bool {
        &&& self.0.ledger.wf()
        &&& self.0.peers.wf()
    }

    /// Creates the RPC endpoints over the given state.
    pub fn new(credentials: RpcCredentials, peers: Peers, ledger: LedgerState) -> (r: RpcImpl)
        requires
            peers.wf(),
            ledger.wf(),
        ensures
            r.wf(),
            r.0.peers == peers,
            r.0.ledger == ledger,
    {
        RpcImpl(RpcInner { peers, ledger, credentials })
    }

    /// The latest block of the canonical chain.
    pub fn latest_block(&self) -> (r: Result<Block, RpcError>)
        requires
            self.wf(),
        ensures
            (match r {
                Ok(b) => b@ == self.0.ledger@.last(),
                Err(_) => false,
            }),
    {
        Ok(self.0.ledger.latest_block())
    }

    /// The latest block height of the canonical chain.
    pub fn latest_block_height(&self) -> (r: Result<u32, RpcError>)
        requires
            self.wf(),
        ensures
            (match r {
                Ok(h) => h == self.0.ledger@.len() - 1,
                Err(_) => false,
            }),
    {
        Ok(self.0.ledger.latest_block_height())
    }

    /// The latest block hash of the canonical chain.
    pub fn latest_block_hash(&self) -> (r: Result<u64, RpcError>)
        requires
            self.wf(),
        ensures
            (match r {
                Ok(h) => h == spec_block_hash(self.0.ledger@.last()),
                Err(_) => false,
            }),
    {
        Ok(self.0.ledger.latest_block_hash())
    }

    /// The latest block header of the canonical chain.
    pub fn latest_block_header(&self) -> (r: Result<BlockHeader, RpcError>)
        requires
            self.wf(),
        ensures
            (match r {
                Ok(h) => h == self.0.ledger@.last().header,
                Err(_) => false,
            }),
    {
        Ok(self.0.ledger.latest_block_header())
    }

    /// The transactions of the latest canonical block.
    pub fn latest_block_transactions(&self) -> (r: Result<Vec<Transaction>, RpcError>)
        requires
            self.wf(),
        ensures
            (match r {
                Ok(ts) => ts@ == self.0.ledger@.last().transactions,
                Err(_) => false,
            }),
    {
        Ok(self.0.ledger.latest_block_transactions())
    }

    /// The latest ledger root.
    pub fn latest_ledger_root(&self) -> (r: Result<u64, RpcError>)
        requires
            self.wf(),
        ensures
            (match r {
                Ok(root) => root == spec_root(spec_chain_hashes(self.0.ledger@)),
                Err(_) => false,
            }),
    {
        Ok(self.0.ledger.latest_ledger_root())
    }

    /// The block at the given height.
    pub fn get_block(&self, block_height: u32) -> (r: Result<Block, RpcError>)
        requires
            self.wf(),
        ensures
            (match r {
                Ok(b) => block_height < self.0.ledger@.len() && b@ == self.0.ledger@[
                    block_height as int
                ],
                Err(e) => block_height >= self.0.ledger@.len() && e == RpcError::Upstream(
                    LedgerError::InvalidBlockHeight(block_height),
                ),
            }),
    {
        match self.0.ledger.get_block(block_height) {
            Ok(b) => Ok(b),
            Err(e) => Err(RpcError::Upstream(e)),
        }
    }

    /// Up to `MAXIMUM_BLOCK_REQUEST` blocks ending at `end_block_height`:
    /// the requested start is clipped up so that no more than that many
    /// blocks are served.
    pub fn get_blocks(&self, start_block_height: u32, end_block_height: u32) -> (r: Result<
        Vec<Block>,
        RpcError,
    >)
        requires
            self.wf(),
        ensures
            ({
                let safe_start = spec_safe_start(start_block_height, end_block_height);
                match r {
                    Ok(v) => {
                        &&& safe_start <= end_block_height
                        &&& end_block_height < self.0.ledger@.len()
                        &&& v@.map_values(|b: Block| b@) == self.0.ledger@.subrange(
                            safe_start as int,
                            end_block_height + 1,
                        )
                    },
                    Err(e) => {
                        &&& (safe_start > end_block_height || end_block_height
                            >= self.0.ledger@.len())
                        &&& e == RpcError::Upstream(
                            if safe_start > end_block_height {
                                LedgerError::InvalidRange {
                                    start: safe_start,
                                    end: end_block_height,
                                }
                            } else {
                                LedgerError::InvalidBlockHeight(end_block_height)
                            },
                        )
                    },
                }
            }),
    {
        let floor: u32 = if end_block_height >= MAXIMUM_BLOCK_REQUEST - 1 {
            end_block_height - (MAXIMUM_BLOCK_REQUEST - 1)
        } else {
            0
        };
        let safe_start = if start_block_height >= floor {
            start_block_height
        } else {
            floor
        };
        match self.0.ledger.get_blocks(safe_start, end_block_height) {
            Ok(v) => Ok(v),
            Err(e) => Err(RpcError::Upstream(e)),
        }
    }

    /// The height of the canonical block with this hash.
    pub fn get_block_height(&self, block_hash: u64) -> (r: Result<u32, RpcError>)
        requires
            self.wf(),
        ensures
            (match r {
                Ok(h) => {
                    &&& h < self.0.ledger@.len()
                    &&& spec_block_hash(self.0.ledger@[h as int]) == block_hash
                    &&& (forall|j: int| 0 <= j < h ==> spec_block_hash(
                        #[trigger] self.0.ledger@[j],
                    ) != block_hash)
                },
                Err(e) => {
                    &&& (forall|j: int| 0 <= j < self.0.ledger@.len() ==> spec_block_hash(
                        #[trigger] self.0.ledger@[j],
                    ) != block_hash)
                    &&& e == RpcError::Upstream(LedgerError::UnknownBlockHash(block_hash))
                },
            }),
    {
        match self.0.ledger.get_block_height(block_hash) {
            Ok(h) => Ok(h),
            Err(e) => Err(RpcError::Upstream(e)),
        }
    }

    /// The hash of the block at the given height.
    pub fn get_block_hash(&self, block_height: u32) -> (r: Result<u64, RpcError>)
        requires
            self.wf(),
        ensures
            (match r {
                Ok(h) => block_height < self.0.ledger@.len() && h == spec_block_hash(
                    self.0.ledger@[block_height as int],
                ),
                Err(e) => block_height >= self.0.ledger@.len() && e == RpcError::Upstream(
                    LedgerError::InvalidBlockHeight(block_height),
                ),
            }),
    {
        match self.0.ledger.get_block_hash(block_height) {
            Ok(h) => Ok(h),
            Err(e) => Err(RpcError::Upstream(e)),
        }
    }

    /// Up to `MAXIMUM_BLOCK_REQUEST` block hashes ending at
    /// `end_block_height`, with the same clipping as `get_blocks`.
    pub fn get_block_hashes(&self, start_block_height: u32, end_block_height: u32) -> (r: Result<
        Vec<u64>,
        RpcError,
    >)
        requires
            self.wf(),
        ensures
            ({
                let safe_start = spec_safe_start(start_block_height, end_block_height);
                match r {
                    Ok(v) => {
                        &&& safe_start <= end_block_height
                        &&& end_block_height < self.0.ledger@.len()
                        &&& v@ == spec_chain_hashes(self.0.ledger@).subrange(
                            safe_start as int,
                            end_block_height + 1,
                        )
                    },
                    Err(e) => {
                        &&& (safe_start > end_block_height || end_block_height
                            >= self.0.ledger@.len())
                        &&& e == RpcError::Upstream(
                            if safe_start > end_block_height {
                                LedgerError::InvalidRange {
                                    start: safe_start,
                                    end: end_block_height,
                                }
                            } else {
                                LedgerError::InvalidBlockHeight(end_block_height)
                            },
                        )
                    },
                }
            }),
    {
        let floor: u32 = if end_block_height >= MAXIMUM_BLOCK_REQUEST - 1 {
            end_block_height - (MAXIMUM_BLOCK_REQUEST - 1)
        } else {
            0
        };
        let safe_start = if start_block_height >= floor {
            start_block_height
        } else {
            floor
        };
        match self.0.ledger.get_block_hashes(safe_start, end_block_height) {
            Ok(v) => Ok(v),
            Err(e) => Err(RpcError::Upstream(e)),
        }
    }

    /// The header of the block at the given height.
    pub fn get_block_header(&self, block_height: u32) -> (r: Result<BlockHeader, RpcError>)
        requires
            self.wf(),
        ensures
            (match r {
                Ok(h) => block_height < self.0.ledger@.len() && h == self.0.ledger@[
                    block_height as int
                ].header,
                Err(e) => block_height >= self.0.ledger@.len() && e == RpcError::Upstream(
                    LedgerError::InvalidBlockHeight(block_height),
                ),
            }),
    {
        match self.0.ledger.get_block_header(block_height) {
            Ok(h) => Ok(h),
            Err(e) => Err(RpcError::Upstream(e)),
        }
    }

    /// The transactions of the block at the given height.
    pub fn get_block_transactions(&self, block_height: u32) -> (r: Result<
        Vec<Transaction>,
        RpcError,
    >)
        requires
            self.wf(),
        ensures
            (match r {
                Ok(ts) => block_height < self.0.ledger@.len() && ts@ == self.0.ledger@[
                    block_height as int
                ].transactions,
                Err(e) => block_height >= self.0.ledger@.len() && e == RpcError::Upstream(
                    LedgerError::InvalidBlockHeight(block_height),
                ),
            }),
    {
        match self.0.ledger.get_block_transactions(block_height) {
            Ok(ts) => Ok(ts),
            Err(e) => Err(RpcError::Upstream(e)),
        }
    }

    /// The record ciphertext with the given identifier.
    pub fn get_ciphertext(&self, ciphertext_id: u64) -> (r: Result<u64, RpcError>)
        requires
            self.wf(),
        ensures
            (match r {
                Ok(c) => (match spec_find_location(
                    self.0.ledger@,
                    LedgerState::spec_by_ciphertext_id(ciphertext_id),
                ) {
                    Some((h, k)) => c == self.0.ledger@[h].transactions[k].ciphertext,
                    None => false,
                }),
                Err(e) => {
                    &&& spec_find_location(
                        self.0.ledger@,
                        LedgerState::spec_by_ciphertext_id(ciphertext_id),
                    ) is None
                    &&& e == RpcError::Upstream(LedgerError::UnknownCiphertext(ciphertext_id))
                },
            }),
    {
        match self.0.ledger.get_ciphertext(ciphertext_id) {
            Ok(c) => Ok(c),
            Err(e) => Err(RpcError::Upstream(e)),
        }
    }

    /// The transaction with the given identifier, together with its
    /// location metadata on the canonical chain.
    pub fn get_transaction(&self, transaction_id: u64) -> (r: Result<
        (Transaction, Metadata),
        RpcError,
    >)
        requires
            self.wf(),
        ensures
            (match r {
                Ok(tm) => (match spec_find_location(
                    self.0.ledger@,
                    LedgerState::spec_by_transaction_id(transaction_id),
                ) {
                    Some((h, k)) => tm.0 == self.0.ledger@[h].transactions[k] && tm.1 == (Metadata {
                        block_height: h as u32,
                        block_hash: spec_block_hash(self.0.ledger@[h]),
                        block_timestamp: self.0.ledger@[h].header.timestamp,
                        transaction_index: k as u16,
                    }),
                    None => false,
                }),
                Err(e) => {
                    &&& spec_find_location(
                        self.0.ledger@,
                        LedgerState::spec_by_transaction_id(transaction_id),
                    ) is None
                    &&& e == RpcError::Upstream(LedgerError::UnknownTransaction(transaction_id))
                },
            }),
    {
        match self.0.ledger.get_transaction(transaction_id) {
            Ok(t) => {
                match self.0.ledger.get_transaction_metadata(transaction_id) {
                    Ok(m) => Ok((t, m)),
                    Err(e) => Err(RpcError::Upstream(e)),
                }
            },
            Err(e) => Err(RpcError::Upstream(e)),
        }
    }

    /// The transaction carrying the transition with the given identifier.
    pub fn get_transition(&self, transition_id: u64) -> (r: Result<Transaction, RpcError>)
        requires
            self.wf(),
        ensures
            (match r {
                Ok(t) => (match spec_find_location(
                    self.0.ledger@,
                    LedgerState::spec_by_transition_id(transition_id),
                ) {
                    Some((h, k)) => t == self.0.ledger@[h].transactions[k],
                    None => false,
                }),
                Err(e) => {
                    &&& spec_find_location(
                        self.0.ledger@,
                        LedgerState::spec_by_transition_id(transition_id),
                    ) is None
                    &&& e == RpcError::Upstream(LedgerError::UnknownTransition(transition_id))
                },
            }),
    {
        match self.0.ledger.get_transition(transition_id) {
            Ok(t) => Ok(t),
            Err(e) => Err(RpcError::Upstream(e)),
        }
    }

    /// The listener addresses of the connected peers.
    pub fn get_connected_peers(&self) -> (r: Result<Vec<Addr>, RpcError>)
        requires
            self.wf(),
        ensures
            (match r {
                Ok(v) => v@ == spec_connected_addrs(self.0.peers.connected_peers@),
                Err(_) => false,
            }),
    {
        Ok(self.0.peers.connected_peers())
    }

    /// Decodes a hex-encoded transaction and returns its identifier
    /// together with the request that submits it to the ledger as locally
    /// originated; the submission itself is fire-and-forget.
    pub fn send_transaction(&self, transaction_hex: &str) -> (r: Result<
        (u64, LedgerRequest),
        RpcError,
    >)
        requires
            self.wf(),
        ensures
            (match r {
                Ok(ir) => {
                    &&& transaction_hex@.len() == 2 * TRANSACTION_BYTES
                    &&& (forall|i: int| 0 <= i < transaction_hex@.len() ==> spec_is_hex_digit(
                        #[trigger] transaction_hex@[i],
                    ))
                    &&& ({
                        let bytes = spec_hex_bytes(transaction_hex@);
                        let t = (Transaction {
                            transaction_id: spec_le64(bytes, 0) as u64,
                            transition_id: spec_le64(bytes, 8) as u64,
                            ciphertext_id: spec_le64(bytes, 16) as u64,
                            ciphertext: spec_le64(bytes, 24) as u64,
                        });
                        &&& ir.0 == t.transaction_id
                        &&& ir.1 == LedgerRequest::UnconfirmedTransaction(Origin::Local, t)
                    })
                },
                Err(RpcError::FromHexError(e)) => !(transaction_hex@.len() % 2 == 0 && (forall|
                    i: int,
                |
                    0 <= i < transaction_hex@.len() ==> spec_is_hex_digit(
                        #[trigger] transaction_hex@[i],
                    ))),
                Err(RpcError::Codec(e)) => {
                    &&& transaction_hex@.len() % 2 == 0
                    &&& (forall|i: int| 0 <= i < transaction_hex@.len() ==> spec_is_hex_digit(
                        #[trigger] transaction_hex@[i],
                    ))
                    &&& transaction_hex@.len() != 2 * TRANSACTION_BYTES
                    &&& e == CodecError::InvalidLength((transaction_hex@.len() / 2) as usize)
                },
                Err(_) => false,
            }),
    {
        let bytes = match hex_decode(transaction_hex) {
            Ok(v) => v,
            Err(e) => {
                return Err(RpcError::FromHexError(e));
            },
        };
        let transaction = match Transaction::from_bytes(&bytes) {
            Ok(t) => t,
            Err(e) => {
                return Err(RpcError::Codec(e));
            },
        };
        let transaction_id = transaction.transaction_id;
        Ok(
            (
                transaction_id,
                LedgerRequest::UnconfirmedTransaction(Origin::Local, transaction),
            ),
        )
    }
}

} // verus!
