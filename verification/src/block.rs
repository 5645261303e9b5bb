//! Blocks, headers and transactions as plain values.
//!
//! The cryptographic content of the chain is delegated: a transaction is
//! modelled by its identifiers (one state transition carrying one record
//! ciphertext), and a block's hash is a deterministic digest of its header
//! and its parent hash, giving every block a stable identity.

use vstd::prelude::*;
use crate::ledger_tree::{spec_combine, spec_root, combine, EMPTY_ROOT};

verus! {

/// The difficulty target of the genesis block.
pub const GENESIS_DIFFICULTY_TARGET: u64 = 0xffff_ffff_ffff_ffff;

/// A transaction: its identifier, its single state transition and the record
/// ciphertext that transition carries. The proof system that justifies a
/// transaction is a delegated collaborator; only the identifiers travel here.
#[derive(Clone, Copy, PartialEq, Eq, Structural, Debug)]
pub struct Transaction {
    /// The identifier of the transaction.
    pub transaction_id: u64,
    /// The identifier of its state transition.
    pub transition_id: u64,
    /// The identifier of the record ciphertext produced by the transition.
    pub ciphertext_id: u64,
    /// The record ciphertext itself, as an opaque value.
    pub ciphertext: u64,
}

/// A block header: the consensus-facing scalars of a block.
#[derive(Clone, Copy, PartialEq, Eq, Structural, Debug)]
pub struct BlockHeader {
    /// The height this header claims.
    pub height: u32,
    /// The block timestamp, in seconds.
    pub timestamp: i64,
    /// The difficulty target; retargeting is delegated.
    pub difficulty_target: u64,
    /// The nonce found by the (delegated) proof-of-work search.
    pub nonce: u64,
    /// The accumulator root over the block's transaction identifiers.
    pub transactions_root: u64,
}

/// Location metadata of a transaction on the canonical chain.
#[derive(Clone, Copy, PartialEq, Eq, Structural, Debug)]
pub struct Metadata {
    /// The height of the block holding the transaction.
    pub block_height: u32,
    /// The hash of that block.
    pub block_hash: u64,
    /// The timestamp of that block.
    pub block_timestamp: i64,
    /// The index of the transaction inside the block.
    pub transaction_index: u16,
}

/// The mathematical image of a [`Block`].
#[verifier::ext_equal]
pub ghost struct BlockView {
    /// The hash of the parent block.
    pub previous_block_hash: u64,
    /// The header.
    pub header: BlockHeader,
    /// The transactions, in block order.
    pub transactions: Seq<Transaction>,
}

/// A block: its parent hash, its header, and its transactions.
#[derive(Debug)]
pub struct Block {
    /// The hash of the parent block.
    pub previous_block_hash: u64,
    /// The header.
    pub header: BlockHeader,
    /// The transactions, in block order.
    pub transactions: Vec<Transaction>,
}

impl View for Block {
    type V = BlockView;

    open spec fn view(&self) -> BlockView {
        BlockView {
            previous_block_hash: self.previous_block_hash,
            header: self.header,
            transactions: self.transactions@,
        }
    }
}

impl Clone for Block {
    /// Clones the block; the copy has the same mathematical image.
    fn clone(&self) -> (res: Self)
        ensures
            res@ == self@,
    {
        let mut transactions: Vec<Transaction> = Vec::new();
        let mut i: usize = 0;
        while i < self.transactions.len()
            invariant
                i <= self.transactions.len(),
                transactions@ =~= self.transactions@.take(i as int),
            decreases self.transactions.len() - i,
        {
            transactions.push(self.transactions[i]);
            i = i + 1;
        }
        proof {
            assert(transactions@ =~= self.transactions@);
        }
        Block { previous_block_hash: self.previous_block_hash, header: self.header, transactions }
    }
}

impl PartialEq for Block {
    /// Two blocks are equal when their mathematical images are.
    fn eq(&self, other: &Block) -> (r: bool)
    {
        if self.previous_block_hash != other.previous_block_hash {
            return false;
        }
        if self.header != other.header {
            return false;
        }
        if self.transactions.len() != other.transactions.len() {
            return false;
        }
        let mut i: usize = 0;
        while i < self.transactions.len()
            invariant
                i <= self.transactions.len(),
                self.transactions.len() == other.transactions.len(),
                forall|j: int| 0 <= j < i ==> self.transactions@[j] == other.transactions@[j],
            decreases self.transactions.len() - i,
        {
            if self.transactions[i] != other.transactions[i] {
                return false;
            }
            i = i + 1;
        }
        proof {
            assert(self.transactions@ =~= other.transactions@);
        }
        true
    }
}

impl vstd::std_specs::cmp::PartialEqSpecImpl for Block {
    open spec fn obeys_eq_spec() -> bool {
        true
    }

    open spec fn eq_spec(&self, other: &Block) -> bool {
        self@ == other@
    }
}

/// The identifiers of a sequence of transactions, in order.
pub open spec fn spec_transaction_ids(txs: Seq<Transaction>) -> Seq<u64> {
    txs.map_values(|t: Transaction| t.transaction_id)
}

/// The accumulator root over a sequence of transactions' identifiers.
pub open spec fn spec_transactions_root(txs: Seq<Transaction>) -> u64 {
    spec_root(spec_transaction_ids(txs))
}

/// Computes the accumulator root over the given transactions' identifiers.
pub fn transactions_root(txs: &Vec<Transaction>) -> (r: u64)
    ensures
        r == spec_transactions_root(txs@),
{
    let ghost ids = spec_transaction_ids(txs@);
    let mut acc: u64 = EMPTY_ROOT;
    let mut i: usize = 0;
    proof {
        assert(ids.take(0) =~= Seq::<u64>::empty());
    }
    while i < txs.len()
        invariant
            i <= txs.len(),
            ids == spec_transaction_ids(txs@),
            ids.len() == txs@.len(),
            acc == spec_root(ids.take(i as int)),
        decreases txs.len() - i,
    {
        acc = combine(acc, txs[i].transaction_id);
        proof {
            assert(ids.take(i + 1).drop_last() =~= ids.take(i as int));
            assert(ids.take(i + 1).last() == ids[i as int]);
        }
        i = i + 1;
    }
    proof {
        assert(ids.take(txs@.len() as int) =~= ids);
    }
    acc
}

/// The digest of a header: the fold of its scalars into the accumulator.
pub open spec fn spec_header_digest(h: BlockHeader) -> u64 {
    spec_combine(
        spec_combine(
            spec_combine(
                spec_combine(spec_combine(EMPTY_ROOT, h.height as u64), h.timestamp as u64),
                h.difficulty_target,
            ),
            h.nonce,
        ),
        h.transactions_root,
    )
}

/// The hash of a block: the digest of its header folded onto its parent hash.
/// It is a function of the block's content alone.
pub open spec fn spec_block_hash_of(previous_block_hash: u64, header: BlockHeader) -> u64 {
    spec_combine(previous_block_hash, spec_header_digest(header))
}

/// The hash of a block, by its mathematical image.
pub open spec fn spec_block_hash(b: BlockView) -> u64 {
    spec_block_hash_of(b.previous_block_hash, b.header)
}

/// Computes the digest of a header.
pub fn header_digest(h: &BlockHeader) -> (r: u64)
    ensures
        r == spec_header_digest(*h),
{
    let a = combine(EMPTY_ROOT, h.height as u64);
    let b = combine(a, h.timestamp as u64);
    let c = combine(b, h.difficulty_target);
    let d = combine(c, h.nonce);
    combine(d, h.transactions_root)
}

/// Computes a block hash from a parent hash and a header.
pub fn block_hash_of(previous_block_hash: u64, header: &BlockHeader) -> (r: u64)
    ensures
        r == spec_block_hash_of(previous_block_hash, *header),
{
    combine(previous_block_hash, header_digest(header))
}

impl Block {
    /// The hash of this block.
    pub fn hash(&self) -> (r: u64)
        ensures
            r == spec_block_hash(self@),
    {
        block_hash_of(self.previous_block_hash, &self.header)
    }

    /// The height this block claims.
    pub fn height(&self) -> (r: u32)
        ensures
            r == self.header.height,
    {
        self.header.height
    }

    /// The timestamp of this block.
    pub fn timestamp(&self) -> (r: i64)
        ensures
            r == self.header.timestamp,
    {
        self.header.timestamp
    }

    /// The difficulty target of this block.
    pub fn difficulty_target(&self) -> (r: u64)
        ensures
            r == self.header.difficulty_target,
    {
        self.header.difficulty_target
    }

    /// The header of this block.
    pub fn header(&self) -> (r: BlockHeader)
        ensures
            r == self.header,
    {
        self.header
    }
}

/// The genesis header.
pub open spec fn spec_genesis_header() -> BlockHeader {
    BlockHeader {
        height: 0,
        timestamp: 0,
        difficulty_target: GENESIS_DIFFICULTY_TARGET,
        nonce: 0,
        transactions_root: EMPTY_ROOT,
    }
}

/// The mathematical image of the genesis block: no parent, the genesis
/// header, no transactions.
pub open spec fn spec_genesis_view() -> BlockView {
    BlockView {
        previous_block_hash: 0,
        header: spec_genesis_header(),
        transactions: Seq::empty(),
    }
}

/// Builds the genesis block.
pub fn genesis_block() -> (b: Block)
    ensures
        b@ == spec_genesis_view(),
{
    let b = Block {
        previous_block_hash: 0,
        header: BlockHeader {
            height: 0,
            timestamp: 0,
            difficulty_target: GENESIS_DIFFICULTY_TARGET,
            nonce: 0,
            transactions_root: EMPTY_ROOT,
        },
        transactions: Vec::new(),
    };
    proof {
        assert(b@ =~= spec_genesis_view());
    }
    b
}

/// A header is valid when its scalars are well formed: a positive difficulty
/// target, a non-negative timestamp, and at height zero the genesis header
/// itself. Proof-of-work validity is delegated and not constrained here.
pub open spec fn spec_header_is_valid(h: BlockHeader) -> bool {
    &&& h.difficulty_target > 0
    &&& h.timestamp >= 0
    &&& (h.height == 0 ==> h == spec_genesis_header())
}

/// Executable twin of [`spec_header_is_valid`].
pub fn header_is_valid(h: &BlockHeader) -> (r: bool)
    ensures
        r == spec_header_is_valid(*h),
{
    h.difficulty_target > 0 && h.timestamp >= 0 && (h.height != 0 || (h.timestamp == 0
        && h.difficulty_target == GENESIS_DIFFICULTY_TARGET && h.nonce == 0
        && h.transactions_root == EMPTY_ROOT))
}

} // verus!
