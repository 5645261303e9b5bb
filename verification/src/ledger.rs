//! The canonical ledger state machine.
//!
//! The ledger owns the canonical chain: a sequence of blocks indexed by
//! height, starting at the fixed genesis block. It is mutated only by
//! [`LedgerState::add_next_block`] (monotonic append) and
//! [`LedgerState::revert_to_block_height`] (truncation, never below genesis),
//! and after either mutation the ledger root equals the accumulator root of
//! exactly the canonical block hashes.

use vstd::prelude::*;
use crate::block::{
    Block, BlockHeader, BlockView, Metadata, Transaction, spec_block_hash, spec_genesis_view,
    spec_header_is_valid, spec_transactions_root, genesis_block, transactions_root, block_hash_of,
    header_is_valid,
};
use crate::ledger_tree::{LedgerTree, spec_root, spec_combine, combine, EMPTY_ROOT};

verus! {

/// The largest number of transactions one block may carry.
pub const MAXIMUM_TRANSACTIONS_PER_BLOCK: usize = 65535;

/// Everything that can go wrong inside the ledger.
#[derive(Clone, Copy, PartialEq, Eq, Structural, Debug)]
pub enum LedgerError {
    /// The appended block does not claim the next height.
    IncorrectHeight {
        /// The height the chain expects next.
        expected: u64,
        /// The height the block claims.
        found: u64,
    },
    /// The appended block does not reference the current tip.
    IncorrectPreviousBlockHash {
        /// The hash of the current tip.
        expected: u64,
        /// The parent hash the block claims.
        found: u64,
    },
    /// The appended block fails validation.
    InvalidBlock,
    /// A height outside the canonical range.
    InvalidBlockHeight(u32),
    /// An empty or inverted block range.
    InvalidRange {
        /// The requested first height.
        start: u32,
        /// The requested last height.
        end: u32,
    },
    /// A revert target above the current tip.
    InvalidRevertHeight {
        /// The requested target height.
        requested: u32,
        /// The current tip height.
        latest: u32,
    },
    /// A block timestamp not after the tip's.
    InvalidTimestamp {
        /// The tip's timestamp, which must be exceeded.
        minimum: i64,
        /// The offending timestamp.
        claimed: i64,
    },
    /// The chain has reached the largest representable height.
    MaximumHeightReached,
    /// More transactions than one block may carry.
    TooManyTransactions,
    /// No canonical block has this hash.
    UnknownBlockHash(u64),
    /// No canonical transaction has this identifier.
    UnknownTransaction(u64),
    /// No canonical transition has this identifier.
    UnknownTransition(u64),
    /// No canonical record ciphertext has this identifier.
    UnknownCiphertext(u64),
}

/// The hashes of a chain's blocks, in height order.
pub open spec fn spec_chain_hashes(c: Seq<BlockView>) -> Seq<u64> {
    c.map_values(|b: BlockView| spec_block_hash(b))
}

/// Whether `b` is a valid direct successor of the tip `prev`.
pub open spec fn spec_valid_next_of(prev: BlockView, b: BlockView) -> bool {
    &&& b.header.height == prev.header.height + 1
    &&& b.previous_block_hash == spec_block_hash(prev)
    &&& b.header.transactions_root == spec_transactions_root(b.transactions)
    &&& b.header.timestamp > prev.header.timestamp
    &&& b.transactions.len() <= MAXIMUM_TRANSACTIONS_PER_BLOCK
    &&& spec_header_is_valid(b.header)
}

/// Whether `b` may be appended to the chain `c`.
pub open spec fn spec_valid_next(c: Seq<BlockView>, b: BlockView) -> bool {
    c.len() >= 1 && spec_valid_next_of(c.last(), b)
}

/// Well-formedness of a canonical chain: it starts at genesis, every block
/// sits at the height it claims, and every block validly extends its parent.
pub open spec fn spec_chain_wf(c: Seq<BlockView>) -> bool {
    &&& c.len() >= 1
    &&& c[0] == spec_genesis_view()
    &&& forall|h: int| 0 <= h < c.len() ==> (#[trigger] c[h]).header.height == h
    &&& forall|h: int| 1 <= h < c.len() ==> spec_valid_next_of(c[h - 1], #[trigger] c[h])
}

/// The error that `add_next_block` reports for an invalid block, by the
/// first failing check.
pub open spec fn spec_add_error(c: Seq<BlockView>, b: BlockView) -> LedgerError {
    if b.header.height != c.len() {
        LedgerError::IncorrectHeight { expected: c.len() as u64, found: b.header.height as u64 }
    } else if b.previous_block_hash != spec_block_hash(c.last()) {
        LedgerError::IncorrectPreviousBlockHash {
            expected: spec_block_hash(c.last()),
            found: b.previous_block_hash,
        }
    } else {
        LedgerError::InvalidBlock
    }
}

/// The coinbase transaction paying the block reward at `height` to
/// `recipient`; its identifiers derive from the payout alone.
pub open spec fn spec_coinbase_transaction(recipient: u64, height: u32) -> Transaction {
    let tid = spec_combine(spec_combine(EMPTY_ROOT, recipient), height as u64);
    Transaction {
        transaction_id: tid,
        transition_id: spec_combine(tid, 1),
        ciphertext_id: spec_combine(tid, 2),
        ciphertext: recipient,
    }
}

/// Executable twin of [`spec_coinbase_transaction`].
pub fn coinbase_transaction(recipient: u64, height: u32) -> (t: Transaction)
    ensures
        t == spec_coinbase_transaction(recipient, height),
{
    let tid = combine(combine(EMPTY_ROOT, recipient), height as u64);
    Transaction {
        transaction_id: tid,
        transition_id: combine(tid, 1),
        ciphertext_id: combine(tid, 2),
        ciphertext: recipient,
    }
}

/// The block that mining on top of the chain `c` produces: the coinbase for
/// `recipient` followed by the given transactions, at the next height, on the
/// current tip. The proof-of-work search is delegated, so the nonce is left
/// at zero and the difficulty target is carried over from the tip.
pub open spec fn spec_mined_view(
    c: Seq<BlockView>,
    recipient: u64,
    transactions: Seq<Transaction>,
    timestamp: i64,
) -> BlockView {
    let all = seq![spec_coinbase_transaction(recipient, c.len() as u32)] + transactions;
    BlockView {
        previous_block_hash: spec_block_hash(c.last()),
        header: BlockHeader {
            height: c.len() as u32,
            timestamp,
            difficulty_target: c.last().header.difficulty_target,
            nonce: 0,
            transactions_root: spec_transactions_root(all),
        },
        transactions: all,
    }
}

/// The error that `mine_next_block` reports, by the first failing check.
pub open spec fn spec_mine_error(
    c: Seq<BlockView>,
    transactions: Seq<Transaction>,
    timestamp: i64,
) -> LedgerError {
    if c.len() > u32::MAX {
        LedgerError::MaximumHeightReached
    } else if timestamp <= c.last().header.timestamp {
        LedgerError::InvalidTimestamp { minimum: c.last().header.timestamp, claimed: timestamp }
    } else {
        LedgerError::TooManyTransactions
    }
}

/// A predicate on transactions, used to search the canonical chain.
pub type TransactionPredicate = spec_fn(Transaction) -> bool;

/// The first index in `ts` whose transaction satisfies `p`.
pub open spec fn spec_find_in_txs(ts: Seq<Transaction>, p: TransactionPredicate) -> Option<int>
    decreases ts.len(),
{
    if ts.len() == 0 {
        None
    } else if p(ts.first()) {
        Some(0)
    } else {
        match spec_find_in_txs(ts.drop_first(), p) {
            Some(k) => Some(k + 1),
            None => None,
        }
    }
}

/// The first location `(height, index)` on the chain `c`, in ascending
/// height order and block order, whose transaction satisfies `p`.
pub open spec fn spec_find_location(c: Seq<BlockView>, p: TransactionPredicate) -> Option<
    (int, int),
>
    decreases c.len(),
{
    if c.len() == 0 {
        None
    } else {
        match spec_find_in_txs(c.first().transactions, p) {
            Some(k) => Some((0, k)),
            None => match spec_find_location(c.drop_first(), p) {
                Some(loc) => Some((loc.0 + 1, loc.1)),
                None => None,
            },
        }
    }
}

/// If no transaction of `ts` satisfies `p`, the search over `ts` is empty.
pub proof fn lemma_find_in_txs_none(ts: Seq<Transaction>, p: TransactionPredicate)
    requires
        forall|j: int| 0 <= j < ts.len() ==> !p(#[trigger] ts[j]),
    ensures
        spec_find_in_txs(ts, p) is None,
    decreases ts.len(),
{
    if ts.len() > 0 {
        lemma_find_in_txs_none(ts.drop_first(), p);
    }
}

/// If `k` is the first index of `ts` satisfying `p`, the search finds it.
pub proof fn lemma_find_in_txs_at(ts: Seq<Transaction>, p: TransactionPredicate, k: int)
    requires
        0 <= k < ts.len(),
        p(ts[k]),
        forall|j: int| 0 <= j < k ==> !p(#[trigger] ts[j]),
    ensures
        spec_find_in_txs(ts, p) == Some(k),
    decreases k,
{
    if k > 0 {
        lemma_find_in_txs_at(ts.drop_first(), p, k - 1);
    }
}

/// If no block of `c` holds a transaction satisfying `p`, the search over
/// `c` is empty.
pub proof fn lemma_find_location_none(c: Seq<BlockView>, p: TransactionPredicate)
    requires
        forall|h: int| 0 <= h < c.len() ==> spec_find_in_txs((#[trigger] c[h]).transactions, p)
            is None,
    ensures
        spec_find_location(c, p) is None,
    decreases c.len(),
{
    if c.len() > 0 {
        lemma_find_location_none(c.drop_first(), p);
    }
}

/// If `h` is the first block with a match and `k` the first match inside it,
/// the search over `c` finds `(h, k)`.
pub proof fn lemma_find_location_at(c: Seq<BlockView>, p: TransactionPredicate, h: int, k: int)
    requires
        0 <= h < c.len(),
        spec_find_in_txs(c[h].transactions, p) == Some(k),
        forall|j: int| 0 <= j < h ==> spec_find_in_txs((#[trigger] c[j]).transactions, p) is None,
    ensures
        spec_find_location(c, p) == Some((h, k)),
    decreases h,
{
    if h > 0 {
        lemma_find_location_at(c.drop_first(), p, h - 1, k);
    }
}

/// The canonical ledger: the chain of blocks and the incremental
/// accumulator over their hashes.
pub struct LedgerState {
    /// The canonical chain; the block at index `h` is the block at height `h`.
    pub blocks: Vec<Block>,
    /// The accumulator over the canonical block hashes.
    pub tree: LedgerTree,
}

impl View for LedgerState {
    type V = Seq<BlockView>;

    open spec fn view(&self) -> Seq<BlockView> {
        self.blocks@.map_values(|b: Block| b@)
    }
}

impl LedgerState {
    /// The ledger is well formed when its chain is and its accumulator has
    /// absorbed exactly the canonical hashes.
    pub open spec fn wf(&self) -> bool {
        &&& spec_chain_wf(self@)
        &&& self.tree.wf()
        &&& self.tree@ == spec_chain_hashes(self@)
    }

    /// Opens a fresh ledger, holding exactly the genesis block.
    ///
    /// The height is zero, the tip hash is the genesis hash, and the ledger
    /// root is the accumulator root of the genesis hash alone.
    pub fn open() -> (l: LedgerState)
        ensures
            l.wf(),
            l@ == seq![spec_genesis_view()],
    {
        let g = genesis_block();
        let h = g.hash();
        let mut blocks: Vec<Block> = Vec::new();
        blocks.push(g);
        let mut tree = LedgerTree::new();
        tree.add(h);
        let l = LedgerState { blocks, tree };
        proof {
            assert(l@ =~= seq![spec_genesis_view()]);
            assert(l.tree@ =~= spec_chain_hashes(l@));
        }
        l
    }

    /// The height of the canonical tip.
    pub fn latest_block_height(&self) -> (r: u32)
        requires
            self.wf(),
        ensures
            r == self@.len() - 1,
    {
        proof {
            assert(self@[self@.len() - 1].header.height == self@.len() - 1);
        }
        self.blocks[self.blocks.len() - 1].header.height
    }

    /// The canonical tip.
    pub fn latest_block(&self) -> (r: Block)
        requires
            self.wf(),
        ensures
            r@ == self@.last(),
    {
        self.blocks[self.blocks.len() - 1].clone()
    }

    /// The hash of the canonical tip.
    pub fn latest_block_hash(&self) -> (r: u64)
        requires
            self.wf(),
        ensures
            r == spec_block_hash(self@.last()),
    {
        let b = &self.blocks[self.blocks.len() - 1];
        block_hash_of(b.previous_block_hash, &b.header)
    }

    /// The header of the canonical tip.
    pub fn latest_block_header(&self) -> (r: BlockHeader)
        requires
            self.wf(),
        ensures
            r == self@.last().header,
    {
        self.blocks[self.blocks.len() - 1].header
    }

    /// The timestamp of the canonical tip.
    pub fn latest_block_timestamp(&self) -> (r: i64)
        requires
            self.wf(),
        ensures
            r == self@.last().header.timestamp,
    {
        self.blocks[self.blocks.len() - 1].header.timestamp
    }

    /// The difficulty target of the canonical tip.
    pub fn latest_block_difficulty_target(&self) -> (r: u64)
        requires
            self.wf(),
        ensures
            r == self@.last().header.difficulty_target,
    {
        self.blocks[self.blocks.len() - 1].header.difficulty_target
    }

    /// The transactions of the canonical tip.
    pub fn latest_block_transactions(&self) -> (r: Vec<Transaction>)
        requires
            self.wf(),
        ensures
            r@ == self@.last().transactions,
    {
        let b = self.blocks[self.blocks.len() - 1].clone();
        b.transactions
    }

    /// The ledger root: the accumulator root of exactly the canonical
    /// block hashes.
    pub fn latest_ledger_root(&self) -> (r: u64)
        requires
            self.wf(),
        ensures
            r == spec_root(spec_chain_hashes(self@)),
    {
        self.tree.root()
    }

    /// Appends the given block to the canonical chain.
    ///
    /// The block is accepted exactly when it claims the next height,
    /// references the tip by hash, and passes validation; on acceptance the
    /// chain grows by this one block and the ledger root is the accumulator
    /// root of the extended hash sequence. On rejection the ledger is
    /// unchanged and the error names the first failing check.
    pub fn add_next_block(&mut self, block: &Block) -> (r: Result<(), LedgerError>)
        requires
            old(self).wf(),
        ensures
            final(self).wf(),
            match r {
                Ok(()) => spec_valid_next(old(self)@, block@) && final(self)@ == old(self)@.push(
                    block@,
                ),
                Err(e) => {
                    &&& *final(self) == *old(self)
                    &&& !spec_valid_next(old(self)@, block@)
                    &&& e == spec_add_error(old(self)@, block@)
                },
            },
    {
        let expected_height = self.blocks.len();
        proof {
            assert(self@[self@.len() - 1].header.height == self@.len() - 1);
        }
        if block.header.height as u64 != expected_height as u64 {
            return Err(
                LedgerError::IncorrectHeight {
                    expected: expected_height as u64,
                    found: block.header.height as u64,
                },
            );
        }
        let latest_hash = self.latest_block_hash();
        if block.previous_block_hash != latest_hash {
            return Err(
                LedgerError::IncorrectPreviousBlockHash {
                    expected: latest_hash,
                    found: block.previous_block_hash,
                },
            );
        }
        let root = transactions_root(&block.transactions);
        let latest_timestamp = self.latest_block_timestamp();
        if block.header.transactions_root != root || block.header.timestamp <= latest_timestamp
            || block.transactions.len() > MAXIMUM_TRANSACTIONS_PER_BLOCK || !header_is_valid(
            &block.header,
        ) {
            return Err(LedgerError::InvalidBlock);
        }
        let h = block.hash();
        let appended = block.clone();
        self.blocks.push(appended);
        self.tree.add(h);
        proof {
            assert(self@ =~= old(self)@.push(block@));
            assert(self.tree@ =~= spec_chain_hashes(self@)) by {
                assert(spec_chain_hashes(self@) =~= spec_chain_hashes(old(self)@).push(
                    spec_block_hash(block@),
                ));
            }
            assert forall|h: int| 1 <= h < self@.len() implies spec_valid_next_of(
                self@[h - 1],
                #[trigger] self@[h],
            ) by {
                if h < self@.len() - 1 {
                    assert(spec_valid_next_of(old(self)@[h - 1], old(self)@[h]));
                }
            }
        }
        Ok(())
    }

    /// Reverts the canonical chain to the given height.
    ///
    /// Accepted exactly when the target height is at most the tip height;
    /// the blocks above the target are removed and returned in ascending
    /// height order, and the ledger root is rebuilt from the surviving
    /// prefix. On rejection the ledger is unchanged.
    pub fn revert_to_block_height(&mut self, block_height: u32) -> (r: Result<
        Vec<Block>,
        LedgerError,
    >)
        requires
            old(self).wf(),
        ensures
            final(self).wf(),
            match r {
                Ok(removed) => {
                    &&& block_height + 1 <= old(self)@.len()
                    &&& final(self)@ == old(self)@.subrange(0, block_height + 1)
                    &&& removed@.map_values(|b: Block| b@) == old(self)@.subrange(
                        block_height + 1,
                        old(self)@.len() as int,
                    )
                },
                Err(e) => {
                    &&& *final(self) == *old(self)
                    &&& block_height + 1 > old(self)@.len()
                    &&& e == (LedgerError::InvalidRevertHeight {
                        requested: block_height,
                        latest: (old(self)@.len() - 1) as u32,
                    })
                },
            },
    {
        let latest_height = self.latest_block_height();
        if block_height > latest_height {
            return Err(
                LedgerError::InvalidRevertHeight { requested: block_height, latest: latest_height },
            );
        }
        let n = self.blocks.len();
        proof {
            assert(self@.len() == self.blocks@.len());
            assert(block_height as int + 1 <= n as int);
        }
        let target: usize = block_height as usize + 1;
        let mut removed: Vec<Block> = Vec::new();
        let mut i: usize = target;
        while i < self.blocks.len()
            invariant
                target <= i <= self.blocks.len(),
                self == old(self),
                removed@.len() == i - target,
                forall|k: int| 0 <= k < removed@.len() ==> (#[trigger] removed@[k])@ == self@[
                    target + k
                ],
            decreases self.blocks.len() - i,
        {
            let b = self.blocks[i].clone();
            removed.push(b);
            i = i + 1;
        }
        let mut surviving: Vec<Block> = Vec::new();
        let mut tree = LedgerTree::new();
        let mut j: usize = 0;
        while j < target
            invariant
                j <= target,
                target <= self.blocks.len(),
                self == old(self),
                old(self).wf(),
                surviving@.len() == j,
                forall|k: int| 0 <= k < j ==> (#[trigger] surviving@[k])@ == self@[k],
                tree.wf(),
                tree@.len() == j,
                forall|k: int| 0 <= k < j ==> tree@[k] == spec_block_hash(#[trigger] self@[k]),
            decreases target - j,
        {
            let b = self.blocks[j].clone();
            let h = b.hash();
            surviving.push(b);
            tree.add(h);
            j = j + 1;
        }
        self.blocks = surviving;
        self.tree = tree;
        proof {
            let c = old(self)@.subrange(0, target as int);
            assert(self@ =~= c);
            assert(self.tree@ =~= spec_chain_hashes(self@));
            assert forall|h: int| 1 <= h < c.len() implies spec_valid_next_of(
                c[h - 1],
                #[trigger] c[h],
            ) by {
                assert(spec_valid_next_of(old(self)@[h - 1], old(self)@[h]));
            }
            assert(removed@.map_values(|b: Block| b@) =~= old(self)@.subrange(
                target as int,
                old(self)@.len() as int,
            ));
        }
        Ok(removed)
    }

    /// Mines the next block: the coinbase payout to `recipient` followed by
    /// the given transactions, stamped with the given time.
    ///
    /// Succeeds exactly when the chain can still grow, the timestamp is
    /// after the tip's, and the transactions fit in one block; the result is
    /// then a block that `add_next_block` accepts. The proof-of-work search
    /// itself is delegated and unconstrained here.
    pub fn mine_next_block(
        &self,
        recipient: u64,
        transactions: &Vec<Transaction>,
        timestamp: i64,
    ) -> (r: Result<Block, LedgerError>)
        requires
            self.wf(),
        ensures
            match r {
                Ok(b) => {
                    &&& self@.len() <= u32::MAX
                    &&& timestamp > self@.last().header.timestamp
                    &&& transactions@.len() + 1 <= MAXIMUM_TRANSACTIONS_PER_BLOCK
                    &&& b@ == spec_mined_view(self@, recipient, transactions@, timestamp)
                    &&& spec_valid_next(self@, b@)
                },
                Err(e) => {
                    &&& self@.len() > u32::MAX || timestamp <= self@.last().header.timestamp
                        || transactions@.len() + 1 > MAXIMUM_TRANSACTIONS_PER_BLOCK
                    &&& e == spec_mine_error(self@, transactions@, timestamp)
                },
            },
    {
        let latest_height = self.latest_block_height();
        if latest_height == u32::MAX {
            return Err(LedgerError::MaximumHeightReached);
        }
        let latest_timestamp = self.latest_block_timestamp();
        if timestamp <= latest_timestamp {
            return Err(
                LedgerError::InvalidTimestamp { minimum: latest_timestamp, claimed: timestamp },
            );
        }
        if transactions.len() > MAXIMUM_TRANSACTIONS_PER_BLOCK - 1 {
            return Err(LedgerError::TooManyTransactions);
        }
        let height = latest_height + 1;
        let coinbase = coinbase_transaction(recipient, height);
        let mut all: Vec<Transaction> = Vec::new();
        all.push(coinbase);
        let mut i: usize = 0;
        while i < transactions.len()
            invariant
                i <= transactions.len(),
                all@.len() == i + 1,
                all@[0] == coinbase,
                forall|k: int| 0 <= k < i ==> all@[k + 1] == transactions@[k],
            decreases transactions.len() - i,
        {
            all.push(transactions[i]);
            i = i + 1;
        }
        proof {
            assert(all@ =~= seq![spec_coinbase_transaction(recipient, (self@.len()) as u32)]
                + transactions@);
        }
        let root = transactions_root(&all);
        let previous_block_hash = self.latest_block_hash();
        let header = BlockHeader {
            height,
            timestamp,
            difficulty_target: self.latest_block_difficulty_target(),
            nonce: 0,
            transactions_root: root,
        };
        let b = Block { previous_block_hash, header, transactions: all };
        proof {
            assert(b@ =~= spec_mined_view(self@, recipient, transactions@, timestamp));
            assert(self@[self@.len() - 1].header.height == self@.len() - 1);
            if self@.len() >= 2 {
                assert(spec_valid_next_of(self@[self@.len() - 2], self@[self@.len() - 1]));
            }
            assert(spec_header_is_valid(b.header));
            assert(spec_valid_next(self@, b@));
        }
        Ok(b)
    }

    /// The block at the given height.
    pub fn get_block(&self, block_height: u32) -> (r: Result<Block, LedgerError>)
        requires
            self.wf(),
        ensures
            match r {
                Ok(b) => block_height < self@.len() && b@ == self@[block_height as int],
                Err(e) => block_height >= self@.len() && e == LedgerError::InvalidBlockHeight(
                    block_height,
                ),
            },
    {
        let latest_height = self.latest_block_height();
        if block_height > latest_height {
            return Err(LedgerError::InvalidBlockHeight(block_height));
        }
        Ok(self.blocks[block_height as usize].clone())
    }

    /// The hash of the block at the given height.
    pub fn get_block_hash(&self, block_height: u32) -> (r: Result<u64, LedgerError>)
        requires
            self.wf(),
        ensures
            match r {
                Ok(h) => block_height < self@.len() && h == spec_block_hash(
                    self@[block_height as int],
                ),
                Err(e) => block_height >= self@.len() && e == LedgerError::InvalidBlockHeight(
                    block_height,
                ),
            },
    {
        let latest_height = self.latest_block_height();
        if block_height > latest_height {
            return Err(LedgerError::InvalidBlockHeight(block_height));
        }
        let b = &self.blocks[block_height as usize];
        Ok(block_hash_of(b.previous_block_hash, &b.header))
    }

    /// The header of the block at the given height.
    pub fn get_block_header(&self, block_height: u32) -> (r: Result<BlockHeader, LedgerError>)
        requires
            self.wf(),
        ensures
            match r {
                Ok(h) => block_height < self@.len() && h == self@[block_height as int].header,
                Err(e) => block_height >= self@.len() && e == LedgerError::InvalidBlockHeight(
                    block_height,
                ),
            },
    {
        let latest_height = self.latest_block_height();
        if block_height > latest_height {
            return Err(LedgerError::InvalidBlockHeight(block_height));
        }
        Ok(self.blocks[block_height as usize].header)
    }

    /// The transactions of the block at the given height.
    pub fn get_block_transactions(&self, block_height: u32) -> (r: Result<
        Vec<Transaction>,
        LedgerError,
    >)
        requires
            self.wf(),
        ensures
            match r {
                Ok(ts) => block_height < self@.len() && ts@ == self@[
                    block_height as int
                ].transactions,
                Err(e) => block_height >= self@.len() && e == LedgerError::InvalidBlockHeight(
                    block_height,
                ),
            },
    {
        let latest_height = self.latest_block_height();
        if block_height > latest_height {
            return Err(LedgerError::InvalidBlockHeight(block_height));
        }
        let b = self.blocks[block_height as usize].clone();
        Ok(b.transactions)
    }

    /// The blocks from `start_block_height` to `end_block_height`, both
    /// inclusive, in ascending height order.
    pub fn get_blocks(&self, start_block_height: u32, end_block_height: u32) -> (r: Result<
        Vec<Block>,
        LedgerError,
    >)
        requires
            self.wf(),
        ensures
            match r {
                Ok(v) => {
                    &&& start_block_height <= end_block_height
                    &&& end_block_height < self@.len()
                    &&& v@.map_values(|b: Block| b@) == self@.subrange(
                        start_block_height as int,
                        end_block_height + 1,
                    )
                },
                Err(e) => {
                    &&& start_block_height > end_block_height || end_block_height >= self@.len()
                    &&& e == (if start_block_height > end_block_height {
                        LedgerError::InvalidRange {
                            start: start_block_height,
                            end: end_block_height,
                        }
                    } else {
                        LedgerError::InvalidBlockHeight(end_block_height)
                    })
                },
            },
    {
        if start_block_height > end_block_height {
            return Err(
                LedgerError::InvalidRange { start: start_block_height, end: end_block_height },
            );
        }
        let latest_height = self.latest_block_height();
        if end_block_height > latest_height {
            return Err(LedgerError::InvalidBlockHeight(end_block_height));
        }
        let n = self.blocks.len();
        proof {
            assert(self@.len() == self.blocks@.len());
            assert(end_block_height as int + 1 <= n as int);
        }
        let mut v: Vec<Block> = Vec::new();
        let mut i: usize = start_block_height as usize;
        let stop: usize = end_block_height as usize + 1;
        while i < stop
            invariant
                start_block_height as int <= i as int <= stop as int,
                stop == end_block_height + 1,
                stop <= self.blocks@.len(),
                self.wf(),
                v@.len() == i - start_block_height as int,
                forall|k: int| 0 <= k < v@.len() ==> (#[trigger] v@[k])@ == self@[
                    start_block_height + k
                ],
            decreases stop - i,
        {
            v.push(self.blocks[i].clone());
            i = i + 1;
        }
        proof {
            assert(v@.map_values(|b: Block| b@) =~= self@.subrange(
                start_block_height as int,
                end_block_height + 1,
            ));
        }
        Ok(v)
    }

    /// The hashes of the blocks from `start_block_height` to
    /// `end_block_height`, both inclusive, in ascending height order.
    pub fn get_block_hashes(&self, start_block_height: u32, end_block_height: u32) -> (r: Result<
        Vec<u64>,
        LedgerError,
    >)
        requires
            self.wf(),
        ensures
            match r {
                Ok(v) => {
                    &&& start_block_height <= end_block_height
                    &&& end_block_height < self@.len()
                    &&& v@ == spec_chain_hashes(self@).subrange(
                        start_block_height as int,
                        end_block_height + 1,
                    )
                },
                Err(e) => {
                    &&& start_block_height > end_block_height || end_block_height >= self@.len()
                    &&& e == (if start_block_height > end_block_height {
                        LedgerError::InvalidRange {
                            start: start_block_height,
                            end: end_block_height,
                        }
                    } else {
                        LedgerError::InvalidBlockHeight(end_block_height)
                    })
                },
            },
    {
        if start_block_height > end_block_height {
            return Err(
                LedgerError::InvalidRange { start: start_block_height, end: end_block_height },
            );
        }
        let latest_height = self.latest_block_height();
        if end_block_height > latest_height {
            return Err(LedgerError::InvalidBlockHeight(end_block_height));
        }
        let n = self.blocks.len();
        proof {
            assert(self@.len() == self.blocks@.len());
            assert(end_block_height as int + 1 <= n as int);
        }
        let mut v: Vec<u64> = Vec::new();
        let mut i: usize = start_block_height as usize;
        let stop: usize = end_block_height as usize + 1;
        while i < stop
            invariant
                start_block_height as int <= i as int <= stop as int,
                stop == end_block_height + 1,
                stop <= self.blocks@.len(),
                self.wf(),
                v@.len() == i - start_block_height as int,
                forall|k: int| 0 <= k < v@.len() ==> v@[k] == spec_block_hash(
                    #[trigger] self@[start_block_height + k]
                ),
            decreases stop - i,
        {
            let b = &self.blocks[i];
            v.push(block_hash_of(b.previous_block_hash, &b.header));
            i = i + 1;
        }
        proof {
            let hs = spec_chain_hashes(self@);
            assert forall|k: int| 0 <= k < v@.len() implies v@[k] == hs[
                start_block_height + k
            ] by {
                assert(hs[start_block_height + k] == spec_block_hash(
                    self@[start_block_height + k],
                ));
            }
            assert(v@ =~= hs.subrange(start_block_height as int, end_block_height + 1));
        }
        Ok(v)
    }

    /// The height of the canonical block with the given hash; if several
    /// blocks share the hash, the lowest such height.
    pub fn get_block_height(&self, block_hash: u64) -> (r: Result<u32, LedgerError>)
        requires
            self.wf(),
        ensures
            match r {
                Ok(h) => {
                    &&& h < self@.len()
                    &&& spec_block_hash(self@[h as int]) == block_hash
                    &&& forall|j: int| 0 <= j < h ==> spec_block_hash(#[trigger] self@[j])
                        != block_hash
                },
                Err(e) => {
                    &&& forall|j: int| 0 <= j < self@.len() ==> spec_block_hash(#[trigger] self@[j])
                        != block_hash
                    &&& e == LedgerError::UnknownBlockHash(block_hash)
                },
            },
    {
        let mut i: usize = 0;
        while i < self.blocks.len()
            invariant
                i <= self.blocks@.len(),
                self.wf(),
                forall|j: int| 0 <= j < i ==> spec_block_hash(#[trigger] self@[j]) != block_hash,
            decreases self.blocks.len() - i,
        {
            let b = &self.blocks[i];
            if block_hash_of(b.previous_block_hash, &b.header) == block_hash {
                proof {
                    assert(self@[i as int].header.height == i as int);
                }
                return Ok(self.blocks[i].header.height);
            }
            i = i + 1;
        }
        Err(LedgerError::UnknownBlockHash(block_hash))
    }
    /// The predicate selecting transactions with the given identifier.
    pub open spec fn spec_by_transaction_id(transaction_id: u64) -> TransactionPredicate {
        |t: Transaction| t.transaction_id == transaction_id
    }

    /// The predicate selecting transactions carrying the given transition.
    pub open spec fn spec_by_transition_id(transition_id: u64) -> TransactionPredicate {
        |t: Transaction| t.transition_id == transition_id
    }

    /// The predicate selecting transactions carrying the given ciphertext.
    pub open spec fn spec_by_ciphertext_id(ciphertext_id: u64) -> TransactionPredicate {
        |t: Transaction| t.ciphertext_id == ciphertext_id
    }

    /// The canonical transaction with the given identifier; if several
    /// match, the first in chain order.
    pub fn get_transaction(&self, transaction_id: u64) -> (r: Result<Transaction, LedgerError>)
        requires
            self.wf(),
        ensures
            match r {
                Ok(t) => (match spec_find_location(
                    self@,
                    LedgerState::spec_by_transaction_id(transaction_id),
                ) {
                    Some((h, k)) => t == self@[h].transactions[k],
                    None => false,
                }),
                Err(e) => {
                    &&& spec_find_location(
                        self@,
                        LedgerState::spec_by_transaction_id(transaction_id),
                    ) is None
                    &&& e == LedgerError::UnknownTransaction(transaction_id)
                },
            },
    {
        let ghost p = LedgerState::spec_by_transaction_id(transaction_id);
        let mut h: usize = 0;
        while h < self.blocks.len()
            invariant
                self.wf(),
                h <= self.blocks@.len(),
                p == LedgerState::spec_by_transaction_id(transaction_id),
                forall|j: int| 0 <= j < h ==> spec_find_in_txs(
                    (#[trigger] self@[j]).transactions,
                    p,
                ) is None,
            decreases self.blocks@.len() - h,
        {
            let ts = &self.blocks[h].transactions;
            let mut k: usize = 0;
            while k < ts.len()
                invariant
                    self.wf(),
                    h < self.blocks@.len(),
                    ts@ == self@[h as int].transactions,
                    k <= ts@.len(),
                    p == LedgerState::spec_by_transaction_id(transaction_id),
                    forall|j: int| 0 <= j < h ==> spec_find_in_txs(
                        (#[trigger] self@[j]).transactions,
                        p,
                    ) is None,
                    forall|j: int| 0 <= j < k ==> !p(#[trigger] ts@[j]),
                decreases ts@.len() - k,
            {
                if ts[k].transaction_id == transaction_id {
                    proof {
                        lemma_find_in_txs_at(ts@, p, k as int);
                        assert(self@[h as int].transactions == ts@);
                        lemma_find_location_at(self@, p, h as int, k as int);
                    }
                    return Ok(ts[k]);
                }
                k = k + 1;
            }
            proof {
                lemma_find_in_txs_none(ts@, p);
            }
            h = h + 1;
        }
        proof {
            lemma_find_location_none(self@, p);
        }
        Err(LedgerError::UnknownTransaction(transaction_id))
    }

    /// The location metadata of the canonical transaction with the given
    /// identifier.
    pub fn get_transaction_metadata(&self, transaction_id: u64) -> (r: Result<
        Metadata,
        LedgerError,
    >)
        requires
            self.wf(),
        ensures
            match r {
                Ok(m) => (match spec_find_location(
                    self@,
                    LedgerState::spec_by_transaction_id(transaction_id),
                ) {
                    Some((h, k)) => m == (Metadata {
                        block_height: h as u32,
                        block_hash: spec_block_hash(self@[h]),
                        block_timestamp: self@[h].header.timestamp,
                        transaction_index: k as u16,
                    }),
                    None => false,
                }),
                Err(e) => {
                    &&& spec_find_location(
                        self@,
                        LedgerState::spec_by_transaction_id(transaction_id),
                    ) is None
                    &&& e == LedgerError::UnknownTransaction(transaction_id)
                },
            },
    {
        let ghost p = LedgerState::spec_by_transaction_id(transaction_id);
        let mut h: usize = 0;
        while h < self.blocks.len()
            invariant
                self.wf(),
                h <= self.blocks@.len(),
                p == LedgerState::spec_by_transaction_id(transaction_id),
                forall|j: int| 0 <= j < h ==> spec_find_in_txs(
                    (#[trigger] self@[j]).transactions,
                    p,
                ) is None,
            decreases self.blocks@.len() - h,
        {
            let ts = &self.blocks[h].transactions;
            let mut k: usize = 0;
            while k < ts.len()
                invariant
                    self.wf(),
                    h < self.blocks@.len(),
                    ts@ == self@[h as int].transactions,
                    k <= ts@.len(),
                    p == LedgerState::spec_by_transaction_id(transaction_id),
                    forall|j: int| 0 <= j < h ==> spec_find_in_txs(
                        (#[trigger] self@[j]).transactions,
                        p,
                    ) is None,
                    forall|j: int| 0 <= j < k ==> !p(#[trigger] ts@[j]),
                decreases ts@.len() - k,
            {
                if ts[k].transaction_id == transaction_id {
                    proof {
                        lemma_find_in_txs_at(ts@, p, k as int);
                        assert(self@[h as int].transactions == ts@);
                        lemma_find_location_at(self@, p, h as int, k as int);
                        assert(self@[h as int].header.height == h as int);
                        if h == 0 {
                            assert(self@[0].transactions.len() == 0);
                        } else {
                            assert(spec_valid_next_of(self@[h - 1], self@[h as int]));
                        }
                    }
                    let located = &self.blocks[h];
                    return Ok(
                        Metadata {
                            block_height: located.header.height,
                            block_hash: block_hash_of(
                                located.previous_block_hash,
                                &located.header,
                            ),
                            block_timestamp: located.header.timestamp,
                            transaction_index: k as u16,
                        },
                    );
                }
                k = k + 1;
            }
            proof {
                lemma_find_in_txs_none(ts@, p);
            }
            h = h + 1;
        }
        proof {
            lemma_find_location_none(self@, p);
        }
        Err(LedgerError::UnknownTransaction(transaction_id))
    }

    /// The canonical transaction carrying the transition with the given
    /// identifier; if several match, the first in chain order.
    pub fn get_transition(&self, transition_id: u64) -> (r: Result<Transaction, LedgerError>)
        requires
            self.wf(),
        ensures
            match r {
                Ok(t) => (match spec_find_location(
                    self@,
                    LedgerState::spec_by_transition_id(transition_id),
                ) {
                    Some((h, k)) => t == self@[h].transactions[k],
                    None => false,
                }),
                Err(e) => {
                    &&& spec_find_location(
                        self@,
                        LedgerState::spec_by_transition_id(transition_id),
                    ) is None
                    &&& e == LedgerError::UnknownTransition(transition_id)
                },
            },
    {
        let ghost p = LedgerState::spec_by_transition_id(transition_id);
        let mut h: usize = 0;
        while h < self.blocks.len()
            invariant
                self.wf(),
                h <= self.blocks@.len(),
                p == LedgerState::spec_by_transition_id(transition_id),
                forall|j: int| 0 <= j < h ==> spec_find_in_txs(
                    (#[trigger] self@[j]).transactions,
                    p,
                ) is None,
            decreases self.blocks@.len() - h,
        {
            let ts = &self.blocks[h].transactions;
            let mut k: usize = 0;
            while k < ts.len()
                invariant
                    self.wf(),
                    h < self.blocks@.len(),
                    ts@ == self@[h as int].transactions,
                    k <= ts@.len(),
                    p == LedgerState::spec_by_transition_id(transition_id),
                    forall|j: int| 0 <= j < h ==> spec_find_in_txs(
                        (#[trigger] self@[j]).transactions,
                        p,
                    ) is None,
                    forall|j: int| 0 <= j < k ==> !p(#[trigger] ts@[j]),
                decreases ts@.len() - k,
            {
                if ts[k].transition_id == transition_id {
                    proof {
                        lemma_find_in_txs_at(ts@, p, k as int);
                        assert(self@[h as int].transactions == ts@);
                        lemma_find_location_at(self@, p, h as int, k as int);
                    }
                    return Ok(ts[k]);
                }
                k = k + 1;
            }
            proof {
                lemma_find_in_txs_none(ts@, p);
            }
            h = h + 1;
        }
        proof {
            lemma_find_location_none(self@, p);
        }
        Err(LedgerError::UnknownTransition(transition_id))
    }

    /// The canonical record ciphertext with the given identifier; if several
    /// match, the first in chain order.
    pub fn get_ciphertext(&self, ciphertext_id: u64) -> (r: Result<u64, LedgerError>)
        requires
            self.wf(),
        ensures
            match r {
                Ok(c) => (match spec_find_location(
                    self@,
                    LedgerState::spec_by_ciphertext_id(ciphertext_id),
                ) {
                    Some((h, k)) => c == self@[h].transactions[k].ciphertext,
                    None => false,
                }),
                Err(e) => {
                    &&& spec_find_location(
                        self@,
                        LedgerState::spec_by_ciphertext_id(ciphertext_id),
                    ) is None
                    &&& e == LedgerError::UnknownCiphertext(ciphertext_id)
                },
            },
    {
        let ghost p = LedgerState::spec_by_ciphertext_id(ciphertext_id);
        let mut h: usize = 0;
        while h < self.blocks.len()
            invariant
                self.wf(),
                h <= self.blocks@.len(),
                p == LedgerState::spec_by_ciphertext_id(ciphertext_id),
                forall|j: int| 0 <= j < h ==> spec_find_in_txs(
                    (#[trigger] self@[j]).transactions,
                    p,
                ) is None,
            decreases self.blocks@.len() - h,
        {
            let ts = &self.blocks[h].transactions;
            let mut k: usize = 0;
            while k < ts.len()
                invariant
                    self.wf(),
                    h < self.blocks@.len(),
                    ts@ == self@[h as int].transactions,
                    k <= ts@.len(),
                    p == LedgerState::spec_by_ciphertext_id(ciphertext_id),
                    forall|j: int| 0 <= j < h ==> spec_find_in_txs(
                        (#[trigger] self@[j]).transactions,
                        p,
                    ) is None,
                    forall|j: int| 0 <= j < k ==> !p(#[trigger] ts@[j]),
                decreases ts@.len() - k,
            {
                if ts[k].ciphertext_id == ciphertext_id {
                    proof {
                        lemma_find_in_txs_at(ts@, p, k as int);
                        assert(self@[h as int].transactions == ts@);
                        lemma_find_location_at(self@, p, h as int, k as int);
                    }
                    return Ok(ts[k].ciphertext);
                }
                k = k + 1;
            }
            proof {
                lemma_find_in_txs_none(ts@, p);
            }
            h = h + 1;
        }
        proof {
            lemma_find_location_none(self@, p);
        }
        Err(LedgerError::UnknownCiphertext(ciphertext_id))
    }
}

/// Appending blocks and then reverting is the same as never having appended
/// the reverted suffix: for a base chain extended by `extra` blocks, reverting
/// to height `h` leaves exactly the chain obtained by appending only the first
/// `h + 1 - base.len()` of them.
pub proof fn lemma_append_revert_round_trip(base: Seq<BlockView>, extra: Seq<BlockView>, h: int)
    requires
        base.len() <= h + 1 <= base.len() + extra.len(),
    ensures
        (base + extra).subrange(0, h + 1) == base + extra.subrange(0, h + 1 - base.len()),
{
    assert((base + extra).subrange(0, h + 1) =~= base + extra.subrange(0, h + 1 - base.len()));
}

/// Every observable of the ledger is a function of the canonical chain: two
/// well-formed ledgers over the same chain agree on the tip, on every hash,
/// and on the ledger root.
pub proof fn lemma_state_determined_by_chain(a: LedgerState, b: LedgerState)
    requires
        a.wf(),
        b.wf(),
        a@ == b@,
    ensures
        a@.last() == b@.last(),
        spec_chain_hashes(a@) == spec_chain_hashes(b@),
        spec_root(spec_chain_hashes(a@)) == spec_root(spec_chain_hashes(b@)),
{
}

} // verus!
