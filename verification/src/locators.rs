//! Block locators: a compact, variably dense summary of a claimed chain.
//!
//! A locator maps heights to block hashes (and, near the tip, headers). It
//! always pins the genesis block (hash only) and the tip (hash and header),
//! covers the most recent heights densely, and grows exponentially sparser
//! toward genesis. Checking a locator does not depend on which heights were
//! chosen, only that every claim matches the local canonical chain.

use vstd::prelude::*;
use crate::block::{BlockHeader, spec_block_hash, spec_header_is_valid, header_is_valid, block_hash_of, BlockView};
use crate::config::NUM_RECENT_LOCATORS;
use crate::ledger::{LedgerState, LedgerError, spec_valid_next_of};

verus! {

/// One locator claim: at `height`, the chain has `block_hash`, and near the
/// tip also this header.
#[derive(Clone, Copy, PartialEq, Eq, Debug)]
pub struct LocatorEntry {
    /// The claimed height.
    pub height: u32,
    /// The claimed block hash at that height.
    pub block_hash: u64,
    /// The claimed header, carried only for the dense recent heights and
    /// never for genesis.
    pub header: Option<BlockHeader>,
}

/// A block locator: claims in strictly descending height order.
#[derive(Debug, PartialEq)]
pub struct BlockLocators {
    /// The claims, from the tip down to genesis.
    pub entries: Vec<LocatorEntry>,
}

impl View for BlockLocators {
    type V = Seq<LocatorEntry>;

    open spec fn view(&self) -> Seq<LocatorEntry> {
        self.entries@
    }
}

impl Clone for BlockLocators {
    /// Clones the locator; the copy carries the same claims.
    fn clone(&self) -> (res: Self)
        ensures
            res@ == self@,
    {
        let mut entries: Vec<LocatorEntry> = Vec::new();
        let mut i: usize = 0;
        while i < self.entries.len()
            invariant
                i <= self.entries.len(),
                entries@ =~= self.entries@.take(i as int),
            decreases self.entries.len() - i,
        {
            entries.push(self.entries[i]);
            i = i + 1;
        }
        proof {
            assert(entries@ =~= self.entries@);
        }
        BlockLocators { entries }
    }
}

/// The first claim in `s` at the given height, if any.
pub open spec fn spec_locator_get(s: Seq<LocatorEntry>, height: u32) -> Option<
    (u64, Option<BlockHeader>),
>
    decreases s.len(),
{
    if s.len() == 0 {
        None
    } else if s.first().height == height {
        Some((s.first().block_hash, s.first().header))
    } else {
        spec_locator_get(s.drop_first(), height)
    }
}

/// The claims' heights strictly decrease from the tip to genesis.
pub open spec fn spec_strictly_descending(s: Seq<LocatorEntry>) -> bool {
    forall|i: int, j: int| 0 <= i < j < s.len() ==> s[i].height > s[j].height
}

/// One claim agrees with the local chain `c`: the hash matches wherever the
/// height is within the canonical range, a carried header sits at the claimed
/// height, is valid, and within the canonical range is the canonical header
/// itself; and genesis never carries a header.
pub open spec fn spec_locator_entry_ok(c: Seq<BlockView>, e: LocatorEntry) -> bool {
    &&& (e.height < c.len() ==> e.block_hash == spec_block_hash(c[e.height as int]))
    &&& (match e.header {
        Some(hd) => hd.height == e.height && spec_header_is_valid(hd) && (e.height < c.len()
            ==> hd == c[e.height as int].header),
        None => true,
    })
    &&& (e.height == 0 ==> e.header is None)
}

/// A locator is accepted against the local chain `c` exactly when it is
/// strictly descending, pins genesis (hash only, the correct hash), carries
/// the tip's header (unless the tip is genesis), and every claim agrees with
/// the chain.
pub open spec fn spec_check_block_locators(c: Seq<BlockView>, l: Seq<LocatorEntry>) -> bool {
    &&& l.len() >= 1
    &&& spec_strictly_descending(l)
    &&& l.last().height == 0
    &&& l.last().block_hash == spec_block_hash(c[0])
    &&& l.last().header is None
    &&& (l[0].height > 0 ==> l[0].header is Some)
    &&& forall|i: int| 0 <= i < l.len() ==> spec_locator_entry_ok(c, #[trigger] l[i])
}

/// Genesis identity of locators: a locator that is accepted against any
/// chain and whose tip claim is genesis itself consists of exactly the one
/// genesis claim, hash only. In particular, the locator of a freshly opened
/// ledger is exactly that single claim.
pub proof fn lemma_genesis_locators(c: Seq<BlockView>, l: Seq<LocatorEntry>)
    requires
        spec_check_block_locators(c, l),
        l[0].height == 0,
    ensures
        l.len() == 1,
        l[0].block_hash == spec_block_hash(c[0]),
        l[0].header is None,
{
    if l.len() >= 2 {
        assert(l[0].height > l[l.len() - 1].height);
    }
    assert(l[0] == l.last());
}

/// Adjacent descent implies pairwise descent.
proof fn lemma_descending_step(s: Seq<LocatorEntry>, i: int, j: int)
    requires
        forall|k: int| 0 <= k < s.len() - 1 ==> (#[trigger] s[k].height) > s[k + 1].height,
        0 <= i < j < s.len(),
    ensures
        s[i].height > s[j].height,
    decreases j - i,
{
    if i + 1 < j {
        lemma_descending_step(s, i + 1, j);
    }
}

impl BlockLocators {
    /// The number of claims.
    pub fn len(&self) -> (n: usize)
        ensures
            n == self@.len(),
    {
        self.entries.len()
    }

    /// The claim at the given height, if any; of several, the first.
    pub fn get(&self, height: u32) -> (r: Option<(u64, Option<BlockHeader>)>)
        ensures
            r == spec_locator_get(self@, height),
    {
        let mut i: usize = 0;
        proof {
            assert(self@.skip(0) =~= self@);
        }
        while i < self.entries.len()
            invariant
                i <= self.entries@.len(),
                spec_locator_get(self@, height) == spec_locator_get(
                    self@.skip(i as int),
                    height,
                ),
            decreases self.entries@.len() - i,
        {
            let e = self.entries[i];
            proof {
                assert(self@.skip(i as int).first() == self@[i as int]);
                assert(self@.skip(i as int).drop_first() =~= self@.skip(i + 1));
            }
            if e.height == height {
                return Some((e.block_hash, e.header));
            }
            i = i + 1;
        }
        proof {
            assert(self@.skip(self@.len() as int) =~= Seq::<LocatorEntry>::empty());
        }
        None
    }
}

impl LedgerState {
    /// The hash of the canonical block at a height known to be in range.
    fn canonical_hash_at(&self, height: u32) -> (r: u64)
        requires
            self.wf(),
            height < self@.len(),
        ensures
            r == spec_block_hash(self@[height as int]),
    {
        proof {
            assert(self@.len() == self.blocks@.len());
        }
        let b = &self.blocks[height as usize];
        block_hash_of(b.previous_block_hash, &b.header)
    }

    /// The header of the canonical block at a height known to be in range.
    fn canonical_header_at(&self, height: u32) -> (r: BlockHeader)
        requires
            self.wf(),
            height < self@.len(),
        ensures
            r == self@[height as int].header,
    {
        proof {
            assert(self@.len() == self.blocks@.len());
        }
        self.blocks[height as usize].header
    }

    /// Builds the block locator for the chain seen from `block_height`:
    /// the recent heights densely with their headers, exponentially sparser
    /// hash-only claims below them, and always genesis. The result passes
    /// [`LedgerState::check_block_locators`].
    #[verifier::rlimit(60)]
    pub fn get_block_locators(&self, block_height: u32) -> (r: Result<BlockLocators, LedgerError>)
        requires
            self.wf(),
        ensures
            match r {
                Ok(l) => {
                    &&& block_height < self@.len()
                    &&& spec_check_block_locators(self@, l@)
                    &&& l@.len() >= 1
                    &&& l@[0].height == block_height
                    &&& (forall|i: int|
                        0 <= i < l@.len() && (#[trigger] l@[i]).header is Some ==> l@[i].header
                            == Some(self@[l@[i].height as int].header))
                },
                Err(e) => {
                    &&& block_height >= self@.len()
                    &&& e == LedgerError::InvalidBlockHeight(block_height)
                },
            },
    {
        let latest_height = self.latest_block_height();
        if block_height > latest_height {
            return Err(LedgerError::InvalidBlockHeight(block_height));
        }
        let tip = block_height;
        let recent_count: u32 = if tip < NUM_RECENT_LOCATORS {
            tip
        } else {
            NUM_RECENT_LOCATORS
        };
        let mut entries: Vec<LocatorEntry> = Vec::new();
        let mut i: u32 = 0;
        while i < recent_count
            invariant
                self.wf(),
                tip < self@.len(),
                recent_count <= tip,
                i <= recent_count,
                entries@.len() == i,
                forall|k: int| 0 <= k < entries@.len() - 1 ==> (#[trigger] entries@[k].height)
                    > entries@[k + 1].height,
                forall|k: int| 0 <= k < entries@.len() ==> spec_locator_entry_ok(
                    self@,
                    #[trigger] entries@[k],
                ),
                forall|k: int| 0 <= k < entries@.len() ==> (#[trigger] entries@[k].height) > 0,
                i > 0 ==> entries@[0].height == tip && entries@[0].header is Some,
                i > 0 ==> entries@.last().height == tip - i + 1,
                tip == 0 ==> entries@.len() == 0,
            decreases recent_count - i,
        {
            let h = tip - i;
            let hd = self.canonical_header_at(h);
            let e = LocatorEntry {
                height: h,
                block_hash: self.canonical_hash_at(h),
                header: Some(hd),
            };
            proof {
                assert(self@[h as int].header.height == h as int);
                assert(spec_valid_next_of(self@[h - 1], self@[h as int]));
                assert(spec_locator_entry_ok(self@, e));
            }
            entries.push(e);
            i = i + 1;
        }
        let mut cursor: u32 = tip - recent_count;
        let mut step: u32 = 1;
        while cursor > 0
            invariant
                self.wf(),
                tip < self@.len(),
                step >= 1,
                cursor <= tip,
                entries@.len() > 0 ==> entries@.last().height > cursor,
                entries@.len() == 0 ==> cursor == tip,
                forall|k: int| 0 <= k < entries@.len() - 1 ==> (#[trigger] entries@[k].height)
                    > entries@[k + 1].height,
                forall|k: int| 0 <= k < entries@.len() ==> spec_locator_entry_ok(
                    self@,
                    #[trigger] entries@[k],
                ),
                forall|k: int| 0 <= k < entries@.len() ==> (#[trigger] entries@[k].height) > 0,
                tip > 0 ==> entries@.len() > 0 && entries@[0].height == tip && entries@[0].header
                    is Some,
                tip == 0 ==> entries@.len() == 0,
            decreases cursor,
        {
            let e = LocatorEntry {
                height: cursor,
                block_hash: self.canonical_hash_at(cursor),
                header: None,
            };
            proof {
                assert(spec_locator_entry_ok(self@, e));
            }
            entries.push(e);
            cursor = if cursor > step {
                cursor - step
            } else {
                0
            };
            step = if step <= 0x7fff_ffff {
                step * 2
            } else {
                step
            };
        }
        let genesis_entry = LocatorEntry {
            height: 0,
            block_hash: self.canonical_hash_at(0),
            header: None,
        };
        proof {
            assert(spec_locator_entry_ok(self@, genesis_entry));
        }
        entries.push(genesis_entry);
        let l = BlockLocators { entries };
        proof {
            let s = l@;
            assert(s.last() == genesis_entry);
            assert forall|a: int, b: int| 0 <= a < b < s.len() implies s[a].height
                > s[b].height by {
                lemma_descending_step(s, a, b);
            }
            assert(s[0].height == tip);
        }
        Ok(l)
    }

    /// The locator of the current tip.
    pub fn latest_block_locators(&self) -> (r: BlockLocators)
        requires
            self.wf(),
        ensures
            spec_check_block_locators(self@, r@),
            r@.len() >= 1,
            r@[0].height == self@.len() - 1,
            forall|i: int|
                0 <= i < r@.len() && (#[trigger] r@[i]).header is Some ==> r@[i].header == Some(
                    self@[r@[i].height as int].header,
                ),
    {
        let latest_height = self.latest_block_height();
        match self.get_block_locators(latest_height) {
            Ok(l) => l,
            Err(_) => vstd::pervasive::unreached(),
        }
    }

    /// Checks a locator against the local canonical chain: accepted exactly
    /// when every claim agrees with the chain as
    /// [`spec_check_block_locators`] states. A rejected locator with a hash
    /// mismatch at a shared height signals a fork.
    pub fn check_block_locators(&self, locators: &BlockLocators) -> (r: bool)
        requires
            self.wf(),
        ensures
            r == spec_check_block_locators(self@, locators@),
    {
        let n = locators.entries.len();
        if n == 0 {
            return false;
        }
        let mut i: usize = 0;
        while i + 1 < n
            invariant
                n == locators.entries@.len(),
                n >= 1,
                i < n,
                forall|k: int| 0 <= k < i ==> (#[trigger] locators.entries@[k].height)
                    > locators.entries@[k + 1].height,
            decreases n - i,
        {
            if locators.entries[i].height <= locators.entries[i + 1].height {
                return false;
            }
            i = i + 1;
        }
        proof {
            assert forall|a: int, b: int| 0 <= a < b < locators@.len() implies locators@[a].height
                > locators@[b].height by {
                lemma_descending_step(locators@, a, b);
            }
        }
        let last = locators.entries[n - 1];
        if last.height != 0 {
            return false;
        }
        if last.block_hash != self.canonical_hash_at(0) {
            return false;
        }
        match last.header {
            Some(_) => {
                return false;
            },
            None => {},
        }
        let first = locators.entries[0];
        if first.height > 0 {
            match first.header {
                Some(_) => {},
                None => {
                    return false;
                },
            }
        }
        let latest_height = self.latest_block_height();
        let mut j: usize = 0;
        while j < n
            invariant
                self.wf(),
                n == locators.entries@.len(),
                latest_height == self@.len() - 1,
                j <= n,
                forall|k: int| 0 <= k < j ==> spec_locator_entry_ok(
                    self@,
                    #[trigger] locators.entries@[k],
                ),
            decreases n - j,
        {
            let e = locators.entries[j];
            if e.height <= latest_height {
                if e.block_hash != self.canonical_hash_at(e.height) {
                    return false;
                }
            }
            match e.header {
                Some(hd) => {
                    if hd.height != e.height {
                        return false;
                    }
                    if !header_is_valid(&hd) {
                        return false;
                    }
                    if e.height == 0 {
                        return false;
                    }
                    if e.height <= latest_height {
                        let canonical = self.canonical_header_at(e.height);
                        if hd != canonical {
                            return false;
                        }
                    }
                },
                None => {},
            }
            j = j + 1;
        }
        true
    }
}

} // verus!
