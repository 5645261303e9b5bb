//! The ledger tree: an incremental accumulator over the sequence of canonical
//! block hashes. Its root is the *ledger root*: after every append or revert
//! the root equals the accumulator recomputed over exactly the hashes of the
//! canonical blocks, so the root is a function of the canonical chain alone.

use vstd::prelude::*;

verus! {

/// The accumulator seed for an empty hash sequence.
pub const EMPTY_ROOT: u64 = 0xcbf29ce484222325;

/// The multiplier that folds one more hash into the accumulator.
pub const ROOT_MULTIPLIER: u64 = 0x100000001b3;

/// Folds one block hash into an accumulator value.
pub open spec fn spec_combine(acc: u64, h: u64) -> u64 {
    vstd::wrapping::u64_specs::wrapping_mul(acc, ROOT_MULTIPLIER) ^ h
}

/// The ledger root of a sequence of block hashes: the left fold of
/// [`spec_combine`] starting from [`EMPTY_ROOT`].
pub open spec fn spec_root(hashes: Seq<u64>) -> u64
    decreases hashes.len(),
{
    if hashes.len() == 0 {
        EMPTY_ROOT
    } else {
        spec_combine(spec_root(hashes.drop_last()), hashes.last())
    }
}

/// Executable twin of [`spec_combine`].
pub fn combine(acc: u64, h: u64) -> (r: u64)
    ensures
        r == spec_combine(acc, h),
{
    acc.wrapping_mul(ROOT_MULTIPLIER) ^ h
}

/// The incremental accumulator over the canonical block hashes.
///
/// It stores the hashes it has absorbed together with the current root, and
/// maintains that the root always equals [`spec_root`] of those hashes.
pub struct LedgerTree {
    hashes: Vec<u64>,
    root: u64,
}

impl LedgerTree {
    /// The sequence of block hashes this tree has absorbed, in order.
    pub closed spec fn view(&self) -> Seq<u64> {
        self.hashes@
    }

    /// The tree is well formed when its cached root is the root of its hashes.
    pub closed spec fn wf(&self) -> bool {
        self.root == spec_root(self.hashes@)
    }

    /// Creates an empty ledger tree.
    pub fn new() -> (tree: LedgerTree)
        ensures
            tree.wf(),
            tree@ =~= Seq::<u64>::empty(),
    {
        LedgerTree { hashes: Vec::new(), root: EMPTY_ROOT }
    }

    /// Absorbs one more block hash.
    pub fn add(&mut self, h: u64)
        requires
            old(self).wf(),
        ensures
            final(self).wf(),
            final(self)@ =~= old(self)@.push(h),
    {
        let new_root = combine(self.root, h);
        self.hashes.push(h);
        self.root = new_root;
        proof {
            assert(self.hashes@.drop_last() =~= old(self).hashes@);
        }
    }

    /// Returns the current ledger root.
    pub fn root(&self) -> (r: u64)
        requires
            self.wf(),
        ensures
            r == spec_root(self@),
    {
        self.root
    }

    /// The number of hashes absorbed so far.
    pub fn len(&self) -> (n: usize)
        ensures
            n == self@.len(),
    {
        self.hashes.len()
    }
}

} // verus!
