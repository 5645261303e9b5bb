//! The node's two sources of randomness: the session nonce and the
//! heartbeat's choice of candidates to dial. Nothing is promised of which
//! values come back, only what membership and length the documentation
//! promises.

use vstd::prelude::*;
use crate::address::Addr;
use rand::seq::SliceRandom;

verus! {

/// Relies on rand::random: a fresh random value; nothing is promised of it.
#[verifier::external_body]
pub fn random_nonce() -> u64 {
    rand::random()
}

/// Relies on rand::seq::SliceRandom::choose_multiple: it returns
/// `min(amount, len)` elements of the slice, chosen without repetition.
#[verifier::external_body]
pub fn choose_candidates(candidates: &Vec<Addr>, amount: usize) -> (r: Vec<Addr>)
    ensures
        r@.len() == (if amount <= candidates@.len() {
            amount as int
        } else {
            candidates@.len() as int
        }),
        forall|i: int| 0 <= i < r@.len() ==> candidates@.contains(#[trigger] r@[i]),
{
    candidates.as_slice().choose_multiple(&mut rand::thread_rng(), amount).cloned().collect()
}

} // verus!
