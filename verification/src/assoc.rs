//! Small association tables backed by vectors.
//!
//! The peer registry keeps each of its maps as a vector of key/value pairs
//! with pairwise-distinct keys, and each of its sets as a vector of distinct
//! elements. The operations here state exactly how membership, lookup and
//! length change.

use vstd::prelude::*;
use crate::address::Addr;

verus! {

/// The keys of the pairs are pairwise distinct.
pub open spec fn spec_pairs_unique<K, V>(s: Seq<(K, V)>) -> bool {
    forall|i: int, j: int| 0 <= i < j < s.len() ==> (#[trigger] s[i]).0 != (#[trigger] s[j]).0
}

/// Some pair carries this key.
pub open spec fn spec_pair_has<K, V>(s: Seq<(K, V)>, key: K) -> bool {
    exists|i: int| 0 <= i < s.len() && (#[trigger] s[i]).0 == key
}

/// The value paired with this key; meaningful only under
/// [`spec_pair_has`] and [`spec_pairs_unique`].
pub open spec fn spec_pair_get<K, V>(s: Seq<(K, V)>, key: K) -> V {
    let i = choose|i: int| 0 <= i < s.len() && (#[trigger] s[i]).0 == key;
    s[i].1
}

/// With distinct keys, the pair at any index is what lookup returns.
pub proof fn lemma_pair_get<K, V>(s: Seq<(K, V)>, i: int)
    requires
        spec_pairs_unique(s),
        0 <= i < s.len(),
    ensures
        spec_pair_has(s, s[i].0),
        spec_pair_get(s, s[i].0) == s[i].1,
{
    let key = s[i].0;
    assert(spec_pair_has(s, key));
    let j = choose|j: int| 0 <= j < s.len() && (#[trigger] s[j]).0 == key;
    if i < j {
        assert(s[i].0 != s[j].0);
    } else if j < i {
        assert(s[j].0 != s[i].0);
    }
}

/// The elements are pairwise distinct.
pub open spec fn spec_elems_unique<T>(s: Seq<T>) -> bool {
    forall|i: int, j: int| 0 <= i < j < s.len() ==> s[i] != s[j]
}

/// The index of the pair carrying this key, if any.
pub fn addr_pair_find<V>(m: &Vec<(Addr, V)>, key: Addr) -> (r: Option<usize>)
    ensures
        match r {
            Some(i) => i < m@.len() && m@[i as int].0 == key,
            None => !spec_pair_has(m@, key),
        },
{
    let mut i: usize = 0;
    while i < m.len()
        invariant
            i <= m@.len(),
            forall|j: int| 0 <= j < i ==> (#[trigger] m@[j]).0 != key,
        decreases m@.len() - i,
    {
        if m[i].0.ip == key.ip && m[i].0.port == key.port {
            return Some(i);
        }
        i = i + 1;
    }
    None
}

/// The index of the pair carrying this key, if any.
pub fn id_pair_find<V>(m: &Vec<(u64, V)>, key: u64) -> (r: Option<usize>)
    ensures
        match r {
            Some(i) => i < m@.len() && m@[i as int].0 == key,
            None => !spec_pair_has(m@, key),
        },
{
    let mut i: usize = 0;
    while i < m.len()
        invariant
            i <= m@.len(),
            forall|j: int| 0 <= j < i ==> (#[trigger] m@[j]).0 != key,
        decreases m@.len() - i,
    {
        if m[i].0 == key {
            return Some(i);
        }
        i = i + 1;
    }
    None
}

/// How an upsert changes a table: the key now carries the value, every other
/// key is untouched, and the length grows exactly when the key was new.
pub open spec fn spec_upserted<K, V>(old_m: Seq<(K, V)>, new_m: Seq<(K, V)>, key: K, value: V) -> bool {
    &&& spec_pairs_unique(new_m)
    &&& spec_pair_has(new_m, key)
    &&& spec_pair_get(new_m, key) == value
    &&& forall|k: K| k != key ==> #[trigger] spec_pair_has(new_m, k) == spec_pair_has(old_m, k)
    &&& forall|k: K| k != key && spec_pair_has(old_m, k) ==> #[trigger] spec_pair_get(new_m, k)
        == spec_pair_get(old_m, k)
    &&& new_m.len() == old_m.len() + (if spec_pair_has(old_m, key) {
        0int
    } else {
        1int
    })
}

/// How a removal changes a table: the key is gone, every other key is
/// untouched, and the length shrinks exactly when the key was present.
pub open spec fn spec_removed<K, V>(old_m: Seq<(K, V)>, new_m: Seq<(K, V)>, key: K) -> bool {
    &&& spec_pairs_unique(new_m)
    &&& !spec_pair_has(new_m, key)
    &&& forall|k: K| k != key ==> #[trigger] spec_pair_has(new_m, k) == spec_pair_has(old_m, k)
    &&& forall|k: K| k != key && spec_pair_has(old_m, k) ==> #[trigger] spec_pair_get(new_m, k)
        == spec_pair_get(old_m, k)
    &&& new_m.len() == old_m.len() - (if spec_pair_has(old_m, key) {
        1int
    } else {
        0int
    })
}

/// Binds or replaces the value for this key.
pub fn addr_map_upsert<V>(m: &mut Vec<(Addr, V)>, key: Addr, value: V)
    requires
        spec_pairs_unique(old(m)@),
    ensures
        spec_upserted(old(m)@, final(m)@, key, value),
{
    let found = addr_pair_find(m, key);
    match found {
        Some(i) => {
            m.set(i, (key, value));
            proof {
                lemma_upsert_at(old(m)@, m@, key, value, i as int);
            }
        },
        None => {
            m.push((key, value));
            proof {
                lemma_upsert_pushed(old(m)@, m@, key, value);
            }
        },
    }
}

/// Binds or replaces the value for this key.
pub fn id_map_upsert<V>(m: &mut Vec<(u64, V)>, key: u64, value: V)
    requires
        spec_pairs_unique(old(m)@),
    ensures
        spec_upserted(old(m)@, final(m)@, key, value),
{
    let found = id_pair_find(m, key);
    match found {
        Some(i) => {
            m.set(i, (key, value));
            proof {
                lemma_upsert_at(old(m)@, m@, key, value, i as int);
            }
        },
        None => {
            m.push((key, value));
            proof {
                lemma_upsert_pushed(old(m)@, m@, key, value);
            }
        },
    }
}

/// Replacing the pair at the key's own index is an upsert.
proof fn lemma_upsert_at<K, V>(old_m: Seq<(K, V)>, new_m: Seq<(K, V)>, key: K, value: V, i: int)
    requires
        spec_pairs_unique(old_m),
        0 <= i < old_m.len(),
        old_m[i].0 == key,
        new_m == old_m.update(i, (key, value)),
    ensures
        spec_upserted(old_m, new_m, key, value),
{
    assert(spec_pairs_unique(new_m));
    lemma_pair_get(new_m, i);
    lemma_pair_get(old_m, i);
    assert forall|k: K| k != key implies #[trigger] spec_pair_has(new_m, k) == spec_pair_has(
        old_m,
        k,
    ) by {
        if spec_pair_has(old_m, k) {
            let j = choose|j: int| 0 <= j < old_m.len() && (#[trigger] old_m[j]).0 == k;
            assert(new_m[j].0 == k);
        }
        if spec_pair_has(new_m, k) {
            let j = choose|j: int| 0 <= j < new_m.len() && (#[trigger] new_m[j]).0 == k;
            assert(old_m[j].0 == k);
        }
    }
    assert forall|k: K| k != key && spec_pair_has(old_m, k) implies #[trigger] spec_pair_get(
        new_m,
        k,
    ) == spec_pair_get(old_m, k) by {
        let j = choose|j: int| 0 <= j < old_m.len() && (#[trigger] old_m[j]).0 == k;
        lemma_pair_get(old_m, j);
        assert(new_m[j].0 == k);
        lemma_pair_get(new_m, j);
    }
}

/// Appending a fresh key is an upsert.
proof fn lemma_upsert_pushed<K, V>(old_m: Seq<(K, V)>, new_m: Seq<(K, V)>, key: K, value: V)
    requires
        spec_pairs_unique(old_m),
        !spec_pair_has(old_m, key),
        new_m == old_m.push((key, value)),
    ensures
        spec_upserted(old_m, new_m, key, value),
{
    let n = old_m.len() as int;
    assert forall|i: int, j: int| 0 <= i < j < new_m.len() implies (#[trigger] new_m[i]).0 != (
    #[trigger] new_m[j]).0 by {
        if j < n {
            assert(old_m[i].0 != old_m[j].0);
        } else {
            assert(new_m[j].0 == key);
            assert(new_m[i].0 == old_m[i].0);
        }
    }
    lemma_pair_get(new_m, n);
    assert forall|k: K| k != key implies #[trigger] spec_pair_has(new_m, k) == spec_pair_has(
        old_m,
        k,
    ) by {
        if spec_pair_has(old_m, k) {
            let j = choose|j: int| 0 <= j < old_m.len() && (#[trigger] old_m[j]).0 == k;
            assert(new_m[j].0 == k);
        }
        if spec_pair_has(new_m, k) {
            let j = choose|j: int| 0 <= j < new_m.len() && (#[trigger] new_m[j]).0 == k;
            assert(j < n);
            assert(old_m[j].0 == k);
        }
    }
    assert forall|k: K| k != key && spec_pair_has(old_m, k) implies #[trigger] spec_pair_get(
        new_m,
        k,
    ) == spec_pair_get(old_m, k) by {
        let j = choose|j: int| 0 <= j < old_m.len() && (#[trigger] old_m[j]).0 == k;
        lemma_pair_get(old_m, j);
        assert(new_m[j].0 == k);
        lemma_pair_get(new_m, j);
    }
}

/// Removing an index whose key this is, is a removal.
proof fn lemma_removed_at<K, V>(old_m: Seq<(K, V)>, new_m: Seq<(K, V)>, key: K, i: int)
    requires
        spec_pairs_unique(old_m),
        0 <= i < old_m.len(),
        old_m[i].0 == key,
        new_m == old_m.remove(i),
    ensures
        spec_removed(old_m, new_m, key),
{
    assert forall|a: int, b: int| 0 <= a < b < new_m.len() implies (#[trigger] new_m[a]).0 != (
    #[trigger] new_m[b]).0 by {
        let a0 = if a < i { a } else { a + 1 };
        let b0 = if b < i { b } else { b + 1 };
        assert(new_m[a] == old_m[a0]);
        assert(new_m[b] == old_m[b0]);
        assert(old_m[a0].0 != old_m[b0].0);
    }
    assert forall|j: int| 0 <= j < new_m.len() implies (#[trigger] new_m[j]).0 != key by {
        let j0 = if j < i { j } else { j + 1 };
        assert(new_m[j] == old_m[j0]);
        if j0 != i {
            assert(old_m[j0].0 != old_m[i].0 || old_m[i].0 != old_m[j0].0);
        }
    }
    assert forall|k: K| k != key implies #[trigger] spec_pair_has(new_m, k) == spec_pair_has(
        old_m,
        k,
    ) by {
        if spec_pair_has(old_m, k) {
            let j = choose|j: int| 0 <= j < old_m.len() && (#[trigger] old_m[j]).0 == k;
            let j1 = if j < i { j } else { j - 1 };
            assert(new_m[j1] == old_m[j]);
        }
        if spec_pair_has(new_m, k) {
            let j = choose|j: int| 0 <= j < new_m.len() && (#[trigger] new_m[j]).0 == k;
            let j0 = if j < i { j } else { j + 1 };
            assert(old_m[j0] == new_m[j]);
        }
    }
    assert forall|k: K| k != key && spec_pair_has(old_m, k) implies #[trigger] spec_pair_get(
        new_m,
        k,
    ) == spec_pair_get(old_m, k) by {
        let j = choose|j: int| 0 <= j < old_m.len() && (#[trigger] old_m[j]).0 == k;
        lemma_pair_get(old_m, j);
        let j1 = if j < i { j } else { j - 1 };
        assert(new_m[j1] == old_m[j]);
        lemma_pair_get(new_m, j1);
    }
}

/// Unbinds this key, if bound.
pub fn addr_map_remove<V>(m: &mut Vec<(Addr, V)>, key: Addr)
    requires
        spec_pairs_unique(old(m)@),
    ensures
        spec_removed(old(m)@, final(m)@, key),
{
    let found = addr_pair_find(m, key);
    match found {
        Some(i) => {
            m.remove(i);
            proof {
                lemma_removed_at(old(m)@, m@, key, i as int);
            }
        },
        None => {
            proof {
                assert(spec_removed(old(m)@, m@, key));
            }
        },
    }
}

/// Whether the set holds this address.
pub fn addr_set_contains(s: &Vec<Addr>, a: Addr) -> (r: bool)
    ensures
        r == s@.contains(a),
{
    let mut i: usize = 0;
    while i < s.len()
        invariant
            i <= s@.len(),
            forall|j: int| 0 <= j < i ==> s@[j] != a,
        decreases s@.len() - i,
    {
        if s[i].ip == a.ip && s[i].port == a.port {
            proof {
                assert(s@[i as int] == a);
            }
            return true;
        }
        i = i + 1;
    }
    false
}

/// Adds an address to the set, if absent.
pub fn addr_set_insert(s: &mut Vec<Addr>, a: Addr)
    requires
        spec_elems_unique(old(s)@),
    ensures
        spec_elems_unique(final(s)@),
        forall|x: Addr| final(s)@.contains(x) <==> (old(s)@.contains(x) || x == a),
        final(s)@.len() == old(s)@.len() + (if old(s)@.contains(a) {
            0int
        } else {
            1int
        }),
    {
    if !addr_set_contains(s, a) {
        s.push(a);
        proof {
            assert forall|x: Addr| final(s)@.contains(x) implies (old(s)@.contains(x) || x
                == a) by {
                let j = choose|j: int| 0 <= j < final(s)@.len() && final(s)@[j] == x;
                if j < old(s)@.len() {
                    assert(old(s)@[j] == x);
                }
            }
            assert forall|x: Addr| (old(s)@.contains(x) || x == a) implies final(s)@.contains(
                x,
            ) by {
                if old(s)@.contains(x) {
                    let j = choose|j: int| 0 <= j < old(s)@.len() && old(s)@[j] == x;
                    assert(final(s)@[j] == x);
                } else {
                    assert(final(s)@[old(s)@.len() as int] == a);
                }
            }
        }
    }
}

/// Drops an address from the set, if present.
pub fn addr_set_remove(s: &mut Vec<Addr>, a: Addr)
    requires
        spec_elems_unique(old(s)@),
    ensures
        spec_elems_unique(final(s)@),
        forall|x: Addr| final(s)@.contains(x) <==> (old(s)@.contains(x) && x != a),
        final(s)@.len() == old(s)@.len() - (if old(s)@.contains(a) {
            1int
        } else {
            0int
        }),
{
    let mut i: usize = 0;
    while i < s.len()
        invariant
            i <= s@.len(),
            spec_elems_unique(s@),
            s == old(s),
            forall|j: int| 0 <= j < i ==> s@[j] != a,
        decreases s@.len() - i,
    {
        if s[i].ip == a.ip && s[i].port == a.port {
            proof {
                assert(s@[i as int] == a);
            }
            s.remove(i);
            proof {
                let oldv = old(s)@;
                let newv = s@;
                assert forall|x: int, y: int| 0 <= x < y < newv.len() implies newv[x] != newv[
                    y
                ] by {
                    let x0 = if x < i { x } else { x + 1 };
                    let y0 = if y < i { y } else { y + 1 };
                    assert(newv[x] == oldv[x0]);
                    assert(newv[y] == oldv[y0]);
                }
                assert forall|x: Addr| newv.contains(x) implies (oldv.contains(x) && x != a) by {
                    let j = choose|j: int| 0 <= j < newv.len() && newv[j] == x;
                    let j0 = if j < i { j } else { j + 1 };
                    assert(oldv[j0] == x);
                    if j0 != i {
                        assert(oldv[j0] != oldv[i as int]);
                    }
                }
                assert forall|x: Addr| (oldv.contains(x) && x != a) implies newv.contains(x) by {
                    let j = choose|j: int| 0 <= j < oldv.len() && oldv[j] == x;
                    let j1 = if j < i { j } else { j - 1 };
                    assert(newv[j1] == x);
                }
            }
            return ;
        }
        i = i + 1;
    }
    proof {
        assert forall|x: Addr| s@.contains(x) implies (old(s)@.contains(x) && x != a) by {
            let j = choose|j: int| 0 <= j < s@.len() && s@[j] == x;
        }
    }
}

} // verus!
