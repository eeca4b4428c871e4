use vstd::prelude::*;

use crate::keys::key_order_bytes;
use crate::keys::lemma_pair_order_properties;
use crate::keys::lemma_pair_order_transitive;
use crate::keys::pair_order;
use crate::keys::CanonicalPathKey;
use crate::request::mutation_key;
use crate::request::mutation_order_key;
use crate::request::PlannedMutation;

verus! {

/// A value ordered by a canonical path key.
pub trait Keyed {
    spec fn key_view(&self) -> (Seq<char>, Seq<u8>);

    fn key_ref(&self) -> (r: &CanonicalPathKey)
        ensures
            r@ == self.key_view(),
    ;
}

/// A planned mutation is ordered by its path, or by its source for a move.
impl<P> Keyed for PlannedMutation<P> {
    open spec fn key_view(&self) -> (Seq<char>, Seq<u8>) {
        mutation_order_key(*self)@
    }

    fn key_ref(&self) -> (r: &CanonicalPathKey) {
        mutation_key(self)
    }
}

/// A (key, handle) pair is ordered by its key.
impl<P> Keyed for (CanonicalPathKey, P) {
    open spec fn key_view(&self) -> (Seq<char>, Seq<u8>) {
        self.0@
    }

    fn key_ref(&self) -> (r: &CanonicalPathKey) {
        &self.0
    }
}

/// The ordering bytes of each value's key.
pub open spec fn rank_keys<T: Keyed>(s: Seq<T>) -> Seq<(Seq<u8>, Seq<u8>)> {
    s.map_values(|x: T| key_order_bytes(x.key_view()))
}

/// Index `a` comes before index `b`: its key is smaller, or the keys are equal and it came
/// first in the request.
pub open spec fn precedes(keys: Seq<(Seq<u8>, Seq<u8>)>, a: int, b: int) -> bool {
    let c = pair_order(keys[a], keys[b]);
    c < 0 || (c == 0 && a < b)
}

/// Index `k` occurs in `order`.
pub open spec fn lists(order: Seq<usize>, k: int) -> bool {
    exists|i: int| 0 <= i < order.len() && #[trigger] order[i] == k
}

/// `order` lists every index of `keys` once, in key order, ties kept in request order.
pub open spec fn is_sorted_order(keys: Seq<(Seq<u8>, Seq<u8>)>, order: Seq<usize>) -> bool {
    &&& order.len() == keys.len()
    &&& forall|i: int| 0 <= i < order.len() ==> #[trigger] order[i] < keys.len()
    &&& forall|k: int| 0 <= k < keys.len() ==> #[trigger] lists(order, k)
    &&& forall|i: int, j: int|
        0 <= i < j < order.len() ==> precedes(keys, #[trigger] order[i] as int, #[trigger] order[j] as int)
}

/// The values in the given index order.
pub open spec fn reorder<T>(s: Seq<T>, order: Seq<usize>) -> Seq<T> {
    order.map_values(|i: usize| s[i as int])
}

pub proof fn lemma_pair_order_strict(a: (Seq<u8>, Seq<u8>), b: (Seq<u8>, Seq<u8>), c: (Seq<u8>, Seq<u8>))
    requires
        pair_order(a, b) <= 0,
        pair_order(b, c) <= 0,
        pair_order(a, b) < 0 || pair_order(b, c) < 0,
    ensures
        pair_order(a, c) < 0,
{
    lemma_pair_order_transitive(a, b, c);
    lemma_pair_order_properties(a, b);
    lemma_pair_order_properties(b, c);
    lemma_pair_order_properties(a, c);
}

/// The indices of the values sorted by key; equal keys keep their original order.
pub fn sorted_order<T: Keyed>(mutations: &Vec<T>) -> (order: Vec<usize>)
    ensures
        is_sorted_order(rank_keys(mutations@), order@),
{
    let ghost keys = rank_keys(mutations@);
    let mut order: Vec<usize> = Vec::new();
    let mut next: usize = 0;
    while next < mutations.len()
        invariant
            next <= mutations@.len(),
            keys == rank_keys(mutations@),
            order@.len() == next,
            forall|i: int| 0 <= i < order@.len() ==> #[trigger] order@[i] < next,
            forall|k: int| 0 <= k < next ==> #[trigger] lists(order@, k),
            forall|i: int, j: int|
                0 <= i < j < order@.len() ==> precedes(keys, #[trigger] order@[i] as int, #[trigger] order@[j] as int),
        decreases mutations@.len() - next,
    {
        let key = mutations[next].key_ref();
        assert(keys[next as int] == key_order_bytes(key@));
        let mut p: usize = 0;
        while p < order.len() && mutations[order[p]].key_ref().compare(key) <= 0
            invariant
                p <= order@.len(),
                next < mutations@.len(),
                keys == rank_keys(mutations@),
                keys[next as int] == key_order_bytes(key@),
                forall|i: int| 0 <= i < order@.len() ==> #[trigger] order@[i] < next,
                forall|i: int| 0 <= i < p ==> pair_order(keys[#[trigger] order@[i] as int], keys[next as int]) <= 0,
            decreases order@.len() - p,
        {
            assert(keys[order@[p as int] as int] == key_order_bytes(mutations@[order@[p as int] as int].key_view()));
            p += 1;
        }
        proof {
            if p < order@.len() {
                assert(keys[order@[p as int] as int] == key_order_bytes(mutations@[order@[p as int] as int].key_view()));
                assert(pair_order(keys[order@[p as int] as int], keys[next as int]) > 0);
                lemma_pair_order_properties(keys[order@[p as int] as int], keys[next as int]);
            }
        }
        let ghost old_order = order@;
        order.insert(p, next);
        proof {
            assert forall|i: int, j: int| 0 <= i < j < order@.len() implies precedes(
                keys,
                #[trigger] order@[i] as int,
                #[trigger] order@[j] as int,
            ) by {
                if i < p && j == p {
                } else if i == p && j > p {
                    let q = old_order[j - 1] as int;
                    let s = old_order[p as int] as int;
                    if j - 1 > p {
                        assert(precedes(keys, old_order[p as int] as int, old_order[j - 1] as int));
                    }
                    lemma_pair_order_properties(keys[s], keys[q]);
                    lemma_pair_order_properties(keys[next as int], keys[s]);
                    if j - 1 > p {
                        lemma_pair_order_strict(keys[next as int], keys[s], keys[q]);
                    }
                } else if j < p {
                    assert(order@[i] == old_order[i] && order@[j] == old_order[j]);
                } else if i < p {
                    assert(order@[i] == old_order[i] && order@[j] == old_order[j - 1]);
                } else {
                    assert(order@[i] == old_order[i - 1] && order@[j] == old_order[j - 1]);
                }
            }
            assert forall|k: int| 0 <= k < next + 1 implies #[trigger] lists(order@, k) by {
                if k == next {
                    assert(order@[p as int] == k);
                } else {
                    assert(lists(old_order, k));
                    let i = choose|i: int| 0 <= i < old_order.len() && old_order[i] == k;
                    if i < p {
                        assert(order@[i] == k);
                    } else {
                        assert(order@[i + 1] == k);
                    }
                }
            }
        }
        next += 1;
    }
    order
}

/// Sorts the values by key in place; equal keys keep their original order.
pub fn sort_by_key<T: Keyed>(v: &mut Vec<T>)
    ensures
        exists|order: Seq<usize>|
            is_sorted_order(rank_keys(old(v)@), order) && final(v)@ == reorder(old(v)@, order),
{
    let ghost original = v@;
    let ghost keys = rank_keys(original);
    let ghost n = original.len();
    let ghost mut perm: Seq<usize> = Seq::new(n, |j: int| j as usize);
    let count = v.len();
    proof {
        assert(v@ =~= reorder(original, perm));
        assert forall|k: int| 0 <= k < n implies #[trigger] lists(perm, k) by {
            assert(perm[k] == k);
        }
    }
    let mut i: usize = 0;
    while i < v.len()
        invariant
            count == n,
            original.len() == n,
            keys.len() == n,
            v@.len() == n,
            i <= n,
            keys == rank_keys(original),
            perm.len() == n,
            v@ == reorder(original, perm),
            forall|j: int| 0 <= j < n ==> #[trigger] perm[j] < n,
            forall|j: int| i <= j < n ==> #[trigger] perm[j] == j,
            forall|j: int| 0 <= j < i ==> #[trigger] perm[j] < i,
            forall|k: int| 0 <= k < n ==> #[trigger] lists(perm, k),
            forall|a: int, b: int|
                0 <= a < b < i ==> precedes(keys, #[trigger] perm[a] as int, #[trigger] perm[b] as int),
        decreases n - i,
    {
        let ghost before = v@;
        let ghost old_perm = perm;
        let x = v.remove(i);
        assert(x == original[i as int]);
        assert(i < keys.len());
        assert(keys[i as int] == key_order_bytes(original[i as int].key_view()));
        assert(keys[i as int] == key_order_bytes(x.key_view()));
        let mut p: usize = 0;
        while p < i && v[p].key_ref().compare(x.key_ref()) <= 0
            invariant
                p <= i,
                i < n,
                original.len() == n,
                keys.len() == n,
                v@.len() == n - 1,
                keys == rank_keys(original),
                keys[i as int] == key_order_bytes(x.key_view()),
                forall|j: int| 0 <= j < i ==> #[trigger] v@[j] == original[old_perm[j] as int],
                forall|j: int| 0 <= j < i ==> #[trigger] old_perm[j] < i,
                forall|j: int| 0 <= j < p ==> pair_order(keys[#[trigger] old_perm[j] as int], keys[i as int]) <= 0,
            decreases i - p,
        {
            assert(keys[old_perm[p as int] as int] == key_order_bytes(v@[p as int].key_view()));
            p += 1;
        }
        proof {
            if p < i {
                assert(keys[old_perm[p as int] as int] == key_order_bytes(v@[p as int].key_view()));
                assert(pair_order(keys[old_perm[p as int] as int], keys[i as int]) > 0);
                lemma_pair_order_properties(keys[old_perm[p as int] as int], keys[i as int]);
            }
        }
        v.insert(p, x);
        proof {
            perm = old_perm.take(p as int) + seq![i] + old_perm.subrange(p as int, i as int)
                + old_perm.skip(i + 1);
            assert(perm.len() == n);
            assert forall|j: int| 0 <= j < n implies v@[j] == original[#[trigger] perm[j] as int] by {
                if j < p {
                    assert(perm[j] == old_perm[j]);
                } else if j == p {
                } else if j <= i {
                    assert(perm[j] == old_perm[j - 1]);
                } else {
                    assert(perm[j] == old_perm[j]);
                }
            }
            assert(v@ =~= reorder(original, perm));
            assert forall|j: int| 0 <= j < n implies #[trigger] perm[j] < n by {
                if j < p {
                    assert(perm[j] == old_perm[j]);
                } else if j == p {
                } else if j <= i {
                    assert(perm[j] == old_perm[j - 1]);
                } else {
                    assert(perm[j] == old_perm[j]);
                }
            }
            assert forall|j: int| i + 1 <= j < n implies #[trigger] perm[j] == j by {
                assert(perm[j] == old_perm[j]);
            }
            assert forall|j: int| 0 <= j < i + 1 implies #[trigger] perm[j] < i + 1 by {
                if j < p {
                    assert(perm[j] == old_perm[j]);
                } else if j == p {
                } else {
                    assert(perm[j] == old_perm[j - 1]);
                }
            }
            assert forall|k: int| 0 <= k < n implies #[trigger] lists(perm, k) by {
                assert(lists(old_perm, k));
                let q = choose|q: int| 0 <= q < old_perm.len() && old_perm[q] == k;
                if q < p {
                    assert(perm[q] == k);
                } else if q < i {
                    assert(perm[q + 1] == k);
                } else if q == i {
                    assert(perm[p as int] == k);
                } else {
                    assert(perm[q] == k);
                }
            }
            assert forall|a: int, b: int| 0 <= a < b < i + 1 implies precedes(
                keys,
                #[trigger] perm[a] as int,
                #[trigger] perm[b] as int,
            ) by {
                if a < p && b == p {
                    assert(perm[a] == old_perm[a]);
                } else if a == p && b > p {
                    assert(perm[b] == old_perm[b - 1]);
                    let q = old_perm[b - 1] as int;
                    let s = old_perm[p as int] as int;
                    if b - 1 > p {
                        assert(precedes(keys, old_perm[p as int] as int, old_perm[b - 1] as int));
                    }
                    lemma_pair_order_properties(keys[s], keys[q]);
                    lemma_pair_order_properties(keys[i as int], keys[s]);
                    if b - 1 > p {
                        lemma_pair_order_strict(keys[i as int], keys[s], keys[q]);
                    }
                } else if b < p {
                    assert(perm[a] == old_perm[a] && perm[b] == old_perm[b]);
                } else if a < p {
                    assert(perm[a] == old_perm[a] && perm[b] == old_perm[b - 1]);
                } else {
                    assert(perm[a] == old_perm[a - 1] && perm[b] == old_perm[b - 1]);
                }
            }
        }
        i += 1;
    }
    proof {
        assert(is_sorted_order(keys, perm)) by {
            assert forall|j: int| 0 <= j < perm.len() implies #[trigger] perm[j] < keys.len() by {}
        }
    }
}

} // verus!
