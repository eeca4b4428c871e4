//! Which parent directories a native transaction locks, in which order, and which paths the
//! resulting lease covers.
use vstd::prelude::*;

use crate::keys::CanonicalPathKey;
use crate::keys::ExecutorRootIdentity;
use crate::observation::TransactionFileSystemError;

verus! {

/// A parent directory to lock: its device and inode, and the first path that lies in it.
#[derive(Clone, Copy, Debug, PartialEq, Eq, Structural)]
pub struct LockTarget {
    pub device: u64,
    pub inode: u64,
    pub first_path: usize,
}

/// Directory identities in locking order: by device, then by inode.
pub open spec fn locks_before(a: (u64, u64), b: (u64, u64)) -> bool {
    a.0 < b.0 || (a.0 == b.0 && a.1 < b.1)
}

pub open spec fn target_identity(t: LockTarget) -> (u64, u64) {
    (t.device, t.inode)
}

/// Some target locks the directory.
pub open spec fn targets_include(targets: Seq<LockTarget>, identity: (u64, u64)) -> bool {
    exists|j: int| 0 <= j < targets.len() && target_identity(#[trigger] targets[j]) == identity
}

/// The targets lock each parent of the given paths once, in ascending order, each named by
/// the first path that lies in it.
pub open spec fn lock_plan(parents: Seq<(u64, u64)>, targets: Seq<LockTarget>) -> bool {
    &&& forall|i: int, j: int|
        0 <= i < j < targets.len() ==> locks_before(
            target_identity(#[trigger] targets[i]),
            target_identity(#[trigger] targets[j]),
        )
    &&& forall|i: int|
        0 <= i < targets.len() ==> {
            let t = #[trigger] targets[i];
            &&& t.first_path < parents.len()
            &&& parents[t.first_path as int] == target_identity(t)
            &&& forall|m: int| 0 <= m < t.first_path ==> parents[m] != target_identity(t)
        }
    &&& forall|m: int| 0 <= m < parents.len() ==> targets_include(targets, #[trigger] parents[m])
}

/// Plans the directory locks for paths whose parent directories have the given identities.
pub fn lock_targets(parents: &Vec<(u64, u64)>) -> (r: Vec<LockTarget>)
    ensures
        lock_plan(parents@, r@),
{
    let mut targets: Vec<LockTarget> = Vec::new();
    let mut k: usize = 0;
    while k < parents.len()
        invariant
            k <= parents@.len(),
            lock_plan(parents@.take(k as int), targets@),
        decreases parents@.len() - k,
    {
        let (device, inode) = parents[k];
        let ghost x = (device, inode);
        let ghost prefix = parents@.take(k as int);
        let ghost before = targets@;
        assert(parents@.take(k + 1) =~= prefix.push(x));
        let mut p: usize = 0;
        while p < targets.len() && (targets[p].device < device || (targets[p].device == device
            && targets[p].inode < inode))
            invariant
                p <= targets@.len(),
                targets@ == before,
                x == (device, inode),
                forall|i: int| 0 <= i < p ==> locks_before(target_identity(#[trigger] before[i]), x),
            decreases targets@.len() - p,
        {
            p += 1;
        }
        let present = p < targets.len() && targets[p].device == device && targets[p].inode == inode;
        if !present {
            assert(!targets_include(before, x)) by {
                if targets_include(before, x) {
                    let j = choose|j: int| 0 <= j < before.len() && target_identity(#[trigger] before[j]) == x;
                    if j >= p {
                        assert(p < before.len());
                        if j > p {
                            assert(locks_before(target_identity(before[p as int]), target_identity(before[j])));
                        }
                    }
                }
            }
            targets.insert(p, LockTarget { device, inode, first_path: k });
            proof {
                let after = targets@;
                assert(after =~= before.insert(p as int, LockTarget { device, inode, first_path: k }));
                assert forall|i: int, j: int| 0 <= i < j < after.len() implies locks_before(
                    target_identity(#[trigger] after[i]),
                    target_identity(#[trigger] after[j]),
                ) by {
                    if i < p && j > p {
                        assert(after[j] == before[j - 1]);
                        if p < before.len() {
                            assert(!locks_before(target_identity(before[p as int]), x));
                        }
                    } else if i == p && j > p {
                        assert(after[j] == before[j - 1]);
                        assert(!locks_before(target_identity(before[p as int]), x));
                        assert(target_identity(before[p as int]) != x);
                        if j - 1 > p {
                            assert(locks_before(target_identity(before[p as int]), target_identity(before[j - 1])));
                        }
                    } else if i > p {
                        assert(after[i] == before[i - 1] && after[j] == before[j - 1]);
                    }
                }
                assert forall|i: int| 0 <= i < after.len() implies {
                    let t = #[trigger] after[i];
                    &&& t.first_path < prefix.push(x).len()
                    &&& prefix.push(x)[t.first_path as int] == target_identity(t)
                    &&& forall|m: int| 0 <= m < t.first_path ==> prefix.push(x)[m] != target_identity(t)
                } by {
                    if i == p {
                        assert forall|m: int| 0 <= m < k implies prefix.push(x)[m] != x by {
                            assert(prefix.push(x)[m] == prefix[m]);
                            assert(targets_include(before, prefix[m]));
                        }
                    } else if i < p {
                        assert(after[i] == before[i]);
                    } else {
                        assert(after[i] == before[i - 1]);
                    }
                }
                assert forall|m: int| 0 <= m < prefix.push(x).len() implies targets_include(
                    after,
                    #[trigger] prefix.push(x)[m],
                ) by {
                    if m == k {
                        assert(target_identity(after[p as int]) == x);
                    } else {
                        assert(prefix.push(x)[m] == prefix[m]);
                        assert(targets_include(before, prefix[m]));
                        let j = choose|j: int| 0 <= j < before.len() && target_identity(#[trigger] before[j]) == prefix[m];
                        if j < p {
                            assert(after[j] == before[j]);
                        } else {
                            assert(after[j + 1] == before[j]);
                        }
                    }
                }
            }
        } else {
            proof {
                assert(target_identity(before[p as int]) == x);
                assert forall|m: int| 0 <= m < prefix.push(x).len() implies targets_include(
                    before,
                    #[trigger] prefix.push(x)[m],
                ) by {
                    if m < k {
                        assert(prefix.push(x)[m] == prefix[m]);
                    }
                }
                assert forall|i: int| 0 <= i < before.len() implies {
                    let t = #[trigger] before[i];
                    &&& t.first_path < prefix.push(x).len()
                    &&& prefix.push(x)[t.first_path as int] == target_identity(t)
                    &&& forall|m: int| 0 <= m < t.first_path ==> prefix.push(x)[m] != target_identity(t)
                } by {
                    let t = before[i];
                    assert forall|m: int| 0 <= m < t.first_path implies prefix.push(x)[m] != target_identity(t) by {
                        assert(prefix.push(x)[m] == prefix[m]);
                    }
                }
            }
        }
        k += 1;
    }
    assert(parents@.take(parents@.len() as int) =~= parents@);
    targets
}

/// Any two lock plans take the directories they share in the same order, so transactions
/// that lock overlapping directories cannot each hold one the other waits for.
pub proof fn lemma_lock_plans_agree_on_order(
    parents1: Seq<(u64, u64)>,
    plan1: Seq<LockTarget>,
    parents2: Seq<(u64, u64)>,
    plan2: Seq<LockTarget>,
    i1: int,
    j1: int,
    i2: int,
    j2: int,
)
    requires
        lock_plan(parents1, plan1),
        lock_plan(parents2, plan2),
        0 <= i1 < j1 < plan1.len(),
        0 <= i2 < plan2.len(),
        0 <= j2 < plan2.len(),
        target_identity(plan2[i2]) == target_identity(plan1[i1]),
        target_identity(plan2[j2]) == target_identity(plan1[j1]),
    ensures
        i2 < j2,
{
    assert(locks_before(target_identity(plan1[i1]), target_identity(plan1[j1])));
    if j2 < i2 {
        assert(locks_before(target_identity(plan2[j2]), target_identity(plan2[i2])));
    }
}

/// The keys a lease covers: each key of the locked paths once.
pub open spec fn covered_set(keys: Seq<CanonicalPathKey>, covered: Seq<CanonicalPathKey>) -> bool {
    &&& forall|i: int| 0 <= i < keys.len() ==> covers(covered, #[trigger] keys[i])
    &&& forall|j: int| 0 <= j < covered.len() ==> covers(keys, #[trigger] covered[j])
    &&& forall|i: int, j: int| 0 <= i < j < covered.len() ==> (#[trigger] covered[i])@ != (#[trigger] covered[j])@
}

/// The keys a lease covers, from the keys of the paths it locks.
pub fn covered_keys(keys: &Vec<CanonicalPathKey>) -> (r: Vec<CanonicalPathKey>)
    ensures
        covered_set(keys@, r@),
{
    let mut covered: Vec<CanonicalPathKey> = Vec::new();
    let mut i: usize = 0;
    while i < keys.len()
        invariant
            i <= keys@.len(),
            covered_set(keys@.take(i as int), covered@),
        decreases keys@.len() - i,
    {
        let ghost before = covered@;
        let ghost prefix = keys@.take(i as int);
        let key = &keys[i];
        let mut seen = false;
        let mut j: usize = 0;
        while j < covered.len() && !seen
            invariant
                j <= covered@.len(),
                covered@ == before,
                seen ==> covers(before, *key),
                !seen ==> forall|m: int| 0 <= m < j ==> (#[trigger] before[m])@ != key@,
            decreases covered@.len() - j,
        {
            if covered[j].same(key) {
                seen = true;
            }
            j += 1;
        }
        proof {
            assert(keys@.take(i + 1) =~= prefix.push(*key));
        }
        if !seen {
            covered.push(key.clone_key());
            proof {
                let after = covered@;
                assert forall|m: int| 0 <= m < prefix.push(*key).len() implies covers(
                    after,
                    #[trigger] prefix.push(*key)[m],
                ) by {
                    if m < prefix.len() {
                        assert(prefix.push(*key)[m] == prefix[m]);
                        assert(covers(before, prefix[m]));
                        let w = choose|w: int| 0 <= w < before.len() && (#[trigger] before[w])@ == prefix[m]@;
                        assert(after[w] == before[w]);
                    } else {
                        assert(after[before.len() as int]@ == key@);
                    }
                }
                assert forall|n: int| 0 <= n < after.len() implies covers(
                    prefix.push(*key),
                    #[trigger] after[n],
                ) by {
                    if n < before.len() {
                        assert(after[n] == before[n]);
                        assert(covers(prefix, before[n]));
                        let w = choose|w: int| 0 <= w < prefix.len() && (#[trigger] prefix[w])@ == before[n]@;
                        assert(prefix.push(*key)[w] == prefix[w]);
                    } else {
                        assert(prefix.push(*key)[prefix.len() as int] == *key);
                    }
                }
            }
        } else {
            proof {
                assert forall|m: int| 0 <= m < prefix.push(*key).len() implies covers(
                    before,
                    #[trigger] prefix.push(*key)[m],
                ) by {
                    if m < prefix.len() {
                        assert(prefix.push(*key)[m] == prefix[m]);
                    }
                }
                assert forall|n: int| 0 <= n < before.len() implies covers(
                    prefix.push(*key),
                    #[trigger] before[n],
                ) by {
                    assert(covers(prefix, before[n]));
                    let w = choose|w: int| 0 <= w < prefix.len() && (#[trigger] prefix[w])@ == before[n]@;
                    assert(prefix.push(*key)[w] == prefix[w]);
                }
            }
        }
        i += 1;
    }
    assert(keys@.take(keys@.len() as int) =~= keys@);
    covered
}

/// The error for a path that a lease or a lock request does not cover.
pub open spec fn is_uncovered(e: TransactionFileSystemError, operation: &str, model_path: Seq<char>) -> bool {
    e matches TransactionFileSystemError::Platform { operation: o, reason } && o == operation && reason@
        == "path `"@ + model_path + "` is not covered by the retained transaction lease"@
}

/// Some covered key is the path's key.
pub open spec fn covers(covered: Seq<CanonicalPathKey>, key: CanonicalPathKey) -> bool {
    exists|i: int| 0 <= i < covered.len() && (#[trigger] covered[i])@ == key@
}

/// A lease covers a path of its own root whose key it locked.
pub fn require_covered(
    lease_root: &ExecutorRootIdentity,
    covered: &Vec<CanonicalPathKey>,
    path_root: &ExecutorRootIdentity,
    key: &CanonicalPathKey,
    model_path: &str,
    operation: &'static str,
) -> (r: Result<(), TransactionFileSystemError>)
    ensures
        lease_root@ == path_root@ && covers(covered@, *key) ==> r is Ok,
        !(lease_root@ == path_root@ && covers(covered@, *key)) ==> (r matches Err(e) && is_uncovered(
            e,
            operation,
            model_path@,
        )),
{
    let mut found = false;
    if lease_root.same(path_root) {
        let mut i: usize = 0;
        while i < covered.len() && !found
            invariant
                i <= covered@.len(),
                found ==> covers(covered@, *key),
                !found ==> forall|j: int| 0 <= j < i ==> (#[trigger] covered@[j])@ != key@,
            decreases covered@.len() - i,
        {
            if covered[i].same(key) {
                found = true;
                assert(covered@[i as int]@ == key@);
            }
            i += 1;
        }
    }
    if !found {
        let mut reason = crate::text::text("path `");
        reason.append(model_path);
        reason.append("` is not covered by the retained transaction lease");
        return Err(TransactionFileSystemError::Platform { operation, reason });
    }
    Ok(())
}

/// Every path to lock must belong to the root being locked.
pub fn require_same_root(root: &ExecutorRootIdentity, path_root: &ExecutorRootIdentity, model_path: &str) -> (r: Result<
    (),
    TransactionFileSystemError,
>)
    ensures
        root@ == path_root@ ==> r is Ok,
        root@ != path_root@ ==> (r matches Err(TransactionFileSystemError::Platform { operation, reason })
            && operation == "lock transaction paths" && reason@ == "path `"@ + model_path@
            + "` belongs to a different transaction root"@),
{
    if !root.same(path_root) {
        let mut reason = crate::text::text("path `");
        reason.append(model_path);
        reason.append("` belongs to a different transaction root");
        return Err(TransactionFileSystemError::Platform { operation: "lock transaction paths", reason });
    }
    Ok(())
}

} // verus!
