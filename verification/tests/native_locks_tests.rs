use hashline_transaction::keys::CanonicalPathKey;
use hashline_transaction::keys::ExecutorRootIdentity;
use hashline_transaction::native_locks::covered_keys;
use hashline_transaction::native_locks::lock_targets;
use hashline_transaction::native_locks::require_covered;
use hashline_transaction::native_locks::require_same_root;
use hashline_transaction::native_locks::LockTarget;
use hashline_transaction::native_status::settle_observation;
use hashline_transaction::native_status::FileStatus;
use hashline_transaction::observation::TransactionFileSystemError;

fn target(device: u64, inode: u64, first_path: usize) -> LockTarget {
    LockTarget {
        device,
        inode,
        first_path,
    }
}

fn root(value: &[u8]) -> ExecutorRootIdentity {
    ExecutorRootIdentity {
        namespace: "linux-dev-ino-v1".to_string(),
        value: value.to_vec(),
    }
}

fn key(value: &[u8]) -> CanonicalPathKey {
    CanonicalPathKey {
        namespace: "linux-parent-entry-v1".to_string(),
        value: value.to_vec(),
    }
}

#[test]
fn each_parent_is_locked_once_in_device_then_inode_order() {
    let parents = vec![(2, 5), (1, 9), (2, 5), (1, 3), (2, 1)];
    assert_eq!(
        lock_targets(&parents),
        vec![target(1, 3, 3), target(1, 9, 1), target(2, 1, 4), target(2, 5, 0)]
    );
    assert_eq!(lock_targets(&Vec::new()), Vec::new());
}

#[test]
fn two_plans_order_shared_directories_alike() {
    let first = lock_targets(&vec![(7, 1), (3, 2)]);
    let second = lock_targets(&vec![(3, 2), (9, 9), (7, 1)]);
    let position = |plan: &Vec<LockTarget>, device: u64| {
        plan.iter().position(|t| t.device == device).unwrap()
    };
    assert!(position(&first, 3) < position(&first, 7));
    assert!(position(&second, 3) < position(&second, 7));
}

#[test]
fn a_lease_covers_only_its_own_locked_keys() {
    let covered = vec![key(b"a"), key(b"b")];
    assert_eq!(
        require_covered(&root(b"r"), &covered, &root(b"r"), &key(b"b"), "b.txt", "reobserve locked path"),
        Ok(())
    );
    let uncovered = Err(TransactionFileSystemError::Platform {
        operation: "reobserve locked path",
        reason: "path `c.txt` is not covered by the retained transaction lease".to_string(),
    });
    assert_eq!(
        require_covered(&root(b"r"), &covered, &root(b"r"), &key(b"c"), "c.txt", "reobserve locked path"),
        uncovered
    );
    assert_eq!(
        require_covered(&root(b"r"), &covered, &root(b"other"), &key(b"a"), "c.txt", "reobserve locked path"),
        uncovered
    );
}

#[test]
fn lock_requests_stay_within_one_root() {
    assert_eq!(require_same_root(&root(b"r"), &root(b"r"), "a.txt"), Ok(()));
    assert_eq!(
        require_same_root(&root(b"r"), &root(b"s"), "a.txt"),
        Err(TransactionFileSystemError::Platform {
            operation: "lock transaction paths",
            reason: "path `a.txt` belongs to a different transaction root".to_string(),
        })
    );
}

#[test]
fn lock_targets_are_deduplicated_and_canonically_ordered() {
    // Parents by (device, inode): `b` for b/three, `a` for a/one and a/two.
    let a = (0x0801, 40);
    let b = (0x0801, 12);
    let paths = [(b, key(b"b/three")), (a, key(b"a/one")), (a, key(b"a/two")), (a, key(b"a/one"))];
    let parents = paths.iter().map(|(parent, _)| *parent).collect::<Vec<_>>();
    let keys = paths.iter().map(|(_, key)| key.clone()).collect::<Vec<_>>();

    let targets = lock_targets(&parents);
    let covered_paths = covered_keys(&keys);
    let identities = targets
        .iter()
        .map(|target| (target.device, target.inode))
        .collect::<Vec<_>>();
    let mut sorted = identities.clone();
    sorted.sort_unstable();
    sorted.dedup();
    assert_eq!(identities, sorted);
    assert_eq!(targets.len(), 2);
    assert_eq!(covered_paths.len(), 3);

    assert_eq!(lock_targets(&vec![a, a]).len(), 1);
}

#[test]
fn locked_reobservation_requires_lease_coverage_and_detects_replacement() {
    let covered = covered_keys(&vec![key(b"covered.txt")]);
    assert_eq!(
        require_covered(&root(b"r"), &covered, &root(b"r"), &key(b"covered.txt"), "covered.txt", "reobserve locked path"),
        Ok(())
    );
    assert_eq!(
        require_covered(&root(b"r"), &covered, &root(b"r"), &key(b"outside.txt"), "outside.txt", "reobserve locked path"),
        Err(TransactionFileSystemError::Platform {
            operation: "reobserve locked path",
            reason: "path `outside.txt` is not covered by the retained transaction lease".to_string(),
        })
    );

    let original = FileStatus {
        dev: 0x0801,
        ino: 100,
        mode: 0o100644,
        nlink: 1,
        uid: 1000,
        gid: 1000,
        size: 10,
        mtime: 1_700_000_000,
        mtime_nsec: 0,
        ctime: 1_700_000_000,
        ctime_nsec: 0,
    };
    let mut replacement = original;
    replacement.ino = 101;
    assert_eq!(
        settle_observation("covered.txt", &original, &original, b"same bytes".to_vec(), &replacement)
            .expect_err("identical-byte replacement must be stale"),
        TransactionFileSystemError::ChangedSincePlanning {
            path: "covered.txt".to_string(),
        }
    );
}
