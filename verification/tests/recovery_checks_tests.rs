use hashline_transaction::digest::ExactBytesDigest;
use hashline_transaction::journal::DurableFileEvidence;
use hashline_transaction::journal::JournalOperation;
use hashline_transaction::journal::MutationProgress;
use hashline_transaction::keys::DurablePathKey;
use hashline_transaction::keys::ExecutorFileIdentity;
use hashline_transaction::observation::FileEvidence;
use hashline_transaction::observation::FileKind;
use hashline_transaction::observation::MetadataSnapshot;
use hashline_transaction::observation::TransactionFileSystemError;
use hashline_transaction::prepared::PreparedMutation;
use hashline_transaction::recovery::RecoveredEntry;
use hashline_transaction::recovery::RecoveredPaths;
use hashline_transaction::recovery_checks::check_verified_entries;
use hashline_transaction::recovery_checks::committed_checks;
use hashline_transaction::recovery_checks::operation_path_keys;
use hashline_transaction::recovery_checks::shape_reopened;
use hashline_transaction::recovery_checks::rollback_artifacts;
use hashline_transaction::recovery_checks::rollback_mutation;
use hashline_transaction::recovery_checks::rolled_back_checks;
use hashline_transaction::recovery_checks::PathCheck;

fn key(value: &str) -> DurablePathKey {
    DurablePathKey {
        namespace: "test-path".to_string(),
        value: value.as_bytes().to_vec(),
    }
}

fn evidence(name: &str) -> FileEvidence {
    FileEvidence {
        exact_digest: ExactBytesDigest::new(name.as_bytes()),
        identity: ExecutorFileIdentity {
            namespace: "test-file".to_string(),
            value: name.as_bytes().to_vec(),
        },
        metadata: MetadataSnapshot::new("test-metadata".to_string(), b"m".to_vec()),
        link_count: 1,
        kind: FileKind::File,
    }
}

fn durable(name: &str) -> DurableFileEvidence {
    DurableFileEvidence {
        key: key(name),
        evidence: evidence(name),
    }
}

fn update() -> JournalOperation {
    JournalOperation::Update {
        path: key("a"),
        before: evidence("before"),
        staged: durable("staged"),
        backup: durable("backup"),
    }
}

fn moved() -> JournalOperation {
    JournalOperation::Move {
        source: key("a"),
        destination: key("b"),
        before: evidence("before"),
        staged: durable("staged"),
        backup: durable("backup"),
    }
}

fn inconsistent() -> TransactionFileSystemError {
    TransactionFileSystemError::Platform {
        operation: "verify recovered transaction",
        reason: "journal operation and reopened paths disagree".to_string(),
    }
}

#[test]
fn a_committed_move_leaves_the_source_empty_and_the_destination_staged() {
    let entry = RecoveredEntry {
        paths: RecoveredPaths::Move {
            source: "src",
            destination: "dst",
        },
        operation: moved(),
    };
    let checks = committed_checks(&entry).unwrap();
    assert_eq!(checks.len(), 2);
    assert!(matches!(checks[0], PathCheck::Absent { path } if *path == "src"));
    assert!(matches!(
        checks[1],
        PathCheck::Present { path, expected, alternate: None }
            if *path == "dst" && *expected == evidence("staged")
    ));
}

#[test]
fn a_committed_update_holds_the_staged_file() {
    let entry = RecoveredEntry {
        paths: RecoveredPaths::Update { path: "a" },
        operation: update(),
    };
    let checks = committed_checks(&entry).unwrap();
    assert_eq!(checks.len(), 1);
    assert!(matches!(
        checks[0],
        PathCheck::Present { path, expected, alternate: None }
            if *path == "a" && *expected == evidence("staged")
    ));
}

#[test]
fn paths_of_another_shape_are_inconsistent() {
    let entry = RecoveredEntry {
        paths: RecoveredPaths::Delete { path: "a" },
        operation: update(),
    };
    assert_eq!(committed_checks(&entry).err(), Some(inconsistent()));
    assert_eq!(
        rolled_back_checks(MutationProgress::Pending, &entry).err(),
        Some(inconsistent())
    );
    assert_eq!(
        rollback_artifacts(&entry).err(),
        Some(TransactionFileSystemError::Platform {
            operation: "reopen recovery mutation",
            reason: "journal operation and reopened paths disagree".to_string(),
        })
    );
}

#[test]
fn a_rolled_back_move_restores_the_source_and_clears_the_destination() {
    let entry = RecoveredEntry {
        paths: RecoveredPaths::Move {
            source: "src",
            destination: "dst",
        },
        operation: moved(),
    };
    let checks = rolled_back_checks(MutationProgress::RolledBack, &entry).unwrap();
    assert_eq!(checks.len(), 2);
    assert!(matches!(
        checks[0],
        PathCheck::Present { path, expected, alternate: Some(alternate) }
            if *path == "src" && *expected == evidence("before") && *alternate == evidence("backup")
    ));
    assert!(matches!(checks[1], PathCheck::Absent { path } if *path == "dst"));

    let pending = rolled_back_checks(MutationProgress::Pending, &entry).unwrap();
    assert!(matches!(
        pending[0],
        PathCheck::Present { alternate: None, .. }
    ));
}

#[test]
fn a_rollback_check_before_convergence_is_refused() {
    let entry = RecoveredEntry {
        paths: RecoveredPaths::Update { path: "a" },
        operation: update(),
    };
    assert_eq!(
        rolled_back_checks(MutationProgress::Applied, &entry).err(),
        Some(TransactionFileSystemError::Platform {
            operation: "verify recovered rollback",
            reason: "rollback verification began before mutation convergence".to_string(),
        })
    );
}

#[test]
fn a_rolled_back_create_is_absent_whatever_its_progress() {
    let entry = RecoveredEntry {
        paths: RecoveredPaths::Create { destination: "new" },
        operation: JournalOperation::Create {
            destination: key("new"),
            staged: durable("staged"),
        },
    };
    let checks = rolled_back_checks(MutationProgress::Applied, &entry).unwrap();
    assert_eq!(checks.len(), 1);
    assert!(matches!(checks[0], PathCheck::Absent { path } if *path == "new"));
}

#[test]
fn verification_needs_one_entry_per_mutation() {
    assert_eq!(check_verified_entries(2, 2), Ok(()));
    assert_eq!(check_verified_entries(2, 1), Err(inconsistent()));
}

#[test]
fn a_delete_rollback_reopens_only_its_backup() {
    let entry = RecoveredEntry {
        paths: RecoveredPaths::Delete { path: "gone" },
        operation: JournalOperation::Delete {
            path: key("gone"),
            before: evidence("before"),
            backup: durable("backup"),
        },
    };
    let (staged, backup) = rollback_artifacts(&entry).unwrap();
    assert!(staged.is_none());
    assert_eq!(backup, Some(&durable("backup")));
    let rollback = rollback_mutation::<&str, u8, u16>(&entry, None, Some(7)).unwrap();
    assert!(matches!(
        rollback,
        PreparedMutation::Remove { source: "gone", expected, backup: 7 } if expected == evidence("before")
    ));
}

#[test]
fn a_move_rollback_carries_both_reopened_artifacts() {
    let entry = RecoveredEntry {
        paths: RecoveredPaths::Move {
            source: "src",
            destination: "dst",
        },
        operation: moved(),
    };
    let (staged, backup) = rollback_artifacts(&entry).unwrap();
    assert_eq!(staged, Some(&durable("staged")));
    assert_eq!(backup, Some(&durable("backup")));
    let rollback = rollback_mutation::<&str, u8, u16>(&entry, Some(3), Some(4)).unwrap();
    assert!(matches!(
        rollback,
        PreparedMutation::Move { source: "src", destination: "dst", staged: 3, backup: 4, .. }
    ));
    assert!(rollback_mutation::<&str, u8, u16>(&entry, Some(3), None).is_err());
}

#[test]
fn a_move_reopens_its_source_then_its_destination() {
    let operation = moved();
    let keys = operation_path_keys(&operation);
    assert_eq!(keys, vec![&key("a"), &key("b")]);
    assert!(matches!(
        shape_reopened(&operation, vec!["src", "dst"]),
        Some(RecoveredPaths::Move { source: "src", destination: "dst" })
    ));
    assert!(shape_reopened(&operation, vec!["src"]).is_none());
}

#[test]
fn an_update_reopens_its_one_path() {
    let operation = update();
    assert_eq!(operation_path_keys(&operation), vec![&key("a")]);
    assert!(matches!(
        shape_reopened(&operation, vec!["a"]),
        Some(RecoveredPaths::Update { path: "a" })
    ));
    assert!(shape_reopened(&operation, vec!["a", "b"]).is_none());
}
