use hashline_transaction::digest::ExactBytesDigest;
use hashline_transaction::executor::ExecutionFailure;
use hashline_transaction::journal::DurableFileEvidence;
use hashline_transaction::journal::JournalError;
use hashline_transaction::journal::JournalMutation;
use hashline_transaction::journal::JournalOperation;
use hashline_transaction::journal::JournalRecord;
use hashline_transaction::journal::JournalState;
use hashline_transaction::journal::MutationProgress;
use hashline_transaction::journal::RecoveryTarget;
use hashline_transaction::keys::CanonicalPathKey;
use hashline_transaction::keys::DurablePathKey;
use hashline_transaction::keys::DurableTransactionKey;
use hashline_transaction::keys::ExecutorFileIdentity;
use hashline_transaction::keys::ExecutorRootIdentity;
use hashline_transaction::keys::RecoveryScanLimit;
use hashline_transaction::keys::TransactionId;
use hashline_transaction::observation::FileEvidence;
use hashline_transaction::observation::FileKind;
use hashline_transaction::observation::MetadataSnapshot;
use hashline_transaction::observation::ObservedEvidence;
use hashline_transaction::observation::TransactionFileSystemError;
use hashline_transaction::recovery::check_loaded_record;
use hashline_transaction::recovery::check_rollback_entries;
use hashline_transaction::recovery::check_scan_size;
use hashline_transaction::recovery::order_recovery_paths;
use hashline_transaction::recovery::paths_match_operation;
use hashline_transaction::recovery::recovery_route;
use hashline_transaction::recovery::require_absent_evidence;
use hashline_transaction::recovery::require_present_evidence;
use hashline_transaction::recovery::require_root_identity;
use hashline_transaction::recovery::rollback_evidence;
use hashline_transaction::recovery::rollback_is_terminal;
use hashline_transaction::recovery::rollback_step;
use hashline_transaction::recovery::scan_verdicts;
use hashline_transaction::recovery::validate_transaction_key;
use hashline_transaction::recovery::RecoveredPaths;
use hashline_transaction::recovery::RecoveryFailure;
use hashline_transaction::recovery::RecoveryRoute;
use hashline_transaction::recovery::RollbackStep;
use hashline_transaction::request::TransactionLimits;

fn key(namespace: &str, value: &[u8]) -> DurableTransactionKey {
    DurableTransactionKey {
        namespace: namespace.to_string(),
        value: value.to_vec(),
    }
}

fn path_key(value: &str) -> DurablePathKey {
    DurablePathKey {
        namespace: "test-path-v1".to_string(),
        value: value.as_bytes().to_vec(),
    }
}

fn evidence(contents: &[u8]) -> FileEvidence {
    FileEvidence {
        exact_digest: ExactBytesDigest::new(contents),
        identity: ExecutorFileIdentity {
            namespace: "id".to_string(),
            value: contents.to_vec(),
        },
        metadata: MetadataSnapshot::new("meta".to_string(), b"m".to_vec()),
        link_count: 1,
        kind: FileKind::File,
    }
}

fn record(target: RecoveryTarget, state: JournalState, progress: &[MutationProgress]) -> JournalRecord {
    let operations = progress
        .iter()
        .enumerate()
        .map(|(index, _)| JournalOperation::Create {
            destination: path_key(&format!("file-{index}")),
            staged: DurableFileEvidence {
                key: path_key(&format!("stage-{index}")),
                evidence: evidence(b"after"),
            },
        })
        .collect();
    let mut record = JournalRecord::new(
        TransactionId("tx".to_string()),
        key("k", b"v"),
        "env".to_string(),
        path_key("."),
        ExecutorRootIdentity {
            namespace: "root".to_string(),
            value: b"r".to_vec(),
        },
        ExactBytesDigest::new(b"plan"),
        operations,
    )
    .unwrap();
    record.recovery_target = target;
    record.state = state;
    for (mutation, progress) in record.mutations.iter_mut().zip(progress) {
        mutation.progress = *progress;
    }
    record
}

#[test]
fn transaction_keys_must_be_non_empty_and_bounded() {
    let limits = TransactionLimits::default();
    assert_eq!(validate_transaction_key(&key("n", b"v"), limits), Ok(()));
    assert_eq!(
        validate_transaction_key(&key("", b"v"), limits),
        Err(RecoveryFailure::InvalidTransactionKey {
            reason: "namespace and value must not be empty",
        })
    );
    assert_eq!(
        validate_transaction_key(&key("n", b""), limits),
        Err(RecoveryFailure::InvalidTransactionKey {
            reason: "namespace and value must not be empty",
        })
    );
    let small = TransactionLimits {
        max_executor_key_bytes: 3,
        ..limits
    };
    assert_eq!(
        validate_transaction_key(&key("ab", b"cd"), small),
        Err(RecoveryFailure::InvalidTransactionKey {
            reason: "key exceeds the executor-key byte limit",
        })
    );
}

#[test]
fn invalid_and_duplicate_scan_entries_are_refused_individually() {
    let keys = vec![
        key("n", b"a"),
        key("", b"bad"),
        key("n", b"a"),
        key("n", b"b"),
        key("", b"bad"),
    ];
    let verdicts = scan_verdicts(&keys, TransactionLimits::default());
    let empty = Err(RecoveryFailure::InvalidTransactionKey {
        reason: "namespace and value must not be empty",
    });
    assert_eq!(
        verdicts,
        vec![
            Ok(()),
            empty.clone(),
            Err(RecoveryFailure::InvalidTransactionKey {
                reason: "recovery scan returned a duplicate key",
            }),
            Ok(()),
            empty,
        ]
    );
    assert_eq!(
        check_scan_size(3, RecoveryScanLimit { max_transactions: 2 }),
        Err(RecoveryFailure::ScanLimit {
            observed: 3,
            limit: 2,
        })
    );
    assert_eq!(
        check_scan_size(2, RecoveryScanLimit { max_transactions: 2 }),
        Ok(())
    );
}

#[test]
fn loaded_records_must_match_their_key_environment_and_root() {
    let record = record(RecoveryTarget::Rollback, JournalState::Preparing, &[MutationProgress::Pending]);
    assert_eq!(check_loaded_record(&record, &key("k", b"v"), &"env".to_string()), Ok(()));
    assert_eq!(
        check_loaded_record(&record, &key("k", b"w"), &"env".to_string()),
        Err(RecoveryFailure::TransactionKeyMismatch)
    );
    assert_eq!(
        check_loaded_record(&record, &key("k", b"v"), &"other".to_string()),
        Err(RecoveryFailure::EnvironmentMismatch)
    );
    let same = ExecutorRootIdentity {
        namespace: "root".to_string(),
        value: b"r".to_vec(),
    };
    let moved = ExecutorRootIdentity {
        namespace: "root".to_string(),
        value: b"s".to_vec(),
    };
    assert_eq!(require_root_identity(&same, &record), Ok(()));
    assert_eq!(
        require_root_identity(&moved, &record),
        Err(RecoveryFailure::RootIdentityMismatch)
    );
}

#[test]
fn routes_follow_the_durable_target_and_state() {
    let applied = [MutationProgress::Applied];
    let pending = [MutationProgress::Pending];
    assert_eq!(
        recovery_route(&record(RecoveryTarget::Commit, JournalState::Committed, &applied)),
        RecoveryRoute::Commit { cleanup: true }
    );
    assert_eq!(
        recovery_route(&record(RecoveryTarget::Commit, JournalState::Complete, &applied)),
        RecoveryRoute::Commit { cleanup: false }
    );
    assert_eq!(
        recovery_route(&record(RecoveryTarget::Rollback, JournalState::Complete, &pending)),
        RecoveryRoute::Rollback {
            converge: false,
            cleanup: false,
        }
    );
    assert_eq!(
        recovery_route(&record(
            RecoveryTarget::Rollback,
            JournalState::RecoveryRequired,
            &[MutationProgress::RolledBack]
        )),
        RecoveryRoute::Rollback {
            converge: false,
            cleanup: true,
        }
    );
    assert_eq!(
        recovery_route(&record(
            RecoveryTarget::Rollback,
            JournalState::RecoveryRequired,
            &applied
        )),
        RecoveryRoute::Rollback {
            converge: true,
            cleanup: true,
        }
    );
    assert_eq!(
        recovery_route(&record(RecoveryTarget::Rollback, JournalState::Committing, &applied)),
        RecoveryRoute::Rollback {
            converge: true,
            cleanup: true,
        }
    );
    assert_eq!(
        recovery_route(&record(RecoveryTarget::Rollback, JournalState::Cleaning, &pending)),
        RecoveryRoute::Rollback {
            converge: false,
            cleanup: true,
        }
    );
}

#[test]
fn rollback_steps_and_terminal_detection() {
    assert_eq!(rollback_step(MutationProgress::Pending), RollbackStep::Skip);
    assert_eq!(rollback_step(MutationProgress::RolledBack), RollbackStep::Skip);
    assert_eq!(rollback_step(MutationProgress::Committing), RollbackStep::MarkAndRestore);
    assert_eq!(rollback_step(MutationProgress::Applied), RollbackStep::MarkAndRestore);
    assert_eq!(rollback_step(MutationProgress::RollingBack), RollbackStep::Restore);
    let mutation = |progress| JournalMutation {
        progress,
        operation: JournalOperation::Delete {
            path: path_key("p"),
            before: evidence(b"b"),
            backup: DurableFileEvidence {
                key: path_key("k"),
                evidence: evidence(b"b"),
            },
        },
    };
    assert!(rollback_is_terminal(&vec![
        mutation(MutationProgress::Pending),
        mutation(MutationProgress::RolledBack)
    ]));
    assert!(!rollback_is_terminal(&vec![mutation(MutationProgress::RollingBack)]));
    assert_eq!(check_rollback_entries(2, 2), Ok(()));
    assert_eq!(
        check_rollback_entries(1, 2),
        Err(TransactionFileSystemError::Platform {
            operation: "recover rollback",
            reason: "journal mutation and reopened entry counts disagree".to_string(),
        })
    );
}

#[test]
fn rolled_back_paths_show_the_before_image_or_its_restored_backup() {
    let before = evidence(b"before");
    let backup = evidence(b"backup");
    assert_eq!(
        rollback_evidence(MutationProgress::Pending, &before, &backup),
        Ok((&before, None))
    );
    assert_eq!(
        rollback_evidence(MutationProgress::RolledBack, &before, &backup),
        Ok((&before, Some(&backup)))
    );
    assert!(rollback_evidence(MutationProgress::Applied, &before, &backup).is_err());

    let disturbed = Err(TransactionFileSystemError::ChangedSincePlanning {
        path: "recovered transaction path".to_string(),
    });
    assert_eq!(
        require_present_evidence(&ObservedEvidence::Present(backup.clone()), &before, Some(&backup)),
        Ok(())
    );
    assert_eq!(
        require_present_evidence(&ObservedEvidence::Present(backup.clone()), &before, None),
        disturbed
    );
    assert_eq!(
        require_present_evidence(&ObservedEvidence::Absent, &before, None),
        disturbed
    );
    assert_eq!(require_absent_evidence(&ObservedEvidence::Absent), Ok(()));
    assert_eq!(
        require_absent_evidence(&ObservedEvidence::Present(before)),
        disturbed
    );
}

#[test]
fn recovery_locks_paths_in_key_order_and_refuses_aliases() {
    let canonical = |value: &str| CanonicalPathKey {
        namespace: "k".to_string(),
        value: value.as_bytes().to_vec(),
    };
    assert_eq!(
        order_recovery_paths(vec![
            (canonical("b"), "B"),
            (canonical("a"), "A"),
            (canonical("c"), "C"),
        ]),
        Ok(vec!["A", "B", "C"])
    );
    assert_eq!(
        order_recovery_paths(vec![
            (canonical("b"), "B"),
            (canonical("a"), "A"),
            (canonical("b"), "other"),
        ]),
        Err(TransactionFileSystemError::ChangedSincePlanning {
            path: "durable recovery path alias".to_string(),
        })
    );
    let paths = RecoveredPaths::Move {
        source: 1,
        destination: 2,
    };
    assert_eq!(paths.paths(), vec![&1, &2]);
    let delete = JournalOperation::Delete {
        path: path_key("p"),
        before: evidence(b"b"),
        backup: DurableFileEvidence {
            key: path_key("k"),
            evidence: evidence(b"b"),
        },
    };
    assert!(!paths_match_operation(&paths, &delete));
    assert!(paths_match_operation(&RecoveredPaths::Delete { path: 3 }, &delete));
}

#[test]
fn execution_failures_convert_to_recovery_failures() {
    let error = TransactionFileSystemError::SymbolicLink {
        path: "p".to_string(),
    };
    assert_eq!(
        RecoveryFailure::from(ExecutionFailure::FileSystem(error.clone())),
        RecoveryFailure::FileSystem(error)
    );
    assert_eq!(
        RecoveryFailure::from(ExecutionFailure::Journal(JournalError::MutationIndex { index: 3 })),
        RecoveryFailure::Journal(JournalError::MutationIndex { index: 3 })
    );
}
