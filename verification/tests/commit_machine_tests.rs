use hashline_transaction::commit_machine::CommitAction;
use hashline_transaction::commit_machine::CommitEvent;
use hashline_transaction::commit_machine::CommitMachine;
use hashline_transaction::digest::ExactBytesDigest;
use hashline_transaction::executor::ExecuteError;
use hashline_transaction::executor::ExecutionFailure;
use hashline_transaction::executor::ExecutionOutcome;
use hashline_transaction::executor::ExecutionResult;
use hashline_transaction::journal::DurableFileEvidence;
use hashline_transaction::journal::JournalOperation;
use hashline_transaction::journal::JournalRecord;
use hashline_transaction::journal::JournalState;
use hashline_transaction::journal::MutationProgress;
use hashline_transaction::journal::MutationProgress::Applied;
use hashline_transaction::journal::MutationProgress::Committing;
use hashline_transaction::journal::MutationProgress::Pending;
use hashline_transaction::journal::MutationProgress::RolledBack;
use hashline_transaction::journal::MutationProgress::RollingBack;
use hashline_transaction::keys::DurablePathKey;
use hashline_transaction::keys::DurableTransactionKey;
use hashline_transaction::keys::ExecutorFileIdentity;
use hashline_transaction::keys::ExecutorRootIdentity;
use hashline_transaction::keys::TransactionId;
use hashline_transaction::observation::FileEvidence;
use hashline_transaction::observation::FileKind;
use hashline_transaction::observation::MetadataSnapshot;
use hashline_transaction::observation::TransactionFileSystemError;

fn key(value: &str) -> DurablePathKey {
    DurablePathKey {
        namespace: "test-path".to_string(),
        value: value.as_bytes().to_vec(),
    }
}

fn create(name: &str) -> JournalOperation {
    JournalOperation::Create {
        destination: key(name),
        staged: DurableFileEvidence {
            key: key(&format!("stage/{name}")),
            evidence: FileEvidence {
                exact_digest: ExactBytesDigest::new(name.as_bytes()),
                identity: ExecutorFileIdentity {
                    namespace: "test-file".to_string(),
                    value: name.as_bytes().to_vec(),
                },
                metadata: MetadataSnapshot::new("test-metadata".to_string(), b"m".to_vec()),
                link_count: 1,
                kind: FileKind::File,
            },
        },
    }
}

fn fresh_record(count: usize) -> JournalRecord {
    JournalRecord::new(
        TransactionId("tx-machine".to_string()),
        DurableTransactionKey {
            namespace: "test-transaction".to_string(),
            value: b"tx-machine".to_vec(),
        },
        "test-environment".to_string(),
        key("."),
        ExecutorRootIdentity {
            namespace: "test-root".to_string(),
            value: b"root".to_vec(),
        },
        ExactBytesDigest::new(b"plan"),
        (0..count).map(|index| create(&format!("m{index}"))).collect(),
    )
    .unwrap()
}

fn injected(operation: &'static str) -> ExecutionFailure {
    ExecutionFailure::FileSystem(TransactionFileSystemError::Platform {
        operation,
        reason: "injected".to_string(),
    })
}

#[derive(Default)]
struct Faults {
    persist_at: Option<usize>,
    apply_at: Option<usize>,
    restore_at: Option<usize>,
    cleanup: bool,
}

struct Run {
    actions: Vec<String>,
    journals: Vec<(JournalState, Vec<MutationProgress>)>,
    result: Result<ExecutionResult, ExecuteError>,
}

fn snapshot(record: &JournalRecord) -> (JournalState, Vec<MutationProgress>) {
    (
        record.state,
        record.mutations.iter().map(|mutation| mutation.progress).collect(),
    )
}

/// Drives the machine as the executor does; persist calls are counted from the fresh journal.
fn run(count: usize, faults: Faults) -> Run {
    let record = fresh_record(count);
    let mut journals = vec![snapshot(&record)];
    let mut actions = Vec::new();
    let (mut persists, mut applies, mut restores) = (1, 0, 0);
    let (mut machine, mut action) = CommitMachine::start(record);
    loop {
        let event = match action {
            CommitAction::Persist => {
                persists += 1;
                if faults.persist_at == Some(persists) {
                    CommitEvent::Failed {
                        failure: injected("persist journal"),
                    }
                } else {
                    journals.push(snapshot(machine.journal_record()));
                    CommitEvent::Succeeded
                }
            }
            CommitAction::Apply { index } => {
                applies += 1;
                if faults.apply_at == Some(applies) {
                    CommitEvent::Failed {
                        failure: injected("apply guarded"),
                    }
                } else {
                    actions.push(format!("apply {index}"));
                    CommitEvent::Succeeded
                }
            }
            CommitAction::Restore { index } => {
                restores += 1;
                if faults.restore_at == Some(restores) {
                    CommitEvent::Failed {
                        failure: injected("restore guarded"),
                    }
                } else {
                    actions.push(format!("restore {index}"));
                    CommitEvent::Succeeded
                }
            }
            CommitAction::Cleanup => {
                if faults.cleanup {
                    CommitEvent::Failed {
                        failure: injected("cleanup artifacts"),
                    }
                } else {
                    actions.push("cleanup".to_string());
                    CommitEvent::Succeeded
                }
            }
            CommitAction::Finish { result } => {
                return Run {
                    actions,
                    journals,
                    result,
                };
            }
        };
        (machine, action) = machine.advance(event);
    }
}

fn strings(items: &[&str]) -> Vec<String> {
    items.iter().map(|item| item.to_string()).collect()
}

#[test]
fn commit_applies_in_order_and_completes() {
    let run = run(2, Faults::default());
    assert_eq!(run.actions, strings(&["apply 0", "apply 1", "cleanup"]));
    assert_eq!(
        run.result,
        Ok(ExecutionResult {
            transaction_id: TransactionId("tx-machine".to_string()),
            plan_digest: ExactBytesDigest::new(b"plan"),
            outcome: ExecutionOutcome::Committed,
        })
    );
    assert_eq!(
        run.journals,
        vec![
            (JournalState::Preparing, vec![Pending, Pending]),
            (JournalState::Prepared, vec![Pending, Pending]),
            (JournalState::Committing, vec![Pending, Pending]),
            (JournalState::Committing, vec![Committing, Pending]),
            (JournalState::Committing, vec![Applied, Pending]),
            (JournalState::Committing, vec![Applied, Committing]),
            (JournalState::Committing, vec![Applied, Applied]),
            (JournalState::Committed, vec![Applied, Applied]),
            (JournalState::Cleaning, vec![Applied, Applied]),
            (JournalState::Complete, vec![Applied, Applied]),
        ]
    );
}

#[test]
fn apply_failure_restores_newest_first_including_the_failed_mutation() {
    let run = run(
        4,
        Faults {
            apply_at: Some(4),
            ..Faults::default()
        },
    );
    assert_eq!(
        run.actions,
        strings(&[
            "apply 0", "apply 1", "apply 2", "restore 3", "restore 2", "restore 1", "restore 0",
            "cleanup"
        ])
    );
    assert_eq!(
        run.result.unwrap().outcome,
        ExecutionOutcome::RolledBack {
            failure: injected("apply guarded")
        }
    );
    assert_eq!(
        run.journals.last().unwrap(),
        &(JournalState::Complete, vec![MutationProgress::RolledBack; 4])
    );
}

#[test]
fn restore_failure_escalates_and_keeps_the_evidence() {
    let run = run(
        4,
        Faults {
            apply_at: Some(3),
            restore_at: Some(1),
            ..Faults::default()
        },
    );
    assert_eq!(run.actions, strings(&["apply 0", "apply 1"]));
    assert_eq!(
        run.result,
        Err(ExecuteError::RecoveryRequired {
            transaction_id: TransactionId("tx-machine".to_string()),
            plan_digest: ExactBytesDigest::new(b"plan"),
            failure: injected("apply guarded"),
            recovery_failure: injected("restore guarded"),
        })
    );
    assert_eq!(
        run.journals.last().unwrap(),
        &(
            JournalState::RecoveryRequired,
            vec![Applied, Applied, RollingBack, Pending]
        )
    );
}

#[test]
fn journal_failure_before_a_visible_mutation_rolls_back_without_restoring() {
    let run = run(
        1,
        Faults {
            persist_at: Some(4),
            ..Faults::default()
        },
    );
    assert_eq!(run.actions, strings(&["cleanup"]));
    assert_eq!(
        run.journals,
        vec![
            (JournalState::Preparing, vec![Pending]),
            (JournalState::Prepared, vec![Pending]),
            (JournalState::Committing, vec![Pending]),
            (JournalState::RollingBack, vec![Pending]),
            (JournalState::RolledBack, vec![Pending]),
            (JournalState::Cleaning, vec![Pending]),
            (JournalState::Complete, vec![Pending]),
        ]
    );
    assert_eq!(
        run.result.unwrap().outcome,
        ExecutionOutcome::RolledBack {
            failure: injected("persist journal")
        }
    );
}

#[test]
fn journal_failure_after_apply_restores_the_applied_mutation() {
    let run = run(
        1,
        Faults {
            persist_at: Some(5),
            ..Faults::default()
        },
    );
    assert_eq!(run.actions, strings(&["apply 0", "restore 0", "cleanup"]));
    assert_eq!(
        run.journals,
        vec![
            (JournalState::Preparing, vec![Pending]),
            (JournalState::Prepared, vec![Pending]),
            (JournalState::Committing, vec![Pending]),
            (JournalState::Committing, vec![Committing]),
            (JournalState::RollingBack, vec![Committing]),
            (JournalState::RollingBack, vec![RollingBack]),
            (JournalState::RollingBack, vec![RolledBack]),
            (JournalState::RolledBack, vec![RolledBack]),
            (JournalState::Cleaning, vec![RolledBack]),
            (JournalState::Complete, vec![RolledBack]),
        ]
    );
}

#[test]
fn cleanup_failure_after_commit_requires_recovery_toward_commit() {
    let run = run(
        1,
        Faults {
            cleanup: true,
            ..Faults::default()
        },
    );
    assert_eq!(run.actions, strings(&["apply 0"]));
    assert!(matches!(
        run.result,
        Err(ExecuteError::RecoveryRequired { .. })
    ));
    assert_eq!(
        run.journals.last().unwrap(),
        &(JournalState::RecoveryRequired, vec![MutationProgress::Applied])
    );
}
