use hashline_transaction::digest::ExactBytesDigest;
use hashline_transaction::journal::DurableFileEvidence;
use hashline_transaction::journal::JournalOperation;
use hashline_transaction::journal::JournalRecord;
use hashline_transaction::journal::JournalState;
use hashline_transaction::journal::MutationProgress;
use hashline_transaction::keys::DurablePathKey;
use hashline_transaction::keys::DurableTransactionKey;
use hashline_transaction::keys::ExecutorFileIdentity;
use hashline_transaction::keys::ExecutorRootIdentity;
use hashline_transaction::keys::TransactionId;
use hashline_transaction::observation::FileEvidence;
use hashline_transaction::observation::FileKind;
use hashline_transaction::observation::MetadataSnapshot;
use hashline_transaction::observation::TransactionFileSystemError;
use hashline_transaction::recovery::RecoveryError;
use hashline_transaction::recovery::RecoveryFailure;
use hashline_transaction::recovery::RecoveryOutcome;
use hashline_transaction::recovery::RecoveryResult;
use hashline_transaction::recovery_machine::RecoveryAction;
use hashline_transaction::recovery_machine::RecoveryEvent;
use hashline_transaction::recovery_machine::RecoveryMachine;

fn key(value: &str) -> DurablePathKey {
    DurablePathKey {
        namespace: "test-path".to_string(),
        value: value.as_bytes().to_vec(),
    }
}

fn create(name: &str) -> JournalOperation {
    JournalOperation::Create {
        destination: key(name),
        staged: DurableFileEvidence {
            key: key(&format!("stage/{name}")),
            evidence: FileEvidence {
                exact_digest: ExactBytesDigest::new(name.as_bytes()),
                identity: ExecutorFileIdentity {
                    namespace: "test-file".to_string(),
                    value: name.as_bytes().to_vec(),
                },
                metadata: MetadataSnapshot::new("test-metadata".to_string(), b"m".to_vec()),
                link_count: 1,
                kind: FileKind::File,
            },
        },
    }
}

fn fresh(count: usize) -> JournalRecord {
    JournalRecord::new(
        TransactionId("tx-recover".to_string()),
        DurableTransactionKey {
            namespace: "test-transaction".to_string(),
            value: b"tx-recover".to_vec(),
        },
        "test-environment".to_string(),
        key("."),
        ExecutorRootIdentity {
            namespace: "test-root".to_string(),
            value: b"root".to_vec(),
        },
        ExactBytesDigest::new(b"plan"),
        (0..count).map(|index| create(&format!("m{index}"))).collect(),
    )
    .unwrap()
}

/// A journal interrupted while committing: the first `applied` mutations applied, the next
/// one committing when `committing` is set.
fn interrupted(count: usize, applied: usize, committing: bool) -> JournalRecord {
    let mut record = fresh(count);
    record.transition(JournalState::Prepared).unwrap();
    record.transition(JournalState::Committing).unwrap();
    for index in 0..applied {
        record
            .set_mutation_progress(index, MutationProgress::Committing)
            .unwrap();
        record
            .set_mutation_progress(index, MutationProgress::Applied)
            .unwrap();
    }
    if committing {
        record
            .set_mutation_progress(applied, MutationProgress::Committing)
            .unwrap();
    }
    record
}

fn committed(count: usize) -> JournalRecord {
    let mut record = interrupted(count, count, false);
    record.transition(JournalState::Committed).unwrap();
    record
}

fn failure(reason: &str) -> RecoveryFailure {
    RecoveryFailure::FileSystem(TransactionFileSystemError::Platform {
        operation: "test",
        reason: reason.to_string(),
    })
}

struct Run {
    steps: Vec<String>,
    result: Result<RecoveryResult, RecoveryError>,
}

/// Drives the machine; `fail_steps` name the steps (as recorded) whose actions fail.
fn drive(start: (RecoveryMachine, RecoveryAction), fail_steps: &[&str]) -> Run {
    let (mut machine, mut action) = start;
    let mut steps = Vec::new();
    loop {
        let step = match action {
            RecoveryAction::Persist => {
                let record = machine.journal_record();
                let progress: Vec<String> = record
                    .mutations
                    .iter()
                    .map(|mutation| format!("{:?}", mutation.progress))
                    .collect();
                format!("persist {:?} {}", record.state, progress.join(","))
            }
            RecoveryAction::VerifyCommitted => "verify committed".to_string(),
            RecoveryAction::VerifyRolledBack => "verify rolled back".to_string(),
            RecoveryAction::Restore { index } => format!("restore {index}"),
            RecoveryAction::Cleanup => "cleanup".to_string(),
            RecoveryAction::Finish { result } => return Run { steps, result },
        };
        let event = if fail_steps.contains(&step.as_str()) {
            RecoveryEvent::Failed {
                failure: failure(&step),
            }
        } else {
            RecoveryEvent::Succeeded
        };
        steps.push(step);
        (machine, action) = machine.advance(event);
    }
}

fn strings(items: &[&str]) -> Vec<String> {
    items.iter().map(|item| item.to_string()).collect()
}

fn recovered(outcome: RecoveryOutcome) -> Result<RecoveryResult, RecoveryError> {
    Ok(RecoveryResult {
        transaction_id: TransactionId("tx-recover".to_string()),
        plan_digest: ExactBytesDigest::new(b"plan"),
        outcome,
    })
}

#[test]
fn committed_journal_is_verified_then_cleaned_up() {
    let run = drive(RecoveryMachine::start(committed(2), 2), &[]);
    assert_eq!(
        run.steps,
        strings(&[
            "verify committed",
            "persist Cleaning Applied,Applied",
            "cleanup",
            "persist Complete Applied,Applied",
        ])
    );
    assert_eq!(run.result, recovered(RecoveryOutcome::Committed));
}

#[test]
fn completed_journal_is_only_verified_again() {
    let mut record = committed(1);
    record.transition(JournalState::Cleaning).unwrap();
    record.transition(JournalState::Complete).unwrap();
    let run = drive(RecoveryMachine::start(record, 1), &[]);
    assert_eq!(run.steps, strings(&["verify committed"]));
    assert_eq!(run.result, recovered(RecoveryOutcome::Committed));
}

#[test]
fn interrupted_commit_rolls_back_newest_first() {
    let run = drive(RecoveryMachine::start(interrupted(3, 1, true), 3), &[]);
    assert_eq!(
        run.steps,
        strings(&[
            "persist RollingBack Applied,Committing,Pending",
            "persist RollingBack Applied,RollingBack,Pending",
            "restore 1",
            "persist RollingBack Applied,RolledBack,Pending",
            "persist RollingBack RollingBack,RolledBack,Pending",
            "restore 0",
            "persist RollingBack RolledBack,RolledBack,Pending",
            "persist RolledBack RolledBack,RolledBack,Pending",
            "verify rolled back",
            "persist Cleaning RolledBack,RolledBack,Pending",
            "cleanup",
            "persist Complete RolledBack,RolledBack,Pending",
        ])
    );
    assert_eq!(run.result, recovered(RecoveryOutcome::RolledBack));
}

#[test]
fn disturbed_restore_requires_recovery_and_keeps_evidence() {
    let run = drive(
        RecoveryMachine::start(interrupted(1, 1, false), 1),
        &["restore 0"],
    );
    assert_eq!(
        run.steps,
        strings(&[
            "persist RollingBack Applied",
            "persist RollingBack RollingBack",
            "restore 0",
            "persist RecoveryRequired RollingBack",
        ])
    );
    assert_eq!(
        run.result,
        Err(RecoveryError::RecoveryRequired {
            transaction_id: TransactionId("tx-recover".to_string()),
            failure: failure("restore 0"),
            record_failure: None,
        })
    );
}

#[test]
fn a_failed_escalation_is_reported_beside_the_failure() {
    let run = drive(
        RecoveryMachine::start(committed(1), 1),
        &["verify committed"],
    );
    assert_eq!(run.steps, strings(&["verify committed", "persist RecoveryRequired Applied"]));
    let run_with_failed_mark = drive(
        RecoveryMachine::start(committed(1), 1),
        &["verify committed", "persist RecoveryRequired Applied"],
    );
    assert_eq!(
        run_with_failed_mark.result,
        Err(RecoveryError::RecoveryRequired {
            transaction_id: TransactionId("tx-recover".to_string()),
            failure: failure("verify committed"),
            record_failure: Some(failure("persist RecoveryRequired Applied")),
        })
    );
    let mut escalated = committed(1);
    escalated.transition(JournalState::RecoveryRequired).unwrap();
    let again = drive(RecoveryMachine::start(escalated, 1), &["verify committed"]);
    assert_eq!(again.steps, strings(&["verify committed"]));
    assert_eq!(
        again.result,
        Err(RecoveryError::RecoveryRequired {
            transaction_id: TransactionId("tx-recover".to_string()),
            failure: failure("verify committed"),
            record_failure: None,
        })
    );
}

#[test]
fn reopened_entries_must_match_the_journal_before_rollback() {
    let run = drive(RecoveryMachine::start(interrupted(2, 1, false), 1), &[]);
    assert_eq!(run.steps, strings(&["persist RecoveryRequired Applied,Pending"]));
    assert!(matches!(
        run.result,
        Err(RecoveryError::RecoveryRequired {
            failure: RecoveryFailure::FileSystem(TransactionFileSystemError::Platform {
                operation: "recover rollback",
                ..
            }),
            ..
        })
    ));
}

#[test]
fn recovery_that_cannot_reopen_escalates_once() {
    let run = drive(
        RecoveryMachine::abandon(interrupted(1, 0, false), RecoveryFailure::RootIdentityMismatch),
        &[],
    );
    assert_eq!(run.steps, strings(&["persist RecoveryRequired Pending"]));
    assert_eq!(
        run.result,
        Err(RecoveryError::RecoveryRequired {
            transaction_id: TransactionId("tx-recover".to_string()),
            failure: RecoveryFailure::RootIdentityMismatch,
            record_failure: None,
        })
    );
}
