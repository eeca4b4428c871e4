use hashline_transaction::digest::ExactBytesDigest;
use hashline_transaction::executor::ExecuteError;
use hashline_transaction::keys::TransactionId;
use hashline_transaction::keys::DurableTransactionKey;
use hashline_transaction::recovery::RecoveryAttempt;
use hashline_transaction::recovery::RecoveryError;
use hashline_transaction::recovery::RecoveryOutcome;
use hashline_transaction::recovery::RecoveryResult;
use hashline_transaction::executor::ExecutionFailure;
use hashline_transaction::journal::JournalError;
use hashline_transaction::messages::bounded_error_message_to;
use hashline_transaction::messages::bounded_message_to;
use hashline_transaction::messages::execute_error_class;
use hashline_transaction::messages::execution_failure_class;
use hashline_transaction::messages::recovery_blocks;
use hashline_transaction::messages::execution_failure_kind;
use hashline_transaction::messages::file_system_error_class;
use hashline_transaction::messages::recovery_failure_kind;
use hashline_transaction::messages::plan_error_class;
use hashline_transaction::messages::recovery_scan_class;
use hashline_transaction::planner::PlanError;
use hashline_transaction::messages::ErrorClass;
use hashline_transaction::messages::FailureKind;
use hashline_transaction::messages::RECOVERY_FAILURE_MESSAGE_BYTES;
use hashline_transaction::observation::TransactionFileSystemError;
use hashline_transaction::recovery::RecoveryFailure;

#[test]
fn bounded_message_preserves_utf8_and_caps_bytes() {
    let message = "é".repeat(RECOVERY_FAILURE_MESSAGE_BYTES);

    let bounded = bounded_message_to(message, RECOVERY_FAILURE_MESSAGE_BYTES);

    assert!(bounded.len() <= RECOVERY_FAILURE_MESSAGE_BYTES);
    assert!(bounded.ends_with("...[truncated]"));
}

#[test]
fn bounded_message_keeps_short_messages_and_cuts_at_character_boundaries() {
    assert_eq!(bounded_message_to("short".to_string(), 20), "short");
    assert_eq!(bounded_message_to("x".repeat(20), 20), "x".repeat(20));
    assert_eq!(bounded_message_to("x".repeat(21), 20), "xxxxxx...[truncated]");
    assert_eq!(bounded_message_to("éé".repeat(10), 17), "é...[truncated]");
}

#[test]
fn failures_are_classified_for_callers() {
    let conflict = TransactionFileSystemError::ChangedSincePlanning {
        path: "p".to_string(),
    };
    assert_eq!(file_system_error_class(&conflict), ErrorClass::Conflict);
    assert_eq!(
        file_system_error_class(&TransactionFileSystemError::Unsupported {
            capability: "c",
            reason: "r".to_string(),
        }),
        ErrorClass::Unsupported
    );
    assert_eq!(
        file_system_error_class(&TransactionFileSystemError::InvalidModelPath {
            path: "p".to_string(),
            reason: "r".to_string(),
        }),
        ErrorClass::InvalidRequest
    );
    assert_eq!(
        file_system_error_class(&TransactionFileSystemError::Platform {
            operation: "o",
            reason: "r".to_string(),
        }),
        ErrorClass::Executor
    );
    let journal = ExecutionFailure::Journal(JournalError::MutationIndex { index: 0 });
    assert_eq!(execution_failure_class(&journal), ErrorClass::Executor);
    assert_eq!(execution_failure_kind(&journal), FailureKind::Journal);
    let file_system = ExecutionFailure::FileSystem(conflict.clone());
    assert_eq!(execution_failure_class(&file_system), ErrorClass::Conflict);
    assert_eq!(execution_failure_kind(&file_system), FailureKind::FileSystem);
    assert_eq!(
        recovery_failure_kind(&RecoveryFailure::EnvironmentMismatch),
        FailureKind::Recovery
    );
    assert_eq!(
        recovery_scan_class(&RecoveryFailure::FileSystem(conflict)),
        ErrorClass::Conflict
    );
    assert_eq!(
        recovery_scan_class(&RecoveryFailure::ScanLimit {
            observed: 2,
            limit: 1
        }),
        ErrorClass::Executor
    );
}

#[test]
fn planning_errors_have_stable_categories() {
    let errors = [
        PlanError::Empty,
        PlanError::FileSystem(TransactionFileSystemError::Unsupported {
            capability: "planning",
            reason: "not available".to_string(),
        }),
        PlanError::FileSystem(TransactionFileSystemError::ChangedSincePlanning {
            path: "stale.txt".to_string(),
        }),
        PlanError::FileSystem(TransactionFileSystemError::Platform {
            operation: "open",
            reason: "I/O failure".to_string(),
        }),
    ];

    assert_eq!(
        errors.map(|error| plan_error_class(&error)),
        [
            ErrorClass::InvalidRequest,
            ErrorClass::Unsupported,
            ErrorClass::Conflict,
            ErrorClass::Executor,
        ]
    );
}

#[test]
fn plan_refusals_are_conflicts_or_invalid_requests() {
    assert_eq!(
        plan_error_class(&PlanError::Stale {
            path: "a".to_string()
        }),
        ErrorClass::Conflict
    );
    assert_eq!(
        plan_error_class(&PlanError::ExpectedAbsent {
            path: "a".to_string()
        }),
        ErrorClass::Conflict
    );
    assert_eq!(
        plan_error_class(&PlanError::InvalidEdits {
            path: "a".to_string()
        }),
        ErrorClass::InvalidRequest
    );
    assert_eq!(
        plan_error_class(&PlanError::PreviewSerialization {
            reason: "r".to_string()
        }),
        ErrorClass::Executor
    );
    assert_eq!(
        plan_error_class(&PlanError::FileSystem(
            TransactionFileSystemError::SymbolicLink {
                path: "link".to_string()
            }
        )),
        ErrorClass::InvalidRequest
    );
}

#[test]
fn planning_error_message_is_cut_at_a_character_with_a_short_marker() {
    let message = "é".repeat(64);
    let bounded = bounded_error_message_to(message, 64);
    assert!(bounded.len() <= 64);
    assert!(bounded.ends_with("..."));
    assert_eq!(bounded, format!("{}...", "é".repeat(30)));
    assert_eq!(bounded_error_message_to("fits".to_string(), 4), "fits");
    assert_eq!(bounded_error_message_to("abcdef".to_string(), 5), "ab...");
}

#[test]
fn execution_errors_are_classified_for_callers() {
    assert_eq!(
        execute_error_class(&ExecuteError::PreviewPlan),
        ErrorClass::InvalidRequest
    );
    let conflict = ExecutionFailure::FileSystem(TransactionFileSystemError::ChangedSincePlanning {
        path: "p".to_string(),
    });
    assert_eq!(
        execute_error_class(&ExecuteError::BeforeCommit {
            failure: conflict.clone()
        }),
        ErrorClass::Conflict
    );
    assert_eq!(
        execute_error_class(&ExecuteError::RecoveryRequired {
            transaction_id: TransactionId("tx".to_string()),
            plan_digest: ExactBytesDigest::new(b"plan"),
            failure: conflict.clone(),
            recovery_failure: conflict,
        }),
        ErrorClass::RecoveryRequired
    );
}

#[test]
fn only_unfinished_recovery_blocks_new_work() {
    let key = DurableTransactionKey {
        namespace: "k".to_string(),
        value: b"tx".to_vec(),
    };
    let done = || RecoveryAttempt {
        key: key.clone(),
        result: Ok(RecoveryResult {
            transaction_id: TransactionId("tx".to_string()),
            plan_digest: ExactBytesDigest::new(b"plan"),
            outcome: RecoveryOutcome::RolledBack,
        }),
    };
    let unfinished = RecoveryAttempt {
        key: key.clone(),
        result: Err(RecoveryError::Unavailable {
            failure: RecoveryFailure::EnvironmentMismatch,
        }),
    };
    assert!(!recovery_blocks(&Vec::new()));
    assert!(!recovery_blocks(&vec![done()]));
    assert!(recovery_blocks(&vec![done(), unfinished]));
}

#[test]
fn planning_error_messages_are_utf8_safe_and_bounded() {
    let max_bytes = RECOVERY_FAILURE_MESSAGE_BYTES;
    let message = bounded_error_message_to("é".repeat(max_bytes), max_bytes);

    assert!(message.len() <= max_bytes);
    assert!(message.ends_with("..."));
}
