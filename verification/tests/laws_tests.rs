use hashline_transaction::journal::MutationProgress;
use hashline_transaction::recovery::rollback_step;
use hashline_transaction::recovery::RollbackStep;
use hashline_transaction::digest::ExactBytesDigest;
use hashline_transaction::edits::compile_edits;
use hashline_transaction::edits::line_hash;
use hashline_transaction::edits::EditOutputLimit;
use hashline_transaction::edits::TextDocument;
use hashline_transaction::journal::JournalError;
use hashline_transaction::journal::JournalState;
use hashline_transaction::journal::RecoveryTarget;
use hashline_transaction::keys::CanonicalPathKey;
use hashline_transaction::keys::ExecutorRootIdentity;
use hashline_transaction::plan_digest::digest_plan;
use hashline_transaction::request::FileEdit;
use hashline_transaction::request::LineAnchor;
use hashline_transaction::request::PlannedMutation;

fn limit() -> EditOutputLimit {
    EditOutputLimit { max_bytes: u64::MAX }
}

#[test]
fn parsing_then_encoding_gives_back_the_same_bytes() {
    for before in [
        &b""[..],
        b"a",
        b"a\n",
        b"a\r\nb\rc\n\n",
        b"\xef\xbb\xbfx\r\n",
        "caf\u{e9}\rna\u{ef}ve".as_bytes(),
    ] {
        let document = TextDocument::parse("f", before).unwrap();
        let encoded = document.finish(limit()).unwrap();
        assert_eq!(encoded, before);
    }
}

#[test]
fn anchors_built_from_line_hashes_are_accepted() {
    let before = b"one\ntwo\nthree\n";
    for (line, text) in [(1u64, "one"), (2, "two"), (3, "three")] {
        let after = compile_edits(
            "f",
            before,
            vec![FileEdit::InsertBefore {
                anchor: LineAnchor {
                    line,
                    expected_hash: line_hash(text),
                },
                lines: vec!["new".to_string()],
            }],
            false,
            limit(),
        );
        assert!(after.is_ok());
    }
}

#[test]
fn plan_digest_does_not_depend_on_mutation_order() {
    let create = |path: &str| PlannedMutation::Create {
        path: path.to_string(),
        model_path: path.to_string(),
        path_key: CanonicalPathKey {
            namespace: "k".to_string(),
            value: path.as_bytes().to_vec(),
        },
        contents: path.as_bytes().to_vec(),
        after_digest: ExactBytesDigest::new(path.as_bytes()),
    };
    let identity = ExecutorRootIdentity {
        namespace: "root".to_string(),
        value: b"r".to_vec(),
    };
    let forward = vec![create("a"), create("b"), create("c")];
    let backward = vec![create("c"), create("a"), create("b")];
    assert_eq!(
        digest_plan("env", "file:///w", &identity, &forward),
        digest_plan("env", "file:///w", &identity, &backward)
    );
    assert_ne!(
        digest_plan("env", "file:///w", &identity, &forward),
        digest_plan("other", "file:///w", &identity, &forward)
    );
}

#[test]
fn a_committed_record_never_rolls_back() {
    let mut record = hashline_transaction::journal::JournalRecord::new(
        hashline_transaction::keys::TransactionId("t".to_string()),
        hashline_transaction::keys::DurableTransactionKey {
            namespace: "n".to_string(),
            value: b"v".to_vec(),
        },
        "e".to_string(),
        hashline_transaction::keys::DurablePathKey {
            namespace: "n".to_string(),
            value: b"r".to_vec(),
        },
        identity_for_record(),
        ExactBytesDigest::new(b"p"),
        vec![hashline_transaction::journal::JournalOperation::Create {
            destination: hashline_transaction::keys::DurablePathKey {
                namespace: "n".to_string(),
                value: b"d".to_vec(),
            },
            staged: hashline_transaction::journal::DurableFileEvidence {
                key: hashline_transaction::keys::DurablePathKey {
                    namespace: "n".to_string(),
                    value: b"s".to_vec(),
                },
                evidence: hashline_transaction::observation::FileEvidence {
                    exact_digest: ExactBytesDigest::new(b"x"),
                    identity: hashline_transaction::keys::ExecutorFileIdentity {
                        namespace: "i".to_string(),
                        value: b"1".to_vec(),
                    },
                    metadata: hashline_transaction::observation::MetadataSnapshot::new(
                        "m".to_string(),
                        b"m".to_vec(),
                    ),
                    link_count: 1,
                    kind: hashline_transaction::observation::FileKind::File,
                },
            },
        }],
    )
    .unwrap();
    record.transition(JournalState::Prepared).unwrap();
    record.transition(JournalState::Committing).unwrap();
    record
        .set_mutation_progress(0, hashline_transaction::journal::MutationProgress::Committing)
        .unwrap();
    record
        .set_mutation_progress(0, hashline_transaction::journal::MutationProgress::Applied)
        .unwrap();
    record.transition(JournalState::Committed).unwrap();
    assert_eq!(record.recovery_target, RecoveryTarget::Commit);
    record.transition(JournalState::RecoveryRequired).unwrap();
    assert_eq!(
        record.transition(JournalState::RollingBack),
        Err(JournalError::InconsistentRecoveryTarget {
            state: JournalState::RollingBack,
            target: RecoveryTarget::Commit,
        })
    );
    assert_eq!(record.recovery_target, RecoveryTarget::Commit);
    record.transition(JournalState::Cleaning).unwrap();
    record.transition(JournalState::Complete).unwrap();
    assert_eq!(
        record.transition(JournalState::Cleaning),
        Err(JournalError::InvalidStateTransition {
            current: JournalState::Complete,
            next: JournalState::Cleaning,
        })
    );
}

fn identity_for_record() -> ExecutorRootIdentity {
    ExecutorRootIdentity {
        namespace: "root".to_string(),
        value: b"r".to_vec(),
    }
}

fn create_operation(name: &str) -> hashline_transaction::journal::JournalOperation {
    hashline_transaction::journal::JournalOperation::Create {
        destination: hashline_transaction::keys::DurablePathKey {
            namespace: "n".to_string(),
            value: name.as_bytes().to_vec(),
        },
        staged: hashline_transaction::journal::DurableFileEvidence {
            key: hashline_transaction::keys::DurablePathKey {
                namespace: "s".to_string(),
                value: name.as_bytes().to_vec(),
            },
            evidence: hashline_transaction::observation::FileEvidence {
                exact_digest: ExactBytesDigest::new(name.as_bytes()),
                identity: hashline_transaction::keys::ExecutorFileIdentity {
                    namespace: "i".to_string(),
                    value: name.as_bytes().to_vec(),
                },
                metadata: hashline_transaction::observation::MetadataSnapshot::new(
                    "m".to_string(),
                    b"m".to_vec(),
                ),
                link_count: 1,
                kind: hashline_transaction::observation::FileKind::File,
            },
        },
    }
}

#[test]
fn rollback_steps_are_admitted_newest_first_and_end_rolled_back() {
    let mut record = hashline_transaction::journal::JournalRecord::new(
        hashline_transaction::keys::TransactionId("t".to_string()),
        hashline_transaction::keys::DurableTransactionKey {
            namespace: "n".to_string(),
            value: b"v".to_vec(),
        },
        "e".to_string(),
        hashline_transaction::keys::DurablePathKey {
            namespace: "n".to_string(),
            value: b"r".to_vec(),
        },
        identity_for_record(),
        ExactBytesDigest::new(b"p"),
        vec![create_operation("a"), create_operation("b"), create_operation("c")],
    )
    .unwrap();
    record.transition(JournalState::Prepared).unwrap();
    record.transition(JournalState::Committing).unwrap();
    record.set_mutation_progress(0, MutationProgress::Committing).unwrap();
    record.set_mutation_progress(0, MutationProgress::Applied).unwrap();
    record.set_mutation_progress(1, MutationProgress::Committing).unwrap();
    record.transition(JournalState::RollingBack).unwrap();

    let mut steps = Vec::new();
    for index in (0..record.mutations.len()).rev() {
        let step = rollback_step(record.mutations[index].progress);
        steps.push(step);
        match step {
            RollbackStep::Skip => continue,
            RollbackStep::MarkAndRestore => record
                .set_mutation_progress(index, MutationProgress::RollingBack)
                .unwrap(),
            RollbackStep::Restore => {}
        }
        record
            .set_mutation_progress(index, MutationProgress::RolledBack)
            .unwrap();
    }
    assert_eq!(
        steps,
        vec![
            RollbackStep::Skip,
            RollbackStep::MarkAndRestore,
            RollbackStep::MarkAndRestore
        ]
    );
    record.transition(JournalState::RolledBack).unwrap();
    assert_eq!(
        record
            .mutations
            .iter()
            .map(|mutation| mutation.progress)
            .collect::<Vec<_>>(),
        vec![
            MutationProgress::RolledBack,
            MutationProgress::RolledBack,
            MutationProgress::Pending
        ]
    );
}
