use hashline_transaction::capability::GuardedMutation;
use hashline_transaction::capability::GuardedRollback;
use hashline_transaction::capability::StageFileRequest;
use hashline_transaction::digest::ExactBytesDigest;
use hashline_transaction::executor::before_commit;
use hashline_transaction::executor::check_executable;
use hashline_transaction::executor::check_root_unchanged;
use hashline_transaction::executor::ordered_lock_paths;
use hashline_transaction::executor::require_absent_observation;
use hashline_transaction::executor::require_unchanged_observation;
use hashline_transaction::executor::revalidation_checks;
use hashline_transaction::executor::Revalidation;
use hashline_transaction::executor::sort_mutations;
use hashline_transaction::executor::storage_requirements;
use hashline_transaction::executor::ExecuteError;
use hashline_transaction::executor::ExecutionFailure;
use hashline_transaction::journal::DurableFileEvidence;
use hashline_transaction::journal::JournalOperation;
use hashline_transaction::keys::CanonicalPathKey;
use hashline_transaction::keys::DurablePathKey;
use hashline_transaction::keys::ExecutorFileIdentity;
use hashline_transaction::keys::ExecutorRootIdentity;
use hashline_transaction::observation::FileKind;
use hashline_transaction::observation::MetadataSnapshot;
use hashline_transaction::observation::ObservedFile;
use hashline_transaction::observation::ObservedPath;
use hashline_transaction::observation::TransactionFileSystemError;
use hashline_transaction::prepared::prepare_create;
use hashline_transaction::prepared::prepare_entry;
use hashline_transaction::prepared::preparation_of;
use hashline_transaction::prepared::prepare_delete;
use hashline_transaction::prepared::prepare_move;
use hashline_transaction::prepared::prepare_update;
use hashline_transaction::prepared::PreparedMutation;
use hashline_transaction::request::PlanSummary;
use hashline_transaction::request::PlannedMutation;
use hashline_transaction::request::TransactionAction;
use hashline_transaction::request::TransactionLimits;

fn key(value: &str) -> CanonicalPathKey {
    CanonicalPathKey {
        namespace: "k".to_string(),
        value: value.as_bytes().to_vec(),
    }
}

fn durable(value: &str) -> DurablePathKey {
    DurablePathKey {
        namespace: "d".to_string(),
        value: value.as_bytes().to_vec(),
    }
}

fn file(contents: &[u8]) -> ObservedFile {
    ObservedFile::new(
        contents.to_vec(),
        ExecutorFileIdentity {
            namespace: "id".to_string(),
            value: vec![1],
        },
        MetadataSnapshot::new("meta".to_string(), b"m".to_vec()),
        1,
        FileKind::File,
    )
}

fn create(path: &str) -> PlannedMutation<String> {
    PlannedMutation::Create {
        path: format!("native:{path}"),
        model_path: path.to_string(),
        path_key: key(path),
        contents: b"c".to_vec(),
        after_digest: ExactBytesDigest::new(b"c"),
    }
}

fn moved(source: &str, destination: &str) -> PlannedMutation<String> {
    PlannedMutation::Move {
        source: format!("native:{source}"),
        model_source: source.to_string(),
        source_key: key(source),
        before: file(b"old"),
        destination: format!("native:{destination}"),
        model_destination: destination.to_string(),
        destination_key: key(destination),
        contents: b"old".to_vec(),
        after_digest: ExactBytesDigest::new(b"old"),
    }
}

#[test]
fn preview_plans_cannot_execute() {
    assert_eq!(
        check_executable(&TransactionAction::Preview),
        Err(ExecuteError::PreviewPlan)
    );
    assert_eq!(check_executable(&TransactionAction::Commit), Ok(()));
    let failure = ExecutionFailure::FileSystem(TransactionFileSystemError::SymbolicLink {
        path: "p".to_string(),
    });
    assert_eq!(
        before_commit(failure.clone()),
        ExecuteError::BeforeCommit { failure }
    );
}

#[test]
fn mutations_sort_by_path_or_move_source() {
    let mut mutations = vec![create("c"), moved("b", "a"), create("a2"), create("a")];
    sort_mutations(&mut mutations);
    let keys: Vec<_> = mutations
        .iter()
        .map(|mutation| match mutation {
            PlannedMutation::Create { model_path, .. } => model_path.clone(),
            PlannedMutation::Move { model_source, .. } => model_source.clone(),
            _ => unreachable!(),
        })
        .collect();
    assert_eq!(keys, vec!["a", "a2", "b", "c"]);
}

#[test]
fn lock_targets_are_sorted_by_key_across_move_sources_and_destinations() {
    let mutations = vec![create("m"), moved("z", "b"), create("c")];
    assert_eq!(
        ordered_lock_paths(&mutations),
        vec![
            "native:b".to_string(),
            "native:c".to_string(),
            "native:m".to_string(),
            "native:z".to_string(),
        ]
    );
}

#[test]
fn revalidation_detects_changes_since_planning() {
    let planned = ExecutorRootIdentity {
        namespace: "r".to_string(),
        value: b"1".to_vec(),
    };
    assert_eq!(check_root_unchanged(&planned.clone(), &planned), Ok(()));
    let changed = ExecutorRootIdentity {
        namespace: "r".to_string(),
        value: b"2".to_vec(),
    };
    assert_eq!(
        check_root_unchanged(&changed, &planned),
        Err(TransactionFileSystemError::ChangedSincePlanning {
            path: ".".to_string(),
        })
    );
    assert_eq!(require_absent_observation("new", &ObservedPath::Absent), Ok(()));
    assert_eq!(
        require_absent_observation("new", &ObservedPath::Present(file(b"x"))),
        Err(TransactionFileSystemError::ChangedSincePlanning {
            path: "new".to_string(),
        })
    );
    let expected = file(b"old");
    assert_eq!(
        require_unchanged_observation("f", &expected, &ObservedPath::Present(file(b"old"))),
        Ok(())
    );
    let mut relinked = file(b"old");
    relinked.link_count = 2;
    for observed in [
        ObservedPath::Absent,
        ObservedPath::Present(file(b"new")),
        ObservedPath::Present(relinked),
    ] {
        assert_eq!(
            require_unchanged_observation("f", &expected, &observed),
            Err(TransactionFileSystemError::ChangedSincePlanning {
                path: "f".to_string(),
            })
        );
    }
}

#[test]
fn storage_reserves_after_images_before_images_and_one_journal() {
    let summary = PlanSummary {
        creates: 1,
        updates: 0,
        deletes: 0,
        moves: 0,
        before_bytes: 5,
        after_bytes: 9,
    };
    let requirements = storage_requirements(summary, TransactionLimits::default());
    assert_eq!(requirements.staged_bytes, 9);
    assert_eq!(requirements.backup_bytes, 5);
    assert_eq!(requirements.journal_bytes, 1048576);
}

#[test]
fn prepared_mutations_guard_and_invert_with_their_evidence() {
    let evidence = |name: &str| DurableFileEvidence {
        key: durable(name),
        evidence: hashline_transaction::observation::FileEvidence::from_observed(&file(b"x")),
    };
    let before = file(b"old");

    let entry = prepare_create::<&str, u8, u16>("dst", 7, durable("dst"), evidence("s"));
    match entry.mutation.guarded() {
        GuardedMutation::Create { destination, staged } => {
            assert_eq!((*destination, *staged), ("dst", 7));
        }
        _ => panic!("expected create"),
    }
    match entry.mutation.rollback() {
        GuardedRollback::RemoveCreated { destination, staged } => {
            assert_eq!((*destination, *staged), ("dst", 7));
        }
        _ => panic!("expected create rollback"),
    }
    assert_eq!(entry.mutation.parent_paths(), vec![&"dst"]);
    assert!(matches!(entry.journal, JournalOperation::Create { .. }));

    let entry = prepare_update("p", &before, 1u8, 2u16, durable("p"), evidence("s"), evidence("b"));
    match &entry.mutation {
        PreparedMutation::Replace { expected, .. } => {
            assert_eq!(expected.exact_digest, before.exact_digest);
        }
        _ => panic!("expected replace"),
    }
    match entry.mutation.rollback() {
        GuardedRollback::RestoreReplaced { destination, staged, backup, .. } => {
            assert_eq!((*destination, *staged, *backup), ("p", 1, 2));
        }
        _ => panic!("expected replace rollback"),
    }

    let entry = prepare_delete::<&str, u8, u16>("p", &before, 2, durable("p"), evidence("b"));
    assert_eq!(entry.mutation.parent_paths(), vec![&"p"]);

    let entry = prepare_move(
        "src",
        &before,
        "dst",
        1u8,
        2u16,
        durable("src"),
        durable("dst"),
        evidence("s"),
        evidence("b"),
    );
    match entry.mutation.guarded() {
        GuardedMutation::Move { source, destination, staged, backup, .. } => {
            assert_eq!((*source, *destination, staged.copied(), *backup), ("src", "dst", Some(1), 2));
        }
        _ => panic!("expected move"),
    }
    assert_eq!(entry.mutation.parent_paths(), vec![&"src", &"dst"]);

    let contents = b"after";
    let request = StageFileRequest::new(&"dst", contents, Some(&before.metadata));
    assert_eq!(*request.destination, "dst");
    assert_eq!(request.contents, contents);
}

#[test]
fn revalidating_a_move_checks_the_source_then_the_destination() {
    let mutation = moved("a.txt", "b.txt");
    let checks = revalidation_checks(&mutation);
    assert_eq!(checks.len(), 2);
    assert!(matches!(
        checks[0],
        Revalidation::Unchanged { path, model_path, expected }
            if path == "native:a.txt" && model_path == "a.txt" && *expected == file(b"old")
    ));
    assert!(matches!(
        checks[1],
        Revalidation::Absent { path, model_path }
            if path == "native:b.txt" && model_path == "b.txt"
    ));
}

#[test]
fn revalidating_a_create_checks_its_path_is_absent() {
    let mutation = create("new.txt");
    let checks = revalidation_checks(&mutation);
    assert_eq!(checks.len(), 1);
    assert!(matches!(
        checks[0],
        Revalidation::Absent { path, model_path }
            if path == "native:new.txt" && model_path == "new.txt"
    ));
}

#[test]
fn a_move_stages_at_its_destination_and_backs_up_its_source() {
    let mutation = moved("a.txt", "b.txt");
    let preparation = preparation_of(&mutation);
    let (path, contents, before) = preparation.stage.unwrap();
    assert_eq!(path, "native:b.txt");
    assert_eq!(contents, b"old");
    assert_eq!(before, Some(&file(b"old")));
    let (source, backed_up) = preparation.backup.unwrap();
    assert_eq!(source, "native:a.txt");
    assert_eq!(backed_up, &file(b"old"));
    assert_eq!(preparation.keyed, vec!["native:a.txt", "native:b.txt"]);
}

#[test]
fn a_create_only_stages() {
    let mutation = create("new.txt");
    let preparation = preparation_of(&mutation);
    assert!(preparation.backup.is_none());
    let (path, contents, before) = preparation.stage.unwrap();
    assert_eq!(path, "native:new.txt");
    assert_eq!(contents, b"c");
    assert!(before.is_none());
    assert_eq!(preparation.keyed, vec!["native:new.txt"]);
}

#[test]
fn prepared_entries_are_assembled_from_what_was_written() {
    let mutation = moved("a.txt", "b.txt");
    let staged_evidence = DurableFileEvidence {
        key: durable("staged"),
        evidence: hashline_transaction::observation::FileEvidence::from_observed(&file(b"old")),
    };
    let backup_evidence = DurableFileEvidence {
        key: durable("backup"),
        evidence: hashline_transaction::observation::FileEvidence::from_observed(&file(b"old")),
    };
    let entry = prepare_entry(
        &mutation,
        Some((1u8, staged_evidence.clone())),
        Some((2u16, backup_evidence.clone())),
        vec![durable("a.txt"), durable("b.txt")],
    )
    .unwrap();
    assert!(matches!(
        entry.mutation,
        PreparedMutation::Move { ref source, ref destination, staged: 1, backup: 2, .. }
            if source == "native:a.txt" && destination == "native:b.txt"
    ));
    assert!(matches!(
        entry.journal,
        JournalOperation::Move { ref source, ref destination, .. }
            if *source == durable("a.txt") && *destination == durable("b.txt")
    ));
    assert!(prepare_entry::<String, u8, u16>(
        &mutation,
        Some((1u8, staged_evidence)),
        None,
        vec![durable("a.txt"), durable("b.txt")],
    )
    .is_none());
}
