use hashline_transaction::digest::ExactBytesDigest;
use hashline_transaction::guarded_steps::artifact_linked;
use hashline_transaction::guarded_steps::check_artifact;
use hashline_transaction::guarded_steps::check_artifact_record;
use hashline_transaction::guarded_steps::check_backup;
use hashline_transaction::guarded_steps::create_step;
use hashline_transaction::guarded_steps::exchange_check;
use hashline_transaction::guarded_steps::exchange_step;
use hashline_transaction::guarded_steps::matches_evidence;
use hashline_transaction::guarded_steps::move_step;
use hashline_transaction::guarded_steps::removal_step;
use hashline_transaction::guarded_steps::restore_move_step;
use hashline_transaction::guarded_steps::restore_removed_step;
use hashline_transaction::guarded_steps::temporary_name;
use hashline_transaction::guarded_steps::ExchangeCheck;
use hashline_transaction::guarded_steps::ExchangeStep;
use hashline_transaction::guarded_steps::Guard;
use hashline_transaction::guarded_steps::LinkStep;
use hashline_transaction::guarded_steps::MoveStep;
use hashline_transaction::guarded_steps::RemovalStep;
use hashline_transaction::guarded_steps::RestoreMoveStep;
use hashline_transaction::keys::ExecutorFileIdentity;
use hashline_transaction::observation::FileEvidence;
use hashline_transaction::observation::FileKind;
use hashline_transaction::observation::MetadataSnapshot;
use hashline_transaction::observation::ObservedEvidence;
use hashline_transaction::observation::TransactionFileSystemError;

fn file(name: &str, links: u64) -> FileEvidence {
    FileEvidence {
        exact_digest: ExactBytesDigest::new(name.as_bytes()),
        identity: ExecutorFileIdentity {
            namespace: "linux-dev-ino-v1".to_string(),
            value: name.as_bytes().to_vec(),
        },
        metadata: MetadataSnapshot::new("meta".to_string(), b"m".to_vec()),
        link_count: links,
        kind: FileKind::File,
    }
}

fn at(evidence: FileEvidence) -> ObservedEvidence {
    ObservedEvidence::Present(evidence)
}

fn changed(label: &str) -> TransactionFileSystemError {
    TransactionFileSystemError::ChangedSincePlanning {
        path: label.to_string(),
    }
}

#[test]
fn an_artifact_is_linked_only_as_a_second_link_of_itself() {
    let staged = Some(file("staged", 2));
    assert!(artifact_linked(&staged, &at(file("staged", 2))));
    assert!(!artifact_linked(&staged, &at(file("staged", 1))));
    assert!(!artifact_linked(&staged, &at(file("other", 2))));
    assert!(!artifact_linked(&staged, &ObservedEvidence::Absent));
    assert!(!artifact_linked(&None, &at(file("staged", 2))));
    assert!(!artifact_linked(&Some(file("staged", 1)), &at(file("staged", 2))));
}

#[test]
fn evidence_matches_only_the_same_file_with_the_same_links() {
    let expected = file("before", 1);
    assert!(matches_evidence(&at(file("before", 1)), &expected));
    assert!(!matches_evidence(&at(file("before", 2)), &expected));
    assert!(!matches_evidence(&ObservedEvidence::Absent, &expected));
}

#[test]
fn artifact_records_and_revalidation() {
    assert_eq!(check_artifact_record(&file("a", 1)), Ok(()));
    assert_eq!(
        check_artifact_record(&file("a", 2)),
        Err(changed("transaction artifact"))
    );
    let recorded = file("a", 1);
    assert_eq!(
        check_artifact(&recorded, &file("a", 2), &at(file("a", 2))),
        Ok(())
    );
    assert_eq!(
        check_artifact(&recorded, &file("a", 3), &at(file("a", 3))),
        Err(changed("transaction artifact"))
    );
    assert_eq!(
        check_artifact(&recorded, &file("a", 1), &ObservedEvidence::Absent),
        Err(changed("transaction artifact"))
    );
}

#[test]
fn a_backup_must_copy_the_single_linked_before_image() {
    let before = file("before", 1);
    assert_eq!(check_backup(&file("before", 1), &file("before", 2), &before), Ok(()));
    assert_eq!(
        check_backup(&file("before", 2), &file("before", 2), &before),
        Err(changed("transaction backup"))
    );
    assert_eq!(
        check_backup(&file("x", 1), &file("other", 1), &before),
        Err(changed("transaction backup"))
    );
}

#[test]
fn temporary_names_carry_the_hex_identity() {
    assert_eq!(
        temporary_name("exchange", "apply", &[0x01, 0xab]),
        ".codex-hashline-exchange-apply-01ab"
    );
    assert_eq!(
        temporary_name("remove", "guarded", &[]),
        ".codex-hashline-remove-guarded-"
    );
}

#[test]
fn guarded_removal_replays_to_the_same_end() {
    let guard = Guard::Evidence(file("old", 1));
    let absent = ObservedEvidence::Absent;
    assert!(matches!(
        removal_step(&guard, &at(file("old", 1)), &absent),
        RemovalStep::MoveAside
    ));
    assert!(matches!(
        removal_step(&guard, &absent, &at(file("old", 1))),
        RemovalStep::FinishRemoval
    ));
    assert!(matches!(
        removal_step(&guard, &absent, &absent),
        RemovalStep::AlreadyApplied
    ));
    assert!(matches!(
        removal_step(&guard, &at(file("new", 1)), &absent),
        RemovalStep::Changed
    ));
    assert!(matches!(
        removal_step(&guard, &at(file("old", 1)), &at(file("old", 1))),
        RemovalStep::Changed
    ));
}

#[test]
fn guarded_exchange_replays_to_the_same_end() {
    let desired = Some(file("staged", 2));
    let displaced = Guard::Evidence(file("old", 1));
    let absent = ObservedEvidence::Absent;
    assert!(matches!(
        exchange_step(&desired, &displaced, &at(file("old", 1)), &absent),
        ExchangeStep::LinkAndExchange
    ));
    assert!(matches!(
        exchange_step(&desired, &displaced, &at(file("old", 1)), &at(file("staged", 2))),
        ExchangeStep::Exchange
    ));
    assert!(matches!(
        exchange_step(&desired, &displaced, &at(file("staged", 2)), &at(file("old", 1))),
        ExchangeStep::FinishExchange
    ));
    assert!(matches!(
        exchange_step(&desired, &displaced, &at(file("staged", 2)), &absent),
        ExchangeStep::AlreadyApplied
    ));
    assert!(matches!(
        exchange_step(&desired, &displaced, &at(file("intruder", 1)), &absent),
        ExchangeStep::Changed
    ));
    assert!(matches!(
        exchange_check(&desired, &displaced, &at(file("staged", 2)), &at(file("old", 1))),
        ExchangeCheck::Finish
    ));
    assert!(matches!(
        exchange_check(&desired, &displaced, &at(file("staged", 2)), &at(file("intruder", 1))),
        ExchangeCheck::UndoAndChanged
    ));
    assert!(matches!(
        exchange_check(&desired, &displaced, &at(file("old", 1)), &at(file("staged", 2))),
        ExchangeCheck::Changed
    ));
}

#[test]
fn a_create_links_only_a_fresh_artifact_into_an_empty_entry() {
    let staged = file("staged", 1);
    let absent = ObservedEvidence::Absent;
    assert!(matches!(create_step(&staged, &Some(file("staged", 1)), &absent), LinkStep::Link));
    assert!(matches!(
        create_step(&staged, &Some(file("staged", 2)), &at(file("staged", 2))),
        LinkStep::AlreadyApplied
    ));
    assert!(matches!(
        create_step(&file("staged", 2), &Some(file("staged", 2)), &absent),
        LinkStep::Changed
    ));
    assert!(matches!(
        create_step(&staged, &Some(file("staged", 1)), &at(file("other", 1))),
        LinkStep::Changed
    ));
}

#[test]
fn a_move_links_the_destination_before_removing_the_source() {
    let staged = Some(file("staged", 2));
    let expected = file("old", 1);
    let absent = ObservedEvidence::Absent;
    assert!(matches!(
        move_step(&staged, &expected, &at(file("old", 1)), &absent),
        MoveStep::LinkThenRemoveSource
    ));
    assert!(matches!(
        move_step(&staged, &expected, &at(file("old", 1)), &at(file("staged", 2))),
        MoveStep::RemoveSource
    ));
    assert!(matches!(
        move_step(&staged, &expected, &absent, &at(file("staged", 2))),
        MoveStep::AlreadyApplied
    ));
    assert!(matches!(
        move_step(&staged, &expected, &at(file("new", 1)), &absent),
        MoveStep::SourceChanged
    ));
    assert!(matches!(
        move_step(&staged, &expected, &at(file("old", 1)), &at(file("other", 1))),
        MoveStep::DestinationChanged
    ));
}

#[test]
fn restoring_a_removal_links_the_backup_back() {
    let backup = Some(file("backup", 2));
    let expected = file("old", 1);
    assert!(matches!(
        restore_removed_step(&backup, &expected, &ObservedEvidence::Absent),
        LinkStep::Link
    ));
    assert!(matches!(
        restore_removed_step(&backup, &expected, &at(file("old", 1))),
        LinkStep::AlreadyApplied
    ));
    assert!(matches!(
        restore_removed_step(&backup, &expected, &at(file("backup", 2))),
        LinkStep::AlreadyApplied
    ));
    assert!(matches!(
        restore_removed_step(&backup, &expected, &at(file("new", 1))),
        LinkStep::Changed
    ));
}

#[test]
fn undoing_a_move_restores_the_source_and_clears_the_destination() {
    let backup = Some(file("backup", 2));
    let staged = Some(file("staged", 2));
    let expected = file("old", 1);
    let absent = ObservedEvidence::Absent;
    assert!(matches!(
        restore_move_step(&backup, &staged, &expected, &absent, &at(file("staged", 2))),
        RestoreMoveStep::LinkBackupThenRemoveDestination
    ));
    assert!(matches!(
        restore_move_step(&backup, &staged, &expected, &at(file("backup", 2)), &absent),
        RestoreMoveStep::AlreadyApplied
    ));
    assert!(matches!(
        restore_move_step(&backup, &staged, &expected, &at(file("new", 1)), &at(file("staged", 2))),
        RestoreMoveStep::Changed
    ));
}
