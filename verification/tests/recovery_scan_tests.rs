use hashline_transaction::digest::ExactBytesDigest;
use hashline_transaction::durable_keys::durable_root_key;
use hashline_transaction::durable_keys::durable_transaction_key;
use hashline_transaction::durable_keys::journal_needs_recovery;
use hashline_transaction::durable_keys::transaction_key_for_name;
use hashline_transaction::journal::JournalRecord;
use hashline_transaction::journal::JournalState;
use hashline_transaction::journal::RecoveryTarget;
use hashline_transaction::keys::DurablePathKey;
use hashline_transaction::keys::ExecutorRootIdentity;
use hashline_transaction::keys::RecoveryScanLimit;
use hashline_transaction::keys::TransactionId;
use hashline_transaction::sidecar_scan::probe_verdict;
use hashline_transaction::sidecar_scan::JournalProbe;
use hashline_transaction::sidecar_scan::PendingKeys;

fn root_identity() -> ExecutorRootIdentity {
    ExecutorRootIdentity {
        namespace: "linux-dev-ino-v1".to_string(),
        value: vec![1, 2, 3],
    }
}

fn complete_record(name: &str) -> JournalRecord {
    JournalRecord {
        schema_version: 1,
        transaction_id: TransactionId(name.to_string()),
        transaction_key: transaction_key_for_name(&[1, 2, 3], name.as_bytes()).unwrap(),
        environment_id: "local".to_string(),
        root: durable_root_key(&[1, 2, 3]),
        root_identity: root_identity(),
        plan_digest: ExactBytesDigest::new(b"plan"),
        manifest_digest: ExactBytesDigest::new(b"manifest"),
        state: JournalState::Complete,
        recovery_target: RecoveryTarget::Commit,
        mutations: Vec::new(),
    }
}

#[test]
fn root_key_is_the_identity_under_the_root_namespace() {
    assert_eq!(
        durable_root_key(&[9, 8]),
        DurablePathKey {
            namespace: "linux-hashline-root-v1".to_string(),
            value: vec![9, 8],
        }
    );
}

#[test]
fn name_key_matches_the_transaction_key_of_the_same_id() {
    assert_eq!(
        transaction_key_for_name(&[1, 2, 3], b"tx-1").unwrap(),
        durable_transaction_key(&[1, 2, 3], &TransactionId("tx-1".to_string())).unwrap()
    );
    assert_eq!(
        transaction_key_for_name(&[7], b"ab").unwrap().value,
        vec![1, 0, 0, 0, 7, 2, 0, 0, 0, b'a', b'b']
    );
}

#[test]
fn only_a_complete_journal_of_this_root_and_name_is_skipped() {
    let key = transaction_key_for_name(&[1, 2, 3], b"tx-1").unwrap();
    let record = complete_record("tx-1");
    assert!(!journal_needs_recovery(&record, "local", &root_identity(), &key, b"tx-1"));

    let mut unfinished = record.clone();
    unfinished.state = JournalState::Cleaning;
    assert!(journal_needs_recovery(&unfinished, "local", &root_identity(), &key, b"tx-1"));
    assert!(journal_needs_recovery(&record, "remote", &root_identity(), &key, b"tx-1"));
    assert!(journal_needs_recovery(&record, "local", &root_identity(), &key, b"tx-2"));
    let other_root = ExecutorRootIdentity {
        namespace: "linux-dev-ino-v1".to_string(),
        value: vec![4],
    };
    assert!(journal_needs_recovery(&record, "local", &other_root, &key, b"tx-1"));
    let other_key = transaction_key_for_name(&[1, 2, 3], b"tx-2").unwrap();
    assert!(journal_needs_recovery(&record, "local", &root_identity(), &other_key, b"tx-1"));
}

#[test]
fn probes_decide_which_directories_need_recovery() {
    let key = transaction_key_for_name(&[1, 2, 3], b"tx-1").unwrap();
    assert!(!probe_verdict(&JournalProbe::NoJournal, "local", &root_identity(), &key, b"tx-1"));
    assert!(probe_verdict(&JournalProbe::Unreadable, "local", &root_identity(), &key, b"tx-1"));
    let complete = JournalProbe::Loaded(complete_record("tx-1"));
    assert!(!probe_verdict(&complete, "local", &root_identity(), &key, b"tx-1"));
    assert!(probe_verdict(&complete, "remote", &root_identity(), &key, b"tx-1"));
}

#[test]
fn pending_keys_stop_once_past_the_limit() {
    let key = |name: &str| transaction_key_for_name(&[1, 2, 3], name.as_bytes()).unwrap();
    let mut pending = PendingKeys::new(RecoveryScanLimit { max_transactions: 1 });
    assert!(pending.record(key("a"), false));
    assert!(pending.record(key("b"), true));
    assert!(!pending.record(key("c"), true));
    assert_eq!(pending.into_keys(), vec![key("b"), key("c")]);
}
