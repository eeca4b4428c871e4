use hashline_transaction::metadata_codec::decode_metadata;
use hashline_transaction::metadata_codec::metadata_snapshot;
use hashline_transaction::native_status::canonical_path_key;
use hashline_transaction::native_status::check_journal_file;
use hashline_transaction::native_status::check_observed_size;
use hashline_transaction::native_status::check_journal_read;
use hashline_transaction::native_status::check_reopened_artifact;
use hashline_transaction::native_status::check_reservation_file;
use hashline_transaction::native_status::check_storage_directory;
use hashline_transaction::native_status::written_artifact_evidence;
use hashline_transaction::native_status::entry_evidence;
use hashline_transaction::native_status::file_kind;
use hashline_transaction::native_status::identity_bytes;
use hashline_transaction::native_status::metadata_is_stable;
use hashline_transaction::native_status::observation_limit_error;
use hashline_transaction::native_status::read_request;
use hashline_transaction::native_status::settle_observation;
use hashline_transaction::native_status::restorable_metadata;
use hashline_transaction::native_status::FileStatus;
use hashline_transaction::observation::FileKind;
use hashline_transaction::observation::TransactionFileSystemError;

fn status(mode: u32) -> FileStatus {
    FileStatus {
        dev: 0x0102,
        ino: 7,
        mode,
        nlink: 1,
        uid: 1000,
        gid: 1000,
        size: 12,
        mtime: 1_700_000_000,
        mtime_nsec: 5,
        ctime: 1_700_000_001,
        ctime_nsec: 6,
    }
}

#[test]
fn file_kind_follows_the_mode_type_bits() {
    assert_eq!(file_kind(&status(0o100644)), FileKind::File);
    assert_eq!(file_kind(&status(0o040755)), FileKind::Directory);
    assert_eq!(file_kind(&status(0o120777)), FileKind::SymbolicLink);
    assert_eq!(file_kind(&status(0o020666)), FileKind::Other);
    assert_eq!(file_kind(&status(0o010644)), FileKind::Other);
}

#[test]
fn identity_is_device_then_inode_little_endian() {
    assert_eq!(
        identity_bytes(&status(0o100644)),
        vec![2, 1, 0, 0, 0, 0, 0, 0, 7, 0, 0, 0, 0, 0, 0, 0]
    );
}

#[test]
fn canonical_key_names_the_parent_identity_and_the_entry() {
    let key = canonical_path_key(&status(0o040755), b"file.txt");
    assert_eq!(key.namespace, "linux-parent-entry-v1");
    let mut expected = vec![2, 1, 0, 0, 0, 0, 0, 0, 7, 0, 0, 0, 0, 0, 0, 0, 0];
    expected.extend_from_slice(b"file.txt");
    assert_eq!(key.value, expected);
}

#[test]
fn any_changed_status_field_is_unstable() {
    let before = status(0o100644);
    assert!(metadata_is_stable(&before, &before));
    let mut after = before;
    after.ctime_nsec += 1;
    assert!(!metadata_is_stable(&before, &after));
    let mut after = before;
    after.nlink = 2;
    assert!(!metadata_is_stable(&before, &after));
}

#[test]
fn restorable_metadata_round_trips_through_its_snapshot() {
    let metadata = restorable_metadata(&status(0o100600));
    assert_eq!(metadata.mode, 0o100600);
    assert_eq!(decode_metadata(&metadata_snapshot(metadata)), Ok(metadata));
}

#[test]
fn observation_limit_error_names_both_sizes() {
    assert_eq!(
        observation_limit_error(17, 16),
        TransactionFileSystemError::Platform {
            operation: "observe path",
            reason: "file requires at least 17 bytes, exceeding limit 16".to_string(),
        }
    );
}

#[test]
fn bounded_reads_ask_for_at_most_one_byte_past_the_limit() {
    assert_eq!(read_request(100, 0, 8192), 101);
    assert_eq!(read_request(100_000, 0, 8192), 8192);
    assert_eq!(read_request(100, 90, 8192), 11);
    assert_eq!(read_request(100, 100, 8192), 1);
    assert_eq!(read_request(100, 150, 8192), 1);
    assert_eq!(read_request(u64::MAX, 0, 4), 4);
}

#[test]
fn settled_reads_become_an_observation() {
    let before = status(0o100644);
    let contents = b"hello world\n".to_vec();
    let observed = settle_observation("a.txt", &before, &before, contents.clone(), &before).unwrap();
    assert_eq!(observed.contents, contents);
    assert_eq!(observed.kind, FileKind::File);
    assert_eq!(observed.link_count, 1);
    assert_eq!(observed.identity.namespace, "linux-dev-ino-v1");
    assert_eq!(observed.identity.value, identity_bytes(&before));
    assert_eq!(
        decode_metadata(&observed.metadata),
        Ok(restorable_metadata(&before))
    );
}

#[test]
fn reads_that_disagree_report_a_change() {
    let before = status(0o100644);
    let changed = TransactionFileSystemError::ChangedSincePlanning { path: "a.txt".to_string() };
    let mut after = before;
    after.mtime_nsec += 1;
    assert_eq!(
        settle_observation("a.txt", &before, &after, b"hello world\n".to_vec(), &after),
        Err(changed.clone())
    );
    assert_eq!(
        settle_observation("a.txt", &before, &before, b"short".to_vec(), &before),
        Err(changed.clone())
    );
    let mut moved = before;
    moved.ino = 8;
    assert_eq!(
        settle_observation("a.txt", &before, &before, b"hello world\n".to_vec(), &moved),
        Err(changed)
    );
}

#[test]
fn a_directory_observation_ignores_its_size() {
    let dir = status(0o040755);
    let observed = settle_observation("d", &dir, &dir, Vec::new(), &dir).unwrap();
    assert_eq!(observed.kind, FileKind::Directory);
    assert!(observed.contents.is_empty());
}

#[test]
fn a_zero_link_count_is_refused() {
    let mut unlinked = status(0o100644);
    unlinked.nlink = 0;
    assert_eq!(
        settle_observation("a.txt", &unlinked, &unlinked, b"hello world\n".to_vec(), &unlinked),
        Err(TransactionFileSystemError::Platform {
            operation: "observe path",
            reason: "path `a.txt` reported a zero link count".to_string(),
        })
    );
}

#[test]
fn entry_evidence_describes_a_settled_read() {
    let status = status(0o100644);
    let evidence = entry_evidence(&status, &status, b"hello world\n").unwrap();
    assert_eq!(evidence.identity.namespace, "linux-dev-ino-v1");
    assert_eq!(evidence.identity.value, identity_bytes(&status));
    assert_eq!(evidence.link_count, 1);
    assert_eq!(evidence.kind, FileKind::File);
    assert_eq!(decode_metadata(&evidence.metadata), Ok(restorable_metadata(&status)));
    assert_eq!(
        evidence.exact_digest,
        hashline_transaction::digest::ExactBytesDigest::new(b"hello world\n")
    );
}

#[test]
fn entry_evidence_refuses_an_unsettled_or_unlinked_entry() {
    let before = status(0o100644);
    assert_eq!(
        entry_evidence(&before, &before, b"short").err(),
        Some(TransactionFileSystemError::ChangedSincePlanning {
            path: "transaction entry".to_string()
        })
    );
    let mut unlinked = before;
    unlinked.nlink = 0;
    assert_eq!(
        entry_evidence(&unlinked, &unlinked, b"hello world\n").err(),
        Some(TransactionFileSystemError::ChangedSincePlanning {
            path: "transaction entry link topology".to_string()
        })
    );
}

fn journal_refusal(reason: &str) -> TransactionFileSystemError {
    TransactionFileSystemError::Platform {
        operation: "load transaction journal",
        reason: reason.to_string(),
    }
}

#[test]
fn a_journal_must_be_private_and_within_the_limit() {
    let directory = status(0o040700);
    let journal = status(0o100600);
    assert_eq!(check_journal_file(&journal, &directory, 1000, 12), Ok(()));
    assert_eq!(
        check_journal_file(&journal, &directory, 1000, 11),
        Err(journal_refusal("transaction journal exceeds the configured recovery limit"))
    );
    let private = journal_refusal("transaction journal is not a private same-filesystem regular file");
    assert_eq!(check_journal_file(&status(0o100640), &directory, 1000, 12), Err(private.clone()));
    assert_eq!(check_journal_file(&journal, &directory, 0, 12), Err(private.clone()));
    let mut linked = journal;
    linked.nlink = 2;
    assert_eq!(check_journal_file(&linked, &directory, 1000, 12), Err(private.clone()));
    let mut elsewhere = directory;
    elsewhere.dev = 9;
    assert_eq!(check_journal_file(&journal, &elsewhere, 1000, 12), Err(private));
}

#[test]
fn a_journal_read_must_match_a_stable_size() {
    let journal = status(0o100600);
    assert_eq!(check_journal_read(&journal, &journal, 12), Ok(()));
    let changed = journal_refusal("transaction journal changed while it was read");
    assert_eq!(check_journal_read(&journal, &journal, 11), Err(changed.clone()));
    let mut grown = journal;
    grown.size = 13;
    assert_eq!(check_journal_read(&journal, &grown, 13), Err(changed));
}

#[test]
fn storage_directories_must_be_owner_only_on_the_root_filesystem() {
    let root = status(0o040755);
    assert_eq!(check_storage_directory(&status(0o040700), &root, 1000), Ok(()));
    let refused = Err(TransactionFileSystemError::Unsupported {
        capability: "native transaction storage",
        reason: "transaction storage must be same-filesystem, owner-only, and owned by the executor user"
            .to_string(),
    });
    assert_eq!(check_storage_directory(&status(0o040750), &root, 1000), refused);
    assert_eq!(check_storage_directory(&status(0o040700), &root, 0), refused);
}

#[test]
fn a_reservation_must_be_a_private_regular_file() {
    let root = status(0o040755);
    assert_eq!(check_reservation_file(&status(0o100600), &root, 1000), Ok(()));
    assert_eq!(
        check_reservation_file(&status(0o040700), &root, 1000),
        Err(TransactionFileSystemError::Platform {
            operation: "allocate transaction storage",
            reason: "transaction reservation is not a private same-filesystem regular file".to_string(),
        })
    );
}

#[test]
fn written_artifacts_carry_one_link_and_their_bytes() {
    let root = status(0o040755);
    let written = status(0o100600);
    let evidence = written_artifact_evidence(&written, &root, b"hello world\n").unwrap();
    assert_eq!(evidence.link_count, 1);
    assert_eq!(evidence.kind, FileKind::File);
    assert_eq!(evidence.identity.value, identity_bytes(&written));
    assert_eq!(
        written_artifact_evidence(&written, &root, b"short").err(),
        Some(TransactionFileSystemError::Platform {
            operation: "allocate transaction storage",
            reason: "transaction artifact evidence is not stable".to_string(),
        })
    );
}

#[test]
fn reopened_artifacts_must_equal_their_recorded_evidence() {
    let root = status(0o040755);
    let artifact = status(0o100600);
    let recorded = written_artifact_evidence(&artifact, &root, b"hello world\n").unwrap();
    assert_eq!(
        check_reopened_artifact(&artifact, &artifact, &root, b"hello world\n", &recorded, "tx-1"),
        Ok(())
    );
    let changed = Err(TransactionFileSystemError::ChangedSincePlanning {
        path: "transaction artifact for tx-1".to_string(),
    });
    assert_eq!(
        check_reopened_artifact(&artifact, &artifact, &root, b"hello WORLD\n", &recorded, "tx-1"),
        changed
    );
    let mut touched = artifact;
    touched.mtime += 1;
    assert_eq!(
        check_reopened_artifact(&touched, &touched, &root, b"hello world\n", &recorded, "tx-1"),
        changed
    );
}

#[test]
fn enforces_the_observation_limit_before_retaining_contents() {
    assert_eq!(
        check_observed_size(4, 3).expect_err("oversized observation must fail"),
        TransactionFileSystemError::Platform {
            operation: "observe path",
            reason: "file requires at least 4 bytes, exceeding limit 3".to_string(),
        }
    );
    assert_eq!(check_observed_size(3, 3), Ok(()));
}

#[test]
fn metadata_fingerprint_changes_with_restorable_mode() {
    let mut status_before = status(0o100600);
    status_before.size = 5;
    let before = settle_observation("file.txt", &status_before, &status_before, b"bytes".to_vec(), &status_before)
        .unwrap();
    let mut status_after = status_before;
    status_after.mode = 0o100700;
    let after = settle_observation("file.txt", &status_after, &status_after, b"bytes".to_vec(), &status_after)
        .unwrap();

    assert_ne!(before.metadata, after.metadata);
    assert_eq!(before.contents, after.contents);
    assert_eq!(before.identity, after.identity);
}

#[test]
fn reports_directory_kind_and_hard_link_topology() {
    let directory_status = status(0o040755);
    let directory = settle_observation("directory", &directory_status, &directory_status, Vec::new(), &directory_status)
        .unwrap();
    assert_eq!(directory.kind, FileKind::Directory);
    assert_eq!(directory.contents, Vec::<u8>::new());

    let mut linked = status(0o100644);
    linked.size = 5;
    linked.nlink = 2;
    let hard_link = settle_observation("original", &linked, &linked, b"bytes".to_vec(), &linked).unwrap();
    assert_eq!(hard_link.link_count, 2);
}

#[test]
fn observes_exact_bytes_and_stable_executor_evidence() {
    let contents = b"first\r\nsecond\n\0";
    let mut file = status(0o100644);
    file.size = contents.len() as u64;
    let first = settle_observation("nested/file.txt", &file, &file, contents.to_vec(), &file).unwrap();
    let second = settle_observation("nested/file.txt", &file, &file, contents.to_vec(), &file).unwrap();
    assert_eq!(first, second);
    assert_eq!(first.contents, contents);
    assert_eq!(first.exact_digest, hashline_transaction::digest::ExactBytesDigest::new(contents));
    assert_eq!(first.kind, FileKind::File);
    assert_eq!(first.link_count, 1);
    assert_eq!(first.identity.namespace, "linux-dev-ino-v1");
    assert_eq!(first.metadata.namespace, "linux-basic-restorable-v1");
}
