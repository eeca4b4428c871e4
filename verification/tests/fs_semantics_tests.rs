use hashline_transaction::fs_semantics::check_case_sensitive;
use hashline_transaction::fs_semantics::filesystem_lookup;
use hashline_transaction::fs_semantics::metadata_update;
use hashline_transaction::fs_semantics::LookupCheck;
use hashline_transaction::fs_semantics::MetadataUpdate;
use hashline_transaction::fs_semantics::EXT_SUPER_MAGIC;
use hashline_transaction::fs_semantics::FS_CASEFOLD_FL;
use hashline_transaction::fs_semantics::TMPFS_MAGIC;
use hashline_transaction::metadata_codec::RestorableMetadata;
use hashline_transaction::observation::TransactionFileSystemError;

fn not_byte_exact(reason: &str) -> TransactionFileSystemError {
    TransactionFileSystemError::Unsupported {
        capability: "byte-exact transaction path keys",
        reason: reason.to_string(),
    }
}

#[test]
fn tmpfs_and_ext_are_the_known_byte_exact_filesystems() {
    assert_eq!(filesystem_lookup(TMPFS_MAGIC), Ok(LookupCheck::ByteExact));
    assert_eq!(filesystem_lookup(EXT_SUPER_MAGIC), Ok(LookupCheck::UnlessCaseFolded));
    assert_eq!(
        filesystem_lookup(0x9123683e),
        Err(not_byte_exact(
            "Linux filesystem type 0x9123683e has no proven byte-exact lookup adapter"
        ))
    );
    assert_eq!(
        filesystem_lookup(-1),
        Err(not_byte_exact(
            "Linux filesystem type 0xffffffffffffffff has no proven byte-exact lookup adapter"
        ))
    );
    assert_eq!(
        filesystem_lookup(0),
        Err(not_byte_exact("Linux filesystem type 0x0 has no proven byte-exact lookup adapter"))
    );
}

#[test]
fn case_folding_directories_are_refused() {
    assert_eq!(check_case_sensitive(0), Ok(()));
    assert_eq!(check_case_sensitive(0x80000), Ok(()));
    assert_eq!(
        check_case_sensitive(FS_CASEFOLD_FL | 0x10),
        Err(not_byte_exact("the selected directory enables case-insensitive lookup"))
    );
}

#[test]
fn staged_files_receive_restored_or_default_metadata() {
    assert_eq!(
        metadata_update(None, 1000, 100),
        MetadataUpdate {
            uid: 1000,
            gid: 100,
            mode: 0o644,
            modified: None
        }
    );
    let restored = RestorableMetadata {
        mode: 0o104755,
        uid: 7,
        gid: 8,
        modified_seconds: 1_700_000_000,
        modified_nanoseconds: 42,
    };
    assert_eq!(
        metadata_update(Some(restored), 1000, 100),
        MetadataUpdate {
            uid: 7,
            gid: 8,
            mode: 0o4755,
            modified: Some((1_700_000_000, 42))
        }
    );
}

#[test]
fn rejects_filesystems_without_proven_path_key_semantics() {
    // procfs
    let error = filesystem_lookup(0x9fa0).expect_err("procfs must fail capability negotiation");

    assert!(matches!(
        error,
        TransactionFileSystemError::Unsupported {
            capability: "byte-exact transaction path keys",
            ..
        }
    ));
}
