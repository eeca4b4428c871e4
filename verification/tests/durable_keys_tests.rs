use hashline_transaction::durable_keys::artifact_key;
use hashline_transaction::durable_keys::artifact_name_from_key;
use hashline_transaction::durable_keys::durable_transaction_key;
use hashline_transaction::durable_keys::path_components_from_key;
use hashline_transaction::durable_keys::path_key_value;
use hashline_transaction::durable_keys::push_key_part;
use hashline_transaction::durable_keys::reservation_bytes;
use hashline_transaction::durable_keys::take_key_part;
use hashline_transaction::durable_keys::transaction_id_from_key;
use hashline_transaction::durable_keys::validate_artifact_name;
use hashline_transaction::durable_keys::validate_component;
use hashline_transaction::durable_keys::validate_transaction_id;
use hashline_transaction::durable_keys::ArtifactClass;
use hashline_transaction::durable_keys::PATH_KEY_NAMESPACE;
use hashline_transaction::journal::StorageRequirements;
use hashline_transaction::keys::DurablePathKey;
use hashline_transaction::keys::DurableTransactionKey;
use hashline_transaction::keys::TransactionId;
use hashline_transaction::observation::TransactionFileSystemError;

fn platform(operation: &'static str, reason: &str) -> TransactionFileSystemError {
    TransactionFileSystemError::Platform {
        operation,
        reason: reason.to_string(),
    }
}

#[test]
fn key_parts_are_little_endian_length_prefixed() {
    let mut value = Vec::new();
    push_key_part(&mut value, b"ab").unwrap();
    push_key_part(&mut value, b"").unwrap();
    assert_eq!(value, vec![2, 0, 0, 0, b'a', b'b', 0, 0, 0, 0]);
    let (first, rest) = take_key_part(&value).unwrap();
    assert_eq!(first, b"ab");
    let (second, rest) = take_key_part(rest).unwrap();
    assert_eq!(second, b"");
    assert!(rest.is_empty());
}

#[test]
fn truncated_key_parts_are_refused() {
    assert_eq!(
        take_key_part(&[1, 0, 0]).unwrap_err(),
        platform("decode transaction recovery key", "durable key is truncated")
    );
    assert_eq!(
        take_key_part(&[5, 0, 0, 0, 1, 2]).unwrap_err(),
        platform(
            "decode transaction recovery key",
            "durable key length exceeds its bytes"
        )
    );
    assert_eq!(
        take_key_part(&[0, 1, 0, 0]).unwrap_err(),
        platform(
            "decode transaction recovery key",
            "durable key length exceeds its bytes"
        )
    );
}

#[test]
fn transaction_keys_round_trip_under_their_root() {
    let id = TransactionId("tx-1_a".to_string());
    let key = durable_transaction_key(b"root-id", &id).unwrap();
    assert_eq!(key.namespace, "linux-hashline-transaction-v1");
    assert_eq!(transaction_id_from_key(b"root-id", "/root", &key), Ok(id));
    assert_eq!(
        transaction_id_from_key(b"other-root", "/root", &key),
        Err(TransactionFileSystemError::ChangedSincePlanning {
            path: "/root".to_string(),
        })
    );
    let foreign = DurableTransactionKey {
        namespace: "other".to_string(),
        value: key.value.clone(),
    };
    assert_eq!(
        transaction_id_from_key(b"root-id", "/root", &foreign),
        Err(TransactionFileSystemError::Unsupported {
            capability: "native transaction recovery key",
            reason: "durable transaction key namespace is not supported".to_string(),
        })
    );
    let mut trailing = key.clone();
    trailing.value.push(0);
    assert_eq!(
        transaction_id_from_key(b"root-id", "/root", &trailing),
        Err(platform(
            "decode transaction recovery key",
            "durable transaction key has trailing bytes"
        ))
    );
}

#[test]
fn transaction_key_with_invalid_utf8_reports_the_decoder_error() {
    let mut value = Vec::new();
    push_key_part(&mut value, b"root-id").unwrap();
    push_key_part(&mut value, &[0xff]).unwrap();
    let key = DurableTransactionKey {
        namespace: "linux-hashline-transaction-v1".to_string(),
        value,
    };
    let expected = std::str::from_utf8(&[0xff]).unwrap_err().to_string();
    assert_eq!(
        transaction_id_from_key(b"root-id", "/root", &key),
        Err(platform("decode transaction recovery key", &expected))
    );
}

#[test]
fn path_keys_round_trip_and_reject_invalid_components() {
    let components = vec![b"src".to_vec(), b"main.rs".to_vec()];
    let value = path_key_value(b"root-id", &components).unwrap();
    let key = DurablePathKey {
        namespace: PATH_KEY_NAMESPACE.to_string(),
        value,
    };
    assert_eq!(
        path_components_from_key(b"root-id", "/root", &key),
        Ok(components)
    );

    let no_leaf = DurablePathKey {
        namespace: PATH_KEY_NAMESPACE.to_string(),
        value: path_key_value(b"root-id", &Vec::new()).unwrap(),
    };
    assert_eq!(
        path_components_from_key(b"root-id", "/root", &no_leaf),
        Err(platform(
            "decode transaction recovery path",
            "durable path has no leaf component"
        ))
    );

    let dotdot = DurablePathKey {
        namespace: PATH_KEY_NAMESPACE.to_string(),
        value: path_key_value(b"root-id", &vec![b"..".to_vec()]).unwrap(),
    };
    assert_eq!(
        path_components_from_key(b"root-id", "/root", &dotdot),
        Err(platform(
            "decode transaction recovery path",
            "durable path contains an invalid component"
        ))
    );

    let too_many = DurablePathKey {
        namespace: PATH_KEY_NAMESPACE.to_string(),
        value: path_key_value(b"root-id", &vec![b"d".to_vec(); 257]).unwrap(),
    };
    assert_eq!(
        path_components_from_key(b"root-id", "/root", &too_many),
        Err(platform(
            "decode transaction recovery path",
            "durable path has too many components"
        ))
    );
}

#[test]
fn components_exclude_separators_dots_and_the_sidecar_at_the_root() {
    let invalid = Err(platform(
        "decode transaction recovery path",
        "durable path contains an invalid component",
    ));
    assert_eq!(validate_component(b"file", true), Ok(()));
    assert_eq!(validate_component(b"", false), invalid);
    assert_eq!(validate_component(b"a/b", false), invalid);
    assert_eq!(validate_component(b"a\0b", false), invalid);
    assert_eq!(validate_component(b".", false), invalid);
    assert_eq!(validate_component(b"..", false), invalid);
    assert_eq!(
        validate_component(b".codex-hashline-transactions", true),
        invalid
    );
    assert_eq!(
        validate_component(b".codex-hashline-transactions", false),
        Ok(())
    );
}

#[test]
fn artifact_keys_round_trip_for_their_transaction_and_class() {
    let id = TransactionId("tx-7".to_string());
    let name = b"staged-0123456789abcdef";
    let key = artifact_key(b"root-id", &id, ArtifactClass::Staged, name).unwrap();
    assert_eq!(key.namespace, "linux-hashline-artifact-v1");
    assert_eq!(
        artifact_name_from_key(b"root-id", &id, &key, ArtifactClass::Staged),
        Ok(name.to_vec())
    );
    let mismatch = Err(platform(
        "decode transaction artifact key",
        "artifact key does not match the locked transaction storage",
    ));
    assert_eq!(
        artifact_name_from_key(b"root-id", &id, &key, ArtifactClass::Backup),
        mismatch
    );
    assert_eq!(
        artifact_name_from_key(
            b"root-id",
            &TransactionId("tx-8".to_string()),
            &key,
            ArtifactClass::Staged
        ),
        mismatch
    );
    let forged = artifact_key(b"root-id", &id, ArtifactClass::Staged, b"staged-xyz").unwrap();
    assert_eq!(
        artifact_name_from_key(b"root-id", &id, &forged, ArtifactClass::Staged),
        Err(platform(
            "decode transaction artifact key",
            "artifact name is not executor-generated"
        ))
    );
}

#[test]
fn artifact_names_and_transaction_ids_are_executor_shaped() {
    assert_eq!(ArtifactClass::Staged.bytes(), b"staged");
    assert_eq!(ArtifactClass::Backup.bytes(), b"backup");
    assert_eq!(
        validate_artifact_name(b"backup-00000000deadbeef", b"backup"),
        Ok(())
    );
    assert!(validate_artifact_name(b"backup-00000000DEADBEEF", b"backup").is_err());
    assert!(validate_artifact_name(b"backup_00000000deadbeef", b"backup").is_err());
    assert!(validate_artifact_name(b"backup-deadbeef", b"backup").is_err());
    assert_eq!(
        validate_transaction_id(&TransactionId("Tx-1_z".to_string())),
        Ok(())
    );
    let invalid = Err(platform(
        "allocate transaction storage",
        "transaction ID must be 1-128 ASCII letters, digits, hyphens, or underscores",
    ));
    assert_eq!(validate_transaction_id(&TransactionId(String::new())), invalid);
    assert_eq!(
        validate_transaction_id(&TransactionId("a".repeat(129))),
        invalid
    );
    assert_eq!(
        validate_transaction_id(&TransactionId("a/b".to_string())),
        invalid
    );
}

#[test]
fn storage_reservations_sum_requirements_within_file_size_limits() {
    let requirements = StorageRequirements {
        staged_bytes: 10,
        backup_bytes: 20,
        journal_bytes: 4096,
    };
    assert_eq!(reservation_bytes(requirements), Ok(4126));
    let largest = StorageRequirements {
        staged_bytes: i64::MAX as u64 - 2,
        backup_bytes: 1,
        journal_bytes: 1,
    };
    assert_eq!(reservation_bytes(largest), Ok(i64::MAX));
    let too_large = StorageRequirements {
        staged_bytes: i64::MAX as u64,
        backup_bytes: 1,
        journal_bytes: 0,
    };
    assert_eq!(
        reservation_bytes(too_large),
        Err(platform(
            "allocate transaction storage",
            "storage requirements exceed Linux file-size limits"
        ))
    );
    for overflowing in [
        StorageRequirements {
            staged_bytes: u64::MAX,
            backup_bytes: 1,
            journal_bytes: 0,
        },
        StorageRequirements {
            staged_bytes: u64::MAX - 1,
            backup_bytes: 1,
            journal_bytes: 1,
        },
    ] {
        assert_eq!(
            reservation_bytes(overflowing),
            Err(platform(
                "allocate transaction storage",
                "storage requirements overflow"
            ))
        );
    }
}
