use hashline_transaction::digest::MetadataFingerprint;
use hashline_transaction::metadata_codec::decode_metadata;
use hashline_transaction::metadata_codec::metadata_snapshot;
use hashline_transaction::metadata_codec::RestorableMetadata;
use hashline_transaction::metadata_codec::METADATA_NAMESPACE;
use hashline_transaction::observation::MetadataSnapshot;
use hashline_transaction::observation::TransactionFileSystemError;

fn sample() -> RestorableMetadata {
    RestorableMetadata {
        mode: 0o100644,
        uid: 1000,
        gid: 100,
        modified_seconds: -5,
        modified_nanoseconds: 999_999_999,
    }
}

#[test]
fn snapshot_is_little_endian_fields_with_a_fingerprint() {
    let snapshot = metadata_snapshot(sample());
    assert_eq!(snapshot.namespace, "linux-basic-restorable-v1");
    assert_eq!(snapshot.namespace, METADATA_NAMESPACE);
    let mut expected = Vec::new();
    expected.extend_from_slice(&0o100644u32.to_le_bytes());
    expected.extend_from_slice(&1000u32.to_le_bytes());
    expected.extend_from_slice(&100u32.to_le_bytes());
    expected.extend_from_slice(&(-5i64).to_le_bytes());
    expected.extend_from_slice(&999_999_999i64.to_le_bytes());
    assert_eq!(snapshot.value, expected);
    assert_eq!(snapshot.value.len(), 28);
    assert_eq!(
        snapshot.fingerprint.as_bytes(),
        MetadataFingerprint::new(&expected).as_bytes()
    );
}

#[test]
fn snapshot_decodes_back_to_the_same_metadata() {
    let snapshot = metadata_snapshot(sample());
    assert_eq!(decode_metadata(&snapshot), Ok(sample()));
}

#[test]
fn foreign_metadata_namespace_is_unsupported() {
    let snapshot = MetadataSnapshot::new("fake-metadata".to_string(), vec![0; 28]);
    assert_eq!(
        decode_metadata(&snapshot),
        Err(TransactionFileSystemError::Unsupported {
            capability: "restore Linux transaction metadata",
            reason: "unsupported metadata namespace `fake-metadata`".to_string(),
        })
    );
}

#[test]
fn metadata_of_the_wrong_width_is_unsupported() {
    let snapshot = MetadataSnapshot::new(METADATA_NAMESPACE.to_string(), vec![0; 27]);
    assert_eq!(
        decode_metadata(&snapshot),
        Err(TransactionFileSystemError::Unsupported {
            capability: "restore Linux transaction metadata",
            reason: "Linux metadata snapshot has invalid width".to_string(),
        })
    );
}

#[test]
fn nanoseconds_of_a_full_second_are_refused() {
    let mut metadata = sample();
    metadata.modified_nanoseconds = 1_000_000_000;
    let snapshot = metadata_snapshot(metadata);
    assert_eq!(
        decode_metadata(&snapshot),
        Err(TransactionFileSystemError::Platform {
            operation: "allocate transaction storage",
            reason: "metadata modification nanoseconds are invalid".to_string(),
        })
    );
    metadata.modified_nanoseconds = -1;
    assert!(decode_metadata(&metadata_snapshot(metadata)).is_err());
}
