use hashline_transaction::native::unsupported;
use hashline_transaction::native::NativeTransactionFileSystem;
use hashline_transaction::observation::TransactionFileSystemError;

#[test]
fn transaction_capability_opens_only_its_configured_root() {
    let file_system = NativeTransactionFileSystem::new(
        "local".to_string(),
        "file:///workspace".to_string(),
    );
    assert_eq!(file_system.environment_id(), "local");
    assert_eq!(file_system.ensure_configured_root("file:///workspace"), Ok(()));
    assert_eq!(
        file_system.ensure_configured_root("file:///other"),
        Err(TransactionFileSystemError::InvalidRoot {
            root: "file:///other".to_string(),
            reason: "transaction filesystem is configured for root `file:///workspace`".to_string(),
        })
    );
}

#[test]
fn unsupported_platform_refuses_with_a_stable_error() {
    assert_eq!(
        unsupported(),
        TransactionFileSystemError::Unsupported {
            capability: "hashline transaction planning",
            reason: "native no-follow path handles are not implemented on this executor platform"
                .to_string(),
        }
    );
}
