use hashline_transaction::observation::TransactionFileSystemError;
use hashline_transaction::sidecar_scan::scan_names;
use hashline_transaction::sidecar_scan::sort_names;
use hashline_transaction::sidecar_scan::MAX_RECOVERY_SCAN_ENTRIES;

fn names(list: &[&str]) -> Vec<Vec<u8>> {
    list.iter().map(|name| name.as_bytes().to_vec()).collect()
}

#[test]
fn scan_drops_the_directory_entries_and_sorts_by_bytes() {
    assert_eq!(
        scan_names(names(&["tx-b", ".", "tx-a", "..", "Z", "tx-a2"]), 16),
        Ok(names(&["Z", "tx-a", "tx-a2", "tx-b"]))
    );
    assert_eq!(scan_names(names(&[".", ".."]), 0), Ok(Vec::new()));
    assert_eq!(scan_names(names(&["...", ".x"]), 2), Ok(names(&["...", ".x"])));
}

#[test]
fn scan_refuses_more_names_than_the_limit() {
    assert_eq!(
        scan_names(names(&["a", "b", "c", ".", ".."]), 2),
        Err(TransactionFileSystemError::Platform {
            operation: "enumerate transaction recovery storage",
            reason: "transaction recovery sidecar exceeds the hard entry limit".to_string(),
        })
    );
    assert!(scan_names(names(&["a", "b", ".", ".."]), 2).is_ok());
    assert_eq!(MAX_RECOVERY_SCAN_ENTRIES, 4096);
}

#[test]
fn sorting_keeps_duplicates() {
    assert_eq!(
        sort_names(names(&["b", "a", "b", ""])),
        names(&["", "a", "b", "b"])
    );
}

#[test]
fn directory_scan_sorts_entries_and_handles_end_of_directory() {
    assert_eq!(
        scan_names(names(&[".", "b", "..", "a"]), /*max_entries*/ 2).expect("scan directory"),
        names(&["a", "b"])
    );
}

#[test]
fn directory_scan_fails_closed_past_the_hard_bound() {
    let error = scan_names(names(&[".", "..", "a", "b"]), /*max_entries*/ 1)
        .expect_err("scan must reject more entries than the bound");

    assert!(matches!(
        error,
        TransactionFileSystemError::Platform {
            operation: "enumerate transaction recovery storage",
            ..
        }
    ));
}
