use hashline_transaction::model_paths::relative_components;
use hashline_transaction::observation::TransactionFileSystemError;

const ROOT: &str = "/tmp/transaction-root";

fn invalid(path: &str, reason: &str) -> TransactionFileSystemError {
    TransactionFileSystemError::InvalidModelPath {
        path: path.to_string(),
        reason: reason.to_string(),
    }
}

fn components(parts: &[&str]) -> Vec<Vec<u8>> {
    parts.iter().map(|part| part.as_bytes().to_vec()).collect()
}

#[test]
fn rejects_paths_that_escape_or_name_the_root() {
    assert_eq!(
        relative_components(ROOT, "../outside").unwrap_err(),
        invalid("../outside", "parent traversal is not allowed")
    );
    assert_eq!(
        relative_components(ROOT, ".").unwrap_err(),
        invalid(".", "path resolves to the selected root")
    );
    assert_eq!(
        relative_components(ROOT, "/outside").unwrap_err(),
        invalid("/outside", "absolute path is outside the selected root")
    );
    assert_eq!(
        relative_components(ROOT, "bad\0path").unwrap_err(),
        invalid("bad\0path", "path contains NUL")
    );
}

#[test]
fn resolution_reserves_the_future_root_sidecar_name() {
    assert_eq!(
        relative_components(ROOT, ".codex-hashline-transactions/journal").unwrap_err(),
        invalid(
            ".codex-hashline-transactions/journal",
            "path uses the reserved Hashline transaction sidecar name"
        )
    );
    assert_eq!(
        relative_components(ROOT, "nested/.codex-hashline-transactions"),
        Ok(components(&["nested", ".codex-hashline-transactions"]))
    );
}

#[test]
fn empty_paths_are_refused_before_anything_else() {
    assert_eq!(
        relative_components(ROOT, "").unwrap_err(),
        invalid("", "path is empty")
    );
}

#[test]
fn separators_and_current_directory_segments_are_normalized_away() {
    assert_eq!(
        relative_components(ROOT, "./src//lib.rs/"),
        Ok(components(&["src", "lib.rs"]))
    );
    assert_eq!(
        relative_components(ROOT, "a/./b/."),
        Ok(components(&["a", "b"]))
    );
    assert_eq!(
        relative_components(ROOT, "src/../secret").unwrap_err(),
        invalid("src/../secret", "parent traversal is not allowed")
    );
}

#[test]
fn absolute_paths_under_the_root_are_made_relative_component_by_component() {
    assert_eq!(
        relative_components(ROOT, "/tmp/transaction-root/src/main.rs"),
        Ok(components(&["src", "main.rs"]))
    );
    assert_eq!(
        relative_components(ROOT, "//tmp/./transaction-root//x"),
        Ok(components(&["x"]))
    );
    assert_eq!(
        relative_components(ROOT, "/tmp/transaction-rootx/y").unwrap_err(),
        invalid(
            "/tmp/transaction-rootx/y",
            "absolute path is outside the selected root"
        )
    );
    assert_eq!(
        relative_components(ROOT, "/tmp/transaction-root").unwrap_err(),
        invalid(
            "/tmp/transaction-root",
            "path resolves to the selected root"
        )
    );
    assert_eq!(
        relative_components(ROOT, "/tmp/transaction-root/../escape").unwrap_err(),
        invalid(
            "/tmp/transaction-root/../escape",
            "parent traversal is not allowed"
        )
    );
    assert_eq!(
        relative_components("/", "/etc/hosts"),
        Ok(components(&["etc", "hosts"]))
    );
}
