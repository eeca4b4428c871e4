use vstd::prelude::*;

use crate::digest::ExactBytesDigest;
use crate::keys::CanonicalPathKey;
use crate::keys::ExecutorRootIdentity;
use crate::observation::ObservedFile;

verus! {

/// One line of the original file, addressed by its 1-based number and the short hash of its text.
#[derive(Clone, Debug, PartialEq, Eq)]
pub struct LineAnchor {
    pub line: u64,
    pub expected_hash: String,
}

/// An inclusive range of original lines.
#[derive(Clone, Debug, PartialEq, Eq)]
pub struct LineRange {
    pub start: LineAnchor,
    pub end: LineAnchor,
}

/// One edit to the text of an existing file.
#[derive(Clone, Debug, PartialEq, Eq)]
pub enum FileEdit {
    ReplaceAll { contents: Vec<u8> },
    ReplaceLines { range: LineRange, lines: Vec<String> },
    InsertBefore { anchor: LineAnchor, lines: Vec<String> },
    InsertAfter { anchor: LineAnchor, lines: Vec<String> },
}

/// Caller's expectation of the exact bytes of an existing file.
#[derive(Clone, Debug, PartialEq, Eq)]
pub struct ExpectedFile {
    pub exact_digest: ExactBytesDigest,
}

/// One requested filesystem mutation, addressed by model-visible paths.
#[derive(Clone, Debug, PartialEq, Eq)]
pub enum FileMutation {
    Create { path: String, contents: Vec<u8> },
    Update { path: String, expected: ExpectedFile, edits: Vec<FileEdit> },
    Delete { path: String, expected: ExpectedFile },
    Move { source: String, expected: ExpectedFile, destination: String, edits: Vec<FileEdit> },
}

/// What the caller wants done with the planned transaction.
#[derive(Clone, Debug, PartialEq, Eq)]
pub enum TransactionAction {
    Preview,
    Commit,
    CommitPreviewed { expected_plan_digest: ExactBytesDigest },
}

/// A transaction request against one root of one environment.
#[derive(Clone, Debug, PartialEq, Eq)]
pub struct TransactionRequest {
    pub environment_id: String,
    /// The root's path URI, in its string form.
    pub root: String,
    pub action: TransactionAction,
    pub mutations: Vec<FileMutation>,
}

/// Hard limits chosen by trusted orchestration.
#[derive(Clone, Copy, Debug, PartialEq, Eq, Structural)]
pub struct TransactionLimits {
    pub max_mutations: u64,
    pub max_edits: u64,
    pub max_edit_lines: u64,
    pub max_input_bytes: u64,
    pub max_model_path_bytes: u64,
    pub max_executor_key_bytes: u64,
    pub max_file_bytes: u64,
    pub max_total_bytes: u64,
    pub max_journal_bytes: u64,
    pub max_preview_bytes: u64,
    pub max_response_bytes: u64,
}

impl TransactionLimits {
    pub open spec fn default_limits() -> Self {
        TransactionLimits {
            max_mutations: 64,
            max_edits: 1024,
            max_edit_lines: 16384,
            max_input_bytes: 4194304,
            max_model_path_bytes: 4096,
            max_executor_key_bytes: 4096,
            max_file_bytes: 4194304,
            max_total_bytes: 16777216,
            max_journal_bytes: 1048576,
            max_preview_bytes: 16384,
            max_response_bytes: 262144,
        }
    }
}

impl Default for TransactionLimits {
    fn default() -> (r: Self)
        ensures
            r == Self::default_limits(),
    {
        TransactionLimits {
            max_mutations: 64,
            max_edits: 1024,
            max_edit_lines: 16384,
            max_input_bytes: 4194304,
            max_model_path_bytes: 4096,
            max_executor_key_bytes: 4096,
            max_file_bytes: 4194304,
            max_total_bytes: 16777216,
            max_journal_bytes: 1048576,
            max_preview_bytes: 16384,
            max_response_bytes: 262144,
        }
    }
}

/// Counts and byte totals of a planned transaction.
#[derive(Clone, Copy, Debug, Default, PartialEq, Eq, Structural)]
pub struct PlanSummary {
    pub creates: u64,
    pub updates: u64,
    pub deletes: u64,
    pub moves: u64,
    pub before_bytes: u64,
    pub after_bytes: u64,
}

/// One planned mutation, bound to executor handles of type `P`.
#[derive(Clone, Debug, PartialEq, Eq)]
pub enum PlannedMutation<P> {
    Create {
        path: P,
        model_path: String,
        path_key: CanonicalPathKey,
        contents: Vec<u8>,
        after_digest: ExactBytesDigest,
    },
    Update {
        path: P,
        model_path: String,
        path_key: CanonicalPathKey,
        before: ObservedFile,
        contents: Vec<u8>,
        after_digest: ExactBytesDigest,
    },
    Delete { path: P, model_path: String, path_key: CanonicalPathKey, before: ObservedFile },
    Move {
        source: P,
        model_source: String,
        source_key: CanonicalPathKey,
        before: ObservedFile,
        destination: P,
        model_destination: String,
        destination_key: CanonicalPathKey,
        contents: Vec<u8>,
        after_digest: ExactBytesDigest,
    },
}

/// A complete plan bound to an opened root of type `R`.
#[derive(Clone, Debug, PartialEq, Eq)]
pub struct PlannedTransaction<R, P> {
    pub environment_id: String,
    pub root_uri: String,
    pub root: R,
    pub root_identity: ExecutorRootIdentity,
    pub action: TransactionAction,
    pub mutations: Vec<PlannedMutation<P>>,
    pub plan_digest: ExactBytesDigest,
    pub summary: PlanSummary,
}

/// The key by which a planned mutation is ordered: its path, or its source for a move.
pub open spec fn mutation_order_key<P>(m: PlannedMutation<P>) -> CanonicalPathKey {
    match m {
        PlannedMutation::Create { path_key, .. } => path_key,
        PlannedMutation::Update { path_key, .. } => path_key,
        PlannedMutation::Delete { path_key, .. } => path_key,
        PlannedMutation::Move { source_key, .. } => source_key,
    }
}

/// The key by which a planned mutation is ordered: its path, or its source for a move.
pub fn mutation_key<P>(mutation: &PlannedMutation<P>) -> (r: &CanonicalPathKey)
    ensures
        *r == mutation_order_key(*mutation),
{
    match mutation {
        PlannedMutation::Create { path_key, .. } => path_key,
        PlannedMutation::Update { path_key, .. } => path_key,
        PlannedMutation::Delete { path_key, .. } => path_key,
        PlannedMutation::Move { source_key, .. } => source_key,
    }
}

} // verus!
