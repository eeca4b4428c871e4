//! What recovery observes and reopens for each journal entry.
//!
//! Showing that a transaction converged, and undoing one of its mutations, both depend on the
//! shape of the journal operation and of the paths reopened for it. These functions make that
//! choice; the caller performs the observations and reopens the artifacts they name.
use vstd::prelude::*;

use crate::journal::DurableFileEvidence;
use crate::journal::JournalOperation;
use crate::keys::DurablePathKey;
use crate::journal::MutationProgress;
use crate::observation::evidence_view;
use crate::observation::FileEvidence;
use crate::observation::TransactionFileSystemError;
use crate::prepared::PreparedMutation;
use crate::recovery::inconsistent_entry;
use crate::recovery::rollback_evidence;
use crate::recovery::shapes_agree;
use crate::recovery::RecoveredEntry;
use crate::recovery::RecoveredPaths;

verus! {

/// One observation that shows a recovered path in its converged state.
pub enum PathCheck<'a, P> {
    /// The path holds a file with the expected evidence, or with the alternate one when given.
    Present { path: &'a P, expected: &'a FileEvidence, alternate: Option<&'a FileEvidence> },
    /// Nothing is at the path.
    Absent { path: &'a P },
}

/// The error for an entry whose reopened paths disagree with its journal operation.
pub open spec fn is_inconsistent(e: TransactionFileSystemError) -> bool {
    e matches TransactionFileSystemError::Platform { operation, reason } && operation
        == "verify recovered transaction" && reason@ == "journal operation and reopened paths disagree"@
}

/// A check that the path holds a file with exactly the given evidence.
pub open spec fn checks_present<P>(c: PathCheck<P>, p: P, e: FileEvidence) -> bool {
    c matches PathCheck::Present { path, expected, alternate } && *path == p && *expected == e
        && alternate is None
}

/// A check that nothing is at the path.
pub open spec fn checks_absent<P>(c: PathCheck<P>, p: P) -> bool {
    c matches PathCheck::Absent { path } && *path == p
}

/// The observations that show one entry committed: a created or updated path holds the
/// staged file, a deleted path is gone, and a move's source is gone while its destination
/// holds the staged file, in that order.
pub open spec fn committed_checks_of<'a, P>(entry: RecoveredEntry<P>, c: Seq<PathCheck<'a, P>>) -> bool {
    match (entry.paths, entry.operation) {
        (RecoveredPaths::Create { destination }, JournalOperation::Create { staged, .. }) => c.len() == 1
            && checks_present(c[0], destination, staged.evidence),
        (RecoveredPaths::Update { path }, JournalOperation::Update { staged, .. }) => c.len() == 1
            && checks_present(c[0], path, staged.evidence),
        (RecoveredPaths::Delete { path }, JournalOperation::Delete { .. }) => c.len() == 1 && checks_absent(
            c[0],
            path,
        ),
        (RecoveredPaths::Move { source, destination }, JournalOperation::Move { staged, .. }) => c.len() == 2
            && checks_absent(c[0], source) && checks_present(c[1], destination, staged.evidence),
        _ => false,
    }
}

/// The paths a committed entry removed: a deleted path, and a moved file's source.
pub open spec fn removed_path<P>(paths: RecoveredPaths<P>, p: P) -> bool {
    match paths {
        RecoveredPaths::Delete { path } => p == path,
        RecoveredPaths::Move { source, .. } => p == source,
        _ => false,
    }
}

/// Verifying a committed entry demands that every path the transaction removed be empty, and
/// never asks for a file there.
pub proof fn lemma_committed_checks_demand_removed_paths_absent<'a, P>(
    entry: RecoveredEntry<P>,
    c: Seq<PathCheck<'a, P>>,
    p: P,
)
    requires
        committed_checks_of(entry, c),
        removed_path(entry.paths, p),
    ensures
        exists|k: int| 0 <= k < c.len() && #[trigger] checks_absent(c[k], p),
        entry.paths is Delete ==> forall|k: int| 0 <= k < c.len() ==> !(#[trigger] c[k] is Present),
{
    assert(checks_absent(c[0], p));
}

/// The observations that show one entry committed.
pub fn committed_checks<'a, P>(entry: &'a RecoveredEntry<P>) -> (r: Result<
    Vec<PathCheck<'a, P>>,
    TransactionFileSystemError,
>)
    ensures
        !shapes_agree(entry.paths, entry.operation) ==> (r matches Err(e) && is_inconsistent(e)),
        shapes_agree(entry.paths, entry.operation) ==> (r matches Ok(c) && committed_checks_of(*entry, c@)),
{
    let mut checks: Vec<PathCheck<'a, P>> = Vec::new();
    match (&entry.paths, &entry.operation) {
        (RecoveredPaths::Create { destination }, JournalOperation::Create { staged, .. }) => {
            checks.push(PathCheck::Present { path: destination, expected: &staged.evidence, alternate: None });
        },
        (RecoveredPaths::Update { path }, JournalOperation::Update { staged, .. }) => {
            checks.push(PathCheck::Present { path, expected: &staged.evidence, alternate: None });
        },
        (RecoveredPaths::Delete { path }, JournalOperation::Delete { .. }) => {
            checks.push(PathCheck::Absent { path });
        },
        (RecoveredPaths::Move { source, destination }, JournalOperation::Move { staged, .. }) => {
            checks.push(PathCheck::Absent { path: source });
            checks.push(PathCheck::Present { path: destination, expected: &staged.evidence, alternate: None });
        },
        _ => {
            return Err(inconsistent_entry());
        },
    }
    Ok(checks)
}

/// Verifying a rollback takes one reopened entry per journaled mutation.
pub fn check_verified_entries(mutations: usize, entries: usize) -> (r: Result<(), TransactionFileSystemError>)
    ensures
        mutations == entries ==> r is Ok,
        mutations != entries ==> (r matches Err(e) && is_inconsistent(e)),
{
    if mutations != entries {
        return Err(inconsistent_entry());
    }
    Ok(())
}

/// A check that the path holds the before-image, or the backup once the mutation was rolled
/// back.
pub open spec fn checks_restored<P>(c: PathCheck<P>, p: P, progress: MutationProgress, before: FileEvidence, backup: FileEvidence) -> bool {
    c matches PathCheck::Present { path, expected, alternate } && *path == p && *expected == before && (
    progress == MutationProgress::RolledBack ==> alternate == Some(&backup)) && (progress
        == MutationProgress::Pending ==> alternate is None)
}

/// Whether a mutation in this progress has converged back to its before-image.
pub open spec fn converged_back(progress: MutationProgress) -> bool {
    progress == MutationProgress::Pending || progress == MutationProgress::RolledBack
}

/// The observations that show one entry rolled back: a created path is gone; an updated or
/// deleted path, or a move's source, holds its before-image (or, once restored, its backup),
/// and a move's destination is gone.
pub open spec fn rolled_back_checks_of<'a, P>(progress: MutationProgress, entry: RecoveredEntry<P>, c: Seq<PathCheck<'a, P>>) -> bool {
    match (entry.paths, entry.operation) {
        (RecoveredPaths::Create { destination }, JournalOperation::Create { .. }) => c.len() == 1
            && checks_absent(c[0], destination),
        (RecoveredPaths::Update { path }, JournalOperation::Update { before, backup, .. }) => c.len() == 1
            && checks_restored(c[0], path, progress, before, backup.evidence),
        (RecoveredPaths::Delete { path }, JournalOperation::Delete { before, backup, .. }) => c.len() == 1
            && checks_restored(c[0], path, progress, before, backup.evidence),
        (RecoveredPaths::Move { source, destination }, JournalOperation::Move { before, backup, .. }) => c.len()
            == 2 && checks_restored(c[0], source, progress, before, backup.evidence) && checks_absent(
            c[1],
            destination,
        ),
        _ => false,
    }
}

/// The path a committed entry wrote, with the evidence of the staged file it wrote there: a
/// created or updated path, and a moved file's destination.
pub open spec fn written_path<P>(entry: RecoveredEntry<P>, p: P, e: FileEvidence) -> bool {
    match (entry.paths, entry.operation) {
        (RecoveredPaths::Create { destination }, JournalOperation::Create { staged, .. }) => p == destination
            && e == staged.evidence,
        (RecoveredPaths::Update { path }, JournalOperation::Update { staged, .. }) => p == path && e
            == staged.evidence,
        (RecoveredPaths::Move { destination, .. }, JournalOperation::Move { staged, .. }) => p == destination
            && e == staged.evidence,
        _ => false,
    }
}

/// Verifying a committed entry demands that every path the transaction wrote hold exactly the
/// staged file it wrote there.
pub proof fn lemma_committed_checks_demand_written_files<'a, P>(
    entry: RecoveredEntry<P>,
    c: Seq<PathCheck<'a, P>>,
    p: P,
    e: FileEvidence,
)
    requires
        committed_checks_of(entry, c),
        written_path(entry, p, e),
    ensures
        exists|k: int| 0 <= k < c.len() && #[trigger] checks_present(c[k], p, e),
{
    if entry.paths is Move {
        assert(checks_present(c[1], p, e));
    } else {
        assert(checks_present(c[0], p, e));
    }
}

/// Verifying a rolled-back entry demands that every path the transaction would have created (a
/// created path, a moved file's destination) be empty, and that every path it would have
/// changed or removed (an updated or deleted path, a moved file's source) hold its before-image
/// (or, once restored, its backup).
pub proof fn lemma_rolled_back_checks_demand_before_state<'a, P>(
    progress: MutationProgress,
    entry: RecoveredEntry<P>,
    c: Seq<PathCheck<'a, P>>,
)
    requires
        rolled_back_checks_of(progress, entry, c),
    ensures
        entry.paths matches RecoveredPaths::Create { destination } ==> exists|k: int|
            0 <= k < c.len() && #[trigger] checks_absent(c[k], destination),
        entry.paths matches RecoveredPaths::Move { destination, .. } ==> exists|k: int|
            0 <= k < c.len() && #[trigger] checks_absent(c[k], destination),
        entry.paths matches RecoveredPaths::Update { path } ==> exists|k: int|
            0 <= k < c.len() && #[trigger] expects_before_image(c[k], path, entry.operation),
        entry.paths matches RecoveredPaths::Delete { path } ==> exists|k: int|
            0 <= k < c.len() && #[trigger] expects_before_image(c[k], path, entry.operation),
        entry.paths matches RecoveredPaths::Move { source, .. } ==> exists|k: int|
            0 <= k < c.len() && #[trigger] expects_before_image(c[k], source, entry.operation),
{
    if entry.paths is Move {
        assert(checks_absent(c[1], entry.paths->Move_destination));
        assert(expects_before_image(c[0], entry.paths->Move_source, entry.operation));
    } else if entry.paths is Create {
        assert(checks_absent(c[0], entry.paths->Create_destination));
    } else if entry.paths is Update {
        assert(expects_before_image(c[0], entry.paths->Update_path, entry.operation));
    } else {
        assert(expects_before_image(c[0], entry.paths->Delete_path, entry.operation));
    }
}

/// A check that the path holds the operation's before-image, first of all.
pub open spec fn expects_before_image<P>(c: PathCheck<P>, p: P, operation: JournalOperation) -> bool {
    c matches PathCheck::Present { path, expected, .. } && *path == p && match operation {
        JournalOperation::Update { before, .. } => *expected == before,
        JournalOperation::Delete { before, .. } => *expected == before,
        JournalOperation::Move { before, .. } => *expected == before,
        _ => false,
    }
}

/// The observations that show one entry rolled back. An entry other than a create whose
/// mutation has not come back yet is refused before any observation.
pub fn rolled_back_checks<'a, P>(progress: MutationProgress, entry: &'a RecoveredEntry<P>) -> (r: Result<
    Vec<PathCheck<'a, P>>,
    TransactionFileSystemError,
>)
    ensures
        !shapes_agree(entry.paths, entry.operation) ==> (r matches Err(e) && is_inconsistent(e)),
        shapes_agree(entry.paths, entry.operation) && !(entry.paths is Create) && !converged_back(progress) ==> (r matches Err(
            TransactionFileSystemError::Platform { operation, reason },
        ) && operation == "verify recovered rollback" && reason@
            == "rollback verification began before mutation convergence"@),
        shapes_agree(entry.paths, entry.operation) && (entry.paths is Create || converged_back(progress)) ==> (r matches Ok(c)
            && rolled_back_checks_of(progress, *entry, c@)),
{
    let mut checks: Vec<PathCheck<'a, P>> = Vec::new();
    match (&entry.paths, &entry.operation) {
        (RecoveredPaths::Create { destination }, JournalOperation::Create { .. }) => {
            checks.push(PathCheck::Absent { path: destination });
        },
        (RecoveredPaths::Update { path }, JournalOperation::Update { before, backup, .. }) => {
            let (expected, alternate) = match rollback_evidence(progress, before, &backup.evidence) {
                Ok(pair) => pair,
                Err(e) => {
                    return Err(e);
                },
            };
            checks.push(PathCheck::Present { path, expected, alternate });
        },
        (RecoveredPaths::Delete { path }, JournalOperation::Delete { before, backup, .. }) => {
            let (expected, alternate) = match rollback_evidence(progress, before, &backup.evidence) {
                Ok(pair) => pair,
                Err(e) => {
                    return Err(e);
                },
            };
            checks.push(PathCheck::Present { path, expected, alternate });
        },
        (RecoveredPaths::Move { source, destination }, JournalOperation::Move { before, backup, .. }) => {
            let (expected, alternate) = match rollback_evidence(progress, before, &backup.evidence) {
                Ok(pair) => pair,
                Err(e) => {
                    return Err(e);
                },
            };
            checks.push(PathCheck::Present { path: source, expected, alternate });
            checks.push(PathCheck::Absent { path: destination });
        },
        _ => {
            return Err(inconsistent_entry());
        },
    }
    Ok(checks)
}

/// The error for an entry whose reopened paths disagree with its operation, found while
/// reopening what its rollback needs.
pub open spec fn is_unreopenable(e: TransactionFileSystemError) -> bool {
    e matches TransactionFileSystemError::Platform { operation, reason } && operation == "reopen recovery mutation"
        && reason@ == "journal operation and reopened paths disagree"@
}

fn unreopenable() -> (e: TransactionFileSystemError)
    ensures
        is_unreopenable(e),
{
    TransactionFileSystemError::Platform {
        operation: "reopen recovery mutation",
        reason: crate::text::text("journal operation and reopened paths disagree"),
    }
}

/// The durable artifacts that rolling back an operation reopens, the staged file first: a
/// create has only its staged file, a delete only its backup, an update and a move both.
pub open spec fn artifacts_of<'a>(
    operation: JournalOperation,
    pair: (Option<&'a DurableFileEvidence>, Option<&'a DurableFileEvidence>),
) -> bool {
    match operation {
        JournalOperation::Create { staged, .. } => match pair {
            (Some(s), None) => *s == staged,
            _ => false,
        },
        JournalOperation::Update { staged, backup, .. } => match pair {
            (Some(s), Some(b)) => *s == staged && *b == backup,
            _ => false,
        },
        JournalOperation::Delete { backup, .. } => match pair {
            (None, Some(b)) => *b == backup,
            _ => false,
        },
        JournalOperation::Move { staged, backup, .. } => match pair {
            (Some(s), Some(b)) => *s == staged && *b == backup,
            _ => false,
        },
    }
}

/// The staged file and backup to reopen before an entry can be rolled back.
pub fn rollback_artifacts<P>(entry: &RecoveredEntry<P>) -> (r: Result<
    (Option<&DurableFileEvidence>, Option<&DurableFileEvidence>),
    TransactionFileSystemError,
>)
    ensures
        !shapes_agree(entry.paths, entry.operation) ==> (r matches Err(e) && is_unreopenable(e)),
        shapes_agree(entry.paths, entry.operation) ==> (r matches Ok(pair) && artifacts_of(entry.operation, pair)),
{
    match (&entry.paths, &entry.operation) {
        (RecoveredPaths::Create { .. }, JournalOperation::Create { staged, .. }) => Ok((Some(staged), None)),
        (RecoveredPaths::Update { .. }, JournalOperation::Update { staged, backup, .. }) => Ok(
            (Some(staged), Some(backup)),
        ),
        (RecoveredPaths::Delete { .. }, JournalOperation::Delete { backup, .. }) => Ok((None, Some(backup))),
        (RecoveredPaths::Move { .. }, JournalOperation::Move { staged, backup, .. }) => Ok(
            (Some(staged), Some(backup)),
        ),
        _ => Err(unreopenable()),
    }
}

/// Whether the reopened artifacts are those the operation needs.
pub open spec fn has_artifacts<S, B>(operation: JournalOperation, staged: Option<S>, backup: Option<B>) -> bool {
    match operation {
        JournalOperation::Create { .. } => staged is Some,
        JournalOperation::Update { .. } => staged is Some && backup is Some,
        JournalOperation::Delete { .. } => backup is Some,
        JournalOperation::Move { .. } => staged is Some && backup is Some,
    }
}

/// The rollback of an entry: its reopened paths, the before-image it restores, and the
/// reopened staged file and backup.
pub open spec fn rollback_of<P: Clone, S, B>(
    entry: RecoveredEntry<P>,
    staged: Option<S>,
    backup: Option<B>,
    m: PreparedMutation<P, S, B>,
) -> bool {
    match (entry.paths, entry.operation) {
        (RecoveredPaths::Create { destination }, JournalOperation::Create { .. }) => match (staged, m) {
            (Some(s), PreparedMutation::Create { destination: d, staged: s2 }) => cloned(destination, d) && s2
                == s,
            _ => false,
        },
        (RecoveredPaths::Update { path }, JournalOperation::Update { before, .. }) => match (staged, backup, m) {
            (Some(s), Some(b), PreparedMutation::Replace { destination: d, expected, staged: s2, backup: b2 }) => cloned(
                path,
                d,
            ) && evidence_view(expected) == evidence_view(before) && s2 == s && b2 == b,
            _ => false,
        },
        (RecoveredPaths::Delete { path }, JournalOperation::Delete { before, .. }) => match (backup, m) {
            (Some(b), PreparedMutation::Remove { source: src, expected, backup: b2 }) => cloned(path, src)
                && evidence_view(expected) == evidence_view(before) && b2 == b,
            _ => false,
        },
        (RecoveredPaths::Move { source, destination }, JournalOperation::Move { before, .. }) => match (
            staged,
            backup,
            m,
        ) {
            (
                Some(s),
                Some(b),
                PreparedMutation::Move { source: src, expected, destination: d, staged: s2, backup: b2 },
            ) => cloned(source, src) && cloned(destination, d) && evidence_view(expected) == evidence_view(
                before,
            ) && s2 == s && b2 == b,
            _ => false,
        },
        _ => false,
    }
}

/// Assembles the rollback of an entry from the artifacts reopened for it.
pub fn rollback_mutation<P: Clone, S, B>(entry: &RecoveredEntry<P>, staged: Option<S>, backup: Option<B>) -> (r: Result<
    PreparedMutation<P, S, B>,
    TransactionFileSystemError,
>)
    ensures
        shapes_agree(entry.paths, entry.operation) && has_artifacts(entry.operation, staged, backup) ==> (r matches Ok(
            m,
        ) && rollback_of(*entry, staged, backup, m)),
        !(shapes_agree(entry.paths, entry.operation) && has_artifacts(entry.operation, staged, backup)) ==> (r matches Err(
            e,
        ) && is_unreopenable(e)),
{
    match (&entry.paths, &entry.operation, staged, backup) {
        (RecoveredPaths::Create { destination }, JournalOperation::Create { .. }, Some(s), _) => Ok(
            PreparedMutation::Create { destination: destination.clone(), staged: s },
        ),
        (RecoveredPaths::Update { path }, JournalOperation::Update { before, .. }, Some(s), Some(b)) => Ok(
            PreparedMutation::Replace {
                destination: path.clone(),
                expected: before.duplicate(),
                staged: s,
                backup: b,
            },
        ),
        (RecoveredPaths::Delete { path }, JournalOperation::Delete { before, .. }, _, Some(b)) => Ok(
            PreparedMutation::Remove { source: path.clone(), expected: before.duplicate(), backup: b },
        ),
        (
            RecoveredPaths::Move { source, destination },
            JournalOperation::Move { before, .. },
            Some(s),
            Some(b),
        ) => Ok(
            PreparedMutation::Move {
                source: source.clone(),
                expected: before.duplicate(),
                destination: destination.clone(),
                staged: s,
                backup: b,
            },
        ),
        _ => Err(unreopenable()),
    }
}

/// The durable keys an operation's paths are reopened from, in order: a move's source before
/// its destination.
pub open spec fn path_keys_of<'a>(operation: JournalOperation, keys: Seq<&'a DurablePathKey>) -> bool {
    match operation {
        JournalOperation::Create { destination, .. } => keys.len() == 1 && *keys[0] == destination,
        JournalOperation::Update { path, .. } => keys.len() == 1 && *keys[0] == path,
        JournalOperation::Delete { path, .. } => keys.len() == 1 && *keys[0] == path,
        JournalOperation::Move { source, destination, .. } => keys.len() == 2 && *keys[0] == source
            && *keys[1] == destination,
    }
}

/// The durable keys to reopen for an operation.
pub fn operation_path_keys(operation: &JournalOperation) -> (r: Vec<&DurablePathKey>)
    ensures
        path_keys_of(*operation, r@),
{
    let mut keys: Vec<&DurablePathKey> = Vec::new();
    match operation {
        JournalOperation::Create { destination, .. } => {
            keys.push(destination);
        },
        JournalOperation::Update { path, .. } => {
            keys.push(path);
        },
        JournalOperation::Delete { path, .. } => {
            keys.push(path);
        },
        JournalOperation::Move { source, destination, .. } => {
            keys.push(source);
            keys.push(destination);
        },
    }
    keys
}

/// The number of paths an operation names.
pub open spec fn path_count(operation: JournalOperation) -> nat {
    if operation is Move {
        2
    } else {
        1
    }
}

/// Paths reopened in key order, in the shape of their operation.
pub open spec fn shaped_as<P>(operation: JournalOperation, paths: Seq<P>, shaped: RecoveredPaths<P>) -> bool {
    match (operation, shaped) {
        (JournalOperation::Create { .. }, RecoveredPaths::Create { destination }) => destination == paths[0],
        (JournalOperation::Update { .. }, RecoveredPaths::Update { path }) => path == paths[0],
        (JournalOperation::Delete { .. }, RecoveredPaths::Delete { path }) => path == paths[0],
        (JournalOperation::Move { .. }, RecoveredPaths::Move { source, destination }) => source == paths[0]
            && destination == paths[1],
        _ => false,
    }
}

/// Gives the paths reopened from an operation's keys the operation's shape; `None` unless
/// there is one path per key.
pub fn shape_reopened<P>(operation: &JournalOperation, paths: Vec<P>) -> (r: Option<RecoveredPaths<P>>)
    ensures
        paths@.len() == path_count(*operation) ==> (r matches Some(shaped) && shaped_as(
            *operation,
            paths@,
            shaped,
        )),
        paths@.len() != path_count(*operation) ==> r is None,
{
    let mut paths = paths;
    let count = paths.len();
    match operation {
        JournalOperation::Move { .. } => {
            if count != 2 {
                return None;
            }
            let source = paths.remove(0);
            let destination = paths.remove(0);
            Some(RecoveredPaths::Move { source, destination })
        },
        _ => {
            if count != 1 {
                return None;
            }
            let path = paths.remove(0);
            match operation {
                JournalOperation::Create { .. } => Some(RecoveredPaths::Create { destination: path }),
                JournalOperation::Update { .. } => Some(RecoveredPaths::Update { path }),
                _ => Some(RecoveredPaths::Delete { path }),
            }
        },
    }
}

} // verus!
