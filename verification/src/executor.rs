use vstd::prelude::*;

use crate::digest::ExactBytesDigest;
use crate::journal::JournalError;
use crate::journal::StorageRequirements;
use crate::keys::key_order_bytes;
use crate::keys::CanonicalPathKey;
use crate::keys::ExecutorRootIdentity;
use crate::keys::TransactionId;
use crate::observation::observed_view;
use crate::observation::ObservedFile;
use crate::observation::ObservedPath;
use crate::observation::TransactionFileSystemError;
use crate::ordering::is_sorted_order;
use crate::ordering::rank_keys;
use crate::ordering::reorder;
use crate::ordering::sort_by_key;
use crate::planner::PlanError;
use crate::request::PlanSummary;
use crate::request::PlannedMutation;
use crate::request::TransactionAction;
use crate::request::TransactionLimits;

verus! {

#[derive(Clone, Debug, PartialEq, Eq)]
pub struct ExecutionResult {
    pub transaction_id: TransactionId,
    pub plan_digest: ExactBytesDigest,
    pub outcome: ExecutionOutcome,
}

#[derive(Clone, Debug, PartialEq, Eq)]
pub enum ExecutionOutcome {
    Committed,
    RolledBack { failure: ExecutionFailure },
}

#[derive(Clone, Debug, PartialEq, Eq)]
pub enum ExecutionFailure {
    FileSystem(TransactionFileSystemError),
    Journal(JournalError),
}

#[derive(Clone, Debug, PartialEq, Eq)]
pub enum ExecuteError {
    PreviewPlan,
    BeforeCommit { failure: ExecutionFailure },
    RecoveryRequired {
        transaction_id: TransactionId,
        plan_digest: ExactBytesDigest,
        failure: ExecutionFailure,
        recovery_failure: ExecutionFailure,
    },
}

/// Failure while planning and executing one commit request in the same executor.
#[derive(Clone, Debug, PartialEq, Eq)]
pub enum ExecuteRequestError {
    PreviewAction,
    Plan(PlanError),
    Execute(ExecuteError),
}

/// A preview-only request cannot be executed; it is refused before planning.
pub fn check_request_executable(action: &TransactionAction) -> (r: Result<(), ExecuteRequestError>)
    ensures
        *action is Preview ==> r == Err::<(), ExecuteRequestError>(ExecuteRequestError::PreviewAction),
        !(*action is Preview) ==> r is Ok,
{
    match action {
        TransactionAction::Preview => Err(ExecuteRequestError::PreviewAction),
        _ => Ok(()),
    }
}

impl From<TransactionFileSystemError> for ExecutionFailure {
    fn from(e: TransactionFileSystemError) -> (r: Self) {
        ExecutionFailure::FileSystem(e)
    }
}

impl vstd::std_specs::convert::FromSpecImpl<TransactionFileSystemError> for ExecutionFailure {
    open spec fn obeys_from_spec() -> bool {
        true
    }

    open spec fn from_spec(e: TransactionFileSystemError) -> Self {
        ExecutionFailure::FileSystem(e)
    }
}

impl From<JournalError> for ExecutionFailure {
    fn from(e: JournalError) -> (r: Self) {
        ExecutionFailure::Journal(e)
    }
}

impl vstd::std_specs::convert::FromSpecImpl<JournalError> for ExecutionFailure {
    open spec fn obeys_from_spec() -> bool {
        true
    }

    open spec fn from_spec(e: JournalError) -> Self {
        ExecutionFailure::Journal(e)
    }
}

/// A preview-only plan cannot be executed.
pub fn check_executable(action: &TransactionAction) -> (r: Result<(), ExecuteError>)
    ensures
        *action is Preview ==> r == Err::<(), ExecuteError>(ExecuteError::PreviewPlan),
        !(*action is Preview) ==> r is Ok,
{
    match action {
        TransactionAction::Preview => Err(ExecuteError::PreviewPlan),
        _ => Ok(()),
    }
}

/// A failure that happened before any durable commit state was written.
pub fn before_commit(failure: ExecutionFailure) -> (r: ExecuteError)
    ensures
        r == (ExecuteError::BeforeCommit { failure }),
{
    ExecuteError::BeforeCommit { failure }
}

/// Storage the transaction reserves: its after-images staged, its before-images backed up,
/// and one journal.
pub fn storage_requirements(summary: PlanSummary, limits: TransactionLimits) -> (r: StorageRequirements)
    ensures
        r.staged_bytes == summary.after_bytes,
        r.backup_bytes == summary.before_bytes,
        r.journal_bytes == limits.max_journal_bytes,
{
    StorageRequirements {
        staged_bytes: summary.after_bytes,
        backup_bytes: summary.before_bytes,
        journal_bytes: limits.max_journal_bytes,
    }
}

/// Puts the mutations in key order (their path, or their source for a move), the order in
/// which they are journaled and applied.
pub fn sort_mutations<P>(mutations: &mut Vec<PlannedMutation<P>>)
    ensures
        exists|order: Seq<usize>|
            is_sorted_order(rank_keys(old(mutations)@), order) && final(mutations)@ == reorder(
                old(mutations)@,
                order,
            ),
{
    sort_by_key(mutations);
}

/// The paths a mutation locks, each with its key: one for a create, update or delete, the
/// source and the destination for a move.
pub open spec fn targets_of<P>(m: PlannedMutation<P>) -> Seq<((Seq<char>, Seq<u8>), P)> {
    match m {
        PlannedMutation::Create { path, path_key, .. } => seq![(path_key@, path)],
        PlannedMutation::Update { path, path_key, .. } => seq![(path_key@, path)],
        PlannedMutation::Delete { path, path_key, .. } => seq![(path_key@, path)],
        PlannedMutation::Move { source, source_key, destination, destination_key, .. } => seq![
            (source_key@, source),
            (destination_key@, destination),
        ],
    }
}

/// Every path the mutations lock, in mutation order.
pub open spec fn lock_targets<P>(ms: Seq<PlannedMutation<P>>) -> Seq<((Seq<char>, Seq<u8>), P)>
    decreases ms.len(),
{
    if ms.len() == 0 {
        Seq::empty()
    } else {
        lock_targets(ms.drop_last()) + targets_of(ms.last())
    }
}

pub open spec fn target_ranks<P>(ts: Seq<((Seq<char>, Seq<u8>), P)>) -> Seq<(Seq<u8>, Seq<u8>)> {
    ts.map_values(|t: ((Seq<char>, Seq<u8>), P)| key_order_bytes(t.0))
}

fn push_target<P: Clone>(pairs: &mut Vec<(CanonicalPathKey, P)>, key: &CanonicalPathKey, path: &P)
    ensures
        final(pairs)@.len() == old(pairs)@.len() + 1,
        forall|j: int| 0 <= j < old(pairs)@.len() ==> #[trigger] final(pairs)@[j] == old(pairs)@[j],
        final(pairs)@.last().0@ == key@,
        vstd::pervasive::cloned(*path, final(pairs)@.last().1),
{
    pairs.push((key.clone_key(), path.clone()));
}

/// The paths to lock, sorted by key so that every transaction locks in the same order.
pub fn ordered_lock_paths<P: Clone>(mutations: &Vec<PlannedMutation<P>>) -> (r: Vec<P>)
    ensures
        exists|order: Seq<usize>|
            is_sorted_order(target_ranks(lock_targets(mutations@)), order) && r@.len() == order.len()
                && forall|i: int|
                0 <= i < order.len() ==> vstd::pervasive::cloned(
                    #[trigger] lock_targets(mutations@)[order[i] as int].1,
                    r@[i],
                ),
{
    let mut pairs: Vec<(CanonicalPathKey, P)> = Vec::new();
    let mut i: usize = 0;
    while i < mutations.len()
        invariant
            i <= mutations@.len(),
            pairs@.len() == lock_targets(mutations@.take(i as int)).len(),
            forall|j: int|
                0 <= j < pairs@.len() ==> #[trigger] pairs@[j].0@ == lock_targets(mutations@.take(i as int))[j].0
                    && vstd::pervasive::cloned(lock_targets(mutations@.take(i as int))[j].1, pairs@[j].1),
        decreases mutations@.len() - i,
    {
        let ghost prefix = lock_targets(mutations@.take(i as int));
        let ghost before = pairs@;
        match &mutations[i] {
            PlannedMutation::Create { path, path_key, .. } => {
                push_target(&mut pairs, path_key, path);
            },
            PlannedMutation::Update { path, path_key, .. } => {
                push_target(&mut pairs, path_key, path);
            },
            PlannedMutation::Delete { path, path_key, .. } => {
                push_target(&mut pairs, path_key, path);
            },
            PlannedMutation::Move { source, source_key, destination, destination_key, .. } => {
                push_target(&mut pairs, source_key, source);
                push_target(&mut pairs, destination_key, destination);
            },
        }
        proof {
            let next = mutations@.take(i + 1);
            assert(next.drop_last() =~= mutations@.take(i as int));
            assert(next.last() == mutations@[i as int]);
            assert(lock_targets(next) == prefix + targets_of(mutations@[i as int]));
        }
        i += 1;
    }
    let ghost targets = lock_targets(mutations@);
    proof {
        assert(mutations@.take(mutations@.len() as int) =~= mutations@);
        assert(rank_keys(pairs@) =~= target_ranks(targets));
    }
    let ghost unsorted = pairs@;
    assert(forall|j: int|
        0 <= j < unsorted.len() ==> #[trigger] unsorted[j].0@ == targets[j].0
            && vstd::pervasive::cloned(targets[j].1, unsorted[j].1));
    sort_by_key(&mut pairs);
    let ghost order = choose|order: Seq<usize>|
        is_sorted_order(rank_keys(unsorted), order) && pairs@ == reorder(unsorted, order);
    let ghost sorted = pairs@;
    let mut out: Vec<P> = Vec::new();
    let count = pairs.len();
    let mut k: usize = 0;
    while k < count
        invariant
            k <= count,
            count == sorted.len(),
            pairs@ == sorted.skip(k as int),
            out@.len() == k,
            forall|j: int| 0 <= j < k ==> #[trigger] out@[j] == sorted[j].1,
        decreases count - k,
    {
        let (_, path) = pairs.remove(0);
        out.push(path);
        proof {
            assert(sorted.skip(k + 1) =~= sorted.skip(k as int).drop_first());
        }
        k += 1;
    }
    proof {
        assert forall|i: int| 0 <= i < order.len() implies vstd::pervasive::cloned(
            #[trigger] targets[order[i] as int].1,
            out@[i],
        ) by {
            let j = order[i] as int;
            assert(0 <= j < unsorted.len());
            assert(unsorted[j].0@ == targets[j].0);
            assert(sorted[i] == unsorted[j]);
        }
    }
    out
}

/// The root must still have the identity it had when the plan was made.
pub fn check_root_unchanged(current: &ExecutorRootIdentity, planned: &ExecutorRootIdentity) -> (r: Result<
    (),
    TransactionFileSystemError,
>)
    ensures
        current@ == planned@ ==> r is Ok,
        current@ != planned@ ==> (r matches Err(TransactionFileSystemError::ChangedSincePlanning { path })
            && path@ == "."@),
{
    if current.same(planned) {
        Ok(())
    } else {
        Err(TransactionFileSystemError::ChangedSincePlanning { path: crate::text::text(".") })
    }
}

/// What revalidation under the lock requires of one planned path.
pub enum Revalidation<'a, P> {
    /// The path is still absent.
    Absent { path: &'a P, model_path: &'a String },
    /// The path still holds the file that was planned against.
    Unchanged { path: &'a P, model_path: &'a String, expected: &'a ObservedFile },
}

/// The requirements that revalidate one mutation under the lock, in order: a create needs
/// its path absent, an update or delete needs its file unchanged, and a move needs its source
/// unchanged and then its destination absent.
pub open spec fn revalidations_of<'a, P>(m: PlannedMutation<P>, c: Seq<Revalidation<'a, P>>) -> bool {
    match m {
        PlannedMutation::Create { path, model_path, .. } => c.len() == 1 && match c[0] {
            Revalidation::Absent { path: p, model_path: n } => *p == path && *n == model_path,
            _ => false,
        },
        PlannedMutation::Update { path, model_path, before, .. } => c.len() == 1 && match c[0] {
            Revalidation::Unchanged { path: p, model_path: n, expected } => *p == path && *n == model_path
                && *expected == before,
            _ => false,
        },
        PlannedMutation::Delete { path, model_path, before, .. } => c.len() == 1 && match c[0] {
            Revalidation::Unchanged { path: p, model_path: n, expected } => *p == path && *n == model_path
                && *expected == before,
            _ => false,
        },
        PlannedMutation::Move { source, model_source, before, destination, model_destination, .. } => c.len()
            == 2 && match (c[0], c[1]) {
            (
                Revalidation::Unchanged { path: p, model_path: n, expected },
                Revalidation::Absent { path: q, model_path: o },
            ) => *p == source && *n == model_source && *expected == before && *q == destination && *o
                == model_destination,
            _ => false,
        },
    }
}

/// The requirements that revalidate one planned mutation under the lock.
pub fn revalidation_checks<'a, P>(mutation: &'a PlannedMutation<P>) -> (r: Vec<Revalidation<'a, P>>)
    ensures
        revalidations_of(*mutation, r@),
{
    let mut checks: Vec<Revalidation<'a, P>> = Vec::new();
    match mutation {
        PlannedMutation::Create { path, model_path, .. } => {
            checks.push(Revalidation::Absent { path, model_path });
        },
        PlannedMutation::Update { path, model_path, before, .. } => {
            checks.push(Revalidation::Unchanged { path, model_path, expected: before });
        },
        PlannedMutation::Delete { path, model_path, before, .. } => {
            checks.push(Revalidation::Unchanged { path, model_path, expected: before });
        },
        PlannedMutation::Move { source, model_source, before, destination, model_destination, .. } => {
            checks.push(Revalidation::Unchanged { path: source, model_path: model_source, expected: before });
            checks.push(Revalidation::Absent { path: destination, model_path: model_destination });
        },
    }
    checks
}

/// A path that a create or a move destination needs must still be absent under the lock.
pub fn require_absent_observation(model_path: &str, observed: &ObservedPath) -> (r: Result<
    (),
    TransactionFileSystemError,
>)
    ensures
        *observed is Absent ==> r is Ok,
        !(*observed is Absent) ==> (r matches Err(TransactionFileSystemError::ChangedSincePlanning { path })
            && path@ == model_path@),
{
    match observed {
        ObservedPath::Absent => Ok(()),
        ObservedPath::Present(_) => Err(
            TransactionFileSystemError::ChangedSincePlanning { path: crate::text::text(model_path) },
        ),
    }
}

/// A path that an update, delete or move source needs must still hold exactly the planned file.
pub fn require_unchanged_observation(model_path: &str, expected: &ObservedFile, observed: &ObservedPath) -> (r: Result<
    (),
    TransactionFileSystemError,
>)
    ensures
        (observed matches ObservedPath::Present(f) && observed_view(*f) == observed_view(*expected)) ==> r is Ok,
        !(observed matches ObservedPath::Present(f) && observed_view(*f) == observed_view(*expected)) ==> (r matches Err(
            TransactionFileSystemError::ChangedSincePlanning { path },
        ) && path@ == model_path@),
{
    match observed {
        ObservedPath::Present(file) => {
            if file.same(expected) {
                return Ok(());
            }
        },
        ObservedPath::Absent => {},
    }
    Err(TransactionFileSystemError::ChangedSincePlanning { path: crate::text::text(model_path) })
}

} // verus!
