use vstd::prelude::*;

use crate::digest::ExactBytesDigest;
use crate::executor::ExecutionFailure;
use crate::journal::JournalError;
use crate::journal::JournalMutation;
use crate::journal::JournalOperation;
use crate::journal::JournalRecord;
use crate::journal::JournalState;
use crate::journal::MutationProgress;
use crate::journal::RecoveryTarget;
use crate::keys::key_order_bytes;
use crate::keys::lemma_pair_order_properties;
use crate::keys::pair_order;
use crate::keys::utf8;
use crate::keys::CanonicalPathKey;
use crate::keys::DurableTransactionKey;
use crate::keys::ExecutorRootIdentity;
use crate::keys::RecoveryScanLimit;
use crate::keys::TransactionId;
use crate::limits::sat_add;
use crate::observation::evidence_view;
use crate::observation::FileEvidence;
use crate::observation::ObservedEvidence;
use crate::observation::TransactionFileSystemError;
use crate::ordering::is_sorted_order;
use crate::ordering::rank_keys;
use crate::ordering::reorder;
use crate::ordering::sort_by_key;
use crate::request::TransactionLimits;

verus! {

#[derive(Clone, Debug, PartialEq, Eq)]
pub struct RecoveryResult {
    pub transaction_id: TransactionId,
    pub plan_digest: ExactBytesDigest,
    pub outcome: RecoveryOutcome,
}

#[derive(Clone, Copy, Debug, PartialEq, Eq, Structural)]
pub enum RecoveryOutcome {
    Committed,
    RolledBack,
}

#[derive(Debug, PartialEq, Eq)]
pub struct RecoveryAttempt {
    pub key: DurableTransactionKey,
    pub result: Result<RecoveryResult, RecoveryError>,
}

#[derive(Clone, Debug, PartialEq, Eq)]
pub enum RecoveryFailure {
    FileSystem(TransactionFileSystemError),
    Journal(JournalError),
    ScanLimit { observed: u64, limit: u64 },
    InvalidTransactionKey { reason: &'static str },
    TransactionKeyMismatch,
    EnvironmentMismatch,
    ManifestMismatch,
    RootIdentityMismatch,
}

#[derive(Clone, Debug, PartialEq, Eq)]
pub enum RecoveryError {
    Unavailable { failure: RecoveryFailure },
    RecoveryRequired {
        transaction_id: TransactionId,
        failure: RecoveryFailure,
        record_failure: Option<RecoveryFailure>,
    },
}

impl From<ExecutionFailure> for RecoveryFailure {
    fn from(failure: ExecutionFailure) -> (r: Self) {
        match failure {
            ExecutionFailure::FileSystem(error) => RecoveryFailure::FileSystem(error),
            ExecutionFailure::Journal(error) => RecoveryFailure::Journal(error),
        }
    }
}

impl vstd::std_specs::convert::FromSpecImpl<ExecutionFailure> for RecoveryFailure {
    open spec fn obeys_from_spec() -> bool {
        true
    }

    open spec fn from_spec(failure: ExecutionFailure) -> Self {
        match failure {
            ExecutionFailure::FileSystem(error) => RecoveryFailure::FileSystem(error),
            ExecutionFailure::Journal(error) => RecoveryFailure::Journal(error),
        }
    }
}

impl From<TransactionFileSystemError> for RecoveryFailure {
    fn from(e: TransactionFileSystemError) -> (r: Self) {
        RecoveryFailure::FileSystem(e)
    }
}

impl vstd::std_specs::convert::FromSpecImpl<TransactionFileSystemError> for RecoveryFailure {
    open spec fn obeys_from_spec() -> bool {
        true
    }

    open spec fn from_spec(e: TransactionFileSystemError) -> Self {
        RecoveryFailure::FileSystem(e)
    }
}

impl From<JournalError> for RecoveryFailure {
    fn from(e: JournalError) -> (r: Self) {
        RecoveryFailure::Journal(e)
    }
}

impl vstd::std_specs::convert::FromSpecImpl<JournalError> for RecoveryFailure {
    open spec fn obeys_from_spec() -> bool {
        true
    }

    open spec fn from_spec(e: JournalError) -> Self {
        RecoveryFailure::Journal(e)
    }
}

// ----- durable transaction keys -----

/// Why a durable transaction key cannot be recovered, if it cannot: both parts must be
/// non-empty and together fit the executor-key limit.
pub open spec fn key_problem(key: (Seq<char>, Seq<u8>), limits: TransactionLimits) -> Option<RecoveryFailure> {
    if key.0.len() == 0 || key.1.len() == 0 {
        Some(RecoveryFailure::InvalidTransactionKey { reason: "namespace and value must not be empty" })
    } else if sat_add(utf8(key.0).len() as int, key.1.len() as int) > limits.max_executor_key_bytes {
        Some(RecoveryFailure::InvalidTransactionKey { reason: "key exceeds the executor-key byte limit" })
    } else {
        None
    }
}

/// Checks a durable transaction key before it is used.
pub fn validate_transaction_key(key: &DurableTransactionKey, limits: TransactionLimits) -> (r: Result<
    (),
    RecoveryFailure,
>)
    ensures
        match key_problem(key@, limits) {
            Some(f) => r == Err::<(), RecoveryFailure>(f),
            None => r is Ok,
        },
{
    let namespace_len = key.namespace.as_str().as_bytes().len();
    proof {
        vstd::utf8::encode_utf8_decode_utf8(key.namespace@);
        if key.namespace@.len() > 0 {
            assert(utf8(key.namespace@).len() > 0) by {
                if utf8(key.namespace@).len() == 0 {
                    assert(vstd::utf8::decode_utf8(utf8(key.namespace@)) =~= Seq::<char>::empty());
                }
            }
        }
    }
    if namespace_len == 0 || key.value.len() == 0 {
        return Err(
            RecoveryFailure::InvalidTransactionKey { reason: "namespace and value must not be empty" },
        );
    }
    let observed = (namespace_len as u64).saturating_add(key.value.len() as u64);
    if observed > limits.max_executor_key_bytes {
        return Err(
            RecoveryFailure::InvalidTransactionKey { reason: "key exceeds the executor-key byte limit" },
        );
    }
    Ok(())
}

/// A recovery scan may not return more keys than it was allowed to.
pub fn check_scan_size(count: usize, scan_limit: RecoveryScanLimit) -> (r: Result<(), RecoveryFailure>)
    ensures
        count <= scan_limit.max_transactions ==> r is Ok,
        count > scan_limit.max_transactions ==> r == Err::<(), RecoveryFailure>(
            RecoveryFailure::ScanLimit { observed: count as u64, limit: scan_limit.max_transactions },
        ),
{
    if count as u64 > scan_limit.max_transactions {
        Err(RecoveryFailure::ScanLimit { observed: count as u64, limit: scan_limit.max_transactions })
    } else {
        Ok(())
    }
}

/// The verdict on the scanned key at index `i`: its own problem, or a duplicate of an earlier
/// key that was accepted.
pub open spec fn scan_verdict(keys: Seq<DurableTransactionKey>, i: int, limits: TransactionLimits) -> Option<
    RecoveryFailure,
> {
    match key_problem(keys[i]@, limits) {
        Some(f) => Some(f),
        None => if exists|j: int| 0 <= j < i && key_problem(#[trigger] keys[j]@, limits) is None && keys[j]@
            == keys[i]@ {
            Some(RecoveryFailure::InvalidTransactionKey { reason: "recovery scan returned a duplicate key" })
        } else {
            None
        },
    }
}

/// Validates every scanned key in order; a key that repeats an accepted key is refused.
pub fn scan_verdicts(keys: &Vec<DurableTransactionKey>, limits: TransactionLimits) -> (r: Vec<
    Result<(), RecoveryFailure>,
>)
    ensures
        r@.len() == keys@.len(),
        forall|i: int|
            0 <= i < keys@.len() ==> match scan_verdict(keys@, i, limits) {
                Some(f) => #[trigger] r@[i] == Err::<(), RecoveryFailure>(f),
                None => r@[i] is Ok,
            },
{
    let mut verdicts: Vec<Result<(), RecoveryFailure>> = Vec::new();
    let mut i: usize = 0;
    while i < keys.len()
        invariant
            i <= keys@.len(),
            verdicts@.len() == i,
            forall|k: int|
                0 <= k < i ==> match scan_verdict(keys@, k, limits) {
                    Some(f) => #[trigger] verdicts@[k] == Err::<(), RecoveryFailure>(f),
                    None => verdicts@[k] is Ok,
                },
        decreases keys@.len() - i,
    {
        let verdict = match validate_transaction_key(&keys[i], limits) {
            Err(f) => Err(f),
            Ok(()) => {
                let mut duplicate = false;
                let mut j: usize = 0;
                while j < i
                    invariant
                        i < keys@.len(),
                        j <= i,
                        duplicate == exists|k: int|
                            0 <= k < j && key_problem(#[trigger] keys@[k]@, limits) is None && keys@[k]@
                                == keys@[i as int]@,
                    decreases i - j,
                {
                    if validate_transaction_key(&keys[j], limits).is_ok() && keys[j].same(&keys[i]) {
                        duplicate = true;
                    }
                    j += 1;
                }
                if duplicate {
                    Err(RecoveryFailure::InvalidTransactionKey { reason: "recovery scan returned a duplicate key" })
                } else {
                    Ok(())
                }
            },
        };
        verdicts.push(verdict);
        i += 1;
    }
    verdicts
}

// ----- loading a record -----

/// A loaded record must belong to the key it was loaded under and to this environment.
pub fn check_loaded_record(record: &JournalRecord, key: &DurableTransactionKey, environment_id: &String) -> (r: Result<
    (),
    RecoveryFailure,
>)
    ensures
        record.transaction_key@ != key@ ==> r == Err::<(), RecoveryFailure>(RecoveryFailure::TransactionKeyMismatch),
        record.transaction_key@ == key@ && record.environment_id@ != environment_id@ ==> r == Err::<
            (),
            RecoveryFailure,
        >(RecoveryFailure::EnvironmentMismatch),
        record.transaction_key@ == key@ && record.environment_id@ == environment_id@ ==> r is Ok,
{
    if !record.transaction_key.same(key) {
        return Err(RecoveryFailure::TransactionKeyMismatch);
    }
    if record.environment_id != *environment_id {
        return Err(RecoveryFailure::EnvironmentMismatch);
    }
    Ok(())
}

/// The reopened root must still have the identity the record holds.
pub fn require_root_identity(current: &ExecutorRootIdentity, record: &JournalRecord) -> (r: Result<
    (),
    RecoveryFailure,
>)
    ensures
        current@ == record.root_identity@ ==> r is Ok,
        current@ != record.root_identity@ ==> r == Err::<(), RecoveryFailure>(RecoveryFailure::RootIdentityMismatch),
{
    if current.same(&record.root_identity) {
        Ok(())
    } else {
        Err(RecoveryFailure::RootIdentityMismatch)
    }
}

// ----- which way recovery converges -----

/// Every mutation is untouched or rolled back.
pub open spec fn terminal_rollback(ms: Seq<JournalMutation>) -> bool {
    forall|i: int|
        0 <= i < ms.len() ==> (#[trigger] ms[i]).progress == MutationProgress::Pending || ms[i].progress
            == MutationProgress::RolledBack
}

/// Whether a rollback has nothing left to undo.
pub fn rollback_is_terminal(mutations: &Vec<JournalMutation>) -> (r: bool)
    ensures
        r == terminal_rollback(mutations@),
{
    let mut i: usize = 0;
    while i < mutations.len()
        invariant
            i <= mutations@.len(),
            forall|j: int|
                0 <= j < i ==> (#[trigger] mutations@[j]).progress == MutationProgress::Pending
                    || mutations@[j].progress == MutationProgress::RolledBack,
        decreases mutations@.len() - i,
    {
        match mutations[i].progress {
            MutationProgress::Pending | MutationProgress::RolledBack => {},
            _ => {
                return false;
            },
        }
        i += 1;
    }
    true
}

/// The work recovery does for a loaded record.
#[derive(Clone, Copy, Debug, PartialEq, Eq, Structural)]
pub enum RecoveryRoute {
    /// Verify the committed result, then clean up unless the record is already complete.
    Commit { cleanup: bool },
    /// Possibly finish undoing mutations, verify the rolled-back result, then possibly clean up.
    Rollback { converge: bool, cleanup: bool },
}

/// The route a record takes: its recovery target decides the direction; its state decides
/// what is already done.
pub open spec fn route_of(record: JournalRecord) -> RecoveryRoute {
    match record.recovery_target {
        RecoveryTarget::Commit => RecoveryRoute::Commit { cleanup: record.state != JournalState::Complete },
        RecoveryTarget::Rollback => if record.state == JournalState::Complete {
            RecoveryRoute::Rollback { converge: false, cleanup: false }
        } else if record.state == JournalState::RecoveryRequired && terminal_rollback(record.mutations@) {
            RecoveryRoute::Rollback { converge: false, cleanup: true }
        } else if record.state != JournalState::RolledBack && record.state != JournalState::Cleaning {
            RecoveryRoute::Rollback { converge: true, cleanup: true }
        } else {
            RecoveryRoute::Rollback { converge: false, cleanup: true }
        },
    }
}

/// Decides how to converge a loaded record.
pub fn recovery_route(record: &JournalRecord) -> (r: RecoveryRoute)
    ensures
        r == route_of(*record),
{
    match record.recovery_target {
        RecoveryTarget::Commit => RecoveryRoute::Commit { cleanup: record.state != JournalState::Complete },
        RecoveryTarget::Rollback => {
            if record.state == JournalState::Complete {
                RecoveryRoute::Rollback { converge: false, cleanup: false }
            } else if record.state == JournalState::RecoveryRequired && rollback_is_terminal(
                &record.mutations,
            ) {
                RecoveryRoute::Rollback { converge: false, cleanup: true }
            } else if record.state != JournalState::RolledBack && record.state != JournalState::Cleaning {
                RecoveryRoute::Rollback { converge: true, cleanup: true }
            } else {
                RecoveryRoute::Rollback { converge: false, cleanup: true }
            }
        },
    }
}

/// What rolling back one mutation takes, by its progress.
#[derive(Clone, Copy, Debug, PartialEq, Eq, Structural)]
pub enum RollbackStep {
    /// Nothing was applied, or it is already undone.
    Skip,
    /// Record that the mutation is being undone, then restore it.
    MarkAndRestore,
    /// The undo was already recorded; restore again.
    Restore,
}

pub open spec fn step_for(progress: MutationProgress) -> RollbackStep {
    match progress {
        MutationProgress::Pending | MutationProgress::RolledBack => RollbackStep::Skip,
        MutationProgress::Committing | MutationProgress::Applied => RollbackStep::MarkAndRestore,
        MutationProgress::RollingBack => RollbackStep::Restore,
    }
}

/// The rollback step for a mutation in the given progress.
pub fn rollback_step(progress: MutationProgress) -> (r: RollbackStep)
    ensures
        r == step_for(progress),
{
    match progress {
        MutationProgress::Pending | MutationProgress::RolledBack => RollbackStep::Skip,
        MutationProgress::Committing | MutationProgress::Applied => RollbackStep::MarkAndRestore,
        MutationProgress::RollingBack => RollbackStep::Restore,
    }
}

/// The next thing a rollback does, scanning down from `upper`.
#[derive(Clone, Copy, Debug, PartialEq, Eq, Structural)]
pub enum RollbackDecision {
    /// Record that mutation `index`, last at `previous`, is being undone; then restore it.
    Mark { index: usize, previous: MutationProgress },
    /// Restore mutation `index`, whose undo is already recorded.
    Restore { index: usize },
    /// Every mutation is untouched or rolled back.
    Done,
}

/// Every mutation from `from` on is untouched or rolled back.
pub open spec fn settled_from(ms: Seq<JournalMutation>, from: int) -> bool {
    forall|k: int|
        from <= k < ms.len() ==> #[trigger] ms[k].progress == MutationProgress::Pending || ms[k].progress
            == MutationProgress::RolledBack
}

/// Finds, newest first below `upper`, the next mutation that the rollback must undo; the
/// mutations above it are untouched or already rolled back.
pub fn next_rollback_step(mutations: &Vec<JournalMutation>, upper: usize) -> (r: RollbackDecision)
    requires
        upper <= mutations@.len(),
        settled_from(mutations@, upper as int),
    ensures
        match r {
            RollbackDecision::Mark { index, previous } => index < upper && previous == mutations@[index as int].progress
                && step_for(previous) == RollbackStep::MarkAndRestore && settled_from(mutations@, index + 1),
            RollbackDecision::Restore { index } => index < upper && step_for(mutations@[index as int].progress)
                == RollbackStep::Restore && settled_from(mutations@, index + 1),
            RollbackDecision::Done => settled_from(mutations@, 0),
        },
{
    let mut k = upper;
    while k > 0
        invariant
            k <= upper <= mutations@.len(),
            settled_from(mutations@, k as int),
        decreases k,
    {
        let index = k - 1;
        let previous = mutations[index].progress;
        match rollback_step(previous) {
            RollbackStep::Skip => {
                k = index;
            },
            RollbackStep::MarkAndRestore => {
                return RollbackDecision::Mark { index, previous };
            },
            RollbackStep::Restore => {
                return RollbackDecision::Restore { index };
            },
        }
    }
    RollbackDecision::Done
}

/// A rollback needs one reopened entry per journaled mutation.
pub fn check_rollback_entries(entries: usize, mutations: usize) -> (r: Result<(), TransactionFileSystemError>)
    ensures
        entries == mutations ==> r is Ok,
        entries != mutations ==> (r matches Err(TransactionFileSystemError::Platform { operation, reason })
            && operation == "recover rollback" && reason@
            == "journal mutation and reopened entry counts disagree"@),
{
    if entries != mutations {
        return Err(
            TransactionFileSystemError::Platform {
                operation: "recover rollback",
                reason: crate::text::text("journal mutation and reopened entry counts disagree"),
            },
        );
    }
    Ok(())
}

// ----- verifying the converged state -----

/// The states a rolled-back path may show: the planned before-image, or, once restored
/// from backup, the backup's evidence too. Any other progress means the rollback has not
/// converged yet.
pub fn rollback_evidence<'a>(progress: MutationProgress, before: &'a FileEvidence, backup: &'a FileEvidence) -> (r: Result<
    (&'a FileEvidence, Option<&'a FileEvidence>),
    TransactionFileSystemError,
>)
    ensures
        progress == MutationProgress::Pending ==> r == Ok::<
            (&'a FileEvidence, Option<&'a FileEvidence>),
            TransactionFileSystemError,
        >((before, None)),
        progress == MutationProgress::RolledBack ==> r == Ok::<
            (&'a FileEvidence, Option<&'a FileEvidence>),
            TransactionFileSystemError,
        >((before, Some(backup))),
        progress != MutationProgress::Pending && progress != MutationProgress::RolledBack ==> (r matches Err(
            TransactionFileSystemError::Platform { operation, reason },
        ) && operation == "verify recovered rollback" && reason@
            == "rollback verification began before mutation convergence"@),
{
    match progress {
        MutationProgress::Pending => Ok((before, None)),
        MutationProgress::RolledBack => Ok((before, Some(backup))),
        _ => Err(
            TransactionFileSystemError::Platform {
                operation: "verify recovered rollback",
                reason: crate::text::text("rollback verification began before mutation convergence"),
            },
        ),
    }
}

/// The error for a recovered path that shows a state recovery did not expect.
pub open spec fn is_disturbed(e: TransactionFileSystemError) -> bool {
    e matches TransactionFileSystemError::ChangedSincePlanning { path } && path@ == "recovered transaction path"@
}

fn disturbed() -> (e: TransactionFileSystemError)
    ensures
        is_disturbed(e),
{
    TransactionFileSystemError::ChangedSincePlanning { path: crate::text::text("recovered transaction path") }
}

/// The error for a reopened entry whose paths disagree with its journal operation.
pub fn inconsistent_entry() -> (e: TransactionFileSystemError)
    ensures
        e matches TransactionFileSystemError::Platform { operation, reason } && operation
            == "verify recovered transaction" && reason@ == "journal operation and reopened paths disagree"@,
{
    TransactionFileSystemError::Platform {
        operation: "verify recovered transaction",
        reason: crate::text::text("journal operation and reopened paths disagree"),
    }
}

/// A recovered path must show the expected evidence, or the alternate one when given.
pub fn require_present_evidence(
    observed: &ObservedEvidence,
    expected: &FileEvidence,
    alternate: Option<&FileEvidence>,
) -> (r: Result<(), TransactionFileSystemError>)
    ensures
        ({
            let shown = observed matches ObservedEvidence::Present(e) && (evidence_view(*e) == evidence_view(
                *expected,
            ) || (alternate matches Some(a) && evidence_view(*e) == evidence_view(*a)));
            &&& shown ==> r is Ok
            &&& !shown ==> (r matches Err(e) && is_disturbed(e))
        }),
{
    match observed {
        ObservedEvidence::Present(evidence) => {
            if evidence.same(expected) {
                return Ok(());
            }
            match alternate {
                Some(a) => {
                    if evidence.same(a) {
                        return Ok(());
                    }
                },
                None => {},
            }
        },
        ObservedEvidence::Absent => {},
    }
    Err(disturbed())
}

/// A recovered path must be absent.
pub fn require_absent_evidence(observed: &ObservedEvidence) -> (r: Result<(), TransactionFileSystemError>)
    ensures
        *observed is Absent ==> r is Ok,
        !(*observed is Absent) ==> (r matches Err(e) && is_disturbed(e)),
{
    match observed {
        ObservedEvidence::Absent => Ok(()),
        ObservedEvidence::Present(_) => Err(disturbed()),
    }
}

// ----- reopened paths -----

/// Paths reopened from durable keys, shaped like the journal operation they belong to.
pub enum RecoveredPaths<P> {
    Create { destination: P },
    Update { path: P },
    Delete { path: P },
    Move { source: P, destination: P },
}

pub struct RecoveredEntry<P> {
    pub paths: RecoveredPaths<P>,
    pub operation: JournalOperation,
}

impl<P> RecoveredPaths<P> {
    /// Every path of the entry: the source before the destination of a move.
    pub fn paths(&self) -> (r: Vec<&P>)
        ensures
            match *self {
                RecoveredPaths::Create { destination } => r@.len() == 1 && *r@[0] == destination,
                RecoveredPaths::Update { path } => r@.len() == 1 && *r@[0] == path,
                RecoveredPaths::Delete { path } => r@.len() == 1 && *r@[0] == path,
                RecoveredPaths::Move { source, destination } => r@.len() == 2 && *r@[0] == source
                    && *r@[1] == destination,
            },
    {
        let mut out: Vec<&P> = Vec::new();
        match self {
            RecoveredPaths::Create { destination } => {
                out.push(destination);
            },
            RecoveredPaths::Update { path } => {
                out.push(path);
            },
            RecoveredPaths::Delete { path } => {
                out.push(path);
            },
            RecoveredPaths::Move { source, destination } => {
                out.push(source);
                out.push(destination);
            },
        }
        out
    }
}

/// The reopened paths have the shape of the journal operation.
pub open spec fn shapes_agree<P>(paths: RecoveredPaths<P>, operation: JournalOperation) -> bool {
    match paths {
        RecoveredPaths::Create { .. } => operation is Create,
        RecoveredPaths::Update { .. } => operation is Update,
        RecoveredPaths::Delete { .. } => operation is Delete,
        RecoveredPaths::Move { .. } => operation is Move,
    }
}

/// Whether the reopened paths have the shape of the journal operation.
pub fn paths_match_operation<P>(paths: &RecoveredPaths<P>, operation: &JournalOperation) -> (r: bool)
    ensures
        r == shapes_agree(*paths, *operation),
{
    match (paths, operation) {
        (RecoveredPaths::Create { .. }, JournalOperation::Create { .. }) => true,
        (RecoveredPaths::Update { .. }, JournalOperation::Update { .. }) => true,
        (RecoveredPaths::Delete { .. }, JournalOperation::Delete { .. }) => true,
        (RecoveredPaths::Move { .. }, JournalOperation::Move { .. }) => true,
        _ => false,
    }
}

/// Two of the keys are the same: two durable paths reopened as one object.
pub open spec fn has_alias<P>(pairs: Seq<(CanonicalPathKey, P)>) -> bool {
    exists|i: int, j: int| 0 <= i < j < pairs.len() && (#[trigger] pairs[i]).0@ == (#[trigger] pairs[j]).0@
}

/// Whether two neighbours hold the same key.
fn adjacent_alias<P>(sorted: &Vec<(CanonicalPathKey, P)>) -> (r: bool)
    ensures
        r == exists|a: int| 0 < a < sorted@.len() && (#[trigger] sorted@[a]).0@ == sorted@[a - 1].0@,
{
    let mut i: usize = 1;
    while i < sorted.len()
        invariant
            1 <= i,
            forall|a: int| 0 < a < i && a < sorted@.len() ==> (#[trigger] sorted@[a]).0@ != sorted@[a - 1].0@,
        decreases sorted@.len() - i,
    {
        if sorted[i].0.same(&sorted[i - 1].0) {
            return true;
        }
        i += 1;
    }
    false
}

/// The reopened paths in key order for locking; two durable paths that reopen as one object
/// are refused.
pub fn order_recovery_paths<P>(pairs: Vec<(CanonicalPathKey, P)>) -> (r: Result<Vec<P>, TransactionFileSystemError>)
    ensures
        has_alias(pairs@) ==> (r matches Err(TransactionFileSystemError::ChangedSincePlanning { path })
            && path@ == "durable recovery path alias"@),
        !has_alias(pairs@) ==> (r matches Ok(paths) && exists|order: Seq<usize>|
            is_sorted_order(rank_keys(pairs@), order) && paths@ == reorder(pairs@, order).map_values(
                |e: (CanonicalPathKey, P)| e.1,
            )),
{
    let ghost original = pairs@;
    let mut pairs = pairs;
    sort_by_key(&mut pairs);
    let ghost order = choose|order: Seq<usize>|
        is_sorted_order(rank_keys(original), order) && pairs@ == reorder(original, order);
    let ghost sorted = pairs@;
    let ghost keys = rank_keys(original);
    let count = pairs.len();
    if adjacent_alias(&pairs) {
        proof {
            let i = choose|a: int| 0 < a < sorted.len() && (#[trigger] sorted[a]).0@ == sorted[a - 1].0@;
            let x = order[i - 1] as int;
            let y = order[i] as int;
            assert(keys.len() == original.len());
            assert(x < original.len() && y < original.len());
            assert(crate::ordering::precedes(keys, x, y));
            lemma_pair_order_properties(keys[x], keys[y]);
            assert(x != y);
            assert(sorted[i - 1] == original[x] && sorted[i] == original[y]);
            if x < y {
                assert((original[x]).0@ == (original[y]).0@);
            } else {
                assert((original[y]).0@ == (original[x]).0@);
            }
            assert(has_alias(original));
        }
        return Err(
            TransactionFileSystemError::ChangedSincePlanning {
                path: crate::text::text("durable recovery path alias"),
            },
        );
    }
    proof {
        if has_alias(original) {
            let (x, y) = choose|x: int, y: int|
                0 <= x < y < original.len() && (#[trigger] original[x]).0@ == (#[trigger] original[y]).0@;
            assert(crate::ordering::lists(order, x));
            assert(crate::ordering::lists(order, y));
            let p = choose|p: int| 0 <= p < order.len() && order[p] == x;
            let q = choose|q: int| 0 <= q < order.len() && order[q] == y;
            assert(keys[x] == key_order_bytes(original[x].0@));
            assert(keys[y] == key_order_bytes(original[y].0@));
            lemma_adjacent_equal(keys, order, sorted, original, p, q);
            assert(false);
        }
    }
    let mut out: Vec<P> = Vec::new();
    let mut k: usize = 0;
    while k < count
        invariant
            k <= count,
            count == sorted.len(),
            pairs@ == sorted.skip(k as int),
            out@.len() == k,
            forall|j: int| 0 <= j < k ==> #[trigger] out@[j] == sorted[j].1,
        decreases count - k,
    {
        let (_, path) = pairs.remove(0);
        out.push(path);
        proof {
            assert(sorted.skip(k + 1) =~= sorted.skip(k as int).drop_first());
        }
        k += 1;
    }
    assert(out@ =~= reorder(original, order).map_values(|e: (CanonicalPathKey, P)| e.1));
    Ok(out)
}

/// In a sorted order, two positions holding equal keys have equal keys next to each other.
proof fn lemma_adjacent_equal<P>(
    keys: Seq<(Seq<u8>, Seq<u8>)>,
    order: Seq<usize>,
    sorted: Seq<(CanonicalPathKey, P)>,
    original: Seq<(CanonicalPathKey, P)>,
    p: int,
    q: int,
)
    requires
        is_sorted_order(keys, order),
        keys == rank_keys(original),
        sorted == reorder(original, order),
        0 <= p < order.len(),
        0 <= q < order.len(),
        p != q,
        keys[order[p] as int] == keys[order[q] as int],
    ensures
        exists|a: int| 0 < a < sorted.len() && (#[trigger] sorted[a]).0@ == sorted[a - 1].0@,
{
    let lo = if p < q { p } else { q };
    let hi = if p < q { q } else { p };
    let k0 = keys[order[lo] as int];
    let k1 = keys[order[lo + 1] as int];
    let kh = keys[order[hi] as int];
    assert(crate::ordering::precedes(keys, order[lo] as int, order[lo + 1] as int));
    if hi > lo + 1 {
        assert(crate::ordering::precedes(keys, order[lo + 1] as int, order[hi] as int));
    }
    lemma_pair_order_properties(k0, k1);
    lemma_pair_order_properties(k1, kh);
    assert(k0 == k1);
    let a = lo + 1;
    assert(sorted[a] == original[order[a] as int]);
    assert(sorted[a - 1] == original[order[a - 1] as int]);
    assert(keys[order[a] as int] == key_order_bytes(sorted[a].0@));
    assert(keys[order[a - 1] as int] == key_order_bytes(sorted[a - 1].0@));
    lemma_rank_injective(sorted[a].0@, sorted[a - 1].0@);
}

proof fn lemma_rank_injective(a: (Seq<char>, Seq<u8>), b: (Seq<char>, Seq<u8>))
    requires
        key_order_bytes(a) == key_order_bytes(b),
    ensures
        a == b,
{
    vstd::utf8::encode_utf8_decode_utf8(a.0);
    vstd::utf8::encode_utf8_decode_utf8(b.0);
}

} // verus!
