use vstd::prelude::*;

use crate::digest::sha256;
use crate::digest::sha256_array;
use crate::digest::ExactBytesDigest;
use crate::framing::be64;
use crate::framing::framed;
use crate::framing::push_framed;
use crate::framing::push_number;
use crate::framing::opaque_frame;
use crate::framing::push_opaque;
use crate::framing::push_text;
use crate::framing::text_frame;
use crate::keys::utf8;
use crate::keys::DurablePathKey;
use crate::keys::DurableTransactionKey;
use crate::keys::ExecutorRootIdentity;
use crate::keys::TransactionId;
use crate::limits::sat_add;
use crate::observation::FileEvidence;
use crate::observation::FileKind;

verus! {

pub const TRANSACTION_JOURNAL_SCHEMA_VERSION: u32 = 1;

/// Durable key and evidence for one staged after-image or rollback backup.
#[derive(Clone, Debug, PartialEq, Eq)]
pub struct DurableFileEvidence {
    pub key: DurablePathKey,
    pub evidence: FileEvidence,
}

/// Serialized journal bytes that have already passed the configured hard cap.
#[derive(Clone, Debug, PartialEq, Eq)]
pub struct JournalBytes(Vec<u8>);

impl JournalBytes {
    pub closed spec fn bytes(self) -> Seq<u8> {
        self.0@
    }

    /// Accepts serialized bytes whose length is within the hard cap.
    pub fn bounded(bytes: Vec<u8>, max_bytes: u64) -> (r: Result<Self, JournalError>)
        ensures
            bytes@.len() <= max_bytes ==> (r matches Ok(j) && j.bytes() == bytes@),
            bytes@.len() > max_bytes ==> r == Err::<Self, JournalError>(
                JournalError::Limit { observed: bytes@.len() as u64, limit: max_bytes },
            ),
    {
        let observed = bytes.len() as u64;
        if observed > max_bytes {
            Err(JournalError::Limit { observed, limit: max_bytes })
        } else {
            Ok(JournalBytes(bytes))
        }
    }

    pub fn as_bytes(&self) -> (r: &[u8])
        ensures
            r@ == self.bytes(),
    {
        self.0.as_slice()
    }

    pub fn len(&self) -> (r: usize)
        ensures
            r == self.bytes().len(),
    {
        self.0.len()
    }

    pub fn is_empty(&self) -> (r: bool)
        ensures
            r == (self.bytes().len() == 0),
    {
        self.0.len() == 0
    }
}

/// Storage capacity reserved before the journal can become prepared.
#[derive(Clone, Copy, Debug, Default, PartialEq, Eq, Structural)]
pub struct StorageRequirements {
    pub staged_bytes: u64,
    pub backup_bytes: u64,
    pub journal_bytes: u64,
}

impl StorageRequirements {
    /// Saturating total of the three reservations.
    pub fn total_bytes(self) -> (r: u64)
        ensures
            r == sat_add(
                sat_add(self.staged_bytes as int, self.backup_bytes as int),
                self.journal_bytes as int,
            ),
    {
        self.staged_bytes.saturating_add(self.backup_bytes).saturating_add(self.journal_bytes)
    }
}

/// Durable phase for the transaction as a whole.
#[derive(Clone, Copy, Debug, PartialEq, Eq, Structural)]
pub enum JournalState {
    Preparing,
    Prepared,
    Committing,
    Committed,
    RollingBack,
    RolledBack,
    Cleaning,
    Complete,
    RecoveryRequired,
}

/// Durable progress for one ordered mutation.
#[derive(Clone, Copy, Debug, PartialEq, Eq, Structural)]
pub enum MutationProgress {
    Pending,
    Committing,
    Applied,
    RollingBack,
    RolledBack,
}

/// The direction in which an interrupted transaction must converge.
#[derive(Clone, Copy, Debug, PartialEq, Eq, Structural)]
pub enum RecoveryTarget {
    Commit,
    Rollback,
}

/// Recovery evidence for one planned mutation without full before/after contents.
#[derive(Clone, Debug, PartialEq, Eq)]
pub enum JournalOperation {
    Create { destination: DurablePathKey, staged: DurableFileEvidence },
    Update {
        path: DurablePathKey,
        before: FileEvidence,
        staged: DurableFileEvidence,
        backup: DurableFileEvidence,
    },
    Delete { path: DurablePathKey, before: FileEvidence, backup: DurableFileEvidence },
    Move {
        source: DurablePathKey,
        destination: DurablePathKey,
        before: FileEvidence,
        staged: DurableFileEvidence,
        backup: DurableFileEvidence,
    },
}

#[derive(Clone, Debug, PartialEq, Eq)]
pub struct JournalMutation {
    pub progress: MutationProgress,
    pub operation: JournalOperation,
}

/// Versioned, bounded durable record used by commit and restart recovery.
#[derive(Clone, Debug, PartialEq, Eq)]
pub struct JournalRecord {
    pub schema_version: u32,
    pub transaction_id: TransactionId,
    pub transaction_key: DurableTransactionKey,
    pub environment_id: String,
    pub root: DurablePathKey,
    pub root_identity: ExecutorRootIdentity,
    pub plan_digest: ExactBytesDigest,
    pub manifest_digest: ExactBytesDigest,
    pub state: JournalState,
    pub recovery_target: RecoveryTarget,
    pub mutations: Vec<JournalMutation>,
}

#[derive(Clone, Debug, PartialEq, Eq)]
pub enum JournalError {
    UnsupportedSchema { version: u32 },
    InvalidStateTransition { current: JournalState, next: JournalState },
    InconsistentProgress { state: JournalState },
    InconsistentRecoveryTarget { state: JournalState, target: RecoveryTarget },
    MutationIndex { index: usize },
    InvalidProgressTransition {
        state: JournalState,
        current: MutationProgress,
        next: MutationProgress,
    },
    InvalidField { field: &'static str, reason: &'static str },
    Serialization { reason: String },
    Limit { observed: u64, limit: u64 },
    StructuralLimit { resource: &'static str, observed: u64, limit: u64 },
}

// ----- the immutable manifest and its digest -----

pub open spec fn kind_number(kind: FileKind) -> u64 {
    match kind {
        FileKind::File => 1,
        FileKind::Directory => 2,
        FileKind::SymbolicLink => 3,
        FileKind::Other => 4,
    }
}

/// Manifest encoding of file evidence: every field, each framed or fixed-width.
pub open spec fn evidence_bytes(e: FileEvidence) -> Seq<u8> {
    framed(e.exact_digest.bytes()) + opaque_frame(e.identity@) + text_frame(e.metadata.namespace@)
        + framed(e.metadata.value@) + framed(e.metadata.fingerprint.bytes()) + be64(e.link_count)
        + be64(kind_number(e.kind))
}

pub open spec fn durable_bytes(d: DurableFileEvidence) -> Seq<u8> {
    opaque_frame(d.key@) + evidence_bytes(d.evidence)
}

/// Manifest encoding of one operation: a tag, then its keys and evidence in declaration order.
pub open spec fn operation_bytes(op: JournalOperation) -> Seq<u8> {
    match op {
        JournalOperation::Create { destination, staged } => be64(1) + opaque_frame(destination@)
            + durable_bytes(staged),
        JournalOperation::Update { path, before, staged, backup } => be64(2) + opaque_frame(path@)
            + evidence_bytes(before) + durable_bytes(staged) + durable_bytes(backup),
        JournalOperation::Delete { path, before, backup } => be64(3) + opaque_frame(path@)
            + evidence_bytes(before) + durable_bytes(backup),
        JournalOperation::Move { source, destination, before, staged, backup } => be64(4)
            + opaque_frame(source@) + opaque_frame(destination@) + evidence_bytes(before)
            + durable_bytes(staged) + durable_bytes(backup),
    }
}

pub open spec fn operations_bytes(ms: Seq<JournalMutation>) -> Seq<u8>
    decreases ms.len(),
{
    if ms.len() == 0 {
        Seq::empty()
    } else {
        operations_bytes(ms.drop_last()) + operation_bytes(ms.last().operation)
    }
}

/// The bytes whose SHA-256 is the manifest digest: schema version, identity of the
/// transaction, its root and plan, then the ordered operations. Progress and state are excluded.
pub open spec fn manifest_bytes(r: JournalRecord) -> Seq<u8> {
    be64(TRANSACTION_JOURNAL_SCHEMA_VERSION as u64) + text_frame(r.transaction_id.0@)
        + opaque_frame(r.transaction_key@) + text_frame(r.environment_id@) + opaque_frame(r.root@)
        + opaque_frame(r.root_identity@) + framed(r.plan_digest.bytes()) + be64(
        r.mutations@.len() as u64,
    ) + operations_bytes(r.mutations@)
}

fn push_evidence(out: &mut Vec<u8>, e: &FileEvidence)
    ensures
        final(out)@ == old(out)@ + evidence_bytes(*e),
{
    push_framed(out, &e.exact_digest.0);
    push_opaque(out, &e.identity.namespace, &e.identity.value);
    push_text(out, &e.metadata.namespace);
    push_framed(out, e.metadata.value.as_slice());
    push_framed(out, &e.metadata.fingerprint.0);
    push_number(out, e.link_count);
    let kind: u64 = match e.kind {
        FileKind::File => 1,
        FileKind::Directory => 2,
        FileKind::SymbolicLink => 3,
        FileKind::Other => 4,
    };
    push_number(out, kind);
    assert(out@ =~= old(out)@ + evidence_bytes(*e));
}

fn push_durable(out: &mut Vec<u8>, d: &DurableFileEvidence)
    ensures
        final(out)@ == old(out)@ + durable_bytes(*d),
{
    push_opaque(out, &d.key.namespace, &d.key.value);
    push_evidence(out, &d.evidence);
    assert(out@ =~= old(out)@ + durable_bytes(*d));
}

fn push_operation(out: &mut Vec<u8>, op: &JournalOperation)
    ensures
        final(out)@ == old(out)@ + operation_bytes(*op),
{
    match op {
        JournalOperation::Create { destination, staged } => {
            push_number(out, 1);
            push_opaque(out, &destination.namespace, &destination.value);
            push_durable(out, staged);
            assert(out@ =~= old(out)@ + operation_bytes(*op));
        },
        JournalOperation::Update { path, before, staged, backup } => {
            push_number(out, 2);
            push_opaque(out, &path.namespace, &path.value);
            push_evidence(out, before);
            push_durable(out, staged);
            push_durable(out, backup);
            assert(out@ =~= old(out)@ + operation_bytes(*op));
        },
        JournalOperation::Delete { path, before, backup } => {
            push_number(out, 3);
            push_opaque(out, &path.namespace, &path.value);
            push_evidence(out, before);
            push_durable(out, backup);
            assert(out@ =~= old(out)@ + operation_bytes(*op));
        },
        JournalOperation::Move { source, destination, before, staged, backup } => {
            push_number(out, 4);
            push_opaque(out, &source.namespace, &source.value);
            push_opaque(out, &destination.namespace, &destination.value);
            push_evidence(out, before);
            push_durable(out, staged);
            push_durable(out, backup);
            assert(out@ =~= old(out)@ + operation_bytes(*op));
        },
    }
}

/// The manifest digest of a record's immutable fields.
pub fn manifest_digest(
    transaction_id: &TransactionId,
    transaction_key: &DurableTransactionKey,
    environment_id: &String,
    root: &DurablePathKey,
    root_identity: &ExecutorRootIdentity,
    plan_digest: &ExactBytesDigest,
    mutations: &Vec<JournalMutation>,
) -> (r: ExactBytesDigest)
    ensures
        r.bytes() == sha256(
            be64(TRANSACTION_JOURNAL_SCHEMA_VERSION as u64) + text_frame(transaction_id.0@)
                + opaque_frame(transaction_key@) + text_frame(environment_id@) + opaque_frame(
                root@,
            ) + opaque_frame(root_identity@) + framed(plan_digest.bytes()) + be64(
                mutations@.len() as u64,
            ) + operations_bytes(mutations@),
        ),
{
    let mut out: Vec<u8> = Vec::new();
    push_number(&mut out, TRANSACTION_JOURNAL_SCHEMA_VERSION as u64);
    push_text(&mut out, &transaction_id.0);
    push_opaque(&mut out, &transaction_key.namespace, &transaction_key.value);
    push_text(&mut out, environment_id);
    push_opaque(&mut out, &root.namespace, &root.value);
    push_opaque(&mut out, &root_identity.namespace, &root_identity.value);
    push_framed(&mut out, &plan_digest.0);
    push_number(&mut out, mutations.len() as u64);
    let ghost header = out@;
    let mut i: usize = 0;
    while i < mutations.len()
        invariant
            i <= mutations@.len(),
            out@ == header + operations_bytes(mutations@.take(i as int)),
        decreases mutations@.len() - i,
    {
        push_operation(&mut out, &mutations[i].operation);
        proof {
            let t = mutations@.take(i + 1);
            assert(t.drop_last() =~= mutations@.take(i as int));
            assert(t.last() == mutations@[i as int]);
        }
        i += 1;
    }
    assert(mutations@.take(mutations@.len() as int) =~= mutations@);
    ExactBytesDigest(sha256_array(out.as_slice()))
}

// ----- the durable state machine -----

/// The legal moves of the journal state machine.
pub open spec fn state_step(current: JournalState, next: JournalState) -> bool {
    match (current, next) {
        (JournalState::Preparing, JournalState::Prepared) => true,
        (JournalState::Preparing, JournalState::RollingBack) => true,
        (JournalState::Preparing, JournalState::RecoveryRequired) => true,
        (JournalState::Prepared, JournalState::Committing) => true,
        (JournalState::Prepared, JournalState::RollingBack) => true,
        (JournalState::Prepared, JournalState::RecoveryRequired) => true,
        (JournalState::Committing, JournalState::Committed) => true,
        (JournalState::Committing, JournalState::RollingBack) => true,
        (JournalState::Committing, JournalState::RecoveryRequired) => true,
        (JournalState::Committed, JournalState::Cleaning) => true,
        (JournalState::Committed, JournalState::RecoveryRequired) => true,
        (JournalState::RollingBack, JournalState::RolledBack) => true,
        (JournalState::RollingBack, JournalState::RecoveryRequired) => true,
        (JournalState::RolledBack, JournalState::Cleaning) => true,
        (JournalState::RolledBack, JournalState::RecoveryRequired) => true,
        (JournalState::Cleaning, JournalState::Complete) => true,
        (JournalState::Cleaning, JournalState::RecoveryRequired) => true,
        (JournalState::Complete, JournalState::RecoveryRequired) => true,
        (JournalState::RecoveryRequired, JournalState::RollingBack) => true,
        (JournalState::RecoveryRequired, JournalState::Cleaning) => true,
        _ => false,
    }
}

/// A set of progress values.
#[derive(Clone, Copy, Debug, PartialEq, Eq, Structural)]
pub struct ProgressSet {
    pub pending: bool,
    pub committing: bool,
    pub applied: bool,
    pub rolling_back: bool,
    pub rolled_back: bool,
}

impl ProgressSet {
    pub open spec fn has(self, p: MutationProgress) -> bool {
        match p {
            MutationProgress::Pending => self.pending,
            MutationProgress::Committing => self.committing,
            MutationProgress::Applied => self.applied,
            MutationProgress::RollingBack => self.rolling_back,
            MutationProgress::RolledBack => self.rolled_back,
        }
    }
}

pub open spec fn only_pending() -> ProgressSet {
    ProgressSet { pending: true, committing: false, applied: false, rolling_back: false, rolled_back: false }
}

pub open spec fn committing_set() -> ProgressSet {
    ProgressSet { pending: true, committing: true, applied: true, rolling_back: false, rolled_back: false }
}

pub open spec fn only_applied() -> ProgressSet {
    ProgressSet { pending: false, committing: false, applied: true, rolling_back: false, rolled_back: false }
}

pub open spec fn rolled_back_set() -> ProgressSet {
    ProgressSet { pending: true, committing: false, applied: false, rolling_back: false, rolled_back: true }
}

/// Every mutation's progress lies in the set.
pub open spec fn all_in(ms: Seq<JournalMutation>, set: ProgressSet) -> bool {
    forall|i: int| 0 <= i < ms.len() ==> #[trigger] set.has(ms[i].progress)
}

/// Mutation progress that a journal state admits.
pub open spec fn progress_consistent(state: JournalState, ms: Seq<JournalMutation>) -> bool {
    match state {
        JournalState::Preparing | JournalState::Prepared => all_in(ms, only_pending()),
        JournalState::Committing => all_in(ms, committing_set()),
        JournalState::Committed => all_in(ms, only_applied()),
        JournalState::RollingBack => true,
        JournalState::RolledBack => all_in(ms, rolled_back_set()),
        JournalState::Cleaning | JournalState::Complete => all_in(ms, only_applied()) || all_in(
            ms,
            rolled_back_set(),
        ),
        JournalState::RecoveryRequired => true,
    }
}

/// Recovery target that a journal state admits.
pub open spec fn target_consistent(
    state: JournalState,
    target: RecoveryTarget,
    ms: Seq<JournalMutation>,
) -> bool {
    match state {
        JournalState::Preparing | JournalState::Prepared | JournalState::Committing
        | JournalState::RollingBack | JournalState::RolledBack => target == RecoveryTarget::Rollback,
        JournalState::Committed => target == RecoveryTarget::Commit,
        JournalState::Cleaning | JournalState::Complete => match target {
            RecoveryTarget::Commit => all_in(ms, only_applied()),
            RecoveryTarget::Rollback => all_in(ms, rolled_back_set()),
        },
        JournalState::RecoveryRequired => true,
    }
}

/// The legal moves of one mutation's progress within a journal state.
pub open spec fn progress_step(
    state: JournalState,
    current: MutationProgress,
    next: MutationProgress,
) -> bool {
    match state {
        JournalState::Committing => (current == MutationProgress::Pending && next
            == MutationProgress::Committing) || (current == MutationProgress::Committing && next
            == MutationProgress::Applied),
        JournalState::RollingBack => (current == MutationProgress::Applied && next
            == MutationProgress::RollingBack) || (current == MutationProgress::Committing && next
            == MutationProgress::RollingBack) || (current == MutationProgress::RollingBack && next
            == MutationProgress::RolledBack),
        _ => false,
    }
}

/// The recovery target after entering `next`: committing durably fixes the target to commit.
pub open spec fn next_target(target: RecoveryTarget, next: JournalState) -> RecoveryTarget {
    if next == JournalState::Committed {
        RecoveryTarget::Commit
    } else {
        target
    }
}

impl JournalRecord {
    /// The manifest digest is the SHA-256 of the manifest bytes.
    pub open spec fn manifest_matches(self) -> bool {
        self.manifest_digest.bytes() == sha256(manifest_bytes(self))
    }

    /// The first reason `validate` rejects a record, in the order of its checks.
    pub open spec fn validation_error(self) -> Option<JournalError> {
        if self.schema_version != TRANSACTION_JOURNAL_SCHEMA_VERSION {
            Some(JournalError::UnsupportedSchema { version: self.schema_version })
        } else if self.mutations@.len() == 0 {
            Some(
                JournalError::InvalidField {
                    field: "mutations",
                    reason: "at least one mutation is required",
                },
            )
        } else if !self.manifest_matches() {
            Some(
                JournalError::InvalidField {
                    field: "manifestDigest",
                    reason: "digest does not match the immutable transaction manifest",
                },
            )
        } else if !progress_consistent(self.state, self.mutations@) {
            Some(JournalError::InconsistentProgress { state: self.state })
        } else if !target_consistent(self.state, self.recovery_target, self.mutations@) {
            Some(
                JournalError::InconsistentRecoveryTarget {
                    state: self.state,
                    target: self.recovery_target,
                },
            )
        } else {
            None
        }
    }

    /// A record that `validate` accepts.
    pub open spec fn valid(self) -> bool {
        self.validation_error() is None
    }

    /// The first reason `transition(next)` is refused.
    pub open spec fn transition_error(self, next: JournalState) -> Option<JournalError> {
        let target = next_target(self.recovery_target, next);
        if !state_step(self.state, next) {
            Some(JournalError::InvalidStateTransition { current: self.state, next })
        } else if !progress_consistent(next, self.mutations@) {
            Some(JournalError::InconsistentProgress { state: next })
        } else if !target_consistent(next, target, self.mutations@) {
            Some(JournalError::InconsistentRecoveryTarget { state: next, target })
        } else {
            None
        }
    }

    /// The record after a successful `transition(next)`.
    pub open spec fn after_transition(self, next: JournalState) -> JournalRecord {
        JournalRecord {
            state: next,
            recovery_target: next_target(self.recovery_target, next),
            ..self
        }
    }

    /// The first reason `set_mutation_progress(index, next)` is refused.
    pub open spec fn progress_error(self, index: usize, next: MutationProgress) -> Option<
        JournalError,
    > {
        if index >= self.mutations@.len() {
            Some(JournalError::MutationIndex { index })
        } else if !progress_step(self.state, self.mutations@[index as int].progress, next) {
            Some(
                JournalError::InvalidProgressTransition {
                    state: self.state,
                    current: self.mutations@[index as int].progress,
                    next,
                },
            )
        } else {
            None
        }
    }

    /// A new record in `Preparing`, every mutation `Pending`, recovering toward rollback.
    pub fn new(
        transaction_id: TransactionId,
        transaction_key: DurableTransactionKey,
        environment_id: String,
        root: DurablePathKey,
        root_identity: ExecutorRootIdentity,
        plan_digest: ExactBytesDigest,
        operations: Vec<JournalOperation>,
    ) -> (r: Result<Self, JournalError>)
        ensures
            operations@.len() == 0 ==> r == Err::<Self, JournalError>(
                JournalError::InvalidField {
                    field: "mutations",
                    reason: "at least one mutation is required",
                },
            ),
            operations@.len() > 0 ==> (r matches Ok(record) && {
                &&& record.valid()
                &&& record.schema_version == TRANSACTION_JOURNAL_SCHEMA_VERSION
                &&& record.transaction_id == transaction_id
                &&& record.transaction_key == transaction_key
                &&& record.environment_id == environment_id
                &&& record.root == root
                &&& record.root_identity == root_identity
                &&& record.plan_digest == plan_digest
                &&& record.state == JournalState::Preparing
                &&& record.recovery_target == RecoveryTarget::Rollback
                &&& record.mutations@.len() == operations@.len()
                &&& forall|i: int|
                    0 <= i < operations@.len() ==> #[trigger] record.mutations@[i] == (
                    JournalMutation { progress: MutationProgress::Pending, operation: operations@[i] })
            }),
    {
        let mut mutations: Vec<JournalMutation> = Vec::new();
        let mut operations = operations;
        let ghost ops = operations@;
        let mut reversed: Vec<JournalOperation> = Vec::new();
        while operations.len() > 0
            invariant
                operations@.len() + reversed@.len() == ops.len(),
                operations@ == ops.take(operations@.len() as int),
                forall|i: int|
                    0 <= i < reversed@.len() ==> #[trigger] reversed@[i] == ops[ops.len() - 1 - i],
            decreases operations@.len(),
        {
            let op = operations.pop().unwrap();
            reversed.push(op);
            assert(operations@ =~= ops.take(operations@.len() as int));
        }
        while reversed.len() > 0
            invariant
                mutations@.len() + reversed@.len() == ops.len(),
                forall|i: int|
                    0 <= i < reversed@.len() ==> #[trigger] reversed@[i] == ops[ops.len() - 1 - i],
                forall|i: int|
                    0 <= i < mutations@.len() ==> #[trigger] mutations@[i] == (JournalMutation {
                        progress: MutationProgress::Pending,
                        operation: ops[i],
                    }),
            decreases reversed@.len(),
        {
            let op = reversed.pop().unwrap();
            mutations.push(JournalMutation { progress: MutationProgress::Pending, operation: op });
        }
        if mutations.len() == 0 {
            return Err(
                JournalError::InvalidField {
                    field: "mutations",
                    reason: "at least one mutation is required",
                },
            );
        }
        let digest = manifest_digest(
            &transaction_id,
            &transaction_key,
            &environment_id,
            &root,
            &root_identity,
            &plan_digest,
            &mutations,
        );
        let record = JournalRecord {
            schema_version: TRANSACTION_JOURNAL_SCHEMA_VERSION,
            transaction_id,
            transaction_key,
            environment_id,
            root,
            root_identity,
            plan_digest,
            manifest_digest: digest,
            state: JournalState::Preparing,
            recovery_target: RecoveryTarget::Rollback,
            mutations,
        };
        assert(all_in(record.mutations@, only_pending()));
        Ok(record)
    }

    /// Moves the whole transaction to `next` when the state machine, the mutation progress and
    /// the recovery target all admit it; entering `Committed` fixes the target to commit.
    pub fn transition(&mut self, next: JournalState) -> (r: Result<(), JournalError>)
        ensures
            match old(self).transition_error(next) {
                Some(e) => r == Err::<(), JournalError>(e) && *final(self) == *old(self),
                None => r is Ok && *final(self) == old(self).after_transition(next),
            },
    {
        if !valid_transition(self.state, next) {
            return Err(JournalError::InvalidStateTransition { current: self.state, next });
        }
        let target = if next == JournalState::Committed {
            RecoveryTarget::Commit
        } else {
            self.recovery_target
        };
        validate_progress(next, &self.mutations)?;
        validate_recovery_target(next, target, &self.mutations)?;
        self.state = next;
        self.recovery_target = target;
        Ok(())
    }

    /// Checks the schema, the manifest, and the consistency of state, target and progress.
    pub fn validate(&self) -> (r: Result<(), JournalError>)
        ensures
            match self.validation_error() {
                Some(e) => r == Err::<(), JournalError>(e),
                None => r is Ok,
            },
    {
        if self.schema_version != TRANSACTION_JOURNAL_SCHEMA_VERSION {
            return Err(JournalError::UnsupportedSchema { version: self.schema_version });
        }
        if self.mutations.len() == 0 {
            return Err(
                JournalError::InvalidField {
                    field: "mutations",
                    reason: "at least one mutation is required",
                },
            );
        }
        let expected = manifest_digest(
            &self.transaction_id,
            &self.transaction_key,
            &self.environment_id,
            &self.root,
            &self.root_identity,
            &self.plan_digest,
            &self.mutations,
        );
        if !expected.same(&self.manifest_digest) {
            return Err(
                JournalError::InvalidField {
                    field: "manifestDigest",
                    reason: "digest does not match the immutable transaction manifest",
                },
            );
        }
        validate_progress(self.state, &self.mutations)?;
        validate_recovery_target(self.state, self.recovery_target, &self.mutations)
    }

    /// Advances one mutation's durable progress along a legal step of the current state.
    pub fn set_mutation_progress(&mut self, index: usize, next: MutationProgress) -> (r: Result<
        (),
        JournalError,
    >)
        ensures
            match old(self).progress_error(index, next) {
                Some(e) => r == Err::<(), JournalError>(e) && *final(self) == *old(self),
                None => r is Ok && *final(self) == (JournalRecord {
                    mutations: final(self).mutations,
                    ..*old(self)
                }) && final(self).mutations@ == old(self).mutations@.update(
                    index as int,
                    JournalMutation { progress: next, ..old(self).mutations@[index as int] },
                ),
            },
    {
        if index >= self.mutations.len() {
            return Err(JournalError::MutationIndex { index });
        }
        let current = self.mutations[index].progress;
        if !valid_progress_transition(self.state, current, next) {
            return Err(JournalError::InvalidProgressTransition { state: self.state, current, next });
        }
        let mut mutation = self.mutations.remove(index);
        mutation.progress = next;
        self.mutations.insert(index, mutation);
        assert(self.mutations@ =~= old(self).mutations@.update(
            index as int,
            JournalMutation { progress: next, ..old(self).mutations@[index as int] },
        ));
        Ok(())
    }
}

impl JournalRecord {
    /// Puts one mutation's progress back to an earlier value, when the generation that advanced
    /// it could not be made durable.
    pub(crate) fn reset_progress(&mut self, index: usize, progress: MutationProgress)
        requires
            index < old(self).mutations@.len(),
        ensures
            *final(self) == (JournalRecord { mutations: final(self).mutations, ..*old(self) }),
            final(self).mutations@ == old(self).mutations@.update(
                index as int,
                JournalMutation { progress, ..old(self).mutations@[index as int] },
            ),
    {
        let mut mutation = self.mutations.remove(index);
        mutation.progress = progress;
        self.mutations.insert(index, mutation);
        assert(self.mutations@ =~= old(self).mutations@.update(
            index as int,
            JournalMutation { progress, ..old(self).mutations@[index as int] },
        ));
    }
}

/// Whether the whole-transaction state machine admits `current -> next`.
pub fn valid_transition(current: JournalState, next: JournalState) -> (r: bool)
    ensures
        r == state_step(current, next),
{
    match (current, next) {
        (JournalState::Preparing, JournalState::Prepared) => true,
        (JournalState::Preparing, JournalState::RollingBack) => true,
        (JournalState::Preparing, JournalState::RecoveryRequired) => true,
        (JournalState::Prepared, JournalState::Committing) => true,
        (JournalState::Prepared, JournalState::RollingBack) => true,
        (JournalState::Prepared, JournalState::RecoveryRequired) => true,
        (JournalState::Committing, JournalState::Committed) => true,
        (JournalState::Committing, JournalState::RollingBack) => true,
        (JournalState::Committing, JournalState::RecoveryRequired) => true,
        (JournalState::Committed, JournalState::Cleaning) => true,
        (JournalState::Committed, JournalState::RecoveryRequired) => true,
        (JournalState::RollingBack, JournalState::RolledBack) => true,
        (JournalState::RollingBack, JournalState::RecoveryRequired) => true,
        (JournalState::RolledBack, JournalState::Cleaning) => true,
        (JournalState::RolledBack, JournalState::RecoveryRequired) => true,
        (JournalState::Cleaning, JournalState::Complete) => true,
        (JournalState::Cleaning, JournalState::RecoveryRequired) => true,
        (JournalState::Complete, JournalState::RecoveryRequired) => true,
        (JournalState::RecoveryRequired, JournalState::RollingBack) => true,
        (JournalState::RecoveryRequired, JournalState::Cleaning) => true,
        _ => false,
    }
}

fn progress_in(p: MutationProgress, set: ProgressSet) -> (r: bool)
    ensures
        r == set.has(p),
{
    match p {
        MutationProgress::Pending => set.pending,
        MutationProgress::Committing => set.committing,
        MutationProgress::Applied => set.applied,
        MutationProgress::RollingBack => set.rolling_back,
        MutationProgress::RolledBack => set.rolled_back,
    }
}

/// Whether every mutation's progress lies in the set.
pub fn all_progress_in(mutations: &Vec<JournalMutation>, set: ProgressSet) -> (r: bool)
    ensures
        r == all_in(mutations@, set),
{
    let mut i: usize = 0;
    while i < mutations.len()
        invariant
            i <= mutations@.len(),
            forall|j: int| 0 <= j < i ==> #[trigger] set.has(mutations@[j].progress),
        decreases mutations@.len() - i,
    {
        if !progress_in(mutations[i].progress, set) {
            assert(!set.has(mutations@[i as int].progress));
            return false;
        }
        i += 1;
    }
    true
}

fn only_pending_set() -> (r: ProgressSet)
    ensures
        r == only_pending(),
{
    ProgressSet { pending: true, committing: false, applied: false, rolling_back: false, rolled_back: false }
}

fn committing_progress_set() -> (r: ProgressSet)
    ensures
        r == committing_set(),
{
    ProgressSet { pending: true, committing: true, applied: true, rolling_back: false, rolled_back: false }
}

fn only_applied_set() -> (r: ProgressSet)
    ensures
        r == only_applied(),
{
    ProgressSet { pending: false, committing: false, applied: true, rolling_back: false, rolled_back: false }
}

fn rolled_back_progress_set() -> (r: ProgressSet)
    ensures
        r == rolled_back_set(),
{
    ProgressSet { pending: true, committing: false, applied: false, rolling_back: false, rolled_back: true }
}

/// Checks that every mutation's progress is admitted by the journal state.
pub fn validate_progress(state: JournalState, mutations: &Vec<JournalMutation>) -> (r: Result<
    (),
    JournalError,
>)
    ensures
        progress_consistent(state, mutations@) ==> r is Ok,
        !progress_consistent(state, mutations@) ==> r == Err::<(), JournalError>(
            JournalError::InconsistentProgress { state },
        ),
{
    let consistent = match state {
        JournalState::Preparing | JournalState::Prepared => all_progress_in(
            mutations,
            only_pending_set(),
        ),
        JournalState::Committing => all_progress_in(mutations, committing_progress_set()),
        JournalState::Committed => all_progress_in(mutations, only_applied_set()),
        JournalState::RollingBack => true,
        JournalState::RolledBack => all_progress_in(mutations, rolled_back_progress_set()),
        JournalState::Cleaning | JournalState::Complete => {
            let all_applied = all_progress_in(mutations, only_applied_set());
            let all_rolled_back = all_progress_in(mutations, rolled_back_progress_set());
            all_applied || all_rolled_back
        },
        JournalState::RecoveryRequired => true,
    };
    if consistent {
        Ok(())
    } else {
        Err(JournalError::InconsistentProgress { state })
    }
}

/// Checks that the recovery target is admitted by the journal state and progress.
pub fn validate_recovery_target(
    state: JournalState,
    target: RecoveryTarget,
    mutations: &Vec<JournalMutation>,
) -> (r: Result<(), JournalError>)
    ensures
        target_consistent(state, target, mutations@) ==> r is Ok,
        !target_consistent(state, target, mutations@) ==> r == Err::<(), JournalError>(
            JournalError::InconsistentRecoveryTarget { state, target },
        ),
{
    let consistent = match state {
        JournalState::Preparing | JournalState::Prepared | JournalState::Committing
        | JournalState::RollingBack | JournalState::RolledBack => target == RecoveryTarget::Rollback,
        JournalState::Committed => target == RecoveryTarget::Commit,
        JournalState::Cleaning | JournalState::Complete => match target {
            RecoveryTarget::Commit => all_progress_in(mutations, only_applied_set()),
            RecoveryTarget::Rollback => all_progress_in(mutations, rolled_back_progress_set()),
        },
        JournalState::RecoveryRequired => true,
    };
    if consistent {
        Ok(())
    } else {
        Err(JournalError::InconsistentRecoveryTarget { state, target })
    }
}

/// Whether a mutation may move from `current` to `next` while the journal is in `state`.
pub fn valid_progress_transition(
    state: JournalState,
    current: MutationProgress,
    next: MutationProgress,
) -> (r: bool)
    ensures
        r == progress_step(state, current, next),
{
    match state {
        JournalState::Committing => (current == MutationProgress::Pending && next
            == MutationProgress::Committing) || (current == MutationProgress::Committing && next
            == MutationProgress::Applied),
        JournalState::RollingBack => (current == MutationProgress::Applied && next
            == MutationProgress::RollingBack) || (current == MutationProgress::Committing && next
            == MutationProgress::RollingBack) || (current == MutationProgress::RollingBack && next
            == MutationProgress::RolledBack),
        _ => false,
    }
}

} // verus!
