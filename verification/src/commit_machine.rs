use vstd::prelude::*;

use crate::executor::ExecuteError;
use crate::executor::ExecutionFailure;
use crate::executor::ExecutionOutcome;
use crate::executor::ExecutionResult;
use crate::journal::all_in;
use crate::journal::next_target;
use crate::journal::only_applied;
use crate::journal::only_pending;
use crate::journal::progress_consistent;
use crate::journal::progress_step;
use crate::journal::rolled_back_set;
use crate::journal::state_step;
use crate::journal::target_consistent;
use crate::journal::JournalMutation;
use crate::journal::JournalRecord;
use crate::journal::JournalState;
use crate::journal::MutationProgress;
use crate::journal::RecoveryTarget;
use crate::keys::TransactionId;
use crate::recovery::next_rollback_step;
use crate::recovery::settled_from;
use crate::recovery::RollbackDecision;

verus! {

/// Where the commit of a prepared transaction stands. A stage that changes the journal holds
/// what the change replaced, so that a generation that could not be made durable is undone.
#[derive(Clone, Copy, Debug, PartialEq, Eq, Structural)]
pub enum Stage {
    /// Persisting `Prepared`.
    Prepare,
    /// Persisting `Committing`.
    Begin,
    /// Persisting that mutation `index` is committing.
    Mark { index: usize },
    /// Applying mutation `index`.
    Apply { index: usize },
    /// Persisting that mutation `index` is applied.
    Applied { index: usize },
    /// Persisting `Committed`.
    Commit,
    /// Persisting `RollingBack`, entered from `previous`.
    RollBegin { previous: JournalState },
    /// Persisting that mutation `index` is rolling back, from `previous`.
    RollMark { index: usize, previous: MutationProgress },
    /// Restoring mutation `index`.
    Restore { index: usize },
    /// Persisting that mutation `index` is rolled back.
    RollDone { index: usize },
    /// Persisting `RolledBack`.
    RollEnd,
    /// Persisting `Cleaning`, entered from `previous`.
    Clean { previous: JournalState },
    /// Removing staged files and backups.
    Cleanup,
    /// Persisting `Complete`.
    Complete,
    /// Persisting `RecoveryRequired`, entered from `previous`.
    Escalate { previous: JournalState },
    /// The execution has its result.
    Finished,
}

/// What the executor must do next for the transaction.
pub enum CommitAction {
    /// Encode, install and sync the machine's journal record as the next durable generation.
    Persist,
    /// Apply mutation `index` and sync its parent directories.
    Apply { index: usize },
    /// Restore mutation `index` and sync its parent directories.
    Restore { index: usize },
    /// Remove the transaction's staged files and backups.
    Cleanup,
    /// The execution is over.
    Finish { result: Result<ExecutionResult, ExecuteError> },
}

/// How the last action went.
pub enum CommitEvent {
    Succeeded,
    Failed { failure: ExecutionFailure },
}

/// The decisions of executing a prepared transaction: the order of journal generations,
/// mutations and restores, and what a failure at each point leads to.
pub struct CommitMachine {
    record: JournalRecord,
    stage: Stage,
    failure: Option<ExecutionFailure>,
    recovery_failure: Option<ExecutionFailure>,
    /// The mutations whose apply, and whose restore, the executor reported done.
    trace: Ghost<(Set<int>, Set<int>)>,
    /// The executor reported the removal of the staged files and backups done.
    cleaned: Ghost<bool>,
}

/// Mutations before `index` are applied, those after it untouched, and `index` itself at `at`.
pub open spec fn commit_shape(ms: Seq<JournalMutation>, index: int, at: MutationProgress) -> bool {
    &&& 0 <= index < ms.len()
    &&& forall|k: int| 0 <= k < index ==> #[trigger] ms[k].progress == MutationProgress::Applied
    &&& forall|k: int| index < k < ms.len() ==> #[trigger] ms[k].progress == MutationProgress::Pending
    &&& ms[index].progress == at
}

/// The journal generation `after` follows the durable generation `before` (its state,
/// recovery target and mutations) by one change that the journal admits: a state transition,
/// or one mutation's progress step.
pub open spec fn generation_admitted(
    before: (JournalState, RecoveryTarget, Seq<JournalMutation>),
    after: JournalRecord,
) -> bool {
    let (state, target, ms) = before;
    ||| (state_step(state, after.state) && after.recovery_target == next_target(target, after.state)
        && after.mutations@ == ms && progress_consistent(after.state, ms) && target_consistent(
        after.state,
        after.recovery_target,
        ms,
    ))
    ||| (after.state == state && after.recovery_target == target && exists|i: int|
        #![trigger ms[i]]
        0 <= i < ms.len() && progress_step(state, ms[i].progress, after.mutations@[i].progress)
            && after.mutations@ == ms.update(i, JournalMutation { progress: after.mutations@[i].progress, ..ms[i] }))
}

/// The state, recovery target and mutations of a journal record.
pub open spec fn generation_of(journal: JournalRecord) -> (JournalState, RecoveryTarget, Seq<JournalMutation>) {
    (journal.state, journal.recovery_target, journal.mutations@)
}

/// Write-ahead, over the last durable generation of the journal (its state, recovery target
/// and mutations): a mutation becomes visible only once the journal durably says it is
/// committing, and in key order; a restore happens only once the journal durably says the
/// mutation is rolling back, newest first; artifacts are removed only while the journal durably
/// says `Cleaning`; and a result reports the journal's own durable terminal state.
pub open spec fn write_ahead(
    journal: JournalRecord,
    durable: (JournalState, RecoveryTarget, Seq<JournalMutation>),
    action: CommitAction,
) -> bool {
    let (state, target, ms) = durable;
    match action {
        CommitAction::Apply { index } => state == JournalState::Committing && commit_shape(
            ms,
            index as int,
            MutationProgress::Committing,
        ),
        CommitAction::Restore { index } => state == JournalState::RollingBack && index < ms.len()
            && ms[index as int].progress == MutationProgress::RollingBack && settled_from(ms, index + 1),
        CommitAction::Cleanup => state == JournalState::Cleaning,
        CommitAction::Persist => true,
        CommitAction::Finish { result } => match result {
            Ok(done) => state == JournalState::Complete && done.transaction_id == journal.transaction_id
                && done.plan_digest == journal.plan_digest && (done.outcome is Committed ==> (target
                == RecoveryTarget::Commit && all_in(ms, only_applied()))) && (done.outcome is RolledBack ==> (
            target == RecoveryTarget::Rollback && all_in(ms, rolled_back_set()))),
            Err(e) => e matches ExecuteError::RecoveryRequired { transaction_id, plan_digest, .. }
                && transaction_id == journal.transaction_id && plan_digest == journal.plan_digest,
        },
    }
}

/// Every mutation at progress `p` is one of `done`.
pub open spec fn marks_within(ms: Seq<JournalMutation>, p: MutationProgress, done: Set<int>) -> bool {
    forall|k: int| 0 <= k < ms.len() && (#[trigger] ms[k]).progress == p ==> done.contains(k)
}

/// The decisions left once a rollback of `n` mutations begins.
pub open spec fn rollback_bound(n: nat) -> nat {
    6 + 3 * n
}

/// The decisions left once a commit of `n` mutations is persisted as committed, or fails.
pub open spec fn commit_bound(n: nat) -> nat {
    7 + 3 * n
}

fn move_state(record: &mut JournalRecord, next: JournalState)
    requires
        old(record).transition_error(next) is None,
    ensures
        *final(record) == old(record).after_transition(next),
{
    let _ = record.transition(next);
}

fn move_progress(record: &mut JournalRecord, index: usize, next: MutationProgress)
    requires
        old(record).progress_error(index, next) is None,
    ensures
        *final(record) == (JournalRecord { mutations: final(record).mutations, ..*old(record) }),
        final(record).mutations@ == old(record).mutations@.update(
            index as int,
            JournalMutation { progress: next, ..old(record).mutations@[index as int] },
        ),
{
    let _ = record.set_mutation_progress(index, next);
}

impl CommitMachine {
    /// The journal record the machine holds: the last durable generation, or the one it asks
    /// to persist.
    pub closed spec fn journal(self) -> JournalRecord {
        self.record
    }

    pub closed spec fn is_finished(self) -> bool {
        self.stage is Finished
    }

    /// The mutation whose apply the machine waits on.
    pub closed spec fn applying(self) -> Option<usize> {
        match self.stage {
            Stage::Apply { index } => Some(index),
            _ => None,
        }
    }

    /// The mutation whose restore the machine waits on.
    pub closed spec fn restoring(self) -> Option<usize> {
        match self.stage {
            Stage::Restore { index } => Some(index),
            _ => None,
        }
    }

    /// The mutations whose apply the executor reported done.
    pub closed spec fn applied(self) -> Set<int> {
        self.trace@.0
    }

    /// The mutations whose restore the executor reported done.
    pub closed spec fn restored(self) -> Set<int> {
        self.trace@.1
    }

    /// The failure that turned the commit into a rollback, or that a cleanup after the commit
    /// met.
    pub closed spec fn failure(self) -> Option<ExecutionFailure> {
        self.failure
    }

    /// The failure of the rollback or cleanup that requires recovery.
    pub closed spec fn recovery_failure(self) -> Option<ExecutionFailure> {
        self.recovery_failure
    }

    /// The machine is recording that the transaction requires recovery.
    pub closed spec fn is_escalating(self) -> bool {
        self.stage is Escalate
    }

    /// The machine waits on the persistence of the journal record it holds.
    pub closed spec fn awaits_persist(self) -> bool {
        !(self.stage is Apply || self.stage is Restore || self.stage is Cleanup || self.stage is Finished)
    }

    /// The machine is still committing: preparing, marking, applying or persisting the commit,
    /// with nothing failed yet.
    pub closed spec fn is_committing(self) -> bool {
        ||| self.stage is Prepare
        ||| self.stage is Begin
        ||| self.stage is Mark
        ||| self.stage is Apply
        ||| self.stage is Applied
        ||| self.stage is Commit
    }

    /// The machine waits on the removal of the staged files and backups.
    pub closed spec fn is_cleaning_up(self) -> bool {
        self.stage is Cleanup
    }

    /// The executor reported the removal of the staged files and backups done.
    pub closed spec fn cleaned(self) -> bool {
        self.cleaned@
    }

    /// A bound on the decisions left before the execution has its result: every advance
    /// lowers it, so the executor's loop ends.
    pub closed spec fn remaining(self) -> nat {
        let n = self.record.mutations@.len();
        match self.stage {
            Stage::Finished => 0,
            Stage::Escalate { .. } => 1,
            Stage::Complete => 2,
            Stage::Cleanup => 3,
            Stage::Clean { .. } => 4,
            Stage::RollEnd => 5,
            Stage::RollDone { index } => (6 + 3 * index) as nat,
            Stage::Restore { index } => (7 + 3 * index) as nat,
            Stage::RollMark { index, .. } => (8 + 3 * index) as nat,
            Stage::RollBegin { .. } => rollback_bound(n),
            Stage::Commit => commit_bound(n),
            Stage::Applied { index } => (commit_bound(n) + 3 * (n - index) - 2) as nat,
            Stage::Apply { index } => (commit_bound(n) + 3 * (n - index) - 1) as nat,
            Stage::Mark { index } => (commit_bound(n) + 3 * (n - index)) as nat,
            Stage::Begin => commit_bound(n) + 3 * n + 1,
            Stage::Prepare => commit_bound(n) + 3 * n + 2,
        }
    }

    /// The last durable generation's state, recovery target and mutations.
    pub closed spec fn last_durable(self) -> (JournalState, RecoveryTarget, Seq<JournalMutation>) {
        let r = self.record;
        let ms = r.mutations@;
        match self.stage {
            Stage::Prepare => (JournalState::Preparing, r.recovery_target, ms),
            Stage::Begin => (JournalState::Prepared, r.recovery_target, ms),
            Stage::Mark { index } => (
                r.state,
                r.recovery_target,
                ms.update(index as int, JournalMutation { progress: MutationProgress::Pending, ..ms[index as int] }),
            ),
            Stage::Applied { index } => (
                r.state,
                r.recovery_target,
                ms.update(index as int, JournalMutation { progress: MutationProgress::Committing, ..ms[index as int] }),
            ),
            Stage::Commit => (JournalState::Committing, RecoveryTarget::Rollback, ms),
            Stage::RollBegin { previous } => (previous, r.recovery_target, ms),
            Stage::RollMark { index, previous } => (
                r.state,
                r.recovery_target,
                ms.update(index as int, JournalMutation { progress: previous, ..ms[index as int] }),
            ),
            Stage::RollDone { index } => (
                r.state,
                r.recovery_target,
                ms.update(index as int, JournalMutation { progress: MutationProgress::RollingBack, ..ms[index as int] }),
            ),
            Stage::RollEnd => (JournalState::RollingBack, r.recovery_target, ms),
            Stage::Clean { previous } => (previous, r.recovery_target, ms),
            Stage::Complete => (JournalState::Cleaning, r.recovery_target, ms),
            Stage::Escalate { previous } => (previous, r.recovery_target, ms),
            _ => (r.state, r.recovery_target, ms),
        }
    }

    /// Both outcomes are settled: a commit with every mutation applied, or a rollback with
    /// every mutation untouched or rolled back.
    closed spec fn settled(self) -> bool {
        let r = self.record;
        ||| (self.failure is None && r.recovery_target == RecoveryTarget::Commit && all_in(
            r.mutations@,
            only_applied(),
        ))
        ||| (self.failure is Some && r.recovery_target == RecoveryTarget::Rollback && all_in(
            r.mutations@,
            rolled_back_set(),
        ))
    }

    /// What each stage knows of the journal record it holds, and that every applied or
    /// rolled-back mutation, in the record and in the last durable generation, is one the
    /// executor reported done.
    pub closed spec fn wf(self) -> bool {
        let ld = self.last_durable().2;
        &&& self.stage_wf()
        &&& !(self.stage is Escalate) ==> self.recovery_failure is None
        &&& self.stage is Complete ==> self.cleaned@
        &&& self.cleaned@ ==> (self.stage is Complete || self.stage is Escalate || self.stage is Finished)
        &&& marks_within(self.record.mutations@, MutationProgress::Applied, self.trace@.0)
        &&& marks_within(ld, MutationProgress::Applied, self.trace@.0)
        &&& marks_within(self.record.mutations@, MutationProgress::RolledBack, self.trace@.1)
        &&& marks_within(ld, MutationProgress::RolledBack, self.trace@.1)
    }

    closed spec fn stage_wf(self) -> bool {
        let r = self.record;
        let ms = r.mutations@;
        match self.stage {
            Stage::Prepare => r.state == JournalState::Prepared && r.recovery_target == RecoveryTarget::Rollback
                && all_in(ms, only_pending()) && self.failure is None,
            Stage::Begin => r.state == JournalState::Committing && r.recovery_target == RecoveryTarget::Rollback
                && all_in(ms, only_pending()) && self.failure is None,
            Stage::Mark { index } => r.state == JournalState::Committing && r.recovery_target
                == RecoveryTarget::Rollback && commit_shape(ms, index as int, MutationProgress::Committing)
                && self.failure is None,
            Stage::Apply { index } => r.state == JournalState::Committing && r.recovery_target
                == RecoveryTarget::Rollback && commit_shape(ms, index as int, MutationProgress::Committing)
                && self.failure is None,
            Stage::Applied { index } => r.state == JournalState::Committing && r.recovery_target
                == RecoveryTarget::Rollback && commit_shape(ms, index as int, MutationProgress::Applied)
                && self.failure is None,
            Stage::Commit => r.state == JournalState::Committed && r.recovery_target == RecoveryTarget::Commit
                && all_in(ms, only_applied()) && self.failure is None,
            Stage::RollBegin { previous } => r.state == JournalState::RollingBack && r.recovery_target
                == RecoveryTarget::Rollback && (previous == JournalState::Preparing || previous
                == JournalState::Prepared || previous == JournalState::Committing) && self.failure is Some,
            Stage::RollMark { index, previous } => r.state == JournalState::RollingBack && r.recovery_target
                == RecoveryTarget::Rollback && index < ms.len() && ms[index as int].progress
                == MutationProgress::RollingBack && (previous == MutationProgress::Committing || previous
                == MutationProgress::Applied) && settled_from(ms, index + 1) && self.failure is Some,
            Stage::Restore { index } => r.state == JournalState::RollingBack && r.recovery_target
                == RecoveryTarget::Rollback && index < ms.len() && ms[index as int].progress
                == MutationProgress::RollingBack && settled_from(ms, index + 1) && self.failure is Some,
            Stage::RollDone { index } => r.state == JournalState::RollingBack && r.recovery_target
                == RecoveryTarget::Rollback && index < ms.len() && ms[index as int].progress
                == MutationProgress::RolledBack && settled_from(ms, index + 1) && self.failure is Some,
            Stage::RollEnd => r.state == JournalState::RolledBack && r.recovery_target == RecoveryTarget::Rollback
                && all_in(ms, rolled_back_set()) && self.failure is Some,
            Stage::Clean { previous } => r.state == JournalState::Cleaning && self.settled() && previous == (
            if self.failure is None {
                JournalState::Committed
            } else {
                JournalState::RolledBack
            }),
            Stage::Cleanup => r.state == JournalState::Cleaning && self.settled(),
            Stage::Complete => r.state == JournalState::Complete && self.settled(),
            Stage::Escalate { previous } => r.state == JournalState::RecoveryRequired && previous
                != JournalState::RecoveryRequired && self.failure is Some && self.recovery_failure is Some,
            Stage::Finished => true,
        }
    }

    /// The journal record to persist, or that was last made durable.
    pub fn journal_record(&self) -> (r: &JournalRecord)
        ensures
            *r == self.journal(),
    {
        &self.record
    }

    /// Starts committing a transaction whose fresh journal has been made durable: every
    /// mutation untouched, recovering toward rollback. The first step persists `Prepared`.
    pub fn start(record: JournalRecord) -> (r: (CommitMachine, CommitAction))
        requires
            record.state == JournalState::Preparing,
            record.recovery_target == RecoveryTarget::Rollback,
            all_in(record.mutations@, only_pending()),
        ensures
            r.0.wf(),
            !r.0.is_finished(),
            r.1 is Persist,
            r.0.journal() == record.after_transition(JournalState::Prepared),
            r.0.last_durable() == (record.state, record.recovery_target, record.mutations@),
            generation_admitted(r.0.last_durable(), r.0.journal()),
            r.0.applied() == Set::<int>::empty(),
            r.0.restored() == Set::<int>::empty(),
            r.0.failure() is None,
            r.0.recovery_failure() is None,
            !r.0.is_escalating(),
            r.0.is_committing(),
            !r.0.cleaned(),
    {
        let mut record = record;
        let trace: Ghost<(Set<int>, Set<int>)> = Ghost((Set::empty(), Set::empty()));
        let ghost ms = record.mutations@;
        assert forall|k: int| 0 <= k < ms.len() implies #[trigger] ms[k].progress == MutationProgress::Pending by {
            assert(only_pending().has(ms[k].progress));
        }
        move_state(&mut record, JournalState::Prepared);
        (
            CommitMachine { record, stage: Stage::Prepare, failure: None, recovery_failure: None, trace, cleaned: Ghost(false) },
            CommitAction::Persist,
        )
    }
}


impl CommitMachine {
    fn next_commit(record: JournalRecord, index: usize, trace: Ghost<(Set<int>, Set<int>)>) -> (r: (CommitMachine, CommitAction))
        requires
            marks_within(record.mutations@, MutationProgress::Applied, trace@.0),
            marks_within(record.mutations@, MutationProgress::RolledBack, trace@.1),
            record.state == JournalState::Committing,
            record.recovery_target == RecoveryTarget::Rollback,
            index <= record.mutations@.len(),
            forall|k: int| 0 <= k < index ==> #[trigger] record.mutations@[k].progress == MutationProgress::Applied,
            forall|k: int|
                index <= k < record.mutations@.len() ==> #[trigger] record.mutations@[k].progress
                    == MutationProgress::Pending,
        ensures
            r.0.wf(),
            !r.0.is_finished(),
            r.1 is Persist,
            r.0.last_durable() == (record.state, record.recovery_target, record.mutations@),
            generation_admitted(r.0.last_durable(), r.0.journal()),
            r.0.remaining() <= commit_bound(record.mutations@.len()) + 3 * (record.mutations@.len() - index),
            r.0.applied() == trace@.0,
            r.0.restored() == trace@.1,
            r.0.failure() is None,
            r.0.recovery_failure() is None,
            !r.0.is_escalating(),
            r.0.applying() is None,
            r.0.restoring() is None,
    {
        let ghost ms = record.mutations@;
        let mut record = record;
        if index < record.mutations.len() {
            move_progress(&mut record, index, MutationProgress::Committing);
            proof {
                let updated = record.mutations@;
                assert(updated.update(
                    index as int,
                    JournalMutation { progress: MutationProgress::Pending, ..updated[index as int] },
                ) =~= ms);
                assert(updated =~= ms.update(
                    index as int,
                    JournalMutation { progress: updated[index as int].progress, ..ms[index as int] },
                ));
            }
            (
                CommitMachine { record, stage: Stage::Mark { index }, failure: None, recovery_failure: None, trace, cleaned: Ghost(false) },
                CommitAction::Persist,
            )
        } else {
            assert(all_in(ms, only_applied()));
            move_state(&mut record, JournalState::Committed);
            (
                CommitMachine { record, stage: Stage::Commit, failure: None, recovery_failure: None, trace, cleaned: Ghost(false) },
                CommitAction::Persist,
            )
        }
    }

    fn start_rollback(record: JournalRecord, failure: ExecutionFailure, trace: Ghost<(Set<int>, Set<int>)>) -> (r: (
        CommitMachine,
        CommitAction,
    ))
        requires
            marks_within(record.mutations@, MutationProgress::Applied, trace@.0),
            marks_within(record.mutations@, MutationProgress::RolledBack, trace@.1),
            record.state == JournalState::Preparing || record.state == JournalState::Prepared || record.state
                == JournalState::Committing,
            record.recovery_target == RecoveryTarget::Rollback,
        ensures
            r.0.wf(),
            !r.0.is_finished(),
            r.1 is Persist,
            r.0.last_durable() == (record.state, record.recovery_target, record.mutations@),
            generation_admitted(r.0.last_durable(), r.0.journal()),
            r.0.remaining() == rollback_bound(record.mutations@.len()),
            r.0.journal().state == JournalState::RollingBack,
            r.0.applied() == trace@.0,
            r.0.restored() == trace@.1,
            r.0.failure() == Some(failure),
            r.0.recovery_failure() is None,
            !r.0.is_escalating(),
            r.0.applying() is None,
            r.0.restoring() is None,
    {
        let previous = record.state;
        let mut record = record;
        move_state(&mut record, JournalState::RollingBack);
        (
            CommitMachine {
                record,
                stage: Stage::RollBegin { previous },
                failure: Some(failure),
                recovery_failure: None,
                trace,
                cleaned: Ghost(false),
            },
            CommitAction::Persist,
        )
    }

    fn next_rollback(record: JournalRecord, failure: ExecutionFailure, upper: usize, trace: Ghost<(Set<int>, Set<int>)>) -> (r: (
        CommitMachine,
        CommitAction,
    ))
        requires
            marks_within(record.mutations@, MutationProgress::Applied, trace@.0),
            marks_within(record.mutations@, MutationProgress::RolledBack, trace@.1),
            record.state == JournalState::RollingBack,
            record.recovery_target == RecoveryTarget::Rollback,
            upper <= record.mutations@.len(),
            settled_from(record.mutations@, upper as int),
        ensures
            r.0.wf(),
            !r.0.is_finished(),
            r.1 is Persist || r.1 is Restore,
            r.1 is Persist ==> generation_admitted(r.0.last_durable(), r.0.journal()) && r.0.last_durable() == (
            record.state,
            record.recovery_target,
            record.mutations@,
            ),
            r.1 is Restore ==> r.0.journal() == record,
            write_ahead(r.0.journal(), r.0.last_durable(), r.1),
            r.0.remaining() <= 5 + 3 * upper,
            r.0.applied() == trace@.0,
            r.0.restored() == trace@.1,
            r.0.failure() == Some(failure),
            r.0.recovery_failure() is None,
            !r.0.is_escalating(),
            r.0.applying() is None,
            r.0.restoring() == (match r.1 {
                CommitAction::Restore { index } => Some(index),
                _ => None::<usize>,
            }),
    {
        let ghost ms = record.mutations@;
        match next_rollback_step(&record.mutations, upper) {
            RollbackDecision::Mark { index, previous } => {
                let mut record = record;
                move_progress(&mut record, index, MutationProgress::RollingBack);
                proof {
                    let updated = record.mutations@;
                    assert(updated.update(
                        index as int,
                        JournalMutation { progress: previous, ..updated[index as int] },
                    ) =~= ms);
                    assert(updated =~= ms.update(
                        index as int,
                        JournalMutation { progress: updated[index as int].progress, ..ms[index as int] },
                    ));
                    assert(settled_from(updated, index + 1));
                }
                (
                    CommitMachine {
                        record,
                        stage: Stage::RollMark { index, previous },
                        failure: Some(failure),
                        recovery_failure: None,
                        trace,
                        cleaned: Ghost(false),
                    },
                    CommitAction::Persist,
                )
            },
            RollbackDecision::Restore { index } => (
                CommitMachine { record, stage: Stage::Restore { index }, failure: Some(failure), recovery_failure: None, trace, cleaned: Ghost(false) },
                CommitAction::Restore { index },
            ),
            RollbackDecision::Done => {
                assert(all_in(ms, rolled_back_set()));
                let mut record = record;
                move_state(&mut record, JournalState::RolledBack);
                (
                    CommitMachine { record, stage: Stage::RollEnd, failure: Some(failure), recovery_failure: None, trace, cleaned: Ghost(false) },
                    CommitAction::Persist,
                )
            },
        }
    }

    fn begin_cleaning(record: JournalRecord, failure: Option<ExecutionFailure>, trace: Ghost<(Set<int>, Set<int>)>) -> (r: (
        CommitMachine,
        CommitAction,
    ))
        requires
            marks_within(record.mutations@, MutationProgress::Applied, trace@.0),
            marks_within(record.mutations@, MutationProgress::RolledBack, trace@.1),
            (failure is None && record.state == JournalState::Committed && record.recovery_target
                == RecoveryTarget::Commit && all_in(record.mutations@, only_applied())) || (failure is Some
                && record.state == JournalState::RolledBack && record.recovery_target == RecoveryTarget::Rollback
                && all_in(record.mutations@, rolled_back_set())),
        ensures
            r.0.wf(),
            !r.0.is_finished(),
            r.1 is Persist,
            r.0.last_durable() == (record.state, record.recovery_target, record.mutations@),
            generation_admitted(r.0.last_durable(), r.0.journal()),
            r.0.remaining() == 4,
            r.0.applied() == trace@.0,
            r.0.restored() == trace@.1,
            r.0.failure() == failure,
            r.0.recovery_failure() is None,
            !r.0.is_escalating(),
            r.0.applying() is None,
            r.0.restoring() is None,
    {
        let previous = record.state;
        let mut record = record;
        move_state(&mut record, JournalState::Cleaning);
        (
            CommitMachine { record, stage: Stage::Clean { previous }, failure, recovery_failure: None, trace, cleaned: Ghost(false) },
            CommitAction::Persist,
        )
    }

    fn escalate(
        record: JournalRecord,
        failure: ExecutionFailure,
        recovery_failure: ExecutionFailure,
        trace: Ghost<(Set<int>, Set<int>)>,
        cleaned: Ghost<bool>,
    ) -> (r: (
        CommitMachine,
        CommitAction,
    ))
        requires
            marks_within(record.mutations@, MutationProgress::Applied, trace@.0),
            marks_within(record.mutations@, MutationProgress::RolledBack, trace@.1),
            record.state != JournalState::RecoveryRequired,
        ensures
            r.0.wf(),
            !r.0.is_finished(),
            r.1 is Persist,
            r.0.last_durable() == (record.state, record.recovery_target, record.mutations@),
            generation_admitted(r.0.last_durable(), r.0.journal()),
            r.0.remaining() == 1,
            r.0.applied() == trace@.0,
            r.0.restored() == trace@.1,
            r.0.failure() == Some(failure),
            r.0.recovery_failure() == Some(recovery_failure),
            r.0.is_escalating(),
            r.0.applying() is None,
            r.0.restoring() is None,
            r.0.cleaned() == cleaned@,
    {
        let previous = record.state;
        let mut record = record;
        move_state(&mut record, JournalState::RecoveryRequired);
        (
            CommitMachine {
                record,
                stage: Stage::Escalate { previous },
                failure: Some(failure),
                recovery_failure: Some(recovery_failure),
                trace,
                cleaned,
            },
            CommitAction::Persist,
        )
    }

    fn finish(
        record: JournalRecord,
        result: Result<ExecutionResult, ExecuteError>,
        trace: Ghost<(Set<int>, Set<int>)>,
        cleaned: Ghost<bool>,
    ) -> (r: (
        CommitMachine,
        CommitAction,
    ))
        requires
            marks_within(record.mutations@, MutationProgress::Applied, trace@.0),
            marks_within(record.mutations@, MutationProgress::RolledBack, trace@.1),
        ensures
            r.0.wf(),
            r.0.is_finished(),
            r.0.journal() == record,
            r.1 == (CommitAction::Finish { result }),
            r.0.remaining() == 0,
            r.0.applied() == trace@.0,
            r.0.restored() == trace@.1,
            r.0.applying() is None,
            r.0.restoring() is None,
            !r.0.is_escalating(),
            r.0.cleaned() == cleaned@,
    {
        (
            CommitMachine { record, stage: Stage::Finished, failure: None, recovery_failure: None, trace, cleaned },
            CommitAction::Finish { result },
        )
    }
}


impl CommitMachine {
    fn complete(
        record: JournalRecord,
        failure: Option<ExecutionFailure>,
        trace: Ghost<(Set<int>, Set<int>)>,
        cleaned: Ghost<bool>,
    ) -> (r: (
        CommitMachine,
        CommitAction,
    ))
        requires
            marks_within(record.mutations@, MutationProgress::Applied, trace@.0),
            marks_within(record.mutations@, MutationProgress::RolledBack, trace@.1),
            record.state == JournalState::Complete,
            cleaned@,
            (failure is None && record.recovery_target == RecoveryTarget::Commit && all_in(
                record.mutations@,
                only_applied(),
            )) || (failure is Some && record.recovery_target == RecoveryTarget::Rollback && all_in(
                record.mutations@,
                rolled_back_set(),
            )),
        ensures
            r.0.wf(),
            r.0.is_finished(),
            r.0.journal() == record,
            r.1 is Finish,
            write_ahead(r.0.journal(), r.0.last_durable(), r.1),
            r.0.remaining() == 0,
            r.0.applied() == trace@.0,
            r.0.restored() == trace@.1,
            r.0.applying() is None,
            r.0.restoring() is None,
            !r.0.is_escalating(),
            r.0.cleaned(),
            r.1 matches CommitAction::Finish { result: Ok(done) } && (done.outcome is Committed <==> failure is None)
                && (done.outcome matches ExecutionOutcome::RolledBack { failure: f } ==> failure == Some(f)),
    {
        let transaction_id = TransactionId(record.transaction_id.0.clone());
        let plan_digest = record.plan_digest;
        let outcome = match failure {
            None => ExecutionOutcome::Committed,
            Some(failure) => ExecutionOutcome::RolledBack { failure },
        };
        Self::finish(record, Ok(ExecutionResult { transaction_id, plan_digest, outcome }), trace, cleaned)
    }

    fn recovery_required(
        record: JournalRecord,
        failure: ExecutionFailure,
        recovery_failure: ExecutionFailure,
        trace: Ghost<(Set<int>, Set<int>)>,
        cleaned: Ghost<bool>,
    ) -> (r: (CommitMachine, CommitAction))
        requires
            marks_within(record.mutations@, MutationProgress::Applied, trace@.0),
            marks_within(record.mutations@, MutationProgress::RolledBack, trace@.1),
        ensures
            r.0.wf(),
            r.0.is_finished(),
            r.0.journal() == record,
            r.1 is Finish,
            write_ahead(r.0.journal(), r.0.last_durable(), r.1),
            r.0.remaining() == 0,
            r.0.applied() == trace@.0,
            r.0.restored() == trace@.1,
            r.0.applying() is None,
            r.0.restoring() is None,
            !r.0.is_escalating(),
            r.0.cleaned() == cleaned@,
            r.1 matches CommitAction::Finish {
                result: Err(ExecuteError::RecoveryRequired { failure: f, recovery_failure: g, .. }),
            } && f == failure && g == recovery_failure,
    {
        let transaction_id = TransactionId(record.transaction_id.0.clone());
        let plan_digest = record.plan_digest;
        Self::finish(
            record,
            Err(ExecuteError::RecoveryRequired { transaction_id, plan_digest, failure, recovery_failure }),
            trace,
            cleaned,
        )
    }

    /// A failure while cleaning up: after a commit it is the failure itself that requires
    /// recovery; after a rollback it is a failure of the rollback.
    fn escalate_cleanup(
        record: JournalRecord,
        failure: Option<ExecutionFailure>,
        cleanup_failure: ExecutionFailure,
        trace: Ghost<(Set<int>, Set<int>)>,
        cleaned: Ghost<bool>,
    ) -> (r: (
        CommitMachine,
        CommitAction,
    ))
        requires
            marks_within(record.mutations@, MutationProgress::Applied, trace@.0),
            marks_within(record.mutations@, MutationProgress::RolledBack, trace@.1),
            record.state != JournalState::RecoveryRequired,
        ensures
            r.0.wf(),
            !r.0.is_finished(),
            r.1 is Persist,
            r.0.last_durable() == (record.state, record.recovery_target, record.mutations@),
            generation_admitted(r.0.last_durable(), r.0.journal()),
            r.0.remaining() == 1,
            r.0.applied() == trace@.0,
            r.0.restored() == trace@.1,
            failure is Some ==> r.0.failure() == failure,
            failure is None ==> (r.0.failure() matches Some(f) && vstd::pervasive::cloned(cleanup_failure, f)),
            r.0.recovery_failure() == Some(cleanup_failure),
            r.0.is_escalating(),
            r.0.applying() is None,
            r.0.restoring() is None,
            r.0.cleaned() == cleaned@,
    {
        match failure {
            None => {
                let first = cleanup_failure.clone();
                Self::escalate(record, first, cleanup_failure, trace, cleaned)
            },
            Some(first) => Self::escalate(record, first, cleanup_failure, trace, cleaned),
        }
    }

    /// The next decision after the last action: on success the next step of the commit, of the
    /// rollback or of the cleanup; on a failure, the durable generation stays what it was and a
    /// commit turns into a rollback, while a failed rollback or cleanup escalates the journal to
    /// `RecoveryRequired`.
    pub fn advance(self, event: CommitEvent) -> (r: (CommitMachine, CommitAction))
        requires
            self.wf(),
            !self.is_finished(),
        ensures
            r.0.wf(),
            r.0.is_finished() <==> r.1 is Finish,
            write_ahead(r.0.journal(), r.0.last_durable(), r.1),
            r.1 is Persist ==> generation_admitted(r.0.last_durable(), r.0.journal()),
            r.1 is Persist && event is Succeeded ==> r.0.last_durable() == generation_of(self.journal()),
            r.1 is Persist && event is Failed ==> r.0.last_durable() == self.last_durable(),
            r.0.remaining() < self.remaining(),
            r.0.applying() == (match r.1 {
                CommitAction::Apply { index } => Some(index),
                _ => None::<usize>,
            }),
            r.0.restoring() == (match r.1 {
                CommitAction::Restore { index } => Some(index),
                _ => None::<usize>,
            }),
            r.0.applied() == (if event is Succeeded && self.applying() is Some {
                self.applied().insert(self.applying()->0 as int)
            } else {
                self.applied()
            }),
            r.0.restored() == (if event is Succeeded && self.restoring() is Some {
                self.restored().insert(self.restoring()->0 as int)
            } else {
                self.restored()
            }),
            marks_within(r.0.journal().mutations@, MutationProgress::Applied, r.0.applied()),
            marks_within(r.0.journal().mutations@, MutationProgress::RolledBack, r.0.restored()),
            r.1 matches CommitAction::Finish { result: Err(_) } ==> self.is_escalating(),
            r.0.is_escalating() && !self.is_escalating() ==> event is Failed,
            r.1 matches CommitAction::Finish {
                result: Err(ExecuteError::RecoveryRequired { failure: f, recovery_failure: g, .. }),
            } ==> self.failure() == Some(f) && self.recovery_failure() == Some(g),
            r.1 matches CommitAction::Finish { result: Ok(done) } ==> (done.outcome is Committed
                <==> self.failure() is None) && (done.outcome matches ExecutionOutcome::RolledBack {
                failure: f,
            } ==> self.failure() == Some(f)),
            r.0.cleaned() == (self.cleaned() || (event is Succeeded && self.is_cleaning_up())),
            r.0.awaits_persist() <==> r.1 is Persist,
            r.0.last_durable() == (if event is Succeeded && self.awaits_persist() {
                generation_of(self.journal())
            } else {
                self.last_durable()
            }),
            event matches CommitEvent::Failed { failure: e } ==> (self.is_committing() ==> r.0.failure() == Some(e)),
            r.1 matches CommitAction::Finish { result: Ok(_) } ==> r.0.cleaned(),
            event is Failed && self.is_committing() ==> r.1 is Persist && !r.0.is_escalating()
                && r.0.journal().state == JournalState::RollingBack,
            event is Failed && !self.is_committing() && !self.is_escalating() ==> r.1 is Persist
                && r.0.is_escalating(),
            event is Succeeded && !r.0.is_finished() ==> r.0.failure() == self.failure()
                && r.0.recovery_failure() == self.recovery_failure(),
            event matches CommitEvent::Failed { failure: e } ==> (!r.0.is_finished() && self.failure() is Some
                ==> r.0.failure() == self.failure()) && (!r.0.is_finished() && self.failure() is None ==> (
            r.0.failure() matches Some(f) && vstd::pervasive::cloned(e, f))) && (r.0.is_escalating()
                ==> r.0.recovery_failure() == Some(e)),
    {
        let CommitMachine { record, stage, failure, recovery_failure, trace, cleaned } = self;
        let mut record = record;
        let ghost ms = record.mutations@;
        match event {
            CommitEvent::Succeeded => match stage {
                Stage::Prepare => {
                    assert forall|k: int| 0 <= k < ms.len() implies #[trigger] crate::journal::committing_set().has(
                        ms[k].progress,
                    ) by {
                        assert(only_pending().has(ms[k].progress));
                    }
                    move_state(&mut record, JournalState::Committing);
                    (
                        CommitMachine { record, stage: Stage::Begin, failure: None, recovery_failure: None, trace, cleaned: Ghost(false) },
                        CommitAction::Persist,
                    )
                },
                Stage::Begin => {
                    assert forall|k: int| 0 <= k < ms.len() implies #[trigger] ms[k].progress
                        == MutationProgress::Pending by {
                        assert(only_pending().has(ms[k].progress));
                    }
                    Self::next_commit(record, 0, trace)
                },
                Stage::Mark { index } => (
                    CommitMachine { record, stage: Stage::Apply { index }, failure: None, recovery_failure: None, trace, cleaned: Ghost(false) },
                    CommitAction::Apply { index },
                ),
                Stage::Apply { index } => {
                    move_progress(&mut record, index, MutationProgress::Applied);
                    proof {
                        let updated = record.mutations@;
                        assert(updated.update(
                            index as int,
                            JournalMutation { progress: MutationProgress::Committing, ..updated[index as int] },
                        ) =~= ms);
                        assert(updated =~= ms.update(
                            index as int,
                            JournalMutation { progress: updated[index as int].progress, ..ms[index as int] },
                        ));
                    }
                    (
                        CommitMachine {
                            record,
                            stage: Stage::Applied { index },
                            failure: None,
                            recovery_failure: None,
                            trace: Ghost((trace@.0.insert(index as int), trace@.1)),
                            cleaned: Ghost(false),
                        },
                        CommitAction::Persist,
                    )
                },
                Stage::Applied { index } => {
                    let count = record.mutations.len();
                    assert(index < count);
                    Self::next_commit(record, index + 1, trace)
                },
                Stage::Commit => Self::begin_cleaning(record, None, trace),
                Stage::RollBegin { .. } => {
                    let count = record.mutations.len();
                    Self::next_rollback(record, failure.unwrap(), count, trace)
                },
                Stage::RollMark { index, .. } => (
                    CommitMachine { record, stage: Stage::Restore { index }, failure, recovery_failure: None, trace, cleaned: Ghost(false) },
                    CommitAction::Restore { index },
                ),
                Stage::Restore { index } => {
                    move_progress(&mut record, index, MutationProgress::RolledBack);
                    proof {
                        let updated = record.mutations@;
                        assert(updated.update(
                            index as int,
                            JournalMutation { progress: MutationProgress::RollingBack, ..updated[index as int] },
                        ) =~= ms);
                        assert(updated =~= ms.update(
                            index as int,
                            JournalMutation { progress: updated[index as int].progress, ..ms[index as int] },
                        ));
                    }
                    (
                        CommitMachine {
                            record,
                            stage: Stage::RollDone { index },
                            failure,
                            recovery_failure: None,
                            trace: Ghost((trace@.0, trace@.1.insert(index as int))),
                            cleaned: Ghost(false),
                        },
                        CommitAction::Persist,
                    )
                },
                Stage::RollDone { index } => Self::next_rollback(record, failure.unwrap(), index, trace),
                Stage::RollEnd => Self::begin_cleaning(record, failure, trace),
                Stage::Clean { .. } => (
                    CommitMachine { record, stage: Stage::Cleanup, failure, recovery_failure: None, trace, cleaned: Ghost(false) },
                    CommitAction::Cleanup,
                ),
                Stage::Cleanup => {
                    move_state(&mut record, JournalState::Complete);
                    (
                        CommitMachine { record, stage: Stage::Complete, failure, recovery_failure: None, trace, cleaned: Ghost(true) },
                        CommitAction::Persist,
                    )
                },
                Stage::Complete => Self::complete(record, failure, trace, cleaned),
                Stage::Escalate { .. } | Stage::Finished => Self::recovery_required(
                    record,
                    failure.unwrap(),
                    recovery_failure.unwrap(),
                    trace,
                    cleaned,
                ),
            },
            CommitEvent::Failed { failure: failed } => match stage {
                Stage::Prepare => {
                    record.state = JournalState::Preparing;
                    Self::start_rollback(record, failed, trace)
                },
                Stage::Begin => {
                    record.state = JournalState::Prepared;
                    Self::start_rollback(record, failed, trace)
                },
                Stage::Mark { index } => {
                    record.reset_progress(index, MutationProgress::Pending);
                    Self::start_rollback(record, failed, trace)
                },
                Stage::Apply { .. } => Self::start_rollback(record, failed, trace),
                Stage::Applied { index } => {
                    record.reset_progress(index, MutationProgress::Committing);
                    Self::start_rollback(record, failed, trace)
                },
                Stage::Commit => {
                    record.state = JournalState::Committing;
                    record.recovery_target = RecoveryTarget::Rollback;
                    Self::start_rollback(record, failed, trace)
                },
                Stage::RollBegin { previous } => {
                    record.state = previous;
                    Self::escalate(record, failure.unwrap(), failed, trace, cleaned)
                },
                Stage::RollMark { index, previous } => {
                    record.reset_progress(index, previous);
                    Self::escalate(record, failure.unwrap(), failed, trace, cleaned)
                },
                Stage::Restore { .. } | Stage::Finished => Self::escalate(record, failure.unwrap(), failed, trace, cleaned),
                Stage::RollDone { index } => {
                    record.reset_progress(index, MutationProgress::RollingBack);
                    Self::escalate(record, failure.unwrap(), failed, trace, cleaned)
                },
                Stage::RollEnd => {
                    record.state = JournalState::RollingBack;
                    Self::escalate(record, failure.unwrap(), failed, trace, cleaned)
                },
                Stage::Clean { previous } => {
                    record.state = previous;
                    Self::escalate_cleanup(record, failure, failed, trace, cleaned)
                },
                Stage::Cleanup => Self::escalate_cleanup(record, failure, failed, trace, cleaned),
                Stage::Complete => {
                    record.state = JournalState::Cleaning;
                    Self::escalate_cleanup(record, failure, failed, trace, cleaned)
                },
                Stage::Escalate { previous } => {
                    record.state = previous;
                    Self::recovery_required(record, failure.unwrap(), recovery_failure.unwrap(), trace, cleaned)
                },
            },
        }
    }
}

} // verus!
