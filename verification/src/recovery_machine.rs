use vstd::prelude::*;

use crate::commit_machine::generation_admitted;
use crate::commit_machine::generation_of;
use crate::commit_machine::marks_within;
use crate::journal::all_in;
use crate::journal::rolled_back_set;
use crate::journal::JournalMutation;
use crate::journal::JournalRecord;
use crate::journal::JournalState;
use crate::journal::MutationProgress;
use crate::journal::RecoveryTarget;
use crate::keys::TransactionId;
use crate::observation::TransactionFileSystemError;
use crate::recovery::check_rollback_entries;
use crate::recovery::next_rollback_step;
use crate::recovery::recovery_route;
use crate::recovery::route_of;
use crate::recovery::settled_from;
use crate::recovery::RecoveryError;
use crate::recovery::RecoveryFailure;
use crate::recovery::RecoveryOutcome;
use crate::recovery::RecoveryResult;
use crate::recovery::RecoveryRoute;
use crate::recovery::RollbackDecision;

verus! {

/// Where the recovery of a loaded transaction stands. A stage that changes the journal holds
/// what the change replaced, so that a generation that could not be made durable is undone.
#[derive(Clone, Copy, Debug, PartialEq, Eq, Structural)]
pub enum RecoveryStage {
    /// Checking that every mutation shows its committed result; then cleaning up, if asked.
    VerifyCommitted { cleanup: bool },
    /// Persisting `RollingBack`, entered from `previous`.
    RollBegin { previous: JournalState },
    /// Persisting that mutation `index` is rolling back, from `previous`.
    RollMark { index: usize, previous: MutationProgress },
    /// Restoring mutation `index` from its reopened backup and staged file.
    Restore { index: usize },
    /// Persisting that mutation `index` is rolled back.
    RollDone { index: usize },
    /// Persisting `RolledBack`.
    RollEnd,
    /// Checking that every mutation shows its original state; then cleaning up, if asked.
    VerifyRolledBack { cleanup: bool },
    /// Persisting `Cleaning`, entered from `previous`.
    Clean { previous: JournalState },
    /// Removing staged files and backups.
    Cleanup,
    /// Persisting `Complete`.
    Complete,
    /// Persisting `RecoveryRequired`, entered from `previous`.
    Escalate { previous: JournalState },
    /// The recovery has its result.
    Finished,
}

/// What the executor must do next to recover the transaction.
pub enum RecoveryAction {
    /// Encode, install and sync the machine's journal record as the next durable generation.
    Persist,
    /// Check, under the lock, that every mutation shows its committed result.
    VerifyCommitted,
    /// Check, under the lock, that every mutation shows its original state (or its restored
    /// backup), as the machine's journal record describes.
    VerifyRolledBack,
    /// Reopen mutation `index`'s staged file and backup, restore it, and sync its parents.
    Restore { index: usize },
    /// Remove the transaction's staged files and backups.
    Cleanup,
    /// The recovery is over.
    Finish { result: Result<RecoveryResult, RecoveryError> },
}

/// How the last action went.
pub enum RecoveryEvent {
    Succeeded,
    Failed { failure: RecoveryFailure },
}

/// The decisions of recovering a loaded transaction toward its durable recovery target.
pub struct RecoveryMachine {
    record: JournalRecord,
    stage: RecoveryStage,
    failure: Option<RecoveryFailure>,
    /// The mutations that were rolled back before the recovery began, or whose restore the
    /// executor reported done since.
    restored: Ghost<Set<int>>,
    /// The executor reported the removal of the staged files and backups done.
    cleaned: Ghost<bool>,
}

/// Write-ahead during recovery, over the last durable generation of the journal (its state,
/// recovery target and mutations): a restore happens only once the journal durably says the
/// mutation is rolling back, newest first; artifacts are removed only while the journal
/// durably says `Cleaning`; committed results are checked only toward a durable commit target,
/// original states only toward rollback; and a recovered transaction reports its journal's
/// durable complete outcome.
pub open spec fn recovery_write_ahead(
    journal: JournalRecord,
    durable: (JournalState, RecoveryTarget, Seq<JournalMutation>),
    action: RecoveryAction,
) -> bool {
    let (state, target, ms) = durable;
    match action {
        RecoveryAction::Restore { index } => state == JournalState::RollingBack && index < ms.len()
            && ms[index as int].progress == MutationProgress::RollingBack && settled_from(ms, index + 1),
        RecoveryAction::Cleanup => state == JournalState::Cleaning,
        RecoveryAction::VerifyCommitted => target == RecoveryTarget::Commit,
        RecoveryAction::VerifyRolledBack => target == RecoveryTarget::Rollback,
        RecoveryAction::Persist => true,
        RecoveryAction::Finish { result } => match result {
            Ok(done) => state == JournalState::Complete && done.transaction_id == journal.transaction_id
                && done.plan_digest == journal.plan_digest && (done.outcome == RecoveryOutcome::Committed
                <==> target == RecoveryTarget::Commit),
            Err(e) => e matches RecoveryError::RecoveryRequired { transaction_id, .. } && transaction_id
                == journal.transaction_id,
        },
    }
}

/// The mutations of a journal that are already rolled back.
pub open spec fn rolled_back_marks(ms: Seq<JournalMutation>) -> Set<int> {
    Set::new(|k: int| 0 <= k < ms.len() && ms[k].progress == MutationProgress::RolledBack)
}

/// The failure that reports a journal's refusal to move to `next`, if it refuses.
pub open spec fn refused(record: JournalRecord, next: JournalState) -> Option<RecoveryFailure> {
    match record.transition_error(next) {
        Some(e) => Some(RecoveryFailure::Journal(e)),
        None => None,
    }
}

/// The failures a `RecoveryRequired` result reports, when the action ends the recovery with one.
pub open spec fn required_failures(action: RecoveryAction) -> Option<(RecoveryFailure, Option<RecoveryFailure>)> {
    match action {
        RecoveryAction::Finish {
            result: Err(RecoveryError::RecoveryRequired { failure, record_failure, .. }),
        } => Some((failure, record_failure)),
        _ => None,
    }
}

/// The action ends the recovery with `RecoveryRequired`, reporting `failure` and
/// `record_failure`.
pub open spec fn finishes_required(
    action: RecoveryAction,
    failure: RecoveryFailure,
    record_failure: Option<RecoveryFailure>,
) -> bool {
    required_failures(action) == Some((failure, record_failure))
}

/// The failure that refuses a rollback whose reopened entries do not match the journal's
/// mutations one for one.
pub open spec fn entry_count_failure(f: RecoveryFailure) -> bool {
    f matches RecoveryFailure::FileSystem(TransactionFileSystemError::Platform { operation, reason })
        && operation == "recover rollback" && reason@ == "journal mutation and reopened entry counts disagree"@
}

/// The failure an event reports, if any.
pub open spec fn failure_of(event: RecoveryEvent) -> Option<RecoveryFailure> {
    match event {
        RecoveryEvent::Failed { failure } => Some(failure),
        RecoveryEvent::Succeeded => None,
    }
}

fn move_progress(record: &mut JournalRecord, index: usize, next: MutationProgress)
    requires
        old(record).progress_error(index, next) is None,
    ensures
        *final(record) == (JournalRecord { mutations: final(record).mutations, ..*old(record) }),
        final(record).mutations@ == old(record).mutations@.update(
            index as int,
            JournalMutation { progress: next, ..old(record).mutations@[index as int] },
        ),
{
    let _ = record.set_mutation_progress(index, next);
}

impl RecoveryMachine {
    /// The journal record the machine holds: the last durable generation, or the one it asks
    /// to persist.
    pub closed spec fn journal(self) -> JournalRecord {
        self.record
    }

    pub closed spec fn is_finished(self) -> bool {
        self.stage is Finished
    }

    /// The mutation whose restore the machine waits on.
    pub closed spec fn restoring(self) -> Option<usize> {
        match self.stage {
            RecoveryStage::Restore { index } => Some(index),
            _ => None,
        }
    }

    /// The mutations rolled back before the recovery began or whose restore the executor
    /// reported done since.
    pub closed spec fn restored(self) -> Set<int> {
        self.restored@
    }

    /// The failure that requires recovery, while the machine records it.
    pub closed spec fn failure(self) -> Option<RecoveryFailure> {
        self.failure
    }

    /// The machine is recording that the transaction requires recovery.
    pub closed spec fn is_escalating(self) -> bool {
        self.stage is Escalate
    }

    /// The machine waits on the persistence of the journal record it holds.
    pub closed spec fn awaits_persist(self) -> bool {
        !(self.stage is VerifyCommitted || self.stage is VerifyRolledBack || self.stage is Restore
            || self.stage is Cleanup || self.stage is Finished)
    }

    /// The machine waits on the removal of the staged files and backups.
    pub closed spec fn is_cleaning_up(self) -> bool {
        self.stage is Cleanup
    }

    /// The executor reported the removal of the staged files and backups done.
    pub closed spec fn cleaned(self) -> bool {
        self.cleaned@
    }

    /// The journal state the machine moves to when the awaited step succeeds, where that step
    /// is a check that leads to cleanup, or the cleanup itself.
    pub closed spec fn proposes(self) -> Option<JournalState> {
        match self.stage {
            RecoveryStage::VerifyCommitted { cleanup } => if cleanup && self.record.state != JournalState::Cleaning {
                Some(JournalState::Cleaning)
            } else {
                None
            },
            RecoveryStage::VerifyRolledBack { cleanup } => if cleanup && self.record.state
                != JournalState::Cleaning {
                Some(JournalState::Cleaning)
            } else {
                None
            },
            RecoveryStage::Cleanup => Some(JournalState::Complete),
            _ => None,
        }
    }

    /// The journal's refusal of the move the machine proposes, as a recovery failure.
    pub closed spec fn refusal(self) -> Option<RecoveryFailure> {
        match self.proposes() {
            Some(next) => refused(self.record, next),
            None => None,
        }
    }

    /// A bound on the decisions left before the recovery has its result: every advance lowers
    /// it, so the executor's loop ends.
    pub closed spec fn remaining(self) -> nat {
        let n = self.record.mutations@.len();
        match self.stage {
            RecoveryStage::Finished => 0,
            RecoveryStage::Escalate { .. } => 1,
            RecoveryStage::Complete => 2,
            RecoveryStage::Cleanup => 3,
            RecoveryStage::Clean { .. } => 4,
            RecoveryStage::VerifyCommitted { .. } => 5,
            RecoveryStage::VerifyRolledBack { .. } => 5,
            RecoveryStage::RollEnd => 6,
            RecoveryStage::RollDone { index } => (7 + 3 * index) as nat,
            RecoveryStage::Restore { index } => (8 + 3 * index) as nat,
            RecoveryStage::RollMark { index, .. } => (9 + 3 * index) as nat,
            RecoveryStage::RollBegin { .. } => 7 + 3 * n,
        }
    }

    /// The last durable generation's state, recovery target and mutations.
    pub closed spec fn last_durable(self) -> (JournalState, RecoveryTarget, Seq<JournalMutation>) {
        let r = self.record;
        let ms = r.mutations@;
        match self.stage {
            RecoveryStage::RollBegin { previous } => (previous, r.recovery_target, ms),
            RecoveryStage::RollMark { index, previous } => (
                r.state,
                r.recovery_target,
                ms.update(index as int, JournalMutation { progress: previous, ..ms[index as int] }),
            ),
            RecoveryStage::RollDone { index } => (
                r.state,
                r.recovery_target,
                ms.update(index as int, JournalMutation { progress: MutationProgress::RollingBack, ..ms[index as int] }),
            ),
            RecoveryStage::RollEnd => (JournalState::RollingBack, r.recovery_target, ms),
            RecoveryStage::Clean { previous } => (previous, r.recovery_target, ms),
            RecoveryStage::Complete => (JournalState::Cleaning, r.recovery_target, ms),
            RecoveryStage::Escalate { previous } => (previous, r.recovery_target, ms),
            _ => (r.state, r.recovery_target, ms),
        }
    }

    /// What each stage knows of the journal record it holds, and that every rolled-back
    /// mutation, in the record and in the last durable generation, was rolled back before the
    /// recovery began or restored since.
    pub closed spec fn wf(self) -> bool {
        &&& self.stage_wf()
        &&& !(self.stage is Escalate) ==> self.failure is None
        &&& self.stage is Complete ==> self.cleaned@
        &&& self.cleaned@ ==> (self.stage is Complete || self.stage is Escalate || self.stage is Finished)
        &&& marks_within(self.record.mutations@, MutationProgress::RolledBack, self.restored@)
        &&& marks_within(self.last_durable().2, MutationProgress::RolledBack, self.restored@)
    }

    closed spec fn stage_wf(self) -> bool {
        let r = self.record;
        let ms = r.mutations@;
        match self.stage {
            RecoveryStage::VerifyCommitted { cleanup } => r.recovery_target == RecoveryTarget::Commit && (!cleanup
                <==> r.state == JournalState::Complete),
            RecoveryStage::RollBegin { previous } => r.state == JournalState::RollingBack && r.recovery_target
                == RecoveryTarget::Rollback && previous != JournalState::RollingBack,
            RecoveryStage::RollMark { index, previous } => r.state == JournalState::RollingBack
                && r.recovery_target == RecoveryTarget::Rollback && index < ms.len() && ms[index as int].progress
                == MutationProgress::RollingBack && (previous == MutationProgress::Committing || previous
                == MutationProgress::Applied) && settled_from(ms, index + 1),
            RecoveryStage::Restore { index } => r.state == JournalState::RollingBack && r.recovery_target
                == RecoveryTarget::Rollback && index < ms.len() && ms[index as int].progress
                == MutationProgress::RollingBack && settled_from(ms, index + 1),
            RecoveryStage::RollDone { index } => r.state == JournalState::RollingBack && r.recovery_target
                == RecoveryTarget::Rollback && index < ms.len() && ms[index as int].progress
                == MutationProgress::RolledBack && settled_from(ms, index + 1),
            RecoveryStage::RollEnd => r.state == JournalState::RolledBack && r.recovery_target
                == RecoveryTarget::Rollback && all_in(ms, rolled_back_set()),
            RecoveryStage::VerifyRolledBack { cleanup } => r.recovery_target == RecoveryTarget::Rollback && (!cleanup
                <==> r.state == JournalState::Complete),
            RecoveryStage::Clean { previous } => r.state == JournalState::Cleaning && previous
                != JournalState::Cleaning,
            RecoveryStage::Cleanup => r.state == JournalState::Cleaning,
            RecoveryStage::Complete => r.state == JournalState::Complete,
            RecoveryStage::Escalate { previous } => r.state == JournalState::RecoveryRequired && previous
                != JournalState::RecoveryRequired && self.failure is Some,
            RecoveryStage::Finished => true,
        }
    }

    /// The journal record to persist, or that was last made durable.
    pub fn journal_record(&self) -> (r: &JournalRecord)
        ensures
            *r == self.journal(),
    {
        &self.record
    }

    fn finish(
        record: JournalRecord,
        result: Result<RecoveryResult, RecoveryError>,
        restored: Ghost<Set<int>>,
        cleaned: Ghost<bool>,
    ) -> (r: (
        RecoveryMachine,
        RecoveryAction,
    ))
        requires
            marks_within(record.mutations@, MutationProgress::RolledBack, restored@),
        ensures
            r.0.wf(),
            r.0.is_finished(),
            r.0.journal() == record,
            r.1 == (RecoveryAction::Finish { result }),
            r.0.remaining() == 0,
            r.0.restored() == restored@,
            r.0.awaits_persist() <==> r.1 is Persist,
            r.0.cleaned() == cleaned@,
            r.0.restoring() is None,
            !r.0.is_escalating(),
            r.0.failure() is None,
    {
        (RecoveryMachine { record, stage: RecoveryStage::Finished, failure: None, restored, cleaned }, RecoveryAction::Finish { result })
    }

    fn recovered(record: JournalRecord, restored: Ghost<Set<int>>, cleaned: Ghost<bool>) -> (r: (RecoveryMachine, RecoveryAction))
        requires
            marks_within(record.mutations@, MutationProgress::RolledBack, restored@),
            record.state == JournalState::Complete,
        ensures
            r.0.wf(),
            r.0.is_finished(),
            r.0.journal() == record,
            r.1 is Finish && r.1->result is Ok,
            recovery_write_ahead(r.0.journal(), r.0.last_durable(), r.1),
            r.0.remaining() == 0,
            r.0.restored() == restored@,
            r.0.awaits_persist() <==> r.1 is Persist,
            r.0.cleaned() == cleaned@,
            r.0.restoring() is None,
            !r.0.is_escalating(),
            r.0.failure() is None,
    {
        let transaction_id = TransactionId(record.transaction_id.0.clone());
        let plan_digest = record.plan_digest;
        let outcome = match record.recovery_target {
            RecoveryTarget::Commit => RecoveryOutcome::Committed,
            RecoveryTarget::Rollback => RecoveryOutcome::RolledBack,
        };
        Self::finish(record, Ok(RecoveryResult { transaction_id, plan_digest, outcome }), restored, cleaned)
    }

    fn required(
        record: JournalRecord,
        failure: RecoveryFailure,
        record_failure: Option<RecoveryFailure>,
        restored: Ghost<Set<int>>,
        cleaned: Ghost<bool>,
    ) -> (r: (
        RecoveryMachine,
        RecoveryAction,
    ))
        requires
            marks_within(record.mutations@, MutationProgress::RolledBack, restored@),
        ensures
            r.0.wf(),
            r.0.is_finished(),
            r.0.journal() == record,
            r.1 is Finish,
            recovery_write_ahead(r.0.journal(), r.0.last_durable(), r.1),
            r.0.remaining() == 0,
            r.0.restored() == restored@,
            r.0.awaits_persist() <==> r.1 is Persist,
            r.0.cleaned() == cleaned@,
            r.0.restoring() is None,
            !r.0.is_escalating(),
            r.0.failure() is None,
            finishes_required(r.1, failure, record_failure),
    {
        let transaction_id = TransactionId(record.transaction_id.0.clone());
        Self::finish(record, Err(RecoveryError::RecoveryRequired { transaction_id, failure, record_failure }), restored, cleaned)
    }

    /// Records that the transaction requires recovery, unless the journal already says so.
    fn escalate(record: JournalRecord, failure: RecoveryFailure, restored: Ghost<Set<int>>, cleaned: Ghost<bool>) -> (r: (
        RecoveryMachine,
        RecoveryAction,
    ))
        requires
            marks_within(record.mutations@, MutationProgress::RolledBack, restored@),
        ensures
            r.0.wf(),
            r.1 is Persist || r.1 is Finish,
            r.0.is_finished() <==> r.1 is Finish,
            recovery_write_ahead(r.0.journal(), r.0.last_durable(), r.1),
            r.1 is Persist ==> generation_admitted(r.0.last_durable(), r.0.journal()) && r.0.last_durable() == (
            record.state,
            record.recovery_target,
            record.mutations@,
            ),
            r.0.remaining() <= 1,
            r.0.restored() == restored@,
            r.0.awaits_persist() <==> r.1 is Persist,
            !(r.1 is Persist) ==> r.0.last_durable() == (record.state, record.recovery_target, record.mutations@),
            r.0.cleaned() == cleaned@,
            r.0.restoring() is None,
            r.1 is Persist ==> r.0.is_escalating() && r.0.failure() == Some(failure),
            r.1 is Finish ==> !r.0.is_escalating() && r.0.failure() is None && record.state
                == JournalState::RecoveryRequired && finishes_required(r.1, failure, None),
    {
        if record.state != JournalState::RecoveryRequired {
            let previous = record.state;
            let mut record = record;
            let _ = record.transition(JournalState::RecoveryRequired);
            (
                RecoveryMachine { record, stage: RecoveryStage::Escalate { previous }, failure: Some(failure), restored, cleaned },
                RecoveryAction::Persist,
            )
        } else {
            Self::required(record, failure, None, restored, cleaned)
        }
    }

    /// Moves the journal to `next` if it admits the transition; otherwise the refusal
    /// requires recovery.
    fn propose(
        record: JournalRecord,
        next: JournalState,
        stage: RecoveryStage,
        restored: Ghost<Set<int>>,
        cleaned: Ghost<bool>,
    ) -> (r: (
        RecoveryMachine,
        RecoveryAction,
    ))
        requires
            marks_within(record.mutations@, MutationProgress::RolledBack, restored@),
            (RecoveryMachine { record: record.after_transition(next), stage, failure: None, restored, cleaned }).wf(),
            (RecoveryMachine { record: record.after_transition(next), stage, failure: None, restored, cleaned })
                .awaits_persist(),
            (RecoveryMachine { record: record.after_transition(next), stage, failure: None, restored, cleaned }).last_durable()
                == (record.state, record.recovery_target, record.mutations@),
        ensures
            r.0.wf(),
            r.0.is_finished() <==> r.1 is Finish,
            recovery_write_ahead(r.0.journal(), r.0.last_durable(), r.1),
            r.1 is Persist ==> generation_admitted(r.0.last_durable(), r.0.journal()) && r.0.last_durable() == (
            record.state,
            record.recovery_target,
            record.mutations@,
            ),
            r.0.remaining() <= 1 || r.0.remaining() == (RecoveryMachine {
                record: record.after_transition(next),
                stage,
                failure: None,
                restored,
                cleaned,
            }).remaining(),
            r.0.restored() == restored@,
            r.0.awaits_persist() <==> r.1 is Persist,
            !(r.1 is Persist) ==> r.0.last_durable() == (record.state, record.recovery_target, record.mutations@),
            r.0.restoring() is None,
            r.0.cleaned() == cleaned@,
            record.transition_error(next) is None ==> r.1 is Persist && r.0 == (RecoveryMachine {
                record: record.after_transition(next),
                stage,
                failure: None,
                restored,
                cleaned,
            }),
            refused(record, next) is Some ==> (r.1 is Persist && r.0.is_escalating() && r.0.failure() == refused(
                record,
                next,
            )) || (!r.0.is_escalating() && r.0.failure() is None && record.state == JournalState::RecoveryRequired
                && finishes_required(r.1, refused(record, next)->0, None)),
    {
        let mut record = record;
        match record.transition(next) {
            Ok(()) => (RecoveryMachine { record, stage, failure: None, restored, cleaned }, RecoveryAction::Persist),
            Err(error) => Self::escalate(record, RecoveryFailure::Journal(error), restored, cleaned),
        }
    }

    fn next_rollback(record: JournalRecord, upper: usize, restored: Ghost<Set<int>>) -> (r: (RecoveryMachine, RecoveryAction))
        requires
            marks_within(record.mutations@, MutationProgress::RolledBack, restored@),
            record.state == JournalState::RollingBack,
            record.recovery_target == RecoveryTarget::Rollback,
            upper <= record.mutations@.len(),
            settled_from(record.mutations@, upper as int),
        ensures
            r.0.wf(),
            r.0.is_finished() <==> r.1 is Finish,
            recovery_write_ahead(r.0.journal(), r.0.last_durable(), r.1),
            r.1 is Persist ==> generation_admitted(r.0.last_durable(), r.0.journal()) && r.0.last_durable() == (
            record.state,
            record.recovery_target,
            record.mutations@,
            ),
            r.0.remaining() <= 6 + 3 * upper,
            r.0.restored() == restored@,
            r.0.awaits_persist() <==> r.1 is Persist,
            !(r.1 is Persist) ==> r.0.last_durable() == (record.state, record.recovery_target, record.mutations@),
            !r.0.cleaned(),
            !(r.1 is Finish),
            !r.0.is_escalating(),
            r.0.failure() is None,
            r.0.restoring() == (match r.1 {
                RecoveryAction::Restore { index } => Some(index),
                _ => None::<usize>,
            }),
    {
        let ghost ms = record.mutations@;
        match next_rollback_step(&record.mutations, upper) {
            RollbackDecision::Mark { index, previous } => {
                let mut record = record;
                move_progress(&mut record, index, MutationProgress::RollingBack);
                proof {
                    let updated = record.mutations@;
                    assert(updated.update(
                        index as int,
                        JournalMutation { progress: previous, ..updated[index as int] },
                    ) =~= ms);
                    assert(updated =~= ms.update(
                        index as int,
                        JournalMutation { progress: updated[index as int].progress, ..ms[index as int] },
                    ));
                    assert(settled_from(updated, index + 1));
                }
                (
                    RecoveryMachine { record, stage: RecoveryStage::RollMark { index, previous }, failure: None, restored, cleaned: Ghost(false) },
                    RecoveryAction::Persist,
                )
            },
            RollbackDecision::Restore { index } => (
                RecoveryMachine { record, stage: RecoveryStage::Restore { index }, failure: None, restored, cleaned: Ghost(false) },
                RecoveryAction::Restore { index },
            ),
            RollbackDecision::Done => {
                assert(all_in(ms, rolled_back_set()));
                let mut record = record;
                let _ = record.transition(JournalState::RolledBack);
                (RecoveryMachine { record, stage: RecoveryStage::RollEnd, failure: None, restored, cleaned: Ghost(false) }, RecoveryAction::Persist)
            },
        }
    }

    /// Moves the journal to `Cleaning` unless it is there already, then removes the artifacts.
    fn begin_cleaning(record: JournalRecord, restored: Ghost<Set<int>>) -> (r: (RecoveryMachine, RecoveryAction))
        requires
            marks_within(record.mutations@, MutationProgress::RolledBack, restored@),
        ensures
            r.0.wf(),
            r.0.is_finished() <==> r.1 is Finish,
            recovery_write_ahead(r.0.journal(), r.0.last_durable(), r.1),
            r.1 is Persist ==> generation_admitted(r.0.last_durable(), r.0.journal()) && r.0.last_durable() == (
            record.state,
            record.recovery_target,
            record.mutations@,
            ),
            r.0.remaining() <= 4,
            r.0.restored() == restored@,
            r.0.awaits_persist() <==> r.1 is Persist,
            !(r.1 is Persist) ==> r.0.last_durable() == (record.state, record.recovery_target, record.mutations@),
            !r.0.cleaned(),
            r.0.restoring() is None,
            !r.0.is_escalating() ==> r.0.failure() is None,
            r.0.is_escalating() ==> record.state != JournalState::Cleaning && refused(record, JournalState::Cleaning)
                is Some && r.0.failure() == refused(record, JournalState::Cleaning),
            r.1 is Finish ==> record.state != JournalState::Cleaning && record.state == JournalState::RecoveryRequired
                && refused(record, JournalState::Cleaning) is Some && finishes_required(
                r.1,
                refused(record, JournalState::Cleaning)->0,
                None,
            ),
    {
        if record.state != JournalState::Cleaning {
            let previous = record.state;
            Self::propose(record, JournalState::Cleaning, RecoveryStage::Clean { previous }, restored, Ghost(false))
        } else {
            (RecoveryMachine { record, stage: RecoveryStage::Cleanup, failure: None, restored, cleaned: Ghost(false) }, RecoveryAction::Cleanup)
        }
    }

    /// Starts recovering a loaded journal whose paths were reopened as `entries` and locked:
    /// toward commit it verifies the committed results; toward rollback it first rolls back
    /// what may be visible, when the journal's state asks for it, and then verifies.
    pub fn start(record: JournalRecord, entries: usize) -> (r: (RecoveryMachine, RecoveryAction))
        ensures
            r.0.wf(),
            r.0.is_finished() <==> r.1 is Finish,
            recovery_write_ahead(r.0.journal(), r.0.last_durable(), r.1),
            r.1 is Persist ==> generation_admitted(r.0.last_durable(), r.0.journal()),
            route_of(record) is Commit ==> r.1 is VerifyCommitted && r.0.journal() == record,
            route_of(record) == (RecoveryRoute::Rollback { converge: false, cleanup: false }) || route_of(record)
                == (RecoveryRoute::Rollback { converge: false, cleanup: true }) ==> r.1 is VerifyRolledBack
                && r.0.journal() == record,
            route_of(record) matches RecoveryRoute::Rollback { converge: true, .. } && entries
                != record.mutations@.len() ==> !(r.1 is Restore) && !(r.1 is VerifyRolledBack),
            r.0.restored() == rolled_back_marks(record.mutations@),
            r.0.awaits_persist() <==> r.1 is Persist,
            r.0.restoring() == (match r.1 {
                RecoveryAction::Restore { index } => Some(index),
                _ => None::<usize>,
            }),
            !r.0.is_escalating() ==> r.0.failure() is None,
            !r.0.cleaned(),
            r.0.last_durable() == generation_of(record),
            r.0.is_escalating() ==> (entries != record.mutations@.len() && r.0.failure() is Some
                && entry_count_failure(r.0.failure()->0)) || (entries == record.mutations@.len() && r.0.failure()
                == refused(record, JournalState::RollingBack)),
            r.1 is Finish ==> record.state == JournalState::RecoveryRequired && required_failures(r.1) is Some,
            required_failures(r.1) matches Some((f, g)) ==> g is None && ((entries != record.mutations@.len()
                && entry_count_failure(f)) || (entries == record.mutations@.len() && refused(
                record,
                JournalState::RollingBack,
            ) == Some(f))),
    {
        let restored: Ghost<Set<int>> = Ghost(rolled_back_marks(record.mutations@));
        match recovery_route(&record) {
            RecoveryRoute::Commit { cleanup } => (
                RecoveryMachine { record, stage: RecoveryStage::VerifyCommitted { cleanup }, failure: None, restored, cleaned: Ghost(false) },
                RecoveryAction::VerifyCommitted,
            ),
            RecoveryRoute::Rollback { converge, cleanup } => {
                if !converge {
                    return (
                        RecoveryMachine { record, stage: RecoveryStage::VerifyRolledBack { cleanup }, failure: None, restored, cleaned: Ghost(false) },
                        RecoveryAction::VerifyRolledBack,
                    );
                }
                match check_rollback_entries(entries, record.mutations.len()) {
                    Ok(()) => {},
                    Err(error) => {
                        return Self::escalate(record, RecoveryFailure::FileSystem(error), restored, Ghost(false));
                    },
                }
                if record.state != JournalState::RollingBack {
                    let previous = record.state;
                    Self::propose(record, JournalState::RollingBack, RecoveryStage::RollBegin { previous }, restored, Ghost(false))
                } else {
                    let count = record.mutations.len();
                    Self::next_rollback(record, count, restored)
                }
            },
        }
    }

    /// Recovery that cannot begin, because reopening or locking the transaction failed: the
    /// journal is escalated to `RecoveryRequired`.
    pub fn abandon(record: JournalRecord, failure: RecoveryFailure) -> (r: (RecoveryMachine, RecoveryAction))
        ensures
            r.0.wf(),
            r.0.is_finished() <==> r.1 is Finish,
            recovery_write_ahead(r.0.journal(), r.0.last_durable(), r.1),
            r.1 is Persist ==> generation_admitted(r.0.last_durable(), r.0.journal()),
            !(r.1 is Restore) && !(r.1 is Cleanup) && !(r.1 is VerifyCommitted) && !(r.1 is VerifyRolledBack),
            r.0.restored() == rolled_back_marks(record.mutations@),
            r.0.awaits_persist() <==> r.1 is Persist,
            r.1 is Persist ==> r.0.is_escalating() && r.0.failure() == Some(failure),
            r.1 is Finish ==> record.state == JournalState::RecoveryRequired && finishes_required(r.1, failure, None),
            !r.0.cleaned(),
            r.0.last_durable() == generation_of(record),
    {
        let restored: Ghost<Set<int>> = Ghost(rolled_back_marks(record.mutations@));
        Self::escalate(record, failure, restored, Ghost(false))
    }
}


impl RecoveryMachine {
    /// The next decision after the last action: on success the next step of the verification,
    /// the rollback or the cleanup; on a failure the durable generation stays what it was and
    /// the journal is escalated to `RecoveryRequired`, keeping every artifact as evidence.
    pub fn advance(self, event: RecoveryEvent) -> (r: (RecoveryMachine, RecoveryAction))
        requires
            self.wf(),
            !self.is_finished(),
        ensures
            r.0.wf(),
            r.0.is_finished() <==> r.1 is Finish,
            recovery_write_ahead(r.0.journal(), r.0.last_durable(), r.1),
            r.1 is Persist ==> generation_admitted(r.0.last_durable(), r.0.journal()),
            r.1 is Persist && event is Succeeded ==> r.0.last_durable() == generation_of(self.journal()),
            r.1 is Persist && event is Failed ==> r.0.last_durable() == self.last_durable(),
            r.0.remaining() < self.remaining(),
            r.0.restoring() == (match r.1 {
                RecoveryAction::Restore { index } => Some(index),
                _ => None::<usize>,
            }),
            r.0.restored() == (if event is Succeeded && self.restoring() is Some {
                self.restored().insert(self.restoring()->0 as int)
            } else {
                self.restored()
            }),
            marks_within(r.0.journal().mutations@, MutationProgress::RolledBack, r.0.restored()),
            r.1 matches RecoveryAction::Finish {
                result: Err(RecoveryError::RecoveryRequired { failure: f, record_failure: g, .. }),
            } ==> (if self.is_escalating() {
                self.failure() == Some(f) && g == failure_of(event)
            } else {
                g is None && self.last_durable().0 == JournalState::RecoveryRequired && (if event is Failed {
                    failure_of(event) == Some(f)
                } else {
                    self.refusal() == Some(f)
                })
            }),
            r.0.is_escalating() && !self.is_escalating() ==> r.0.failure() == (if event is Failed {
                failure_of(event)
            } else {
                self.refusal()
            }) && r.0.failure() is Some,
            !r.0.is_escalating() ==> r.0.failure() is None,
            r.0.cleaned() == (self.cleaned() || (event is Succeeded && self.is_cleaning_up())),
            event is Succeeded && self.journal().state == JournalState::Complete ==> r.1 matches RecoveryAction::Finish {
                result: Ok(_),
            },
            r.0.awaits_persist() <==> r.1 is Persist,
            r.0.last_durable() == (if event is Succeeded && self.awaits_persist() {
                generation_of(self.journal())
            } else {
                self.last_durable()
            }),
            r.1 matches RecoveryAction::Finish { result: Ok(_) } ==> r.0.cleaned() || self.last_durable().0
                == JournalState::Complete,
            event is Failed && !self.is_escalating() ==> r.0.is_escalating() || (r.1 is Finish && r.1->result is Err),
    {
        match event {
            RecoveryEvent::Succeeded => self.succeed(),
            RecoveryEvent::Failed { failure } => self.fail(failure),
        }
    }

    /// The next decision once the awaited step succeeded.
    fn succeed(self) -> (r: (RecoveryMachine, RecoveryAction))
        requires
            self.wf(),
            !self.is_finished(),
        ensures
            r.0.wf(),
            r.0.is_finished() <==> r.1 is Finish,
            recovery_write_ahead(r.0.journal(), r.0.last_durable(), r.1),
            r.1 is Persist ==> generation_admitted(r.0.last_durable(), r.0.journal()),
            r.0.remaining() < self.remaining(),
            r.0.restoring() == (match r.1 {
                RecoveryAction::Restore { index } => Some(index),
                _ => None::<usize>,
            }),
            marks_within(r.0.journal().mutations@, MutationProgress::RolledBack, r.0.restored()),
            !r.0.is_escalating() ==> r.0.failure() is None,
            r.1 is Persist ==> r.0.last_durable() == generation_of(self.journal()),
            r.0.restored() == (if self.restoring() is Some {
                self.restored().insert(self.restoring()->0 as int)
            } else {
                self.restored()
            }),
            r.1 matches RecoveryAction::Finish {
                result: Err(RecoveryError::RecoveryRequired { failure: f, record_failure: g, .. }),
            } ==> g is None && (if self.is_escalating() {
                self.failure() == Some(f)
            } else {
                self.last_durable().0 == JournalState::RecoveryRequired && self.refusal() == Some(f)
            }),
            r.0.is_escalating() && !self.is_escalating() ==> r.0.failure() == self.refusal() && r.0.failure() is Some,
            r.0.cleaned() == (self.cleaned() || self.is_cleaning_up()),
            self.journal().state == JournalState::Complete ==> r.1 matches RecoveryAction::Finish { result: Ok(_) },
            r.0.awaits_persist() <==> r.1 is Persist,
            r.0.last_durable() == (if self.awaits_persist() {
                generation_of(self.journal())
            } else {
                self.last_durable()
            }),
            r.1 matches RecoveryAction::Finish { result: Ok(_) } ==> r.0.cleaned() || self.last_durable().0
                == JournalState::Complete,
    {
        let RecoveryMachine { record, stage, failure, restored, cleaned } = self;
        let mut record = record;
        let ghost ms = record.mutations@;
        match stage {
            RecoveryStage::VerifyCommitted { cleanup } => {
                if cleanup {
                    Self::begin_cleaning(record, restored)
                } else {
                    Self::recovered(record, restored, cleaned)
                }
            },
            RecoveryStage::RollBegin { .. } => {
                let count = record.mutations.len();
                Self::next_rollback(record, count, restored)
            },
            RecoveryStage::RollMark { index, .. } => (
                RecoveryMachine { record, stage: RecoveryStage::Restore { index }, failure: None, restored, cleaned: Ghost(false) },
                RecoveryAction::Restore { index },
            ),
            RecoveryStage::Restore { index } => {
                move_progress(&mut record, index, MutationProgress::RolledBack);
                proof {
                    let updated = record.mutations@;
                    assert(updated.update(
                        index as int,
                        JournalMutation { progress: MutationProgress::RollingBack, ..updated[index as int] },
                    ) =~= ms);
                    assert(updated =~= ms.update(
                        index as int,
                        JournalMutation { progress: updated[index as int].progress, ..ms[index as int] },
                    ));
                }
                (
                    RecoveryMachine {
                        record,
                        stage: RecoveryStage::RollDone { index },
                        failure: None,
                        restored: Ghost(restored@.insert(index as int)),
                        cleaned: Ghost(false),
                    },
                    RecoveryAction::Persist,
                )
            },
            RecoveryStage::RollDone { index } => Self::next_rollback(record, index, restored),
            RecoveryStage::RollEnd => (
                RecoveryMachine { record, stage: RecoveryStage::VerifyRolledBack { cleanup: true }, failure: None, restored, cleaned: Ghost(false) },
                RecoveryAction::VerifyRolledBack,
            ),
            RecoveryStage::VerifyRolledBack { cleanup } => {
                if cleanup {
                    Self::begin_cleaning(record, restored)
                } else {
                    Self::recovered(record, restored, cleaned)
                }
            },
            RecoveryStage::Clean { .. } => (
                RecoveryMachine { record, stage: RecoveryStage::Cleanup, failure: None, restored, cleaned: Ghost(false) },
                RecoveryAction::Cleanup,
            ),
            RecoveryStage::Cleanup => Self::propose(record, JournalState::Complete, RecoveryStage::Complete, restored, Ghost(true)),
            RecoveryStage::Complete => Self::recovered(record, restored, cleaned),
            RecoveryStage::Escalate { .. } | RecoveryStage::Finished => Self::required(
                record,
                failure.unwrap(),
                None,
                restored,
                cleaned,
            ),
        }
    }

    /// The next decision once the awaited step failed: the durable generation stays what it
    /// was and the journal is escalated.
    fn fail(self, failed: RecoveryFailure) -> (r: (RecoveryMachine, RecoveryAction))
        requires
            self.wf(),
            !self.is_finished(),
        ensures
            r.0.wf(),
            r.0.is_finished() <==> r.1 is Finish,
            recovery_write_ahead(r.0.journal(), r.0.last_durable(), r.1),
            r.1 is Persist ==> generation_admitted(r.0.last_durable(), r.0.journal()),
            r.0.remaining() < self.remaining(),
            r.0.restoring() == (match r.1 {
                RecoveryAction::Restore { index } => Some(index),
                _ => None::<usize>,
            }),
            marks_within(r.0.journal().mutations@, MutationProgress::RolledBack, r.0.restored()),
            !r.0.is_escalating() ==> r.0.failure() is None,
            r.1 is Persist ==> r.0.last_durable() == self.last_durable(),
            r.0.restored() == self.restored(),
            r.1 matches RecoveryAction::Finish {
                result: Err(RecoveryError::RecoveryRequired { failure: f, record_failure: g, .. }),
            } ==> (if self.is_escalating() {
                self.failure() == Some(f) && g == Some(failed)
            } else {
                g is None && self.last_durable().0 == JournalState::RecoveryRequired && f == failed
            }),
            r.0.is_escalating() && !self.is_escalating() ==> r.0.failure() == Some(failed),
            r.0.cleaned() == self.cleaned(),
            r.0.awaits_persist() <==> r.1 is Persist,
            r.0.last_durable() == self.last_durable(),
            !self.is_escalating() ==> r.0.is_escalating() || (r.1 is Finish && r.1->result is Err),
            r.1 is Finish ==> r.1->result is Err,
    {
        let RecoveryMachine { record, stage, failure, restored, cleaned } = self;
        let mut record = record;
        match stage {
            RecoveryStage::VerifyCommitted { .. } | RecoveryStage::Finished => Self::escalate(record, failed, restored, cleaned),
            RecoveryStage::RollBegin { previous } => {
                record.state = previous;
                Self::escalate(record, failed, restored, cleaned)
            },
            RecoveryStage::RollMark { index, previous } => {
                record.reset_progress(index, previous);
                Self::escalate(record, failed, restored, cleaned)
            },
            RecoveryStage::Restore { .. } => Self::escalate(record, failed, restored, cleaned),
            RecoveryStage::RollDone { index } => {
                record.reset_progress(index, MutationProgress::RollingBack);
                Self::escalate(record, failed, restored, cleaned)
            },
            RecoveryStage::RollEnd => {
                record.state = JournalState::RollingBack;
                Self::escalate(record, failed, restored, cleaned)
            },
            RecoveryStage::VerifyRolledBack { .. } => Self::escalate(record, failed, restored, cleaned),
            RecoveryStage::Clean { previous } => {
                record.state = previous;
                Self::escalate(record, failed, restored, cleaned)
            },
            RecoveryStage::Cleanup => Self::escalate(record, failed, restored, cleaned),
            RecoveryStage::Complete => {
                record.state = JournalState::Cleaning;
                Self::escalate(record, failed, restored, cleaned)
            },
            RecoveryStage::Escalate { previous } => {
                record.state = previous;
                Self::required(record, failure.unwrap(), Some(failed), restored, cleaned)
            },
        }
    }
}

} // verus!
