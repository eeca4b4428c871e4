use vstd::prelude::*;

use crate::journal::JournalMutation;
use crate::journal::JournalRecord;
use crate::journal::JournalState;
use crate::journal::MutationProgress;
use crate::journal::RecoveryTarget;
use crate::journal::all_in;
use crate::journal::committing_set;
use crate::journal::manifest_bytes;
use crate::journal::only_applied;
use crate::journal::operations_bytes;
use crate::journal::rolled_back_set;
use crate::journal::state_step;
use crate::recovery::step_for;
use crate::recovery::terminal_rollback;
use crate::recovery::RollbackStep;

verus! {

proof fn lemma_operations_bytes_ignore_progress(ms: Seq<JournalMutation>, i: int, p: MutationProgress)
    requires
        0 <= i < ms.len(),
    ensures
        operations_bytes(ms.update(i, JournalMutation { progress: p, ..ms[i] })) == operations_bytes(ms),
    decreases ms.len(),
{
    let updated = ms.update(i, JournalMutation { progress: p, ..ms[i] });
    if i == ms.len() - 1 {
        assert(updated.drop_last() =~= ms.drop_last());
    } else {
        lemma_operations_bytes_ignore_progress(ms.drop_last(), i, p);
        assert(updated.drop_last() =~= ms.drop_last().update(i, JournalMutation { progress: p, ..ms[i] }));
    }
}

/// Every transition that `transition` accepts keeps a valid journal record valid.
pub proof fn lemma_transition_preserves_validity(record: JournalRecord, next: JournalState)
    requires
        record.valid(),
        record.transition_error(next) is None,
    ensures
        record.after_transition(next).valid(),
{
    assert(manifest_bytes(record.after_transition(next)) == manifest_bytes(record));
}

/// Every progress step that `set_mutation_progress` accepts keeps a valid journal record valid.
pub proof fn lemma_progress_step_preserves_validity(
    record: JournalRecord,
    index: usize,
    next: MutationProgress,
    updated: JournalRecord,
)
    requires
        record.valid(),
        record.progress_error(index, next) is None,
        updated == (JournalRecord { mutations: updated.mutations, ..record }),
        updated.mutations@ == record.mutations@.update(
            index as int,
            JournalMutation { progress: next, ..record.mutations@[index as int] },
        ),
    ensures
        updated.valid(),
{
    lemma_operations_bytes_ignore_progress(record.mutations@, index as int, next);
    assert(manifest_bytes(updated) == manifest_bytes(record));
    let ms = record.mutations@;
    let us = updated.mutations@;
    assert forall|j: int| 0 <= j < us.len() implies #[trigger] committing_set().has(us[j].progress)
        || record.state != JournalState::Committing by {
        if record.state == JournalState::Committing && j != index {
            assert(committing_set().has(ms[j].progress));
        }
    }
}

/// Once a journal has durably committed, its recovery target stays `Commit`.
pub proof fn lemma_commit_target_is_permanent(record: JournalRecord, next: JournalState)
    requires
        record.recovery_target == RecoveryTarget::Commit,
    ensures
        record.after_transition(next).recovery_target == RecoveryTarget::Commit,
{
}

/// Entering `Committed` always fixes the recovery target to `Commit`.
pub proof fn lemma_committed_fixes_commit_target(record: JournalRecord)
    ensures
        record.after_transition(JournalState::Committed).recovery_target == RecoveryTarget::Commit,
{
}

/// A valid `Committed` journal has applied every mutation.
pub proof fn lemma_committed_means_all_applied(record: JournalRecord)
    requires
        record.valid(),
        record.state == JournalState::Committed,
    ensures
        forall|i: int|
            0 <= i < record.mutations@.len() ==> #[trigger] record.mutations@[i].progress
                == MutationProgress::Applied,
{
    assert forall|i: int| 0 <= i < record.mutations@.len() implies #[trigger] record.mutations@[i].progress
        == MutationProgress::Applied by {
        assert(only_applied().has(record.mutations@[i].progress));
    }
}

/// A valid terminal journal agrees with its target: a commit applied everything, a rollback
/// left every mutation pending or rolled back.
pub proof fn lemma_complete_agrees_with_target(record: JournalRecord)
    requires
        record.valid(),
        record.state == JournalState::Complete,
    ensures
        record.recovery_target == RecoveryTarget::Commit ==> all_in(record.mutations@, only_applied()),
        record.recovery_target == RecoveryTarget::Rollback ==> all_in(
            record.mutations@,
            rolled_back_set(),
        ),
{
}

/// The only way out of `Complete` is to `RecoveryRequired`.
pub proof fn lemma_complete_is_terminal(next: JournalState)
    requires
        state_step(JournalState::Complete, next),
    ensures
        next == JournalState::RecoveryRequired,
{
}

/// Any state except `Complete`'s own successor and `RecoveryRequired` itself may escalate to
/// `RecoveryRequired`, whatever the progress: escalation is never refused.
pub proof fn lemma_recovery_required_always_reachable(record: JournalRecord)
    requires
        record.state != JournalState::RecoveryRequired,
    ensures
        record.transition_error(JournalState::RecoveryRequired) is None,
{
}

/// A recovery-required journal can resume rollback exactly when its target is rollback.
pub proof fn lemma_resume_rollback_only_toward_rollback(record: JournalRecord)
    requires
        record.state == JournalState::RecoveryRequired,
    ensures
        (record.transition_error(JournalState::RollingBack) is None) <==> record.recovery_target
            == RecoveryTarget::Rollback,
{
}

/// In `Committing`, a pending mutation may be marked committing, and a committing one applied.
pub proof fn lemma_commit_steps_admitted(record: JournalRecord, index: usize)
    requires
        record.state == JournalState::Committing,
        index < record.mutations@.len(),
    ensures
        record.mutations@[index as int].progress == MutationProgress::Pending ==> record.progress_error(
            index,
            MutationProgress::Committing,
        ) is None,
        record.mutations@[index as int].progress == MutationProgress::Committing
            ==> record.progress_error(index, MutationProgress::Applied) is None,
{
}

/// A `Committing` journal whose mutations are all applied may enter `Committed`.
pub proof fn lemma_all_applied_may_commit(record: JournalRecord)
    requires
        record.state == JournalState::Committing,
        all_in(record.mutations@, only_applied()),
    ensures
        record.transition_error(JournalState::Committed) is None,
{
}


/// In `RollingBack`, the step that rollback chooses for a mutation is always admitted: one
/// that may have become visible is first marked rolling back, and a rolling-back one may then
/// be marked rolled back; untouched and finished mutations are left alone.
pub proof fn lemma_rollback_steps_admitted(record: JournalRecord, index: usize)
    requires
        record.state == JournalState::RollingBack,
        index < record.mutations@.len(),
    ensures
        step_for(record.mutations@[index as int].progress) == RollbackStep::MarkAndRestore
            ==> record.progress_error(index, MutationProgress::RollingBack) is None,
        step_for(record.mutations@[index as int].progress) == RollbackStep::Restore
            ==> record.progress_error(index, MutationProgress::RolledBack) is None,
        step_for(record.mutations@[index as int].progress) == RollbackStep::Skip ==> (
        record.mutations@[index as int].progress == MutationProgress::Pending
            || record.mutations@[index as int].progress == MutationProgress::RolledBack),
{
}

/// A `RollingBack` journal toward rollback whose mutations are all untouched or rolled back
/// may enter `RolledBack`.
pub proof fn lemma_rolled_back_may_finish(record: JournalRecord)
    requires
        record.state == JournalState::RollingBack,
        record.recovery_target == RecoveryTarget::Rollback,
        terminal_rollback(record.mutations@),
    ensures
        record.transition_error(JournalState::RolledBack) is None,
{
    assert(all_in(record.mutations@, rolled_back_set()));
}

/// Every journal that has not durably committed and is not finished can start rolling back,
/// whatever its mutations' progress.
pub proof fn lemma_uncommitted_may_start_rollback(record: JournalRecord)
    requires
        record.state == JournalState::Preparing || record.state == JournalState::Prepared
            || record.state == JournalState::Committing || (record.state == JournalState::RecoveryRequired
            && record.recovery_target == RecoveryTarget::Rollback),
        record.state != JournalState::RecoveryRequired ==> record.recovery_target == RecoveryTarget::Rollback,
    ensures
        record.transition_error(JournalState::RollingBack) is None,
{
}

} // verus!
