//! What guarded steps promise: a step that finished is recognised as finished when it runs
//! again, and a step only touches an entry that holds what it guards or nothing at all.
use vstd::prelude::*;

use crate::guarded_steps::accepts;
use crate::guarded_steps::create_step_of;
use crate::guarded_steps::exchange_check_of;
use crate::guarded_steps::exchange_step_of;
use crate::guarded_steps::move_step_of;
use crate::guarded_steps::removal_step_of;
use crate::guarded_steps::restore_move_step_of;
use crate::guarded_steps::restore_removed_step_of;
use crate::guarded_steps::shows;
use crate::guarded_steps::shows_linked;
use crate::guarded_steps::source_restored;
use crate::guarded_steps::ExchangeCheck;
use crate::guarded_steps::ExchangeStep;
use crate::guarded_steps::Guard;
use crate::guarded_steps::LinkStep;
use crate::guarded_steps::MoveStep;
use crate::guarded_steps::RemovalStep;
use crate::guarded_steps::RestoreMoveStep;
use crate::observation::FileEvidence;
use crate::observation::ObservedEvidence;

verus! {

/// A guarded removal that finished, with the entry and its parking place both empty, is done
/// when it runs again; it only moves aside an entry its guard accepts, into an empty place.
pub proof fn lemma_removal_is_replayable(guard: Guard, entry: ObservedEvidence, parked: ObservedEvidence)
    ensures
        removal_step_of(guard, ObservedEvidence::Absent, ObservedEvidence::Absent) == RemovalStep::AlreadyApplied,
        removal_step_of(guard, entry, parked) == RemovalStep::MoveAside ==> accepts(guard, entry) && parked is Absent,
        removal_step_of(guard, entry, parked) == RemovalStep::FinishRemoval ==> entry is Absent && accepts(
            guard,
            parked,
        ),
{
}

/// A guarded exchange that finished, with the artifact in place and nothing parked, is done
/// when it runs again; it only exchanges a destination that holds the displaced file, with an
/// empty parking place or the artifact parked there.
pub proof fn lemma_exchange_is_replayable(
    desired: Option<FileEvidence>,
    displaced: Guard,
    destination: ObservedEvidence,
    parked: ObservedEvidence,
)
    ensures
        shows_linked(desired, destination) ==> exchange_step_of(desired, displaced, destination, ObservedEvidence::Absent)
            == ExchangeStep::AlreadyApplied,
        exchange_step_of(desired, displaced, destination, parked) == ExchangeStep::LinkAndExchange ==> accepts(
            displaced,
            destination,
        ) && parked is Absent,
        exchange_step_of(desired, displaced, destination, parked) == ExchangeStep::Exchange ==> accepts(
            displaced,
            destination,
        ) && shows_linked(desired, parked),
        exchange_step_of(desired, displaced, destination, parked) == ExchangeStep::FinishExchange ==> shows_linked(
            desired,
            destination,
        ) && accepts(displaced, parked),
        exchange_check_of(desired, displaced, destination, parked) == ExchangeCheck::Finish ==> exchange_step_of(
            desired,
            displaced,
            destination,
            parked,
        ) == ExchangeStep::FinishExchange,
{
}

/// A create whose staged file is linked at the destination is done when it runs again; it
/// only links into an empty destination.
pub proof fn lemma_create_is_replayable(staged: FileEvidence, staged_now: Option<FileEvidence>, destination: ObservedEvidence)
    ensures
        shows_linked(staged_now, destination) ==> create_step_of(staged, staged_now, destination)
            == LinkStep::AlreadyApplied,
        create_step_of(staged, staged_now, destination) == LinkStep::Link ==> destination is Absent
            && staged.link_count == 1,
{
}

/// A move whose source is gone and whose staged file is linked at the destination is done
/// when it runs again; it only links or removes while the source holds its before-image.
pub proof fn lemma_move_is_replayable(
    staged_now: Option<FileEvidence>,
    expected: FileEvidence,
    source: ObservedEvidence,
    destination: ObservedEvidence,
)
    ensures
        shows_linked(staged_now, destination) ==> move_step_of(staged_now, expected, ObservedEvidence::Absent, destination)
            == MoveStep::AlreadyApplied,
        move_step_of(staged_now, expected, source, destination) == MoveStep::LinkThenRemoveSource ==> shows(
            source,
            expected,
        ) && destination is Absent,
        move_step_of(staged_now, expected, source, destination) == MoveStep::RemoveSource ==> shows(source, expected)
            && shows_linked(staged_now, destination),
{
}

/// Restoring a removal or undoing a move is done once the source holds its before-image or
/// backup (and, for a move, the destination is empty); each links the backup only into an
/// empty source.
pub proof fn lemma_restores_are_replayable(
    backup_now: Option<FileEvidence>,
    staged_now: Option<FileEvidence>,
    expected: FileEvidence,
    source: ObservedEvidence,
    destination: ObservedEvidence,
)
    ensures
        source_restored(backup_now, expected, source) ==> restore_removed_step_of(backup_now, expected, source)
            == LinkStep::AlreadyApplied,
        restore_removed_step_of(backup_now, expected, source) == LinkStep::Link ==> source is Absent,
        source_restored(backup_now, expected, source) ==> restore_move_step_of(
            backup_now,
            staged_now,
            expected,
            source,
            ObservedEvidence::Absent,
        ) == RestoreMoveStep::AlreadyApplied,
        restore_move_step_of(backup_now, staged_now, expected, source, destination)
            == RestoreMoveStep::LinkBackupThenRemoveDestination ==> source is Absent && shows_linked(
            staged_now,
            destination,
        ),
{
}

} // verus!
