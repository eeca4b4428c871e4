use vstd::prelude::*;

use crate::journal::JournalRecord;
use crate::journal::JournalState;
use crate::keys::DurableTransactionKey;
use crate::recovery::key_problem;
use crate::recovery::route_of;
use crate::recovery::scan_verdict;
use crate::recovery::RecoveryRoute;
use crate::request::TransactionLimits;

verus! {

/// The recovery scan accepts no key twice: two accepted entries hold different keys.
pub proof fn lemma_scan_accepts_each_key_once(
    keys: Seq<DurableTransactionKey>,
    limits: TransactionLimits,
    i: int,
    j: int,
)
    requires
        0 <= i < keys.len(),
        0 <= j < keys.len(),
        i != j,
        scan_verdict(keys, i, limits) is None,
        scan_verdict(keys, j, limits) is None,
    ensures
        keys[i]@ != keys[j]@,
{
    if keys[i]@ == keys[j]@ {
        if i < j {
            assert(0 <= i < j && key_problem(keys[i]@, limits) is None && keys[i]@ == keys[j]@);
        } else {
            assert(0 <= j < i && key_problem(keys[j]@, limits) is None && keys[j]@ == keys[i]@);
        }
    }
}

/// Invalid and repeated entries never starve a valid key: every valid key the scan returns is
/// accepted at its first occurrence, at or before the entry itself.
pub proof fn lemma_scan_accepts_every_valid_key(keys: Seq<DurableTransactionKey>, limits: TransactionLimits, i: int)
    requires
        0 <= i < keys.len(),
        key_problem(keys[i]@, limits) is None,
    ensures
        exists|j: int| 0 <= j <= i && #[trigger] scan_verdict(keys, j, limits) is None && keys[j]@ == keys[i]@,
    decreases i,
{
    if scan_verdict(keys, i, limits) is None {
        assert(scan_verdict(keys, i, limits) is None && keys[i]@ == keys[i]@);
    } else {
        let k = choose|k: int| 0 <= k < i && key_problem(#[trigger] keys[k]@, limits) is None && keys[k]@ == keys[i]@;
        lemma_scan_accepts_every_valid_key(keys, limits, k);
        let j = choose|j: int| 0 <= j <= k && #[trigger] scan_verdict(keys, j, limits) is None && keys[j]@ == keys[k]@;
        assert(0 <= j <= i && scan_verdict(keys, j, limits) is None && keys[j]@ == keys[i]@);
    }
}

/// Recovering a complete journal changes nothing: it is only verified, never rolled back or
/// cleaned up again, so recovery is idempotent.
pub proof fn lemma_completed_recovery_changes_nothing(record: JournalRecord)
    requires
        record.state == JournalState::Complete,
    ensures
        (route_of(record) == (RecoveryRoute::Commit { cleanup: false })) || (route_of(record)
            == (RecoveryRoute::Rollback { converge: false, cleanup: false })),
{
}

/// A journal left before its commit or during its rollback is always converged by rollback,
/// then cleaned up.
pub proof fn lemma_interrupted_rollback_converges(record: JournalRecord)
    requires
        record.recovery_target == crate::journal::RecoveryTarget::Rollback,
        record.state == JournalState::RollingBack || record.state == JournalState::Preparing
            || record.state == JournalState::Prepared || record.state == JournalState::Committing,
    ensures
        route_of(record) == (RecoveryRoute::Rollback { converge: true, cleanup: true }),
{
}

} // verus!
