use vstd::prelude::*;

use crate::capability::GuardedMutation;
use crate::capability::GuardedRollback;
use crate::journal::DurableFileEvidence;
use crate::journal::JournalOperation;
use crate::keys::DurablePathKey;
use crate::observation::FileEvidence;
use crate::observation::ObservedFile;
use crate::request::PlannedMutation;

verus! {

/// A staged mutation together with the journal operation that records it.
pub struct PreparedEntry<P, S, B> {
    pub mutation: PreparedMutation<P, S, B>,
    pub journal: JournalOperation,
}

/// A mutation whose after-image is staged and whose before-image is backed up.
pub enum PreparedMutation<P, S, B> {
    Create { destination: P, staged: S },
    Replace { destination: P, expected: FileEvidence, staged: S, backup: B },
    Remove { source: P, expected: FileEvidence, backup: B },
    Move { source: P, expected: FileEvidence, destination: P, staged: S, backup: B },
}

/// Evidence of an observed file agrees with the file, contents aside.
pub open spec fn evidence_of(e: FileEvidence, f: ObservedFile) -> bool {
    &&& e.exact_digest.bytes() == f.exact_digest.bytes()
    &&& e.identity@ == f.identity@
    &&& e.metadata.namespace@ == f.metadata.namespace@
    &&& e.metadata.value@ == f.metadata.value@
    &&& e.metadata.fingerprint.bytes() == f.metadata.fingerprint.bytes()
    &&& e.link_count == f.link_count
    &&& e.kind == f.kind
}

impl<P, S, B> PreparedMutation<P, S, B> {
    /// The guarded forward mutation: the same paths, evidence, staged file and backup; a move
    /// always carries its staged file.
    pub fn guarded(&self) -> (r: GuardedMutation<'_, P, S, B>)
        ensures
            match *self {
                PreparedMutation::Create { destination, staged } => r matches GuardedMutation::Create {
                    destination: d,
                    staged: s,
                } && *d == destination && *s == staged,
                PreparedMutation::Replace { destination, expected, staged, backup } => r matches GuardedMutation::Replace {
                    destination: d,
                    expected: e,
                    staged: s,
                    backup: b,
                } && *d == destination && *e == expected && *s == staged && *b == backup,
                PreparedMutation::Remove { source, expected, backup } => r matches GuardedMutation::Remove {
                    source: src,
                    expected: e,
                    backup: b,
                } && *src == source && *e == expected && *b == backup,
                PreparedMutation::Move { source, expected, destination, staged, backup } => r matches GuardedMutation::Move {
                    source: src,
                    expected: e,
                    destination: d,
                    staged: Some(s),
                    backup: b,
                } && *src == source && *e == expected && *d == destination && *s == staged && *b
                    == backup,
            },
    {
        match self {
            PreparedMutation::Create { destination, staged } => GuardedMutation::Create { destination, staged },
            PreparedMutation::Replace { destination, expected, staged, backup } => GuardedMutation::Replace {
                destination,
                expected,
                staged,
                backup,
            },
            PreparedMutation::Remove { source, expected, backup } => GuardedMutation::Remove {
                source,
                expected,
                backup,
            },
            PreparedMutation::Move { source, expected, destination, staged, backup } => GuardedMutation::Move {
                source,
                expected,
                destination,
                staged: Some(staged),
                backup,
            },
        }
    }

    /// The guarded inverse: remove what a create made, or restore the backup over the staged
    /// result of a replacement, a removal or a move.
    pub fn rollback(&self) -> (r: GuardedRollback<'_, P, S, B>)
        ensures
            match *self {
                PreparedMutation::Create { destination, staged } => r matches GuardedRollback::RemoveCreated {
                    destination: d,
                    staged: s,
                } && *d == destination && *s == staged,
                PreparedMutation::Replace { destination, expected, staged, backup } => r matches GuardedRollback::RestoreReplaced {
                    destination: d,
                    expected: e,
                    staged: s,
                    backup: b,
                } && *d == destination && *e == expected && *s == staged && *b == backup,
                PreparedMutation::Remove { source, expected, backup } => r matches GuardedRollback::RestoreRemoved {
                    source: src,
                    expected: e,
                    backup: b,
                } && *src == source && *e == expected && *b == backup,
                PreparedMutation::Move { source, expected, destination, staged, backup } => r matches GuardedRollback::RestoreMove {
                    source: src,
                    expected: e,
                    destination: d,
                    staged: s,
                    backup: b,
                } && *src == source && *e == expected && *d == destination && *s == staged && *b
                    == backup,
            },
    {
        match self {
            PreparedMutation::Create { destination, staged } => GuardedRollback::RemoveCreated {
                destination,
                staged,
            },
            PreparedMutation::Replace { destination, expected, staged, backup } => GuardedRollback::RestoreReplaced {
                destination,
                expected,
                staged,
                backup,
            },
            PreparedMutation::Remove { source, expected, backup } => GuardedRollback::RestoreRemoved {
                source,
                expected,
                backup,
            },
            PreparedMutation::Move { source, expected, destination, staged, backup } => GuardedRollback::RestoreMove {
                source,
                expected,
                destination,
                staged,
                backup,
            },
        }
    }

    /// The paths whose parent directories must be synced after the mutation or its inverse.
    pub fn parent_paths(&self) -> (r: Vec<&P>)
        ensures
            match *self {
                PreparedMutation::Create { destination, .. } => r@.len() == 1 && *r@[0] == destination,
                PreparedMutation::Replace { destination, .. } => r@.len() == 1 && *r@[0] == destination,
                PreparedMutation::Remove { source, .. } => r@.len() == 1 && *r@[0] == source,
                PreparedMutation::Move { source, destination, .. } => r@.len() == 2 && *r@[0] == source
                    && *r@[1] == destination,
            },
    {
        let mut paths: Vec<&P> = Vec::new();
        match self {
            PreparedMutation::Create { destination, .. } => {
                paths.push(destination);
            },
            PreparedMutation::Replace { destination, .. } => {
                paths.push(destination);
            },
            PreparedMutation::Remove { source, .. } => {
                paths.push(source);
            },
            PreparedMutation::Move { source, destination, .. } => {
                paths.push(source);
                paths.push(destination);
            },
        }
        paths
    }
}

/// A prepared create: the staged after-image and the journal entry naming it.
pub fn prepare_create<P, S, B>(
    destination: P,
    staged: S,
    destination_key: DurablePathKey,
    staged_evidence: DurableFileEvidence,
) -> (r: PreparedEntry<P, S, B>)
    ensures
        r.mutation == (PreparedMutation::<P, S, B>::Create { destination, staged }),
        r.journal == (JournalOperation::Create { destination: destination_key, staged: staged_evidence }),
{
    PreparedEntry {
        mutation: PreparedMutation::Create { destination, staged },
        journal: JournalOperation::Create { destination: destination_key, staged: staged_evidence },
    }
}

/// A prepared update: the evidence of the planned before-image, the staged after-image and
/// the backup, and the journal entry naming all of them.
pub fn prepare_update<P, S, B>(
    path: P,
    before: &ObservedFile,
    staged: S,
    backup: B,
    path_key: DurablePathKey,
    staged_evidence: DurableFileEvidence,
    backup_evidence: DurableFileEvidence,
) -> (r: PreparedEntry<P, S, B>)
    ensures
        r.mutation matches PreparedMutation::Replace { destination, expected, staged: s, backup: b }
            && destination == path && evidence_of(expected, *before) && s == staged && b == backup,
        r.journal matches JournalOperation::Update { path: k, before: e, staged: se, backup: be }
            && k == path_key && evidence_of(e, *before) && se == staged_evidence && be == backup_evidence,
{
    let expected = FileEvidence::from_observed(before);
    let recorded = FileEvidence::from_observed(before);
    PreparedEntry {
        mutation: PreparedMutation::Replace { destination: path, expected, staged, backup },
        journal: JournalOperation::Update {
            path: path_key,
            before: recorded,
            staged: staged_evidence,
            backup: backup_evidence,
        },
    }
}

/// A prepared delete: the evidence of the planned before-image and its backup.
pub fn prepare_delete<P, S, B>(
    path: P,
    before: &ObservedFile,
    backup: B,
    path_key: DurablePathKey,
    backup_evidence: DurableFileEvidence,
) -> (r: PreparedEntry<P, S, B>)
    ensures
        r.mutation matches PreparedMutation::Remove { source, expected, backup: b } && source == path
            && evidence_of(expected, *before) && b == backup,
        r.journal matches JournalOperation::Delete { path: k, before: e, backup: be } && k == path_key
            && evidence_of(e, *before) && be == backup_evidence,
{
    let expected = FileEvidence::from_observed(before);
    let recorded = FileEvidence::from_observed(before);
    PreparedEntry {
        mutation: PreparedMutation::Remove { source: path, expected, backup },
        journal: JournalOperation::Delete { path: path_key, before: recorded, backup: backup_evidence },
    }
}

/// A prepared move: the source's before-image evidence, the after-image staged for the
/// destination, and the source's backup.
pub fn prepare_move<P, S, B>(
    source: P,
    before: &ObservedFile,
    destination: P,
    staged: S,
    backup: B,
    source_key: DurablePathKey,
    destination_key: DurablePathKey,
    staged_evidence: DurableFileEvidence,
    backup_evidence: DurableFileEvidence,
) -> (r: PreparedEntry<P, S, B>)
    ensures
        r.mutation matches PreparedMutation::Move {
            source: src,
            expected,
            destination: d,
            staged: s,
            backup: b,
        } && src == source && evidence_of(expected, *before) && d == destination && s == staged && b
            == backup,
        r.journal matches JournalOperation::Move {
            source: sk,
            destination: dk,
            before: e,
            staged: se,
            backup: be,
        } && sk == source_key && dk == destination_key && evidence_of(e, *before) && se
            == staged_evidence && be == backup_evidence,
{
    let expected = FileEvidence::from_observed(before);
    let recorded = FileEvidence::from_observed(before);
    PreparedEntry {
        mutation: PreparedMutation::Move { source, expected, destination, staged, backup },
        journal: JournalOperation::Move {
            source: source_key,
            destination: destination_key,
            before: recorded,
            staged: staged_evidence,
            backup: backup_evidence,
        },
    }
}

/// What preparing one planned mutation writes, in order: the after-image staged for a path,
/// carrying the metadata of the before-image it replaces, then the backup of a path's
/// before-image; and the paths whose durable keys its journal entry names.
pub struct Preparation<'a, P> {
    pub stage: Option<(&'a P, &'a Vec<u8>, Option<&'a ObservedFile>)>,
    pub backup: Option<(&'a P, &'a ObservedFile)>,
    pub keyed: Vec<&'a P>,
}

/// What preparing each kind of mutation writes: a create stages its contents; an update
/// stages its contents over the before-image and backs the before-image up; a delete backs
/// up; a move stages its contents at the destination over the source's before-image and
/// backs up the source.
pub open spec fn preparation_matches<'a, P>(m: PlannedMutation<P>, p: Preparation<'a, P>) -> bool {
    match m {
        PlannedMutation::Create { path, contents, .. } => match (p.stage, p.backup) {
            (Some((d, c, b)), None) => *d == path && *c == contents && b is None && p.keyed@.len() == 1
                && *p.keyed@[0] == path,
            _ => false,
        },
        PlannedMutation::Update { path, before, contents, .. } => match (p.stage, p.backup) {
            (Some((d, c, b)), Some((s, e))) => *d == path && *c == contents && b == Some(&before) && *s == path
                && *e == before && p.keyed@.len() == 1 && *p.keyed@[0] == path,
            _ => false,
        },
        PlannedMutation::Delete { path, before, .. } => match (p.stage, p.backup) {
            (None, Some((s, e))) => *s == path && *e == before && p.keyed@.len() == 1 && *p.keyed@[0] == path,
            _ => false,
        },
        PlannedMutation::Move { source, before, destination, contents, .. } => match (p.stage, p.backup) {
            (Some((d, c, b)), Some((s, e))) => *d == destination && *c == contents && b == Some(&before) && *s
                == source && *e == before && p.keyed@.len() == 2 && *p.keyed@[0] == source && *p.keyed@[1]
                == destination,
            _ => false,
        },
    }
}

/// What preparing a planned mutation writes.
pub fn preparation_of<'a, P>(m: &'a PlannedMutation<P>) -> (r: Preparation<'a, P>)
    ensures
        preparation_matches(*m, r),
{
    let mut keyed: Vec<&'a P> = Vec::new();
    match m {
        PlannedMutation::Create { path, contents, .. } => {
            keyed.push(path);
            Preparation { stage: Some((path, contents, None)), backup: None, keyed }
        },
        PlannedMutation::Update { path, before, contents, .. } => {
            keyed.push(path);
            Preparation { stage: Some((path, contents, Some(before))), backup: Some((path, before)), keyed }
        },
        PlannedMutation::Delete { path, before, .. } => {
            keyed.push(path);
            Preparation { stage: None, backup: Some((path, before)), keyed }
        },
        PlannedMutation::Move { source, before, destination, contents, .. } => {
            keyed.push(source);
            keyed.push(destination);
            Preparation {
                stage: Some((destination, contents, Some(before))),
                backup: Some((source, before)),
                keyed,
            }
        },
    }
}

/// Whether what was written for a mutation is what its preparation names: a staged file when
/// it stages, a backup when it backs up, and one durable key per keyed path.
pub open spec fn prepared_inputs_fit<P, S, B>(
    m: PlannedMutation<P>,
    staged: Option<(S, DurableFileEvidence)>,
    backup: Option<(B, DurableFileEvidence)>,
    keys: Seq<DurablePathKey>,
) -> bool {
    match m {
        PlannedMutation::Create { .. } => staged is Some && backup is None && keys.len() == 1,
        PlannedMutation::Update { .. } => staged is Some && backup is Some && keys.len() == 1,
        PlannedMutation::Delete { .. } => staged is None && backup is Some && keys.len() == 1,
        PlannedMutation::Move { .. } => staged is Some && backup is Some && keys.len() == 2,
    }
}

/// The prepared entry of a mutation from what its preparation wrote.
pub open spec fn prepared_entry_of<P: Clone, S, B>(
    m: PlannedMutation<P>,
    staged: Option<(S, DurableFileEvidence)>,
    backup: Option<(B, DurableFileEvidence)>,
    keys: Seq<DurablePathKey>,
    e: PreparedEntry<P, S, B>,
) -> bool {
    match (m, staged, backup) {
        (PlannedMutation::Create { path, .. }, Some((s, se)), None) => match (e.mutation, e.journal) {
            (PreparedMutation::Create { destination, staged: s2 }, JournalOperation::Create { destination: k, staged: se2 }) => cloned(
                path,
                destination,
            ) && s2 == s && k == keys[0] && se2 == se,
            _ => false,
        },
        (PlannedMutation::Update { path, before, .. }, Some((s, se)), Some((b, be))) => match (e.mutation, e.journal) {
            (
                PreparedMutation::Replace { destination, expected, staged: s2, backup: b2 },
                JournalOperation::Update { path: k, before: recorded, staged: se2, backup: be2 },
            ) => cloned(path, destination) && evidence_of(expected, before) && s2 == s && b2 == b && k
                == keys[0] && evidence_of(recorded, before) && se2 == se && be2 == be,
            _ => false,
        },
        (PlannedMutation::Delete { path, before, .. }, None, Some((b, be))) => match (e.mutation, e.journal) {
            (
                PreparedMutation::Remove { source, expected, backup: b2 },
                JournalOperation::Delete { path: k, before: recorded, backup: be2 },
            ) => cloned(path, source) && evidence_of(expected, before) && b2 == b && k == keys[0]
                && evidence_of(recorded, before) && be2 == be,
            _ => false,
        },
        (PlannedMutation::Move { source, before, destination, .. }, Some((s, se)), Some((b, be))) => match (
            e.mutation,
            e.journal,
        ) {
            (
                PreparedMutation::Move { source: src, expected, destination: d, staged: s2, backup: b2 },
                JournalOperation::Move {
                    source: sk,
                    destination: dk,
                    before: recorded,
                    staged: se2,
                    backup: be2,
                },
            ) => cloned(source, src) && cloned(destination, d) && evidence_of(expected, before) && s2 == s
                && b2 == b && sk == keys[0] && dk == keys[1] && evidence_of(recorded, before) && se2 == se
                && be2 == be,
            _ => false,
        },
        _ => false,
    }
}

/// Assembles the prepared entry of a mutation from the staged file, the backup and the
/// durable keys written for it; `None` when they are not what its preparation names.
pub fn prepare_entry<P: Clone, S, B>(
    m: &PlannedMutation<P>,
    staged: Option<(S, DurableFileEvidence)>,
    backup: Option<(B, DurableFileEvidence)>,
    keys: Vec<DurablePathKey>,
) -> (r: Option<PreparedEntry<P, S, B>>)
    ensures
        prepared_inputs_fit(*m, staged, backup, keys@) ==> (r matches Some(e) && prepared_entry_of(
            *m,
            staged,
            backup,
            keys@,
            e,
        )),
        !prepared_inputs_fit(*m, staged, backup, keys@) ==> r is None,
{
    let mut keys = keys;
    let count = keys.len();
    match m {
        PlannedMutation::Create { path, .. } => {
            if count != 1 {
                return None;
            }
            match (staged, backup) {
                (Some((s, se)), None) => {
                    let key = keys.remove(0);
                    Some(prepare_create(path.clone(), s, key, se))
                },
                _ => None,
            }
        },
        PlannedMutation::Update { path, before, .. } => {
            if count != 1 {
                return None;
            }
            match (staged, backup) {
                (Some((s, se)), Some((b, be))) => {
                    let key = keys.remove(0);
                    Some(prepare_update(path.clone(), before, s, b, key, se, be))
                },
                _ => None,
            }
        },
        PlannedMutation::Delete { path, before, .. } => {
            if count != 1 {
                return None;
            }
            match (staged, backup) {
                (None, Some((b, be))) => {
                    let key = keys.remove(0);
                    Some(prepare_delete(path.clone(), before, b, key, be))
                },
                _ => None,
            }
        },
        PlannedMutation::Move { source, before, destination, .. } => {
            if count != 2 {
                return None;
            }
            match (staged, backup) {
                (Some((s, se)), Some((b, be))) => {
                    let source_key = keys.remove(0);
                    let destination_key = keys.remove(0);
                    Some(
                        prepare_move(
                            source.clone(),
                            before,
                            destination.clone(),
                            s,
                            b,
                            source_key,
                            destination_key,
                            se,
                            be,
                        ),
                    )
                },
                _ => None,
            }
        },
    }
}

} // verus!
