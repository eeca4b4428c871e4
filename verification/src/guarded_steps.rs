//! The decisions of guarded, replayable mutations on a native filesystem.
//!
//! A guarded mutation may be interrupted at any point and run again from the journal. Each
//! step therefore first looks at the entries it touches and decides whether the work is
//! already done, may go ahead, or finds something it did not put there. Artifacts (staged
//! after-images and backups) are hard-linked into place, so an applied artifact shows up as
//! a second link of the same file object. The functions here make those decisions from the
//! observed entries; the caller performs the links, renames and unlinks they name.
use vstd::prelude::*;

use crate::observation::evidence_view;
use crate::observation::FileEvidence;
use crate::observation::FileKind;
use crate::observation::ObservedEvidence;
use crate::observation::TransactionFileSystemError;
use crate::text::hex_char_of;

verus! {

/// Two evidences describe the same file object with the same bytes, metadata and kind,
/// whatever their link counts.
pub open spec fn same_core(a: FileEvidence, b: FileEvidence) -> bool {
    &&& a.exact_digest.bytes() == b.exact_digest.bytes()
    &&& a.identity@ == b.identity@
    &&& a.metadata.namespace@ == b.metadata.namespace@
    &&& a.metadata.value@ == b.metadata.value@
    &&& a.metadata.fingerprint.bytes() == b.metadata.fingerprint.bytes()
    &&& a.kind == b.kind
}

fn core_matches(a: &FileEvidence, b: &FileEvidence) -> (r: bool)
    ensures
        r == same_core(*a, *b),
{
    a.exact_digest.same(&b.exact_digest) && a.identity.same(&b.identity) && a.metadata.same(&b.metadata)
        && a.kind == b.kind
}

/// The entry holds a file with exactly the expected evidence, link count included.
pub open spec fn shows(state: ObservedEvidence, expected: FileEvidence) -> bool {
    match state {
        ObservedEvidence::Present(actual) => evidence_view(actual) == evidence_view(expected),
        ObservedEvidence::Absent => false,
    }
}

/// Whether the entry holds a file with exactly the expected evidence.
pub fn matches_evidence(state: &ObservedEvidence, expected: &FileEvidence) -> (r: bool)
    ensures
        r == shows(*state, *expected),
{
    match state {
        ObservedEvidence::Present(actual) => actual.same(expected),
        ObservedEvidence::Absent => false,
    }
}

/// The entry is a second link of the artifact: the same file object, which both the entry
/// and the artifact's own revalidation show linked twice. An artifact that failed its
/// revalidation (`None`) is linked nowhere.
pub open spec fn shows_linked(artifact: Option<FileEvidence>, state: ObservedEvidence) -> bool {
    match (artifact, state) {
        (Some(a), ObservedEvidence::Present(c)) => same_core(c, a) && c.link_count == 2 && a.link_count == 2,
        _ => false,
    }
}

/// Whether the entry is a second link of the artifact, as revalidated for this check.
pub fn artifact_linked(artifact: &Option<FileEvidence>, state: &ObservedEvidence) -> (r: bool)
    ensures
        r == shows_linked(*artifact, *state),
{
    match (artifact, state) {
        (Some(a), ObservedEvidence::Present(c)) => core_matches(c, a) && c.link_count == 2 && a.link_count
            == 2,
        _ => false,
    }
}

/// What a guarded step accepts at an entry it displaces or removes.
pub enum Guard {
    /// A file with exactly this evidence.
    Evidence(FileEvidence),
    /// A second link of an artifact, carried with the evidence its revalidation for this
    /// check found, or `None` when that revalidation failed.
    Artifact(Option<FileEvidence>),
}

/// The guard accepts what the entry holds.
pub open spec fn accepts(guard: Guard, state: ObservedEvidence) -> bool {
    match guard {
        Guard::Evidence(e) => shows(state, e),
        Guard::Artifact(a) => shows_linked(a, state),
    }
}

impl Guard {
    /// Whether the guard accepts what the entry holds.
    pub fn matches(&self, state: &ObservedEvidence) -> (r: bool)
        ensures
            r == accepts(*self, *state),
    {
        match self {
            Guard::Evidence(e) => matches_evidence(state, e),
            Guard::Artifact(a) => artifact_linked(a, state),
        }
    }
}

/// The error for an entry that holds something a guarded step did not expect.
pub open spec fn is_changed(e: TransactionFileSystemError, label: Seq<char>) -> bool {
    e matches TransactionFileSystemError::ChangedSincePlanning { path } && path@ == label
}

/// The error for an entry that holds something a guarded step did not expect.
pub fn changed(label: &str) -> (e: TransactionFileSystemError)
    ensures
        is_changed(e, label@),
{
    TransactionFileSystemError::ChangedSincePlanning { path: crate::text::text(label) }
}

// ----- artifacts -----

/// The durable record of an artifact must describe a regular file with a single link.
pub fn check_artifact_record(recorded: &FileEvidence) -> (r: Result<(), TransactionFileSystemError>)
    ensures
        recorded.kind == FileKind::File && recorded.link_count == 1 ==> r is Ok,
        !(recorded.kind == FileKind::File && recorded.link_count == 1) ==> (r matches Err(e) && is_changed(
            e,
            "transaction artifact"@,
        )),
{
    if recorded.kind != FileKind::File || recorded.link_count != 1 {
        return Err(changed("transaction artifact"));
    }
    Ok(())
}

/// An artifact is still itself: its retained handle shows the recorded file, linked once or
/// twice, and its name leads to exactly what the handle shows.
pub open spec fn artifact_intact(recorded: FileEvidence, retained: FileEvidence, reopened: ObservedEvidence) -> bool {
    &&& same_core(retained, recorded)
    &&& retained.link_count == 1 || retained.link_count == 2
    &&& shows(reopened, retained)
}

/// Revalidates an artifact from its retained handle and from its name reopened.
pub fn check_artifact(recorded: &FileEvidence, retained: &FileEvidence, reopened: &ObservedEvidence) -> (r: Result<
    (),
    TransactionFileSystemError,
>)
    ensures
        artifact_intact(*recorded, *retained, *reopened) ==> r is Ok,
        !artifact_intact(*recorded, *retained, *reopened) ==> (r matches Err(e) && is_changed(
            e,
            "transaction artifact"@,
        )),
{
    if !core_matches(retained, recorded) || !(retained.link_count == 1 || retained.link_count == 2) {
        return Err(changed("transaction artifact"));
    }
    if !matches_evidence(reopened, retained) {
        return Err(changed("transaction artifact"));
    }
    Ok(())
}

/// A backup stands for the before-image: the same bytes, metadata and kind, and both the
/// backup's record and the before-image have a single link.
pub open spec fn backs_up(recorded: FileEvidence, validated: FileEvidence, expected: FileEvidence) -> bool {
    &&& validated.exact_digest.bytes() == expected.exact_digest.bytes()
    &&& validated.metadata.namespace@ == expected.metadata.namespace@
    &&& validated.metadata.value@ == expected.metadata.value@
    &&& validated.metadata.fingerprint.bytes() == expected.metadata.fingerprint.bytes()
    &&& validated.kind == expected.kind
    &&& recorded.link_count == 1
    &&& expected.link_count == 1
}

/// Checks a revalidated backup against the before-image it must restore.
pub fn check_backup(recorded: &FileEvidence, validated: &FileEvidence, expected: &FileEvidence) -> (r: Result<
    (),
    TransactionFileSystemError,
>)
    ensures
        backs_up(*recorded, *validated, *expected) ==> r is Ok,
        !backs_up(*recorded, *validated, *expected) ==> (r matches Err(e) && is_changed(e, "transaction backup"@)),
{
    if !validated.exact_digest.same(&expected.exact_digest) || !validated.metadata.same(&expected.metadata)
        || validated.kind != expected.kind || recorded.link_count != 1 || expected.link_count != 1 {
        return Err(changed("transaction backup"));
    }
    Ok(())
}

/// Lower-case hexadecimal text of a byte string.
pub open spec fn hex_text(bytes: Seq<u8>) -> Seq<char> {
    Seq::new(
        2 * bytes.len(),
        |i: int|
            if i % 2 == 0 {
                hex_char_of(bytes[i / 2] as int / 16)
            } else {
                hex_char_of(bytes[i / 2] as int % 16)
            },
    )
}

/// The name beside an entry under which a guarded step parks a file: its class and role,
/// then the hexadecimal identity of the file it is about.
pub fn temporary_name(class: &str, role: &str, identity: &[u8]) -> (r: String)
    ensures
        r@ == ".codex-hashline-"@ + class@ + "-"@ + role@ + "-"@ + hex_text(identity@),
{
    let mut name = crate::text::text(".codex-hashline-");
    name.append(class);
    name.append("-");
    name.append(role);
    name.append("-");
    let ghost prefix = name@;
    let mut i: usize = 0;
    while i < identity.len()
        invariant
            i <= identity@.len(),
            name@ == prefix + hex_text(identity@.take(i as int)),
        decreases identity@.len() - i,
    {
        let b = identity[i];
        name.append(crate::text::digit_text(b / 16));
        name.append(crate::text::digit_text(b % 16));
        proof {
            assert(hex_text(identity@.take(i + 1)) =~= hex_text(identity@.take(i as int)) + seq![
                hex_char_of(b as int / 16),
                hex_char_of(b as int % 16),
            ]);
        }
        i += 1;
    }
    assert(identity@.take(identity@.len() as int) =~= identity@);
    name
}

// ----- guarded removal -----

/// The next step of a guarded removal, from the entry and its parking place.
pub enum RemovalStep {
    /// Both are empty: the removal already happened.
    AlreadyApplied,
    /// The entry is gone and the parked file is the guarded one: unlink it.
    FinishRemoval,
    /// The entry is not the guarded file, or something else is parked.
    Changed,
    /// Rename the entry to its parking place without replacing anything; then unlink it if
    /// the guard accepts what arrived there, or rename it back and report a change.
    MoveAside,
}

pub open spec fn removal_step_of(guard: Guard, entry: ObservedEvidence, parked: ObservedEvidence) -> RemovalStep {
    if entry is Absent && parked is Absent {
        RemovalStep::AlreadyApplied
    } else if entry is Absent && accepts(guard, parked) {
        RemovalStep::FinishRemoval
    } else if !accepts(guard, entry) || !(parked is Absent) {
        RemovalStep::Changed
    } else {
        RemovalStep::MoveAside
    }
}

/// Decides the next step of a guarded removal.
pub fn removal_step(guard: &Guard, entry: &ObservedEvidence, parked: &ObservedEvidence) -> (r: RemovalStep)
    ensures
        r == removal_step_of(*guard, *entry, *parked),
{
    let entry_absent = match entry {
        ObservedEvidence::Absent => true,
        _ => false,
    };
    let parked_absent = match parked {
        ObservedEvidence::Absent => true,
        _ => false,
    };
    if entry_absent && parked_absent {
        RemovalStep::AlreadyApplied
    } else if entry_absent && guard.matches(parked) {
        RemovalStep::FinishRemoval
    } else if !guard.matches(entry) || !parked_absent {
        RemovalStep::Changed
    } else {
        RemovalStep::MoveAside
    }
}

// ----- guarded exchange -----

/// The next step of a guarded exchange that puts an artifact in place of the displaced file,
/// from the destination and the parking place beside it.
pub enum ExchangeStep {
    /// The artifact is in place and nothing is parked.
    AlreadyApplied,
    /// The artifact is in place and the displaced file is parked: remove it, guarded.
    FinishExchange,
    /// Something unexpected is at the destination or parked.
    Changed,
    /// Link the artifact at the parking place, then exchange it with the destination.
    LinkAndExchange,
    /// The artifact is already parked: exchange it with the destination.
    Exchange,
}

pub open spec fn exchange_step_of(
    desired: Option<FileEvidence>,
    displaced: Guard,
    destination: ObservedEvidence,
    parked: ObservedEvidence,
) -> ExchangeStep {
    if shows_linked(desired, destination) {
        if parked is Absent {
            ExchangeStep::AlreadyApplied
        } else if accepts(displaced, parked) {
            ExchangeStep::FinishExchange
        } else {
            ExchangeStep::Changed
        }
    } else if !accepts(displaced, destination) {
        ExchangeStep::Changed
    } else if parked is Absent {
        ExchangeStep::LinkAndExchange
    } else if !shows_linked(desired, parked) {
        ExchangeStep::Changed
    } else {
        ExchangeStep::Exchange
    }
}

/// Decides the next step of a guarded exchange; `desired` is the artifact as revalidated for
/// this decision.
pub fn exchange_step(
    desired: &Option<FileEvidence>,
    displaced: &Guard,
    destination: &ObservedEvidence,
    parked: &ObservedEvidence,
) -> (r: ExchangeStep)
    ensures
        r == exchange_step_of(*desired, *displaced, *destination, *parked),
{
    let parked_absent = match parked {
        ObservedEvidence::Absent => true,
        _ => false,
    };
    if artifact_linked(desired, destination) {
        if parked_absent {
            ExchangeStep::AlreadyApplied
        } else if displaced.matches(parked) {
            ExchangeStep::FinishExchange
        } else {
            ExchangeStep::Changed
        }
    } else if !displaced.matches(destination) {
        ExchangeStep::Changed
    } else if parked_absent {
        ExchangeStep::LinkAndExchange
    } else if !artifact_linked(desired, parked) {
        ExchangeStep::Changed
    } else {
        ExchangeStep::Exchange
    }
}

/// What an exchange left behind decides how it ends.
pub enum ExchangeCheck {
    /// The artifact is in place and the displaced file parked: remove it, guarded.
    Finish,
    /// The artifact is in place but something else is parked: exchange back, report a change.
    UndoAndChanged,
    /// The artifact did not arrive: report a change.
    Changed,
}

pub open spec fn exchange_check_of(
    desired: Option<FileEvidence>,
    displaced: Guard,
    destination: ObservedEvidence,
    parked: ObservedEvidence,
) -> ExchangeCheck {
    if shows_linked(desired, destination) && accepts(displaced, parked) {
        ExchangeCheck::Finish
    } else if shows_linked(desired, destination) {
        ExchangeCheck::UndoAndChanged
    } else {
        ExchangeCheck::Changed
    }
}

/// Checks the entries after an exchange.
pub fn exchange_check(
    desired: &Option<FileEvidence>,
    displaced: &Guard,
    destination: &ObservedEvidence,
    parked: &ObservedEvidence,
) -> (r: ExchangeCheck)
    ensures
        r == exchange_check_of(*desired, *displaced, *destination, *parked),
{
    let arrived = artifact_linked(desired, destination);
    if arrived && displaced.matches(parked) {
        ExchangeCheck::Finish
    } else if arrived {
        ExchangeCheck::UndoAndChanged
    } else {
        ExchangeCheck::Changed
    }
}

// ----- create, move and their rollbacks -----

/// The next step of linking an artifact into an entry.
pub enum LinkStep {
    /// The artifact is already linked there.
    AlreadyApplied,
    /// The entry holds something else, or the artifact has other links.
    Changed,
    /// Link the artifact at the entry.
    Link,
}

pub open spec fn create_step_of(staged: FileEvidence, staged_now: Option<FileEvidence>, destination: ObservedEvidence) -> LinkStep {
    if shows_linked(staged_now, destination) {
        LinkStep::AlreadyApplied
    } else if !(destination is Absent) || staged.link_count != 1 {
        LinkStep::Changed
    } else {
        LinkStep::Link
    }
}

/// Decides how a create proceeds: `staged` is the staged file as validated at the start, and
/// `staged_now` as revalidated for the check at the destination. After a link the create
/// succeeds only if the destination then shows the staged file linked.
pub fn create_step(staged: &FileEvidence, staged_now: &Option<FileEvidence>, destination: &ObservedEvidence) -> (r:
    LinkStep)
    ensures
        r == create_step_of(*staged, *staged_now, *destination),
{
    let absent = match destination {
        ObservedEvidence::Absent => true,
        _ => false,
    };
    if artifact_linked(staged_now, destination) {
        LinkStep::AlreadyApplied
    } else if !absent || staged.link_count != 1 {
        LinkStep::Changed
    } else {
        LinkStep::Link
    }
}

/// The next step of a move, which links the staged after-image at the destination and then
/// removes the source, guarded by its before-image.
pub enum MoveStep {
    /// The source is gone and the staged file is linked at the destination.
    AlreadyApplied,
    /// The source is not the planned before-image.
    SourceChanged,
    /// The destination holds something other than the staged file.
    DestinationChanged,
    /// Link the staged file at the destination, then remove the source.
    LinkThenRemoveSource,
    /// The staged file is already at the destination: remove the source.
    RemoveSource,
}

pub open spec fn move_step_of(
    staged_now: Option<FileEvidence>,
    expected: FileEvidence,
    source: ObservedEvidence,
    destination: ObservedEvidence,
) -> MoveStep {
    if source is Absent && shows_linked(staged_now, destination) {
        MoveStep::AlreadyApplied
    } else if !shows(source, expected) {
        MoveStep::SourceChanged
    } else if destination is Absent {
        MoveStep::LinkThenRemoveSource
    } else if !shows_linked(staged_now, destination) {
        MoveStep::DestinationChanged
    } else {
        MoveStep::RemoveSource
    }
}

/// Decides how a move proceeds; `staged_now` is the staged file as revalidated for the check
/// at the destination.
pub fn move_step(
    staged_now: &Option<FileEvidence>,
    expected: &FileEvidence,
    source: &ObservedEvidence,
    destination: &ObservedEvidence,
) -> (r: MoveStep)
    ensures
        r == move_step_of(*staged_now, *expected, *source, *destination),
{
    let source_absent = match source {
        ObservedEvidence::Absent => true,
        _ => false,
    };
    let destination_absent = match destination {
        ObservedEvidence::Absent => true,
        _ => false,
    };
    if source_absent && artifact_linked(staged_now, destination) {
        MoveStep::AlreadyApplied
    } else if !matches_evidence(source, expected) {
        MoveStep::SourceChanged
    } else if destination_absent {
        MoveStep::LinkThenRemoveSource
    } else if !artifact_linked(staged_now, destination) {
        MoveStep::DestinationChanged
    } else {
        MoveStep::RemoveSource
    }
}

/// The source already holds its before-image or its backup.
pub open spec fn source_restored(backup_now: Option<FileEvidence>, expected: FileEvidence, source: ObservedEvidence) -> bool {
    shows(source, expected) || shows_linked(backup_now, source)
}

pub open spec fn restore_removed_step_of(backup_now: Option<FileEvidence>, expected: FileEvidence, source: ObservedEvidence) -> LinkStep {
    if source_restored(backup_now, expected, source) {
        LinkStep::AlreadyApplied
    } else if !(source is Absent) {
        LinkStep::Changed
    } else {
        LinkStep::Link
    }
}

/// Decides how restoring a removed file proceeds: the backup is linked back at an empty
/// source.
pub fn restore_removed_step(backup_now: &Option<FileEvidence>, expected: &FileEvidence, source: &ObservedEvidence) -> (r:
    LinkStep)
    ensures
        r == restore_removed_step_of(*backup_now, *expected, *source),
{
    let absent = match source {
        ObservedEvidence::Absent => true,
        _ => false,
    };
    if matches_evidence(source, expected) || artifact_linked(backup_now, source) {
        LinkStep::AlreadyApplied
    } else if !absent {
        LinkStep::Changed
    } else {
        LinkStep::Link
    }
}

/// The next step of undoing a move.
pub enum RestoreMoveStep {
    /// The source holds its before-image or backup and the destination is empty.
    AlreadyApplied,
    /// The source is not empty, or the destination is not the staged file.
    Changed,
    /// Link the backup at the source, then remove the staged file from the destination.
    LinkBackupThenRemoveDestination,
}

pub open spec fn restore_move_step_of(
    backup_now: Option<FileEvidence>,
    staged_now: Option<FileEvidence>,
    expected: FileEvidence,
    source: ObservedEvidence,
    destination: ObservedEvidence,
) -> RestoreMoveStep {
    if source_restored(backup_now, expected, source) && destination is Absent {
        RestoreMoveStep::AlreadyApplied
    } else if !(source is Absent) || !shows_linked(staged_now, destination) {
        RestoreMoveStep::Changed
    } else {
        RestoreMoveStep::LinkBackupThenRemoveDestination
    }
}

/// Decides how undoing a move proceeds; the artifacts are as revalidated for this decision.
pub fn restore_move_step(
    backup_now: &Option<FileEvidence>,
    staged_now: &Option<FileEvidence>,
    expected: &FileEvidence,
    source: &ObservedEvidence,
    destination: &ObservedEvidence,
) -> (r: RestoreMoveStep)
    ensures
        r == restore_move_step_of(*backup_now, *staged_now, *expected, *source, *destination),
{
    let source_absent = match source {
        ObservedEvidence::Absent => true,
        _ => false,
    };
    let destination_absent = match destination {
        ObservedEvidence::Absent => true,
        _ => false,
    };
    if (matches_evidence(source, expected) || artifact_linked(backup_now, source)) && destination_absent {
        RestoreMoveStep::AlreadyApplied
    } else if !source_absent || !artifact_linked(staged_now, destination) {
        RestoreMoveStep::Changed
    } else {
        RestoreMoveStep::LinkBackupThenRemoveDestination
    }
}

} // verus!
