use vstd::prelude::*;

use crate::journal::JournalBytes;
use crate::observation::FileEvidence;
use crate::observation::MetadataSnapshot;

verus! {

/// Request to stage one exact after-image on the destination filesystem.
#[derive(Debug)]
pub struct StageFileRequest<'a, P> {
    pub destination: &'a P,
    pub contents: &'a [u8],
    pub metadata: Option<&'a MetadataSnapshot>,
}

/// One guarded visible filesystem mutation.
#[derive(Debug)]
pub enum GuardedMutation<'a, P, S, B> {
    Create { destination: &'a P, staged: &'a S },
    Replace { destination: &'a P, expected: &'a FileEvidence, staged: &'a S, backup: &'a B },
    Remove { source: &'a P, expected: &'a FileEvidence, backup: &'a B },
    Move {
        source: &'a P,
        expected: &'a FileEvidence,
        destination: &'a P,
        staged: Option<&'a S>,
        backup: &'a B,
    },
}

/// One inverse mutation that must preserve any externally disturbed path.
#[derive(Debug)]
pub enum GuardedRollback<'a, P, S, B> {
    RemoveCreated { destination: &'a P, staged: &'a S },
    RestoreReplaced { destination: &'a P, expected: &'a FileEvidence, staged: &'a S, backup: &'a B },
    RestoreRemoved { source: &'a P, expected: &'a FileEvidence, backup: &'a B },
    RestoreMove {
        source: &'a P,
        expected: &'a FileEvidence,
        destination: &'a P,
        staged: &'a S,
        backup: &'a B,
    },
}

/// Current durable journal handle and its bounded serialized record.
#[derive(Debug)]
pub struct LoadedJournal<J> {
    pub journal: J,
    pub bytes: JournalBytes,
}

impl<'a, P> StageFileRequest<'a, P> {
    /// A request to stage `contents` for `destination`, restoring `metadata` when given.
    pub fn new(destination: &'a P, contents: &'a [u8], metadata: Option<&'a MetadataSnapshot>) -> (r: Self)
        ensures
            r.destination == destination,
            r.contents@ == contents@,
            r.metadata == metadata,
    {
        StageFileRequest { destination, contents, metadata }
    }
}

} // verus!
