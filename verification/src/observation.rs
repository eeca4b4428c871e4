use vstd::prelude::*;

use crate::digest::sha256;
use crate::digest::ExactBytesDigest;
use crate::digest::MetadataFingerprint;
use crate::keys::ExecutorFileIdentity;

verus! {

/// Executor-opaque metadata that can both be fingerprinted and restored.
#[derive(Clone, Debug, PartialEq, Eq)]
pub struct MetadataSnapshot {
    pub namespace: String,
    pub value: Vec<u8>,
    pub fingerprint: MetadataFingerprint,
}

impl MetadataSnapshot {
    /// Fingerprints the metadata bytes with SHA-256.
    pub fn new(namespace: String, value: Vec<u8>) -> (r: Self)
        ensures
            r.namespace@ == namespace@,
            r.value@ == value@,
            r.fingerprint.bytes() == sha256(value@),
    {
        let fingerprint = MetadataFingerprint::new(value.as_slice());
        Self { namespace, value, fingerprint }
    }

    pub fn duplicate(&self) -> (r: Self)
        ensures
            r.namespace@ == self.namespace@,
            r.value@ == self.value@,
            r.fingerprint.bytes() == self.fingerprint.bytes(),
    {
        MetadataSnapshot {
            namespace: self.namespace.clone(),
            value: self.value.clone(),
            fingerprint: MetadataFingerprint(self.fingerprint.0),
        }
    }

    pub fn same(&self, other: &Self) -> (r: bool)
        ensures
            r == (self.namespace@ == other.namespace@ && self.value@ == other.value@
                && self.fingerprint.bytes() == other.fingerprint.bytes()),
    {
        self.namespace == other.namespace && crate::digest::bytes_equal(
            self.value.as_slice(),
            other.value.as_slice(),
        ) && self.fingerprint.same(&other.fingerprint)
    }
}

#[derive(Clone, Copy, Debug, PartialEq, Eq, Structural)]
pub enum FileKind {
    File,
    Directory,
    SymbolicLink,
    Other,
}

/// Maximum exact file bytes an observation may retain.
#[derive(Clone, Copy, Debug, PartialEq, Eq, Structural)]
pub struct ObservationLimit {
    pub max_bytes: u64,
}

/// Exact bytes and identity evidence obtained from the same guarded file object.
#[derive(Clone, Debug, PartialEq, Eq)]
pub struct ObservedFile {
    pub contents: Vec<u8>,
    pub exact_digest: ExactBytesDigest,
    pub identity: ExecutorFileIdentity,
    pub metadata: MetadataSnapshot,
    pub link_count: u64,
    pub kind: FileKind,
}

impl ObservedFile {
    /// Records the observation and digests its exact bytes.
    pub fn new(
        contents: Vec<u8>,
        identity: ExecutorFileIdentity,
        metadata: MetadataSnapshot,
        link_count: u64,
        kind: FileKind,
    ) -> (r: Self)
        requires
            link_count >= 1,
        ensures
            r.contents@ == contents@,
            r.exact_digest.bytes() == sha256(contents@),
            r.identity == identity,
            r.metadata == metadata,
            r.link_count == link_count,
            r.kind == kind,
    {
        let exact_digest = ExactBytesDigest::new(contents.as_slice());
        Self { contents, exact_digest, identity, metadata, link_count, kind }
    }
}

/// Every observed field of a file: contents, digest, identity, metadata, link count and kind.
pub open spec fn observed_view(f: ObservedFile) -> (
    Seq<u8>,
    Seq<u8>,
    (Seq<char>, Seq<u8>),
    (Seq<char>, Seq<u8>, Seq<u8>),
    u64,
    FileKind,
) {
    (
        f.contents@,
        f.exact_digest.bytes(),
        f.identity@,
        (f.metadata.namespace@, f.metadata.value@, f.metadata.fingerprint.bytes()),
        f.link_count,
        f.kind,
    )
}

impl ObservedFile {
    /// Field-by-field equality of two observations.
    pub fn same(&self, other: &Self) -> (r: bool)
        ensures
            r == (observed_view(*self) == observed_view(*other)),
    {
        crate::digest::bytes_equal(self.contents.as_slice(), other.contents.as_slice())
            && self.exact_digest.same(&other.exact_digest) && self.identity.same(&other.identity)
            && self.metadata.same(&other.metadata) && self.link_count == other.link_count
            && self.kind == other.kind
    }
}

/// Executor observation of a resolved transaction path.
#[derive(Clone, Debug, PartialEq, Eq)]
pub enum ObservedPath {
    Absent,
    Present(ObservedFile),
}

/// Exact identity and metadata evidence persisted without retaining file contents.
#[derive(Clone, Debug, PartialEq, Eq)]
pub struct FileEvidence {
    pub exact_digest: ExactBytesDigest,
    pub identity: ExecutorFileIdentity,
    pub metadata: MetadataSnapshot,
    pub link_count: u64,
    pub kind: FileKind,
}

/// The comparable parts of file evidence: digest bytes, identity, metadata, link count and kind.
pub open spec fn evidence_view(e: FileEvidence) -> (
    Seq<u8>,
    (Seq<char>, Seq<u8>),
    (Seq<char>, Seq<u8>, Seq<u8>),
    u64,
    FileKind,
) {
    (
        e.exact_digest.bytes(),
        e.identity@,
        (e.metadata.namespace@, e.metadata.value@, e.metadata.fingerprint.bytes()),
        e.link_count,
        e.kind,
    )
}

impl FileEvidence {
    /// Evidence of an observed file: everything but its contents.
    pub fn from_observed(file: &ObservedFile) -> (r: Self)
        ensures
            r.exact_digest.bytes() == file.exact_digest.bytes(),
            r.identity@ == file.identity@,
            r.metadata.namespace@ == file.metadata.namespace@,
            r.metadata.value@ == file.metadata.value@,
            r.metadata.fingerprint.bytes() == file.metadata.fingerprint.bytes(),
            r.link_count == file.link_count,
            r.kind == file.kind,
    {
        FileEvidence {
            exact_digest: ExactBytesDigest(file.exact_digest.0),
            identity: ExecutorFileIdentity {
                namespace: file.identity.namespace.clone(),
                value: file.identity.value.clone(),
            },
            metadata: file.metadata.duplicate(),
            link_count: file.link_count,
            kind: file.kind,
        }
    }

    /// A copy with the same digest, identity, metadata, link count and kind.
    pub fn duplicate(&self) -> (r: Self)
        ensures
            evidence_view(r) == evidence_view(*self),
    {
        FileEvidence {
            exact_digest: ExactBytesDigest(self.exact_digest.0),
            identity: ExecutorFileIdentity {
                namespace: self.identity.namespace.clone(),
                value: self.identity.value.clone(),
            },
            metadata: self.metadata.duplicate(),
            link_count: self.link_count,
            kind: self.kind,
        }
    }

    pub fn same(&self, other: &Self) -> (r: bool)
        ensures
            r == (evidence_view(*self) == evidence_view(*other)),
    {
        self.exact_digest.same(&other.exact_digest) && self.identity.same(&other.identity)
            && self.metadata.same(&other.metadata) && self.link_count == other.link_count
            && self.kind == other.kind
    }
}

/// Compact live evidence used by restart recovery without retaining file contents.
#[derive(Clone, Debug, PartialEq, Eq)]
pub enum ObservedEvidence {
    Absent,
    Present(FileEvidence),
}

#[derive(Clone, Copy, Debug, PartialEq, Eq, Structural)]
pub enum MutationOutcome {
    Applied,
    AlreadyApplied,
}

/// Error reported by an executor-owned transaction filesystem capability.
#[derive(Clone, Debug, PartialEq, Eq)]
pub enum TransactionFileSystemError {
    Unsupported { capability: &'static str, reason: String },
    InvalidRoot { root: String, reason: String },
    InvalidModelPath { path: String, reason: String },
    SymbolicLink { path: String },
    ChangedSincePlanning { path: String },
    Platform { operation: &'static str, reason: String },
}

} // verus!
