use vstd::prelude::*;

use crate::keys::CanonicalPathKey;
use crate::metadata_codec::le64_bytes;
use crate::metadata_codec::metadata_bytes;
use crate::metadata_codec::metadata_snapshot;
use crate::metadata_codec::RestorableMetadata;
use crate::metadata_codec::METADATA_NAMESPACE;
use crate::digest::sha256;
use crate::keys::ExecutorFileIdentity;
use crate::observation::FileEvidence;
use crate::observation::ObservedFile;
use crate::observation::TransactionFileSystemError;
use crate::text::decimal_chars;
use crate::observation::FileKind;

verus! {

/// Namespace of canonical path keys: the parent directory's identity and the entry's name.
pub const PARENT_ENTRY_NAMESPACE: &'static str = "linux-parent-entry-v1";

/// The status fields of a file that the native filesystem reads and compares.
#[derive(Clone, Copy, Debug, PartialEq, Eq, Structural)]
pub struct FileStatus {
    pub dev: u64,
    pub ino: u64,
    pub mode: u32,
    pub nlink: u64,
    pub uid: u32,
    pub gid: u32,
    pub size: u64,
    pub mtime: i64,
    pub mtime_nsec: i64,
    pub ctime: i64,
    pub ctime_nsec: i64,
}

/// File-type bits of a mode.
pub const TYPE_MASK: u32 = 0o170000;

/// File-type bits of a regular file.
pub const REGULAR_FILE: u32 = 0o100000;

/// File-type bits of a directory.
pub const DIRECTORY: u32 = 0o040000;

/// File-type bits of a symbolic link.
pub const SYMBOLIC_LINK: u32 = 0o120000;

/// The kind of file a mode's type bits describe.
pub open spec fn kind_of_mode(mode: u32) -> FileKind {
    let bits = mode & TYPE_MASK;
    if bits == REGULAR_FILE {
        FileKind::File
    } else if bits == DIRECTORY {
        FileKind::Directory
    } else if bits == SYMBOLIC_LINK {
        FileKind::SymbolicLink
    } else {
        FileKind::Other
    }
}

/// The kind of a file, from the type bits of its mode.
pub fn file_kind(status: &FileStatus) -> (r: FileKind)
    ensures
        r == kind_of_mode(status.mode),
{
    let bits = status.mode & TYPE_MASK;
    if bits == REGULAR_FILE {
        FileKind::File
    } else if bits == DIRECTORY {
        FileKind::Directory
    } else if bits == SYMBOLIC_LINK {
        FileKind::SymbolicLink
    } else {
        FileKind::Other
    }
}

/// The identity of a file object: its device, then its inode, each as eight little-endian bytes.
pub open spec fn identity_of(status: FileStatus) -> Seq<u8> {
    le64_bytes(status.dev) + le64_bytes(status.ino)
}

fn push_le64(out: &mut Vec<u8>, n: u64)
    ensures
        final(out)@ == old(out)@ + le64_bytes(n),
{
    out.push((n & 0xff) as u8);
    out.push(((n >> 8) & 0xff) as u8);
    out.push(((n >> 16) & 0xff) as u8);
    out.push(((n >> 24) & 0xff) as u8);
    out.push(((n >> 32) & 0xff) as u8);
    out.push(((n >> 40) & 0xff) as u8);
    out.push(((n >> 48) & 0xff) as u8);
    out.push(((n >> 56) & 0xff) as u8);
    assert(out@ =~= old(out)@ + le64_bytes(n));
}

/// The executor identity bytes of a file object.
pub fn identity_bytes(status: &FileStatus) -> (r: Vec<u8>)
    ensures
        r@ == identity_of(*status),
        r@.len() == 16,
{
    let mut value: Vec<u8> = Vec::new();
    push_le64(&mut value, status.dev);
    push_le64(&mut value, status.ino);
    assert(value@ =~= identity_of(*status));
    value
}

/// The canonical key of the entry `final_component` of the directory with status `parent`:
/// the directory's identity, a NUL, then the entry's name.
pub fn canonical_path_key(parent: &FileStatus, final_component: &[u8]) -> (r: CanonicalPathKey)
    ensures
        r.namespace@ == PARENT_ENTRY_NAMESPACE@,
        r.value@ == identity_of(*parent) + seq![0u8] + final_component@,
{
    let mut value = identity_bytes(parent);
    value.push(0u8);
    crate::framing::push_raw(&mut value, final_component);
    CanonicalPathKey { namespace: crate::text::text(PARENT_ENTRY_NAMESPACE), value }
}

/// Whether a file's status stayed the same between two reads: identity, type and permissions,
/// links, owner, size, and modification and change times all agree.
pub fn metadata_is_stable(before: &FileStatus, after: &FileStatus) -> (r: bool)
    ensures
        r == (*before == *after),
{
    before.dev == after.dev && before.ino == after.ino && before.mode == after.mode && before.nlink
        == after.nlink && before.uid == after.uid && before.gid == after.gid && before.size == after.size
        && before.mtime == after.mtime && before.mtime_nsec == after.mtime_nsec && before.ctime
        == after.ctime && before.ctime_nsec == after.ctime_nsec
}

/// The metadata of a file that a transaction restores: permissions, owner, group and
/// modification time.
pub fn restorable_metadata(status: &FileStatus) -> (r: RestorableMetadata)
    ensures
        r.mode == status.mode,
        r.uid == status.uid,
        r.gid == status.gid,
        r.modified_seconds == status.mtime,
        r.modified_nanoseconds == status.mtime_nsec,
{
    RestorableMetadata {
        mode: status.mode,
        uid: status.uid,
        gid: status.gid,
        modified_seconds: status.mtime,
        modified_nanoseconds: status.mtime_nsec,
    }
}

/// Namespace of executor file identities: device and inode.
pub const IDENTITY_NAMESPACE: &'static str = "linux-dev-ino-v1";

/// The error for a file that needs more bytes than the observation may retain.
pub fn observation_limit_error(observed: u64, limit: u64) -> (e: TransactionFileSystemError)
    ensures
        e matches TransactionFileSystemError::Platform { operation, reason } && operation == "observe path"
            && reason@ == "file requires at least "@ + decimal_chars(observed) + " bytes, exceeding limit "@
            + decimal_chars(limit),
{
    let mut reason = crate::text::text("file requires at least ");
    crate::text::push_decimal(&mut reason, observed);
    reason.append(" bytes, exceeding limit ");
    crate::text::push_decimal(&mut reason, limit);
    TransactionFileSystemError::Platform { operation: "observe path", reason }
}

/// A file of `observed` bytes may be retained under the observation limit only when it does
/// not exceed it.
pub fn check_observed_size(observed: u64, limit: u64) -> (r: Result<(), TransactionFileSystemError>)
    ensures
        observed <= limit ==> r is Ok,
        observed > limit ==> (r matches Err(TransactionFileSystemError::Platform { operation, reason })
            && operation == "observe path" && reason@ == "file requires at least "@ + decimal_chars(observed)
            + " bytes, exceeding limit "@ + decimal_chars(limit)),
{
    if observed > limit {
        return Err(observation_limit_error(observed, limit));
    }
    Ok(())
}

/// How many bytes the next read of a bounded observation asks for: a block, but never more
/// than one byte past what the limit still allows, so that growth past the limit is seen; one
/// byte once the limit is reached.
pub open spec fn read_size(limit: u64, offset: u64, block: usize) -> int {
    let remaining = if offset >= limit {
        0
    } else {
        limit - offset
    };
    if remaining == 0 {
        1
    } else if remaining + 1 < block {
        remaining + 1
    } else {
        block as int
    }
}

/// The size of the next read of a bounded observation.
pub fn read_request(limit: u64, offset: u64, block: usize) -> (r: usize)
    requires
        block >= 1,
    ensures
        r == read_size(limit, offset, block),
        1 <= r <= block,
{
    let remaining = limit.saturating_sub(offset);
    if remaining == 0 {
        1
    } else if (remaining as u128) + 1 < block as u128 {
        (remaining + 1) as usize
    } else {
        block
    }
}

/// The error for a path that changed while it was observed.
pub open spec fn changed_while_observed(e: TransactionFileSystemError, model_path: Seq<char>) -> bool {
    e matches TransactionFileSystemError::ChangedSincePlanning { path } && path@ == model_path
}

/// Whether two reads of a file's status, with the contents read between them and the entry
/// reopened by name afterwards, show one unchanged file: the status stayed the same, a regular
/// file's contents have the size it reports, and the name still leads to the same object.
pub open spec fn observation_settled(before: FileStatus, after: FileStatus, contents: Seq<u8>, rebound: FileStatus) -> bool {
    &&& before == after
    &&& kind_of_mode(before.mode) == FileKind::File ==> contents.len() == after.size
    &&& identity_of(after) == identity_of(rebound)
}

/// Turns the reads of one present path into its observation: the contents with the file's
/// identity, restorable metadata, link count and kind, when the reads agree.
pub fn settle_observation(
    model_path: &str,
    before: &FileStatus,
    after: &FileStatus,
    contents: Vec<u8>,
    rebound: &FileStatus,
) -> (r: Result<ObservedFile, TransactionFileSystemError>)
    ensures
        !observation_settled(*before, *after, contents@, *rebound) ==> (r matches Err(e) && changed_while_observed(
            e,
            model_path@,
        )),
        observation_settled(*before, *after, contents@, *rebound) && after.nlink == 0 ==> (r matches Err(
            TransactionFileSystemError::Platform { operation, reason },
        ) && operation == "observe path" && reason@ == "path `"@ + model_path@ + "` reported a zero link count"@),
        observation_settled(*before, *after, contents@, *rebound) && after.nlink > 0 ==> (r matches Ok(file)
            && file.contents@ == contents@ && file.exact_digest.bytes() == sha256(contents@)
            && file.identity@ == (IDENTITY_NAMESPACE@, identity_of(*after)) && file.metadata.namespace@
            == METADATA_NAMESPACE@ && file.metadata.value@ == metadata_bytes(
            RestorableMetadata {
                mode: after.mode,
                uid: after.uid,
                gid: after.gid,
                modified_seconds: after.mtime,
                modified_nanoseconds: after.mtime_nsec,
            },
        ) && file.link_count == after.nlink && file.kind == kind_of_mode(before.mode)),
{
    let kind = file_kind(before);
    let is_file = match kind {
        FileKind::File => true,
        _ => false,
    };
    let sized = !is_file || contents.len() as u64 == after.size;
    let identity = identity_bytes(after);
    let reopened = identity_bytes(rebound);
    if !metadata_is_stable(before, after) || !sized || !crate::digest::bytes_equal(
        identity.as_slice(),
        reopened.as_slice(),
    ) {
        return Err(TransactionFileSystemError::ChangedSincePlanning { path: crate::text::text(model_path) });
    }
    if after.nlink == 0 {
        let mut reason = crate::text::text("path `");
        reason.append(model_path);
        reason.append("` reported a zero link count");
        return Err(TransactionFileSystemError::Platform { operation: "observe path", reason });
    }
    let metadata = metadata_snapshot(restorable_metadata(after));
    Ok(
        ObservedFile::new(
            contents,
            ExecutorFileIdentity { namespace: crate::text::text(IDENTITY_NAMESPACE), value: identity },
            metadata,
            after.nlink,
            kind,
        ),
    )
}

/// Whether an entry read through one handle stayed one file: its status did not change
/// across the read, and a regular file's bytes have the size it reports.
pub open spec fn entry_settled(before: FileStatus, after: FileStatus, contents: Seq<u8>) -> bool {
    &&& before == after
    &&& kind_of_mode(before.mode) == FileKind::File ==> contents.len() == after.size
}

/// The evidence of an entry from its status before and after a read and the bytes read in
/// between (none for anything but a regular file): digest, identity, restorable metadata,
/// link count and kind.
pub fn entry_evidence(before: &FileStatus, after: &FileStatus, contents: &[u8]) -> (r: Result<
    FileEvidence,
    TransactionFileSystemError,
>)
    ensures
        !entry_settled(*before, *after, contents@) ==> (r matches Err(e) && changed_while_observed(
            e,
            "transaction entry"@,
        )),
        entry_settled(*before, *after, contents@) && after.nlink == 0 ==> (r matches Err(e)
            && changed_while_observed(e, "transaction entry link topology"@)),
        entry_settled(*before, *after, contents@) && after.nlink > 0 ==> (r matches Ok(evidence)
            && evidence.exact_digest.bytes() == sha256(contents@) && evidence.identity@ == (
            IDENTITY_NAMESPACE@,
            identity_of(*after),
        ) && evidence.metadata.namespace@ == METADATA_NAMESPACE@ && evidence.metadata.value@
            == metadata_bytes(
            RestorableMetadata {
                mode: after.mode,
                uid: after.uid,
                gid: after.gid,
                modified_seconds: after.mtime,
                modified_nanoseconds: after.mtime_nsec,
            },
        ) && evidence.link_count == after.nlink && evidence.kind == kind_of_mode(before.mode)),
{
    let kind = file_kind(before);
    let is_file = match kind {
        FileKind::File => true,
        _ => false,
    };
    if !metadata_is_stable(before, after) || (is_file && contents.len() as u64 != after.size) {
        return Err(TransactionFileSystemError::ChangedSincePlanning { path: crate::text::text("transaction entry") });
    }
    if after.nlink == 0 {
        return Err(
            TransactionFileSystemError::ChangedSincePlanning {
                path: crate::text::text("transaction entry link topology"),
            },
        );
    }
    Ok(
        FileEvidence {
            exact_digest: crate::digest::ExactBytesDigest::new(contents),
            identity: ExecutorFileIdentity {
                namespace: crate::text::text(IDENTITY_NAMESPACE),
                value: identity_bytes(after),
            },
            metadata: metadata_snapshot(restorable_metadata(after)),
            link_count: after.nlink,
            kind,
        },
    )
}

/// Permission bits for the group and for others.
pub const SHARED_PERMISSIONS: u32 = 0o077;

/// A file object belongs to the effective user alone and lives on the given device: owned by
/// `euid`, with no permission for the group or others.
pub open spec fn owner_only(status: FileStatus, dev: u64, euid: u32) -> bool {
    &&& status.dev == dev
    &&& status.uid == euid
    &&& status.mode & SHARED_PERMISSIONS == 0
}

/// A regular file with a single link that belongs to the effective user alone on the given
/// device.
pub open spec fn private_regular_file(file: FileStatus, dev: u64, euid: u32) -> bool {
    &&& kind_of_mode(file.mode) == FileKind::File
    &&& file.nlink == 1
    &&& owner_only(file, dev, euid)
}

/// A journal file is private and stays on its transaction directory's filesystem.
pub open spec fn journal_is_private(file: FileStatus, directory: FileStatus, euid: u32) -> bool {
    private_regular_file(file, directory.dev, euid)
}

fn is_owner_only(status: &FileStatus, dev: u64, euid: u32) -> (r: bool)
    ensures
        r == owner_only(*status, dev, euid),
{
    status.dev == dev && status.uid == euid && status.mode & SHARED_PERMISSIONS == 0
}

fn is_private_regular_file(file: &FileStatus, dev: u64, euid: u32) -> (r: bool)
    ensures
        r == private_regular_file(*file, dev, euid),
{
    let is_file = match file_kind(file) {
        FileKind::File => true,
        _ => false,
    };
    is_file && file.nlink == 1 && is_owner_only(file, dev, euid)
}

/// The error of a journal that cannot be loaded for the given reason.
pub open spec fn journal_refused(e: TransactionFileSystemError, reason: Seq<char>) -> bool {
    e matches TransactionFileSystemError::Platform { operation, reason: r } && operation
        == "load transaction journal" && r@ == reason
}

/// Checks a journal file before it is read: it must be private, and no larger than the
/// recovery limit.
pub fn check_journal_file(file: &FileStatus, directory: &FileStatus, euid: u32, max_bytes: u64) -> (r: Result<
    (),
    TransactionFileSystemError,
>)
    ensures
        !journal_is_private(*file, *directory, euid) ==> (r matches Err(e) && journal_refused(
            e,
            "transaction journal is not a private same-filesystem regular file"@,
        )),
        journal_is_private(*file, *directory, euid) && file.size > max_bytes ==> (r matches Err(e)
            && journal_refused(e, "transaction journal exceeds the configured recovery limit"@)),
        journal_is_private(*file, *directory, euid) && file.size <= max_bytes ==> r is Ok,
{
    if !is_private_regular_file(file, directory.dev, euid) {
        return Err(
            TransactionFileSystemError::Platform {
                operation: "load transaction journal",
                reason: crate::text::text("transaction journal is not a private same-filesystem regular file"),
            },
        );
    }
    if file.size > max_bytes {
        return Err(
            TransactionFileSystemError::Platform {
                operation: "load transaction journal",
                reason: crate::text::text("transaction journal exceeds the configured recovery limit"),
            },
        );
    }
    Ok(())
}

/// Checks a journal read: the file's status did not change and the bytes read are its size.
pub fn check_journal_read(before: &FileStatus, after: &FileStatus, read: usize) -> (r: Result<
    (),
    TransactionFileSystemError,
>)
    ensures
        *before == *after && after.size == read ==> r is Ok,
        !(*before == *after && after.size == read) ==> (r matches Err(e) && journal_refused(
            e,
            "transaction journal changed while it was read"@,
        )),
{
    if !metadata_is_stable(before, after) || after.size != read as u64 {
        return Err(
            TransactionFileSystemError::Platform {
                operation: "load transaction journal",
                reason: crate::text::text("transaction journal changed while it was read"),
            },
        );
    }
    Ok(())
}

/// The error of transaction storage that cannot be allocated or reopened, for the given reason.
pub open spec fn storage_refused(e: TransactionFileSystemError, reason: Seq<char>) -> bool {
    e matches TransactionFileSystemError::Platform { operation, reason: r } && operation
        == "allocate transaction storage" && r@ == reason
}

fn storage_error(reason: &str) -> (e: TransactionFileSystemError)
    ensures
        storage_refused(e, reason@),
{
    TransactionFileSystemError::Platform { operation: "allocate transaction storage", reason: crate::text::text(reason) }
}

/// A transaction storage directory must belong to the effective user alone, on the root's
/// filesystem.
pub fn check_storage_directory(directory: &FileStatus, root: &FileStatus, euid: u32) -> (r: Result<
    (),
    TransactionFileSystemError,
>)
    ensures
        owner_only(*directory, root.dev, euid) ==> r is Ok,
        !owner_only(*directory, root.dev, euid) ==> (r matches Err(
            TransactionFileSystemError::Unsupported { capability, reason },
        ) && capability == "native transaction storage" && reason@
            == "transaction storage must be same-filesystem, owner-only, and owned by the executor user"@),
{
    if !is_owner_only(directory, root.dev, euid) {
        return Err(
            TransactionFileSystemError::Unsupported {
                capability: "native transaction storage",
                reason: crate::text::text(
                    "transaction storage must be same-filesystem, owner-only, and owned by the executor user",
                ),
            },
        );
    }
    Ok(())
}

/// A reopened transaction's reservation file must be a private regular file on the root's
/// filesystem.
pub fn check_reservation_file(file: &FileStatus, root: &FileStatus, euid: u32) -> (r: Result<
    (),
    TransactionFileSystemError,
>)
    ensures
        private_regular_file(*file, root.dev, euid) ==> r is Ok,
        !private_regular_file(*file, root.dev, euid) ==> (r matches Err(e) && storage_refused(
            e,
            "transaction reservation is not a private same-filesystem regular file"@,
        )),
{
    if !is_private_regular_file(file, root.dev, euid) {
        return Err(storage_error("transaction reservation is not a private same-filesystem regular file"));
    }
    Ok(())
}

/// The restorable metadata of a status.
pub open spec fn status_metadata(status: FileStatus) -> RestorableMetadata {
    RestorableMetadata {
        mode: status.mode,
        uid: status.uid,
        gid: status.gid,
        modified_seconds: status.mtime,
        modified_nanoseconds: status.mtime_nsec,
    }
}

/// A freshly written artifact: a regular file holding exactly the written bytes, with a
/// single link, on the root's filesystem.
pub open spec fn artifact_written(status: FileStatus, root: FileStatus, contents: Seq<u8>) -> bool {
    &&& kind_of_mode(status.mode) == FileKind::File
    &&& status.size == contents.len()
    &&& status.nlink == 1
    &&& status.dev == root.dev
}

/// The evidence of an artifact just written with `contents`: its digest, identity and
/// restorable metadata, one link, a regular file.
pub fn written_artifact_evidence(status: &FileStatus, root: &FileStatus, contents: &[u8]) -> (r: Result<
    FileEvidence,
    TransactionFileSystemError,
>)
    ensures
        !artifact_written(*status, *root, contents@) ==> (r matches Err(e) && storage_refused(
            e,
            "transaction artifact evidence is not stable"@,
        )),
        artifact_written(*status, *root, contents@) ==> (r matches Ok(evidence) && evidence.exact_digest.bytes()
            == sha256(contents@) && evidence.identity@ == (IDENTITY_NAMESPACE@, identity_of(*status))
            && evidence.metadata.namespace@ == METADATA_NAMESPACE@ && evidence.metadata.value@
            == metadata_bytes(status_metadata(*status)) && evidence.link_count == 1 && evidence.kind
            == FileKind::File),
{
    let is_file = match file_kind(status) {
        FileKind::File => true,
        _ => false,
    };
    if !is_file || status.size != contents.len() as u64 || status.nlink != 1 || status.dev != root.dev {
        return Err(storage_error("transaction artifact evidence is not stable"));
    }
    Ok(
        FileEvidence {
            exact_digest: crate::digest::ExactBytesDigest::new(contents),
            identity: ExecutorFileIdentity {
                namespace: crate::text::text(IDENTITY_NAMESPACE),
                value: identity_bytes(status),
            },
            metadata: metadata_snapshot(restorable_metadata(status)),
            link_count: 1,
            kind: FileKind::File,
        },
    )
}

/// The error for a reopened artifact of the given transaction that is not what its journal
/// recorded.
pub open spec fn artifact_changed(e: TransactionFileSystemError, transaction_id: Seq<char>) -> bool {
    e matches TransactionFileSystemError::ChangedSincePlanning { path } && path@ == "transaction artifact for "@
        + transaction_id
}

/// What a reopened artifact shows: the evidence of its status and the bytes read from it.
pub open spec fn reopened_evidence_matches(after: FileStatus, contents: Seq<u8>, expected: FileEvidence) -> bool {
    &&& expected.exact_digest.bytes() == sha256(contents)
    &&& expected.identity@ == (IDENTITY_NAMESPACE@, identity_of(after))
    &&& expected.metadata.namespace@ == METADATA_NAMESPACE@
    &&& expected.metadata.value@ == metadata_bytes(status_metadata(after))
    &&& expected.metadata.fingerprint.bytes() == sha256(metadata_bytes(status_metadata(after)))
    &&& expected.link_count == after.nlink
    &&& expected.kind == kind_of_mode(after.mode)
}

/// A reopened artifact is the one its journal recorded: a single-linked regular file on the
/// root's filesystem whose status held still while its bytes were read, and whose evidence
/// equals the recorded evidence.
pub open spec fn reopened_artifact_valid(
    before: FileStatus,
    after: FileStatus,
    root: FileStatus,
    contents: Seq<u8>,
    expected: FileEvidence,
) -> bool {
    &&& kind_of_mode(before.mode) == FileKind::File
    &&& before.nlink == 1
    &&& before.dev == root.dev
    &&& before == after
    &&& after.size == contents.len()
    &&& reopened_evidence_matches(after, contents, expected)
}

/// Checks an artifact reopened for recovery against the evidence its journal recorded.
pub fn check_reopened_artifact(
    before: &FileStatus,
    after: &FileStatus,
    root: &FileStatus,
    contents: &[u8],
    expected: &FileEvidence,
    transaction_id: &str,
) -> (r: Result<(), TransactionFileSystemError>)
    ensures
        reopened_artifact_valid(*before, *after, *root, contents@, *expected) ==> r is Ok,
        !reopened_artifact_valid(*before, *after, *root, contents@, *expected) ==> (r matches Err(e)
            && artifact_changed(e, transaction_id@)),
{
    let is_file = match file_kind(before) {
        FileKind::File => true,
        _ => false,
    };
    if !is_file || before.nlink != 1 || before.dev != root.dev || !metadata_is_stable(before, after)
        || after.size != contents.len() as u64 {
        return Err(reopened_artifact_changed(transaction_id));
    }
    let actual = FileEvidence {
        exact_digest: crate::digest::ExactBytesDigest::new(contents),
        identity: ExecutorFileIdentity { namespace: crate::text::text(IDENTITY_NAMESPACE), value: identity_bytes(after) },
        metadata: metadata_snapshot(restorable_metadata(after)),
        link_count: after.nlink,
        kind: file_kind(after),
    };
    if !actual.same(expected) {
        return Err(reopened_artifact_changed(transaction_id));
    }
    Ok(())
}

fn reopened_artifact_changed(transaction_id: &str) -> (e: TransactionFileSystemError)
    ensures
        artifact_changed(e, transaction_id@),
{
    let mut path = crate::text::text("transaction artifact for ");
    path.append(transaction_id);
    TransactionFileSystemError::ChangedSincePlanning { path }
}

} // verus!
