//! What a Linux filesystem must offer for byte-exact transaction paths, and what metadata a
//! staged file receives.
use vstd::prelude::*;

use crate::metadata_codec::RestorableMetadata;
use crate::observation::TransactionFileSystemError;
use crate::text::hex_chars;

verus! {

/// The `statfs` type of ext2, ext3 and ext4 filesystems.
pub const EXT_SUPER_MAGIC: i64 = 0xef53;

/// The `statfs` type of tmpfs.
pub const TMPFS_MAGIC: i64 = 0x0102_1994;

/// The inode flag of a directory with case-insensitive lookup.
pub const FS_CASEFOLD_FL: i64 = 0x4000_0000;

/// How a filesystem's lookup is known to be byte-exact.
#[derive(Clone, Copy, Debug, PartialEq, Eq, Structural)]
pub enum LookupCheck {
    /// Every directory of the filesystem looks names up byte for byte.
    ByteExact,
    /// Byte-exact unless the directory enables case folding: its flags must be checked.
    UnlessCaseFolded,
}

/// The error for a directory whose name lookup is not known to be byte-exact.
pub open spec fn not_byte_exact(e: TransactionFileSystemError, reason: Seq<char>) -> bool {
    e matches TransactionFileSystemError::Unsupported { capability, reason: r } && capability
        == "byte-exact transaction path keys" && r@ == reason
}

/// What makes a filesystem's lookup byte-exact: tmpfs always, ext unless case folding is on;
/// any other filesystem type is refused, its type shown in hexadecimal.
pub fn filesystem_lookup(filesystem_type: i64) -> (r: Result<LookupCheck, TransactionFileSystemError>)
    ensures
        filesystem_type == TMPFS_MAGIC ==> r == Ok::<LookupCheck, TransactionFileSystemError>(
            LookupCheck::ByteExact,
        ),
        filesystem_type == EXT_SUPER_MAGIC ==> r == Ok::<LookupCheck, TransactionFileSystemError>(
            LookupCheck::UnlessCaseFolded,
        ),
        filesystem_type != TMPFS_MAGIC && filesystem_type != EXT_SUPER_MAGIC ==> (r matches Err(e)
            && not_byte_exact(
            e,
            "Linux filesystem type 0x"@ + hex_chars(filesystem_type as u64)
                + " has no proven byte-exact lookup adapter"@,
        )),
{
    if filesystem_type == TMPFS_MAGIC {
        return Ok(LookupCheck::ByteExact);
    }
    if filesystem_type == EXT_SUPER_MAGIC {
        return Ok(LookupCheck::UnlessCaseFolded);
    }
    let mut reason = crate::text::text("Linux filesystem type 0x");
    crate::text::push_hex(&mut reason, filesystem_type as u64);
    reason.append(" has no proven byte-exact lookup adapter");
    Err(TransactionFileSystemError::Unsupported { capability: "byte-exact transaction path keys", reason })
}

/// An ext directory must not fold case.
pub fn check_case_sensitive(flags: i64) -> (r: Result<(), TransactionFileSystemError>)
    ensures
        flags & FS_CASEFOLD_FL == 0 ==> r is Ok,
        flags & FS_CASEFOLD_FL != 0 ==> (r matches Err(e) && not_byte_exact(
            e,
            "the selected directory enables case-insensitive lookup"@,
        )),
{
    if flags & FS_CASEFOLD_FL != 0 {
        return Err(
            TransactionFileSystemError::Unsupported {
                capability: "byte-exact transaction path keys",
                reason: crate::text::text("the selected directory enables case-insensitive lookup"),
            },
        );
    }
    Ok(())
}

/// The permission bits that a mode change sets: the permissions with the set-user-ID,
/// set-group-ID and sticky bits.
pub const PERMISSION_BITS: u32 = 0o7777;

/// The metadata a staged file receives: owner, group and permission bits, and a modification
/// time when it was restored from a snapshot.
#[derive(Clone, Copy, Debug, PartialEq, Eq)]
pub struct MetadataUpdate {
    pub uid: u32,
    pub gid: u32,
    pub mode: u32,
    pub modified: Option<(i64, i64)>,
}

/// What a staged file receives: the restored metadata's owner, group, permission bits and
/// modification time; or, for a new file, the effective user and group and mode `0o644`,
/// with the time left as it is.
pub fn metadata_update(restored: Option<RestorableMetadata>, euid: u32, egid: u32) -> (r: MetadataUpdate)
    ensures
        restored is None ==> r == (MetadataUpdate { uid: euid, gid: egid, mode: 0o644, modified: None }),
        restored matches Some(m) ==> r == (MetadataUpdate {
            uid: m.uid,
            gid: m.gid,
            mode: m.mode & PERMISSION_BITS,
            modified: Some((m.modified_seconds, m.modified_nanoseconds)),
        }),
{
    match restored {
        Some(m) => MetadataUpdate {
            uid: m.uid,
            gid: m.gid,
            mode: m.mode & PERMISSION_BITS,
            modified: Some((m.modified_seconds, m.modified_nanoseconds)),
        },
        None => MetadataUpdate { uid: euid, gid: egid, mode: 0o644, modified: None },
    }
}

} // verus!
