use vstd::prelude::*;

use crate::digest::sha256;
use crate::observation::MetadataSnapshot;
use crate::observation::TransactionFileSystemError;

verus! {

/// Namespace of restorable Linux metadata snapshots.
pub const METADATA_NAMESPACE: &'static str = "linux-basic-restorable-v1";

/// Restorable metadata: permission bits, owner, group and modification time.
#[derive(Clone, Copy, Debug, PartialEq, Eq, Structural)]
pub struct RestorableMetadata {
    pub mode: u32,
    pub uid: u32,
    pub gid: u32,
    pub modified_seconds: i64,
    pub modified_nanoseconds: i64,
}

pub open spec fn le32_bytes(n: u32) -> Seq<u8> {
    seq![(n & 0xff) as u8, ((n >> 8) & 0xff) as u8, ((n >> 16) & 0xff) as u8, ((n >> 24) & 0xff) as u8]
}

pub open spec fn le64_bytes(n: u64) -> Seq<u8> {
    seq![
        (n & 0xff) as u8,
        ((n >> 8) & 0xff) as u8,
        ((n >> 16) & 0xff) as u8,
        ((n >> 24) & 0xff) as u8,
        ((n >> 32) & 0xff) as u8,
        ((n >> 40) & 0xff) as u8,
        ((n >> 48) & 0xff) as u8,
        ((n >> 56) & 0xff) as u8,
    ]
}

pub open spec fn u32_at(b: Seq<u8>, i: int) -> u32 {
    (b[i] as u32) | ((b[i + 1] as u32) << 8) | ((b[i + 2] as u32) << 16) | ((b[i + 3] as u32) << 24)
}

pub open spec fn u64_at(b: Seq<u8>, i: int) -> u64 {
    (b[i] as u64) | ((b[i + 1] as u64) << 8) | ((b[i + 2] as u64) << 16) | ((b[i + 3] as u64) << 24) | ((
    b[i + 4] as u64) << 32) | ((b[i + 5] as u64) << 40) | ((b[i + 6] as u64) << 48) | ((b[i + 7] as u64)
        << 56)
}

/// The snapshot bytes: each field in little-endian order, 28 bytes in all.
pub open spec fn metadata_bytes(m: RestorableMetadata) -> Seq<u8> {
    le32_bytes(m.mode) + le32_bytes(m.uid) + le32_bytes(m.gid) + le64_bytes(m.modified_seconds as u64)
        + le64_bytes(m.modified_nanoseconds as u64)
}

/// The metadata a snapshot's bytes hold.
pub open spec fn metadata_of(b: Seq<u8>) -> RestorableMetadata {
    RestorableMetadata {
        mode: u32_at(b, 0),
        uid: u32_at(b, 4),
        gid: u32_at(b, 8),
        modified_seconds: u64_at(b, 12) as i64,
        modified_nanoseconds: u64_at(b, 20) as i64,
    }
}

fn push_u32(out: &mut Vec<u8>, n: u32)
    ensures
        final(out)@ == old(out)@ + le32_bytes(n),
{
    out.push((n & 0xff) as u8);
    out.push(((n >> 8) & 0xff) as u8);
    out.push(((n >> 16) & 0xff) as u8);
    out.push(((n >> 24) & 0xff) as u8);
    assert(out@ =~= old(out)@ + le32_bytes(n));
}

fn push_u64(out: &mut Vec<u8>, n: u64)
    ensures
        final(out)@ == old(out)@ + le64_bytes(n),
{
    out.push((n & 0xff) as u8);
    out.push(((n >> 8) & 0xff) as u8);
    out.push(((n >> 16) & 0xff) as u8);
    out.push(((n >> 24) & 0xff) as u8);
    out.push(((n >> 32) & 0xff) as u8);
    out.push(((n >> 40) & 0xff) as u8);
    out.push(((n >> 48) & 0xff) as u8);
    out.push(((n >> 56) & 0xff) as u8);
    assert(out@ =~= old(out)@ + le64_bytes(n));
}

/// A restorable snapshot of the metadata, fingerprinted with SHA-256.
pub fn metadata_snapshot(metadata: RestorableMetadata) -> (r: MetadataSnapshot)
    ensures
        r.namespace@ == METADATA_NAMESPACE@,
        r.value@ == metadata_bytes(metadata),
        r.fingerprint.bytes() == sha256(metadata_bytes(metadata)),
{
    let mut value: Vec<u8> = Vec::new();
    push_u32(&mut value, metadata.mode);
    push_u32(&mut value, metadata.uid);
    push_u32(&mut value, metadata.gid);
    push_u64(&mut value, metadata.modified_seconds as u64);
    push_u64(&mut value, metadata.modified_nanoseconds as u64);
    assert(value@ =~= metadata_bytes(metadata));
    MetadataSnapshot::new(crate::text::text(METADATA_NAMESPACE), value)
}

fn read_u32(b: &Vec<u8>, i: usize) -> (r: u32)
    requires
        i <= 24,
        i + 4 <= b@.len(),
    ensures
        r == u32_at(b@, i as int),
{
    (b[i] as u32) | ((b[i + 1] as u32) << 8) | ((b[i + 2] as u32) << 16) | ((b[i + 3] as u32) << 24)
}

fn read_u64(b: &Vec<u8>, i: usize) -> (r: u64)
    requires
        i <= 20,
        i + 8 <= b@.len(),
    ensures
        r == u64_at(b@, i as int),
{
    (b[i] as u64) | ((b[i + 1] as u64) << 8) | ((b[i + 2] as u64) << 16) | ((b[i + 3] as u64) << 24) | ((
    b[i + 4] as u64) << 32) | ((b[i + 5] as u64) << 40) | ((b[i + 6] as u64) << 48) | ((b[i + 7] as u64)
        << 56)
}

/// The error for a snapshot of the wrong width.
pub open spec fn invalid_width(e: TransactionFileSystemError) -> bool {
    e matches TransactionFileSystemError::Unsupported { capability, reason } && capability
        == "restore Linux transaction metadata" && reason@ == "Linux metadata snapshot has invalid width"@
}

/// Reads restorable metadata back from a snapshot: the namespace must be the restorable one,
/// the value exactly 28 bytes, and the nanoseconds below one second.
pub fn decode_metadata(metadata: &MetadataSnapshot) -> (r: Result<RestorableMetadata, TransactionFileSystemError>)
    ensures
        metadata.namespace@ != METADATA_NAMESPACE@ ==> (r matches Err(
            TransactionFileSystemError::Unsupported { capability, reason },
        ) && capability == "restore Linux transaction metadata" && reason@ == "unsupported metadata namespace `"@
            + metadata.namespace@ + "`"@),
        metadata.namespace@ == METADATA_NAMESPACE@ && metadata.value@.len() != 28 ==> (r matches Err(e)
            && invalid_width(e)),
        metadata.namespace@ == METADATA_NAMESPACE@ && metadata.value@.len() == 28 ==> ({
            let m = metadata_of(metadata.value@);
            &&& !(0 <= m.modified_nanoseconds < 1_000_000_000) ==> (r matches Err(
                TransactionFileSystemError::Platform { operation, reason },
            ) && operation == "allocate transaction storage" && reason@
                == "metadata modification nanoseconds are invalid"@)
            &&& (0 <= m.modified_nanoseconds < 1_000_000_000) ==> r == Ok::<
                RestorableMetadata,
                TransactionFileSystemError,
            >(m)
        }),
{
    if !crate::text::text_equals(metadata.namespace.as_str(), METADATA_NAMESPACE) {
        let mut reason = crate::text::text("unsupported metadata namespace `");
        reason.append(metadata.namespace.as_str());
        reason.append("`");
        return Err(
            TransactionFileSystemError::Unsupported { capability: "restore Linux transaction metadata", reason },
        );
    }
    if metadata.value.len() != 28 {
        return Err(
            TransactionFileSystemError::Unsupported {
                capability: "restore Linux transaction metadata",
                reason: crate::text::text("Linux metadata snapshot has invalid width"),
            },
        );
    }
    let decoded = RestorableMetadata {
        mode: read_u32(&metadata.value, 0),
        uid: read_u32(&metadata.value, 4),
        gid: read_u32(&metadata.value, 8),
        modified_seconds: read_u64(&metadata.value, 12) as i64,
        modified_nanoseconds: read_u64(&metadata.value, 20) as i64,
    };
    if !(0 <= decoded.modified_nanoseconds && decoded.modified_nanoseconds < 1_000_000_000) {
        return Err(
            TransactionFileSystemError::Platform {
                operation: "allocate transaction storage",
                reason: crate::text::text("metadata modification nanoseconds are invalid"),
            },
        );
    }
    Ok(decoded)
}

proof fn lemma_u32_round_trip(b: Seq<u8>, i: int, n: u32)
    requires
        0 <= i,
        i + 4 <= b.len(),
        b.subrange(i, i + 4) == le32_bytes(n),
    ensures
        u32_at(b, i) == n,
{
    assert(b[i] == le32_bytes(n)[0] && b[i + 1] == le32_bytes(n)[1] && b[i + 2] == le32_bytes(n)[2] && b[i
        + 3] == le32_bytes(n)[3]) by {
        assert(b.subrange(i, i + 4)[0] == b[i]);
        assert(b.subrange(i, i + 4)[1] == b[i + 1]);
        assert(b.subrange(i, i + 4)[2] == b[i + 2]);
        assert(b.subrange(i, i + 4)[3] == b[i + 3]);
    }
    let (b0, b1, b2, b3) = (b[i], b[i + 1], b[i + 2], b[i + 3]);
    assert((b0 as u32) | ((b1 as u32) << 8) | ((b2 as u32) << 16) | ((b3 as u32) << 24) == n) by (bit_vector)
        requires
            b0 == (n & 0xff) as u8,
            b1 == ((n >> 8) & 0xff) as u8,
            b2 == ((n >> 16) & 0xff) as u8,
            b3 == ((n >> 24) & 0xff) as u8,
    ;
}

proof fn lemma_u64_round_trip(b: Seq<u8>, i: int, n: u64)
    requires
        0 <= i,
        i + 8 <= b.len(),
        b.subrange(i, i + 8) == le64_bytes(n),
    ensures
        u64_at(b, i) == n,
{
    let s = b.subrange(i, i + 8);
    assert(s[0] == b[i] && s[1] == b[i + 1] && s[2] == b[i + 2] && s[3] == b[i + 3] && s[4] == b[i + 4]
        && s[5] == b[i + 5] && s[6] == b[i + 6] && s[7] == b[i + 7]);
    let (b0, b1, b2, b3, b4, b5, b6, b7) = (
        b[i],
        b[i + 1],
        b[i + 2],
        b[i + 3],
        b[i + 4],
        b[i + 5],
        b[i + 6],
        b[i + 7],
    );
    assert((b0 as u64) | ((b1 as u64) << 8) | ((b2 as u64) << 16) | ((b3 as u64) << 24) | ((b4 as u64) << 32)
        | ((b5 as u64) << 40) | ((b6 as u64) << 48) | ((b7 as u64) << 56) == n) by (bit_vector)
        requires
            b0 == (n & 0xff) as u8,
            b1 == ((n >> 8) & 0xff) as u8,
            b2 == ((n >> 16) & 0xff) as u8,
            b3 == ((n >> 24) & 0xff) as u8,
            b4 == ((n >> 32) & 0xff) as u8,
            b5 == ((n >> 40) & 0xff) as u8,
            b6 == ((n >> 48) & 0xff) as u8,
            b7 == ((n >> 56) & 0xff) as u8,
    ;
}

/// Reading a snapshot's bytes gives back exactly the metadata they were made from.
pub proof fn lemma_metadata_round_trip(m: RestorableMetadata)
    ensures
        metadata_bytes(m).len() == 28,
        metadata_of(metadata_bytes(m)) == m,
{
    let b = metadata_bytes(m);
    assert(b.len() == 28);
    assert(b.subrange(0, 4) =~= le32_bytes(m.mode));
    assert(b.subrange(4, 8) =~= le32_bytes(m.uid));
    assert(b.subrange(8, 12) =~= le32_bytes(m.gid));
    assert(b.subrange(12, 20) =~= le64_bytes(m.modified_seconds as u64));
    assert(b.subrange(20, 28) =~= le64_bytes(m.modified_nanoseconds as u64));
    lemma_u32_round_trip(b, 0, m.mode);
    lemma_u32_round_trip(b, 4, m.uid);
    lemma_u32_round_trip(b, 8, m.gid);
    lemma_u64_round_trip(b, 12, m.modified_seconds as u64);
    lemma_u64_round_trip(b, 20, m.modified_nanoseconds as u64);
    let s = m.modified_seconds;
    let ns = m.modified_nanoseconds;
    assert((s as u64) as i64 == s) by (bit_vector);
    assert((ns as u64) as i64 == ns) by (bit_vector);
}

} // verus!
