use vstd::prelude::*;

use crate::framing::push_raw;
use crate::keys::utf8;
use crate::keys::DurablePathKey;
use crate::keys::DurableTransactionKey;
use crate::keys::ExecutorRootIdentity;
use crate::journal::JournalRecord;
use crate::journal::JournalState;
use crate::journal::StorageRequirements;
use crate::keys::TransactionId;
use crate::observation::TransactionFileSystemError;

verus! {

/// Namespace of durable path keys.
pub const PATH_KEY_NAMESPACE: &'static str = "linux-hashline-path-v1";

/// Namespace of durable transaction keys.
pub const TRANSACTION_KEY_NAMESPACE: &'static str = "linux-hashline-transaction-v1";

/// Namespace of the durable key of a transaction root.
pub const ROOT_KEY_NAMESPACE: &'static str = "linux-hashline-root-v1";

/// Namespace of durable keys naming staged files and backups.
pub const ARTIFACT_KEY_NAMESPACE: &'static str = "linux-hashline-artifact-v1";

/// Most path components a durable path key may hold.
pub const MAX_DURABLE_PATH_COMPONENTS: usize = 256;

/// Name of the directory under the root that holds transaction storage.
pub open spec fn sidecar_name() -> Seq<u8> {
    seq![46u8, 99, 111, 100, 101, 120, 45, 104, 97, 115, 104, 108, 105, 110, 101, 45, 116, 114, 97, 110, 115, 97, 99, 116, 105, 111, 110, 115]
}

/// Text of the error that `std` gives for bytes that are not UTF-8, as rendered by its
/// `Display` implementation.
pub uninterp spec fn utf8_error_message(bytes: Seq<u8>) -> Seq<char>;

/// Calls `std::str::from_utf8` on bytes that are not UTF-8 and renders its error with
/// `to_string`; the contract claims only that the text is the one `std` gives for these bytes.
#[verifier::external_body]
fn utf8_error_text(bytes: &[u8]) -> (r: String)
    requires
        !vstd::utf8::valid_utf8(bytes@),
    ensures
        r@ == utf8_error_message(bytes@),
{
    match std::str::from_utf8(bytes) {
        Ok(_) => String::new(),
        Err(error) => error.to_string(),
    }
}

// ----- length-prefixed key parts -----

/// Little-endian four-byte encoding of a 32-bit number.
pub open spec fn le32(n: u32) -> Seq<u8> {
    seq![(n & 0xff) as u8, ((n >> 8) & 0xff) as u8, ((n >> 16) & 0xff) as u8, ((n >> 24) & 0xff) as u8]
}

/// The number a little-endian four-byte prefix encodes.
pub open spec fn le32_value(b: Seq<u8>) -> u32 {
    (b[0] as u32) | ((b[1] as u32) << 8) | ((b[2] as u32) << 16) | ((b[3] as u32) << 24)
}

/// One key part: its length as four little-endian bytes, then its bytes.
pub open spec fn key_part(part: Seq<u8>) -> Seq<u8> {
    le32(part.len() as u32) + part
}

/// Why the first key part cannot be taken from the bytes, if it cannot.
pub open spec fn take_problem(v: Seq<u8>) -> Option<Seq<char>> {
    if v.len() < 4 {
        Some("durable key is truncated"@)
    } else if 4 + le32_value(v) > usize::MAX {
        Some("durable key length overflows the executor address space"@)
    } else if 4 + le32_value(v) > v.len() {
        Some("durable key length exceeds its bytes"@)
    } else {
        None
    }
}

/// The first key part and the bytes after it, for bytes that hold one.
pub open spec fn take_parts(v: Seq<u8>) -> (Seq<u8>, Seq<u8>) {
    let end = 4 + le32_value(v);
    (v.subrange(4, end), v.subrange(end, v.len() as int))
}

/// The error of a recovery operation on durable keys.
pub open spec fn recovery_problem(e: TransactionFileSystemError, operation: &'static str, reason: Seq<char>) -> bool {
    e matches TransactionFileSystemError::Platform { operation: o, reason: r } && o == operation && r@ == reason
}

fn recovery_error(operation: &'static str, reason: &str) -> (e: TransactionFileSystemError)
    ensures
        recovery_problem(e, operation, reason@),
{
    TransactionFileSystemError::Platform { operation, reason: crate::text::text(reason) }
}

/// Appends one length-prefixed key part; a part longer than four bytes can count is refused.
pub fn push_key_part(value: &mut Vec<u8>, part: &[u8]) -> (r: Result<(), TransactionFileSystemError>)
    ensures
        part@.len() <= u32::MAX ==> r is Ok && final(value)@ == old(value)@ + key_part(part@),
        part@.len() > u32::MAX ==> final(value)@ == old(value)@ && (r matches Err(e) && recovery_problem(
            e,
            "allocate transaction storage",
            "durable key part is too large"@,
        )),
{
    if part.len() as u64 > 0xffff_ffffu64 {
        return Err(recovery_error("allocate transaction storage", "durable key part is too large"));
    }
    let n = part.len() as u32;
    value.push((n & 0xff) as u8);
    value.push(((n >> 8) & 0xff) as u8);
    value.push(((n >> 16) & 0xff) as u8);
    value.push(((n >> 24) & 0xff) as u8);
    push_raw(value, part);
    assert(value@ =~= old(value)@ + key_part(part@));
    Ok(())
}

/// Splits off the first length-prefixed key part.
pub fn take_key_part(value: &[u8]) -> (r: Result<(&[u8], &[u8]), TransactionFileSystemError>)
    ensures
        match take_problem(value@) {
            Some(reason) => r matches Err(e) && recovery_problem(e, "decode transaction recovery key", reason),
            None => r matches Ok((part, rest)) && (part@, rest@) == take_parts(value@),
        },
{
    if value.len() < 4 {
        return Err(recovery_error("decode transaction recovery key", "durable key is truncated"));
    }
    let length: u32 = (value[0] as u32) | ((value[1] as u32) << 8) | ((value[2] as u32) << 16) | ((
    value[3] as u32) << 24);
    assert(length == le32_value(value@));
    let end = match 4usize.checked_add(length as usize) {
        Some(end) => end,
        None => {
            return Err(
                recovery_error(
                    "decode transaction recovery key",
                    "durable key length overflows the executor address space",
                ),
            );
        },
    };
    if end > value.len() {
        return Err(
            recovery_error("decode transaction recovery key", "durable key length exceeds its bytes"),
        );
    }
    Ok((&value[4..end], &value[end..value.len()]))
}

pub proof fn lemma_le32_round_trip(n: u32)
    ensures
        le32_value(le32(n)) == n,
{
    let b0 = (n & 0xff) as u8;
    let b1 = ((n >> 8) & 0xff) as u8;
    let b2 = ((n >> 16) & 0xff) as u8;
    let b3 = ((n >> 24) & 0xff) as u8;
    assert((b0 as u32) | ((b1 as u32) << 8) | ((b2 as u32) << 16) | ((b3 as u32) << 24) == n) by (bit_vector)
        requires
            b0 == (n & 0xff) as u8,
            b1 == ((n >> 8) & 0xff) as u8,
            b2 == ((n >> 16) & 0xff) as u8,
            b3 == ((n >> 24) & 0xff) as u8,
    ;
}

/// Taking the first key part of an encoded part followed by any bytes gives back the part
/// and exactly those bytes.
pub proof fn lemma_key_part_round_trip(part: Seq<u8>, rest: Seq<u8>)
    requires
        part.len() <= u32::MAX,
        4 + part.len() + rest.len() <= usize::MAX,
    ensures
        take_problem(key_part(part) + rest) is None,
        take_parts(key_part(part) + rest) == (part, rest),
{
    let v = key_part(part) + rest;
    lemma_le32_round_trip(part.len() as u32);
    assert(v.subrange(0, 4) =~= le32(part.len() as u32));
    assert(le32_value(v) == le32_value(le32(part.len() as u32)));
    assert(v.subrange(4, 4 + part.len() as int) =~= part);
    assert(v.subrange(4 + part.len() as int, v.len() as int) =~= rest);
}

// ----- transaction keys -----

/// The value of a transaction key: the root identity, then the transaction ID, each as a
/// key part.
pub open spec fn transaction_key_bytes(root_identity: Seq<u8>, transaction_id: Seq<u8>) -> Seq<u8> {
    key_part(root_identity) + key_part(transaction_id)
}

/// The value of the durable key of a transaction under a root.
pub fn transaction_key_value(root_identity: &[u8], transaction_id: &TransactionId) -> (r: Result<
    Vec<u8>,
    TransactionFileSystemError,
>)
    ensures
        root_identity@.len() <= u32::MAX && utf8(transaction_id.0@).len() <= u32::MAX ==> (r matches Ok(v) && v@
            == transaction_key_bytes(root_identity@, utf8(transaction_id.0@))),
        root_identity@.len() > u32::MAX || utf8(transaction_id.0@).len() > u32::MAX ==> (r matches Err(e)
            && recovery_problem(e, "allocate transaction storage", "durable key part is too large"@)),
{
    let mut value: Vec<u8> = Vec::new();
    push_key_part(&mut value, root_identity)?;
    push_key_part(&mut value, transaction_id.0.as_str().as_bytes())?;
    assert(value@ =~= transaction_key_bytes(root_identity@, utf8(transaction_id.0@)));
    Ok(value)
}

/// The durable key of a transaction under a root.
pub fn durable_transaction_key(root_identity: &[u8], transaction_id: &TransactionId) -> (r: Result<
    DurableTransactionKey,
    TransactionFileSystemError,
>)
    ensures
        root_identity@.len() <= u32::MAX && utf8(transaction_id.0@).len() <= u32::MAX ==> (r matches Ok(k)
            && k.namespace@ == TRANSACTION_KEY_NAMESPACE@ && k.value@ == transaction_key_bytes(
            root_identity@,
            utf8(transaction_id.0@),
        )),
        root_identity@.len() > u32::MAX || utf8(transaction_id.0@).len() > u32::MAX ==> (r matches Err(e)
            && recovery_problem(e, "allocate transaction storage", "durable key part is too large"@)),
{
    let value = match transaction_key_value(root_identity, transaction_id) {
        Ok(v) => v,
        Err(e) => {
            return Err(e);
        },
    };
    Ok(DurableTransactionKey { namespace: crate::text::text(TRANSACTION_KEY_NAMESPACE), value })
}

/// The durable key of a transaction root: the root's identity under the root namespace.
pub fn durable_root_key(root_identity: &[u8]) -> (r: DurablePathKey)
    ensures
        r.namespace@ == ROOT_KEY_NAMESPACE@,
        r.value@ == root_identity@,
{
    let mut value: Vec<u8> = Vec::new();
    push_raw(&mut value, root_identity);
    DurablePathKey { namespace: crate::text::text(ROOT_KEY_NAMESPACE), value }
}

/// The durable key of the transaction stored under the directory `name` of a root's sidecar.
pub fn transaction_key_for_name(root_identity: &[u8], name: &[u8]) -> (r: Result<
    DurableTransactionKey,
    TransactionFileSystemError,
>)
    ensures
        root_identity@.len() <= u32::MAX && name@.len() <= u32::MAX ==> (r matches Ok(k) && k.namespace@
            == TRANSACTION_KEY_NAMESPACE@ && k.value@ == transaction_key_bytes(root_identity@, name@)),
        root_identity@.len() > u32::MAX || name@.len() > u32::MAX ==> (r matches Err(e) && recovery_problem(
            e,
            "allocate transaction storage",
            "durable key part is too large"@,
        )),
{
    let mut value: Vec<u8> = Vec::new();
    match push_key_part(&mut value, root_identity) {
        Ok(()) => {},
        Err(e) => {
            return Err(e);
        },
    }
    match push_key_part(&mut value, name) {
        Ok(()) => {},
        Err(e) => {
            return Err(e);
        },
    }
    assert(value@ =~= transaction_key_bytes(root_identity@, name@));
    Ok(DurableTransactionKey { namespace: crate::text::text(TRANSACTION_KEY_NAMESPACE), value })
}

/// Whether a transaction directory found by the recovery scan still needs recovery: its
/// journal is not complete, or it belongs to another environment, root, key or name.
pub open spec fn needs_recovery(
    record: JournalRecord,
    environment_id: Seq<char>,
    root_identity: (Seq<char>, Seq<u8>),
    key: (Seq<char>, Seq<u8>),
    name: Seq<u8>,
) -> bool {
    ||| record.state != JournalState::Complete
    ||| record.environment_id@ != environment_id
    ||| record.root@ != (ROOT_KEY_NAMESPACE@, root_identity.1)
    ||| record.root_identity@ != root_identity
    ||| record.transaction_key@ != key
    ||| utf8(record.transaction_id.0@) != name
}

/// Decides whether a complete-looking journal found by the recovery scan may be skipped.
pub fn journal_needs_recovery(
    record: &JournalRecord,
    environment_id: &str,
    root_identity: &ExecutorRootIdentity,
    key: &DurableTransactionKey,
    name: &[u8],
) -> (r: bool)
    ensures
        r == needs_recovery(*record, environment_id@, root_identity@, key@, name@),
{
    let root_key = durable_root_key(root_identity.value.as_slice());
    record.state != JournalState::Complete || !crate::text::text_equals(
        record.environment_id.as_str(),
        environment_id,
    ) || !record.root.same(&root_key) || !record.root_identity.same(root_identity)
        || !record.transaction_key.same(key) || !crate::digest::bytes_equal(
        record.transaction_id.0.as_str().as_bytes(),
        name,
    )
}

/// Reads the transaction ID back from a durable transaction key: the namespace must be the
/// transaction namespace, the first part the root's identity, the second part UTF-8, and
/// nothing may follow.
pub fn transaction_id_from_key(root_identity: &[u8], root_display: &str, key: &DurableTransactionKey) -> (r: Result<
    TransactionId,
    TransactionFileSystemError,
>)
    ensures
        key.namespace@ != TRANSACTION_KEY_NAMESPACE@ ==> (r matches Err(
            TransactionFileSystemError::Unsupported { capability, reason },
        ) && capability == "native transaction recovery key" && reason@
            == "durable transaction key namespace is not supported"@),
        key.namespace@ == TRANSACTION_KEY_NAMESPACE@ ==> match take_problem(key.value@) {
            Some(reason) => r matches Err(e) && recovery_problem(e, "decode transaction recovery key", reason),
            None => {
                let (root, rest) = take_parts(key.value@);
                if root != root_identity@ {
                    r matches Err(TransactionFileSystemError::ChangedSincePlanning { path }) && path@
                        == root_display@
                } else {
                    match take_problem(rest) {
                        Some(reason) => r matches Err(e) && recovery_problem(
                            e,
                            "decode transaction recovery key",
                            reason,
                        ),
                        None => {
                            let (id, tail) = take_parts(rest);
                            if tail.len() != 0 {
                                r matches Err(e) && recovery_problem(
                                    e,
                                    "decode transaction recovery key",
                                    "durable transaction key has trailing bytes"@,
                                )
                            } else if !vstd::utf8::valid_utf8(id) {
                                r matches Err(e) && recovery_problem(
                                    e,
                                    "decode transaction recovery key",
                                    utf8_error_message(id),
                                )
                            } else {
                                r matches Ok(t) && utf8(t.0@) == id
                            }
                        },
                    }
                }
            },
        },
{
    if !crate::text::text_equals(key.namespace.as_str(), TRANSACTION_KEY_NAMESPACE) {
        return Err(
            TransactionFileSystemError::Unsupported {
                capability: "native transaction recovery key",
                reason: crate::text::text("durable transaction key namespace is not supported"),
            },
        );
    }
    let (root, rest) = take_key_part(key.value.as_slice())?;
    if !crate::digest::bytes_equal(root, root_identity) {
        return Err(TransactionFileSystemError::ChangedSincePlanning { path: crate::text::text(root_display) });
    }
    let (id, tail) = take_key_part(rest)?;
    if tail.len() != 0 {
        return Err(
            recovery_error("decode transaction recovery key", "durable transaction key has trailing bytes"),
        );
    }
    match crate::text::str_from_utf8(id) {
        Some(s) => Ok(TransactionId(crate::text::text(s))),
        None => Err(
            TransactionFileSystemError::Platform {
                operation: "decode transaction recovery key",
                reason: utf8_error_text(id),
            },
        ),
    }
}

/// Reading back the key of a transaction under the same root gives the bytes of its ID, which
/// are UTF-8 and decode to the ID, with nothing left over.
pub proof fn lemma_transaction_key_round_trip(root_identity: Seq<u8>, transaction_id: Seq<char>)
    requires
        root_identity.len() <= u32::MAX,
        utf8(transaction_id).len() <= u32::MAX,
        8 + root_identity.len() + utf8(transaction_id).len() <= usize::MAX,
    ensures
        ({
            let value = transaction_key_bytes(root_identity, utf8(transaction_id));
            let (root, rest) = take_parts(value);
            &&& take_problem(value) is None
            &&& root == root_identity
            &&& take_problem(rest) is None
            &&& take_parts(rest) == (utf8(transaction_id), Seq::<u8>::empty())
            &&& vstd::utf8::valid_utf8(utf8(transaction_id))
            &&& vstd::utf8::decode_utf8(utf8(transaction_id)) == transaction_id
        }),
{
    let id = utf8(transaction_id);
    lemma_key_part_round_trip(root_identity, key_part(id));
    lemma_key_part_round_trip(id, Seq::empty());
    assert(key_part(id) + Seq::<u8>::empty() =~= key_part(id));
    vstd::utf8::encode_utf8_valid_utf8(transaction_id);
    vstd::utf8::encode_utf8_decode_utf8(transaction_id);
}

// ----- path keys -----

/// The parts of a path key after the root identity: each component as a key part.
pub open spec fn parts_bytes(components: Seq<Seq<u8>>) -> Seq<u8>
    decreases components.len(),
{
    if components.len() == 0 {
        Seq::empty()
    } else {
        key_part(components[0]) + parts_bytes(components.drop_first())
    }
}

/// The value of a durable path key: the root identity, then every component from the root
/// down to the leaf.
pub open spec fn path_key_bytes(root_identity: Seq<u8>, components: Seq<Seq<u8>>) -> Seq<u8> {
    key_part(root_identity) + parts_bytes(components)
}

/// A component cannot name a path: empty, holding NUL or `/`, `.` or `..`, or, first under
/// the root, the transaction storage directory.
pub open spec fn component_invalid(c: Seq<u8>, first: bool) -> bool {
    c.len() == 0 || c.contains(0u8) || c.contains(47u8) || c == seq![46u8] || c == seq![46u8, 46u8] || (
    first && c == sidecar_name())
}

fn contains_byte(bytes: &[u8], b: u8) -> (r: bool)
    ensures
        r == bytes@.contains(b),
{
    let mut i: usize = 0;
    while i < bytes.len()
        invariant
            i <= bytes@.len(),
            forall|j: int| 0 <= j < i ==> bytes@[j] != b,
        decreases bytes@.len() - i,
    {
        if bytes[i] == b {
            assert(bytes@[i as int] == b);
            return true;
        }
        i += 1;
    }
    false
}

/// Rejects a component that cannot be part of a durable path.
pub fn validate_component(component: &[u8], first: bool) -> (r: Result<(), TransactionFileSystemError>)
    ensures
        !component_invalid(component@, first) ==> r is Ok,
        component_invalid(component@, first) ==> (r matches Err(e) && recovery_problem(
            e,
            "decode transaction recovery path",
            "durable path contains an invalid component"@,
        )),
{
    let sidecar: &[u8] = &[
        46u8, 99, 111, 100, 101, 120, 45, 104, 97, 115, 104, 108, 105, 110, 101, 45, 116, 114, 97, 110,
        115, 97, 99, 116, 105, 111, 110, 115,
    ];
    assert(sidecar@ =~= sidecar_name());
    let dot: &[u8] = &[46u8];
    let dots: &[u8] = &[46u8, 46u8];
    assert(dot@ =~= seq![46u8]);
    assert(dots@ =~= seq![46u8, 46u8]);
    if component.len() == 0 || contains_byte(component, 0) || contains_byte(component, 47)
        || crate::digest::bytes_equal(component, dot) || crate::digest::bytes_equal(component, dots) || (
    first && crate::digest::bytes_equal(component, sidecar)) {
        return Err(
            recovery_error("decode transaction recovery path", "durable path contains an invalid component"),
        );
    }
    Ok(())
}

/// The value of the durable key of a path under a root, from its components.
pub fn path_key_value(root_identity: &[u8], components: &Vec<Vec<u8>>) -> (r: Result<
    Vec<u8>,
    TransactionFileSystemError,
>)
    ensures
        (root_identity@.len() <= u32::MAX && forall|i: int|
            0 <= i < components@.len() ==> (#[trigger] components@[i])@.len() <= u32::MAX) ==> (r matches Ok(v) && v@
            == path_key_bytes(root_identity@, components@.map_values(|c: Vec<u8>| c@))),
        !(root_identity@.len() <= u32::MAX && forall|i: int|
            0 <= i < components@.len() ==> (#[trigger] components@[i])@.len() <= u32::MAX) ==> (r matches Err(e)
            && recovery_problem(e, "allocate transaction storage", "durable key part is too large"@)),
{
    let ghost views = components@.map_values(|c: Vec<u8>| c@);
    let mut value: Vec<u8> = Vec::new();
    push_key_part(&mut value, root_identity)?;
    let ghost head = value@;
    assert(views.skip(0) =~= views);
    let mut i: usize = 0;
    while i < components.len()
        invariant
            i <= components@.len(),
            views == components@.map_values(|c: Vec<u8>| c@),
            head == key_part(root_identity@),
            root_identity@.len() <= u32::MAX,
            forall|j: int| 0 <= j < i ==> (#[trigger] components@[j])@.len() <= u32::MAX,
            value@ + parts_bytes(views.skip(i as int)) == head + parts_bytes(views),
        decreases components@.len() - i,
    {
        let ghost before = value@;
        match push_key_part(&mut value, components[i].as_slice()) {
            Ok(()) => {},
            Err(e) => {
                return Err(e);
            },
        }
        proof {
            assert(views.skip(i as int).drop_first() =~= views.skip(i + 1));
            assert(views.skip(i as int)[0] == components@[i as int]@);
            assert(before + parts_bytes(views.skip(i as int)) == before + (key_part(views.skip(i as int)[0])
                + parts_bytes(views.skip(i + 1))));
            assert(value@ + parts_bytes(views.skip(i + 1)) =~= before + parts_bytes(views.skip(i as int)));
        }
        i += 1;
    }
    proof {
        assert(views.skip(i as int) =~= Seq::<Seq<u8>>::empty());
        assert(value@ + Seq::<u8>::empty() =~= value@);
    }
    Ok(value)
}

/// The components read from `rem`, the bytes after the root identity, when `count` were
/// read before: the first failure, as an operation and a reason, or the components.
pub open spec fn walk_components(rem: Seq<u8>, count: int) -> Result<Seq<Seq<u8>>, (&'static str, Seq<char>)>
    decreases rem.len(),
{
    if rem.len() == 0 {
        Ok(Seq::empty())
    } else if count >= 256 {
        Err(("decode transaction recovery path", "durable path has too many components"@))
    } else {
        match take_problem(rem) {
            Some(reason) => Err(("decode transaction recovery key", reason)),
            None => {
                let (c, next) = take_parts(rem);
                if component_invalid(c, count == 0) {
                    Err(("decode transaction recovery path", "durable path contains an invalid component"@))
                } else {
                    match walk_components(next, count + 1) {
                        Ok(cs) => Ok(seq![c] + cs),
                        Err(e) => Err(e),
                    }
                }
            },
        }
    }
}

/// Reads the components of a path back from its durable key: the namespace must be the path
/// namespace, the first part the root's identity, and the rest at least one and at most the
/// maximum number of valid components.
pub fn path_components_from_key(root_identity: &[u8], root_display: &str, key: &DurablePathKey) -> (r: Result<
    Vec<Vec<u8>>,
    TransactionFileSystemError,
>)
    ensures
        key.namespace@ != PATH_KEY_NAMESPACE@ ==> (r matches Err(
            TransactionFileSystemError::Unsupported { capability, reason },
        ) && capability == "native transaction recovery path" && reason@
            == "durable path key namespace is not supported"@),
        key.namespace@ == PATH_KEY_NAMESPACE@ ==> match take_problem(key.value@) {
            Some(reason) => r matches Err(e) && recovery_problem(e, "decode transaction recovery key", reason),
            None => {
                let (root, rest) = take_parts(key.value@);
                if root != root_identity@ {
                    r matches Err(TransactionFileSystemError::ChangedSincePlanning { path }) && path@
                        == root_display@
                } else {
                    match walk_components(rest, 0) {
                        Err((operation, reason)) => r matches Err(e) && recovery_problem(e, operation, reason),
                        Ok(cs) => if cs.len() == 0 {
                            r matches Err(e) && recovery_problem(
                                e,
                                "decode transaction recovery path",
                                "durable path has no leaf component"@,
                            )
                        } else {
                            r matches Ok(v) && v@.map_values(|c: Vec<u8>| c@) == cs
                        },
                    }
                }
            },
        },
{
    if !crate::text::text_equals(key.namespace.as_str(), PATH_KEY_NAMESPACE) {
        return Err(
            TransactionFileSystemError::Unsupported {
                capability: "native transaction recovery path",
                reason: crate::text::text("durable path key namespace is not supported"),
            },
        );
    }
    let (root, rest) = take_key_part(key.value.as_slice())?;
    if !crate::digest::bytes_equal(root, root_identity) {
        return Err(TransactionFileSystemError::ChangedSincePlanning { path: crate::text::text(root_display) });
    }
    let ghost all = walk_components(rest@, 0);
    let mut components: Vec<Vec<u8>> = Vec::new();
    let mut remainder: &[u8] = rest;
    while remainder.len() != 0
        invariant
            key.namespace@ == PATH_KEY_NAMESPACE@,
            take_problem(key.value@) is None,
            take_parts(key.value@).0 == root_identity@,
            rest@ == take_parts(key.value@).1,
            all == walk_components(rest@, 0),
            components@.len() <= 256,
            all == match walk_components(remainder@, components@.len() as int) {
                Ok(cs) => Ok(components@.map_values(|c: Vec<u8>| c@) + cs),
                Err(e) => Err(e),
            },
        decreases remainder@.len(),
    {
        if components.len() == MAX_DURABLE_PATH_COMPONENTS {
            return Err(recovery_error("decode transaction recovery path", "durable path has too many components"));
        }
        let (component, next) = take_key_part(remainder)?;
        validate_component(component, components.len() == 0)?;
        let ghost before = components@.map_values(|c: Vec<u8>| c@);
        let ghost tail = walk_components(next@, components@.len() + 1 as int);
        let mut copy: Vec<u8> = Vec::new();
        push_raw(&mut copy, component);
        assert(copy@ =~= component@);
        components.push(copy);
        proof {
            assert(components@.map_values(|c: Vec<u8>| c@) =~= before.push(component@));
            match tail {
                Ok(cs) => {
                    assert(before + (seq![component@] + cs) =~= before.push(component@) + cs);
                },
                Err(_) => {},
            }
        }
        remainder = next;
    }
    proof {
        assert(components@.map_values(|c: Vec<u8>| c@) + Seq::<Seq<u8>>::empty() =~= components@.map_values(
            |c: Vec<u8>| c@,
        ));
    }
    if components.len() == 0 {
        return Err(recovery_error("decode transaction recovery path", "durable path has no leaf component"));
    }
    Ok(components)
}

/// Reading back the key of a path under the same root gives its components, when there are
/// between one and the maximum number of them and each is valid.
pub proof fn lemma_path_key_round_trip(root_identity: Seq<u8>, components: Seq<Seq<u8>>)
    requires
        root_identity.len() <= u32::MAX,
        1 <= components.len() <= 256,
        forall|i: int| 0 <= i < components.len() ==> (#[trigger] components[i]).len() <= u32::MAX,
        forall|i: int| 0 <= i < components.len() ==> !component_invalid(#[trigger] components[i], i == 0),
        path_key_bytes(root_identity, components).len() <= usize::MAX,
    ensures
        take_problem(path_key_bytes(root_identity, components)) is None,
        take_parts(path_key_bytes(root_identity, components)) == (root_identity, parts_bytes(components)),
        walk_components(parts_bytes(components), 0) == Ok::<Seq<Seq<u8>>, (&'static str, Seq<char>)>(components),
{
    lemma_key_part_round_trip(root_identity, parts_bytes(components));
    assert(components.skip(0) =~= components);
    lemma_walk_parts(components, 0);
}

proof fn lemma_walk_parts(components: Seq<Seq<u8>>, count: int)
    requires
        0 <= count <= components.len(),
        components.len() <= 256,
        forall|i: int| 0 <= i < components.len() ==> (#[trigger] components[i]).len() <= u32::MAX,
        forall|i: int| 0 <= i < components.len() ==> !component_invalid(#[trigger] components[i], i == 0),
        parts_bytes(components.skip(count)).len() <= usize::MAX,
    ensures
        walk_components(parts_bytes(components.skip(count)), count) == Ok::<
            Seq<Seq<u8>>,
            (&'static str, Seq<char>),
        >(components.skip(count)),
    decreases components.len() - count,
{
    let rest = components.skip(count);
    if count == components.len() {
        assert(rest =~= Seq::<Seq<u8>>::empty());
    } else {
        let c = rest[0];
        assert(rest.drop_first() =~= components.skip(count + 1));
        let tail = parts_bytes(components.skip(count + 1));
        assert(parts_bytes(rest) == key_part(c) + tail);
        assert(c == components[count]);
        lemma_key_part_round_trip(c, tail);
        assert(key_part(c).len() >= 4);
        lemma_walk_parts(components, count + 1);
        assert(seq![c] + components.skip(count + 1) =~= rest);
    }
}

// ----- transaction artifacts -----

/// The two kinds of transaction artifact.
#[derive(Clone, Copy, Debug, PartialEq, Eq, Structural)]
pub enum ArtifactClass {
    Staged,
    Backup,
}

pub open spec fn class_bytes(class: ArtifactClass) -> Seq<u8> {
    match class {
        ArtifactClass::Staged => seq![115u8, 116, 97, 103, 101, 100],
        ArtifactClass::Backup => seq![98u8, 97, 99, 107, 117, 112],
    }
}

impl ArtifactClass {
    /// The class name as bytes: `staged` or `backup`.
    pub fn bytes(&self) -> (r: &'static [u8])
        ensures
            r@ == class_bytes(*self),
    {
        match self {
            ArtifactClass::Staged => {
                let r: &'static [u8] = &[115u8, 116, 97, 103, 101, 100];
                assert(r@ =~= class_bytes(*self));
                r
            },
            ArtifactClass::Backup => {
                let r: &'static [u8] = &[98u8, 97, 99, 107, 117, 112];
                assert(r@ =~= class_bytes(*self));
                r
            },
        }
    }
}

/// An executor-generated artifact name: the class, a hyphen, then sixteen lower-case
/// hexadecimal digits.
pub open spec fn artifact_name_valid(name: Seq<u8>, class: Seq<u8>) -> bool {
    &&& name.len() == class.len() + 17
    &&& name.subrange(0, class.len() as int) == class
    &&& name[class.len() as int] == 45
    &&& forall|i: int|
        class.len() + 1 <= i < name.len() ==> (48 <= #[trigger] name[i] <= 57) || (97 <= name[i] <= 102)
}

/// Rejects an artifact name that the executor did not generate.
pub fn validate_artifact_name(name: &[u8], class: &[u8]) -> (r: Result<(), TransactionFileSystemError>)
    ensures
        artifact_name_valid(name@, class@) ==> r is Ok,
        !artifact_name_valid(name@, class@) ==> (r matches Err(e) && recovery_problem(
            e,
            "decode transaction artifact key",
            "artifact name is not executor-generated"@,
        )),
{
    let invalid = recovery_error("decode transaction artifact key", "artifact name is not executor-generated");
    let name_len = name.len();
    let class_len = class.len();
    if class_len > usize::MAX - 17 || name_len != class_len + 17 {
        return Err(invalid);
    }
    let mut i: usize = 0;
    while i < class.len()
        invariant
            i <= class@.len(),
            name@.len() == class@.len() + 17,
            recovery_problem(invalid, "decode transaction artifact key", "artifact name is not executor-generated"@),
            forall|j: int| 0 <= j < i ==> name@[j] == class@[j],
        decreases class@.len() - i,
    {
        if name[i] != class[i] {
            return Err(invalid);
        }
        i += 1;
    }
    assert(name@.subrange(0, class@.len() as int) =~= class@);
    if name[class.len()] != 45 {
        return Err(invalid);
    }
    let mut k: usize = class.len() + 1;
    while k < name.len()
        invariant
            class@.len() + 1 <= k <= name@.len(),
            name@.len() == class@.len() + 17,
            recovery_problem(invalid, "decode transaction artifact key", "artifact name is not executor-generated"@),
            name@.subrange(0, class@.len() as int) == class@,
            name@[class@.len() as int] == 45,
            forall|j: int| class@.len() + 1 <= j < k ==> (48 <= #[trigger] name@[j] <= 57) || (97 <= name@[j] <= 102),
        decreases name@.len() - k,
    {
        let b = name[k];
        if !((48 <= b && b <= 57) || (97 <= b && b <= 102)) {
            return Err(invalid);
        }
        k += 1;
    }
    Ok(())
}

/// The value of the durable key of an artifact: the transaction key value, then the class
/// and the name, each as a key part.
pub open spec fn artifact_key_bytes(root_identity: Seq<u8>, transaction_id: Seq<u8>, class: Seq<u8>, name: Seq<u8>) -> Seq<u8> {
    transaction_key_bytes(root_identity, transaction_id) + key_part(class) + key_part(name)
}

/// The durable key naming one staged file or backup of a transaction.
pub fn artifact_key(root_identity: &[u8], transaction_id: &TransactionId, class: ArtifactClass, name: &[u8]) -> (r: Result<
    DurablePathKey,
    TransactionFileSystemError,
>)
    ensures
        root_identity@.len() <= u32::MAX && utf8(transaction_id.0@).len() <= u32::MAX && name@.len() <= u32::MAX
            ==> (r matches Ok(k) && k.namespace@ == ARTIFACT_KEY_NAMESPACE@ && k.value@ == artifact_key_bytes(
            root_identity@,
            utf8(transaction_id.0@),
            class_bytes(class),
            name@,
        )),
        !(root_identity@.len() <= u32::MAX && utf8(transaction_id.0@).len() <= u32::MAX && name@.len()
            <= u32::MAX) ==> (r matches Err(e) && recovery_problem(
            e,
            "allocate transaction storage",
            "durable key part is too large"@,
        )),
{
    let mut value = match transaction_key_value(root_identity, transaction_id) {
        Ok(v) => v,
        Err(e) => {
            return Err(e);
        },
    };
    push_key_part(&mut value, class.bytes())?;
    push_key_part(&mut value, name)?;
    Ok(DurablePathKey { namespace: crate::text::text(ARTIFACT_KEY_NAMESPACE), value })
}

/// The error for an artifact key that does not belong to the locked storage.
pub open spec fn artifact_mismatch(e: TransactionFileSystemError) -> bool {
    recovery_problem(e, "decode transaction artifact key", "artifact key does not match the locked transaction storage"@)
}

/// Reads an artifact's name back from its durable key: the namespace must be the artifact
/// namespace, the four parts must name this root, this transaction and this class, nothing may
/// follow, and the name must be executor-generated.
pub fn artifact_name_from_key(
    root_identity: &[u8],
    transaction_id: &TransactionId,
    key: &DurablePathKey,
    class: ArtifactClass,
) -> (r: Result<Vec<u8>, TransactionFileSystemError>)
    ensures
        key.namespace@ != ARTIFACT_KEY_NAMESPACE@ ==> (r matches Err(e) && recovery_problem(
            e,
            "decode transaction artifact key",
            "artifact key namespace is not supported"@,
        )),
        key.namespace@ == ARTIFACT_KEY_NAMESPACE@ ==> match take_problem(key.value@) {
            Some(reason) => r matches Err(e) && recovery_problem(e, "decode transaction recovery key", reason),
            None => {
                let (root, rest1) = take_parts(key.value@);
                match take_problem(rest1) {
                    Some(reason) => r matches Err(e) && recovery_problem(e, "decode transaction recovery key", reason),
                    None => {
                        let (id, rest2) = take_parts(rest1);
                        match take_problem(rest2) {
                            Some(reason) => r matches Err(e) && recovery_problem(
                                e,
                                "decode transaction recovery key",
                                reason,
                            ),
                            None => {
                                let (cls, rest3) = take_parts(rest2);
                                match take_problem(rest3) {
                                    Some(reason) => r matches Err(e) && recovery_problem(
                                        e,
                                        "decode transaction recovery key",
                                        reason,
                                    ),
                                    None => {
                                        let (name, rest4) = take_parts(rest3);
                                        if rest4.len() != 0 || root != root_identity@ || id != utf8(transaction_id.0@)
                                            || cls != class_bytes(class) {
                                            r matches Err(e) && artifact_mismatch(e)
                                        } else if !artifact_name_valid(name, class_bytes(class)) {
                                            r matches Err(e) && recovery_problem(
                                                e,
                                                "decode transaction artifact key",
                                                "artifact name is not executor-generated"@,
                                            )
                                        } else {
                                            r matches Ok(v) && v@ == name
                                        }
                                    },
                                }
                            },
                        }
                    },
                }
            },
        },
{
    if !crate::text::text_equals(key.namespace.as_str(), ARTIFACT_KEY_NAMESPACE) {
        return Err(recovery_error("decode transaction artifact key", "artifact key namespace is not supported"));
    }
    let (root, rest) = take_key_part(key.value.as_slice())?;
    let (id, rest) = take_key_part(rest)?;
    let (cls, rest) = take_key_part(rest)?;
    let (name, rest) = take_key_part(rest)?;
    let class_name = class.bytes();
    if rest.len() != 0 || !crate::digest::bytes_equal(root, root_identity) || !crate::digest::bytes_equal(
        id,
        transaction_id.0.as_str().as_bytes(),
    ) || !crate::digest::bytes_equal(cls, class_name) {
        return Err(
            recovery_error(
                "decode transaction artifact key",
                "artifact key does not match the locked transaction storage",
            ),
        );
    }
    validate_artifact_name(name, class_name)?;
    let mut out: Vec<u8> = Vec::new();
    push_raw(&mut out, name);
    assert(out@ =~= name@);
    Ok(out)
}

/// Reading back the key of an artifact of the same transaction and class gives its name.
#[verifier::spinoff_prover]
#[verifier::rlimit(40)]
pub proof fn lemma_artifact_key_round_trip(
    root_identity: Seq<u8>,
    transaction_id: Seq<u8>,
    class: ArtifactClass,
    name: Seq<u8>,
)
    requires
        root_identity.len() <= u32::MAX,
        transaction_id.len() <= u32::MAX,
        name.len() <= u32::MAX,
        artifact_key_bytes(root_identity, transaction_id, class_bytes(class), name).len() <= usize::MAX,
    ensures
        ({
            let value = artifact_key_bytes(root_identity, transaction_id, class_bytes(class), name);
            let (root, rest1) = take_parts(value);
            let (id, rest2) = take_parts(rest1);
            let (cls, rest3) = take_parts(rest2);
            let (n, rest4) = take_parts(rest3);
            &&& take_problem(value) is None && root == root_identity
            &&& take_problem(rest1) is None && id == transaction_id
            &&& take_problem(rest2) is None && cls == class_bytes(class)
            &&& take_problem(rest3) is None && n == name && rest4.len() == 0
        }),
{
    let c = class_bytes(class);
    let value = artifact_key_bytes(root_identity, transaction_id, c, name);
    let tail3 = key_part(name);
    let tail2 = key_part(c) + tail3;
    let tail1 = key_part(transaction_id) + tail2;
    assert(value =~= key_part(root_identity) + tail1);
    lemma_key_part_round_trip(root_identity, tail1);
    lemma_key_part_round_trip(transaction_id, tail2);
    lemma_key_part_round_trip(c, tail3);
    lemma_key_part_round_trip(name, Seq::empty());
    assert(key_part(name) + Seq::<u8>::empty() =~= key_part(name));
}

/// An executor transaction ID: one to 128 ASCII letters, digits, hyphens or underscores.
pub open spec fn transaction_id_valid(id: Seq<u8>) -> bool {
    &&& 1 <= id.len() <= 128
    &&& forall|i: int|
        0 <= i < id.len() ==> (48 <= #[trigger] id[i] <= 57) || (65 <= id[i] <= 90) || (97 <= id[i] <= 122)
            || id[i] == 45 || id[i] == 95
}

/// The bytes a transaction's storage reserves: the three requirements together, refused when
/// their sum overflows a `u64` or exceeds the largest file size the platform can allocate.
pub fn reservation_bytes(requirements: StorageRequirements) -> (r: Result<i64, TransactionFileSystemError>)
    ensures
        ({
            let total = requirements.staged_bytes + requirements.backup_bytes + requirements.journal_bytes;
            &&& total <= i64::MAX ==> r == Ok::<i64, TransactionFileSystemError>(total as i64)
            &&& total > u64::MAX ==> (r matches Err(e) && recovery_problem(
                e,
                "allocate transaction storage",
                "storage requirements overflow"@,
            ))
            &&& i64::MAX < total <= u64::MAX ==> (r matches Err(e) && recovery_problem(
                e,
                "allocate transaction storage",
                "storage requirements exceed Linux file-size limits"@,
            ))
        }),
{
    let total = match requirements.staged_bytes.checked_add(requirements.backup_bytes) {
        Some(partial) => partial.checked_add(requirements.journal_bytes),
        None => None,
    };
    match total {
        None => Err(recovery_error("allocate transaction storage", "storage requirements overflow")),
        Some(total) => {
            if total > 0x7fff_ffff_ffff_ffffu64 {
                Err(
                    recovery_error(
                        "allocate transaction storage",
                        "storage requirements exceed Linux file-size limits",
                    ),
                )
            } else {
                Ok(total as i64)
            }
        },
    }
}

/// Rejects a transaction ID that cannot name transaction storage.
pub fn validate_transaction_id(transaction_id: &TransactionId) -> (r: Result<(), TransactionFileSystemError>)
    ensures
        transaction_id_valid(utf8(transaction_id.0@)) ==> r is Ok,
        !transaction_id_valid(utf8(transaction_id.0@)) ==> (r matches Err(e) && recovery_problem(
            e,
            "allocate transaction storage",
            "transaction ID must be 1-128 ASCII letters, digits, hyphens, or underscores"@,
        )),
{
    let bytes = transaction_id.0.as_str().as_bytes();
    let invalid = recovery_error(
        "allocate transaction storage",
        "transaction ID must be 1-128 ASCII letters, digits, hyphens, or underscores",
    );
    if bytes.len() == 0 || bytes.len() > 128 {
        return Err(invalid);
    }
    let mut i: usize = 0;
    while i < bytes.len()
        invariant
            i <= bytes@.len(),
            bytes@ == utf8(transaction_id.0@),
            1 <= bytes@.len() <= 128,
            recovery_problem(
                invalid,
                "allocate transaction storage",
                "transaction ID must be 1-128 ASCII letters, digits, hyphens, or underscores"@,
            ),
            forall|j: int|
                0 <= j < i ==> (48 <= #[trigger] bytes@[j] <= 57) || (65 <= bytes@[j] <= 90) || (97 <= bytes@[j]
                    <= 122) || bytes@[j] == 45 || bytes@[j] == 95,
        decreases bytes@.len() - i,
    {
        let b = bytes[i];
        if !((48 <= b && b <= 57) || (65 <= b && b <= 90) || (97 <= b && b <= 122) || b == 45 || b == 95) {
            return Err(invalid);
        }
        i += 1;
    }
    Ok(())
}

} // verus!
