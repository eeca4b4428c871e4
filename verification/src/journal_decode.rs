use vstd::prelude::*;

use crate::digest::sha256;
use crate::digest::MetadataFingerprint;
use crate::journal::DurableFileEvidence;
use crate::journal::JournalBytes;
use crate::journal::JournalError;
use crate::journal::JournalMutation;
use crate::journal::JournalOperation;
use crate::journal::JournalRecord;
use crate::keys::text_len;
use crate::keys::utf8;
use crate::keys::DurablePathKey;
use crate::limits::sat_add;
use crate::observation::FileEvidence;
use crate::request::TransactionLimits;

verus! {

/// Structural limits applied when a durable journal is read back.
#[derive(Clone, Copy, Debug, PartialEq, Eq, Structural)]
pub struct JournalReadLimits {
    pub max_bytes: u64,
    pub max_mutations: u64,
    pub max_key_bytes: u64,
}

impl JournalReadLimits {
    pub fn from_limits(limits: TransactionLimits) -> (r: Self)
        ensures
            r.max_bytes == limits.max_journal_bytes,
            r.max_mutations == limits.max_mutations,
            r.max_key_bytes == limits.max_executor_key_bytes,
    {
        JournalReadLimits {
            max_bytes: limits.max_journal_bytes,
            max_mutations: limits.max_mutations,
            max_key_bytes: limits.max_executor_key_bytes,
        }
    }
}

/// The first error of two checks run in order.
pub open spec fn first_error(a: Option<JournalError>, b: Option<JournalError>) -> Option<JournalError> {
    if a is Some {
        a
    } else {
        b
    }
}

pub open spec fn limit_error(resource: &'static str, observed: int, limit: u64) -> Option<JournalError> {
    if observed > limit {
        Some(JournalError::StructuralLimit { resource, observed: observed as u64, limit })
    } else {
        None
    }
}

pub open spec fn text_error(field: &'static str, value: Seq<char>, max: u64) -> Option<JournalError> {
    if value.len() == 0 {
        Some(JournalError::InvalidField { field, reason: "value must not be empty" })
    } else {
        limit_error(field, utf8(value).len() as int, max)
    }
}

pub open spec fn opaque_error(
    field: &'static str,
    namespace: Seq<char>,
    value: Seq<u8>,
    max: u64,
) -> Option<JournalError> {
    if namespace.len() == 0 || value.len() == 0 {
        Some(JournalError::InvalidField { field, reason: "namespace and value must not be empty" })
    } else {
        limit_error(field, sat_add(utf8(namespace).len() as int, value.len() as int), max)
    }
}

pub open spec fn path_key_error(field: &'static str, key: DurablePathKey, max: u64) -> Option<JournalError> {
    opaque_error(field, key.namespace@, key.value@, max)
}

pub open spec fn evidence_error(field: &'static str, e: FileEvidence, max: u64) -> Option<JournalError> {
    first_error(
        opaque_error(field, e.identity.namespace@, e.identity.value@, max),
        first_error(
            opaque_error(field, e.metadata.namespace@, e.metadata.value@, max),
            if e.metadata.fingerprint.bytes() != sha256(e.metadata.value@) {
                Some(
                    JournalError::InvalidField {
                        field,
                        reason: "metadata fingerprint does not match metadata bytes",
                    },
                )
            } else {
                None
            },
        ),
    )
}

pub open spec fn durable_error(field: &'static str, d: DurableFileEvidence, max: u64) -> Option<JournalError> {
    first_error(path_key_error(field, d.key, max), evidence_error(field, d.evidence, max))
}

pub open spec fn operation_error(op: JournalOperation, max: u64) -> Option<JournalError> {
    match op {
        JournalOperation::Create { destination, staged } => first_error(
            path_key_error("destination", destination, max),
            durable_error("staged", staged, max),
        ),
        JournalOperation::Update { path, before, staged, backup } => first_error(
            path_key_error("path", path, max),
            first_error(
                evidence_error("before", before, max),
                first_error(durable_error("staged", staged, max), durable_error("backup", backup, max)),
            ),
        ),
        JournalOperation::Delete { path, before, backup } => first_error(
            path_key_error("path", path, max),
            first_error(evidence_error("before", before, max), durable_error("backup", backup, max)),
        ),
        JournalOperation::Move { source, destination, before, staged, backup } => first_error(
            path_key_error("source", source, max),
            first_error(
                path_key_error("destination", destination, max),
                first_error(
                    evidence_error("before", before, max),
                    first_error(
                        durable_error("staged", staged, max),
                        durable_error("backup", backup, max),
                    ),
                ),
            ),
        ),
    }
}

/// First key error among the first `n` operations.
pub open spec fn operations_error(ms: Seq<JournalMutation>, n: int, max: u64) -> Option<JournalError>
    decreases n,
{
    if n <= 0 {
        None
    } else {
        first_error(operations_error(ms, n - 1, max), operation_error(ms[n - 1].operation, max))
    }
}

/// First key error of a record, in the order the fields are checked.
pub open spec fn record_keys_error(r: JournalRecord, max: u64) -> Option<JournalError> {
    first_error(
        text_error("transactionId", r.transaction_id.0@, max),
        first_error(
            opaque_error("transactionKey", r.transaction_key.namespace@, r.transaction_key.value@, max),
            first_error(
                text_error("environmentId", r.environment_id@, max),
                first_error(
                    path_key_error("root", r.root, max),
                    first_error(
                        opaque_error(
                            "rootIdentity",
                            r.root_identity.namespace@,
                            r.root_identity.value@,
                            max,
                        ),
                        operations_error(r.mutations@, r.mutations@.len() as int, max),
                    ),
                ),
            ),
        ),
    )
}

/// The durable paths an operation touches, source before destination.
pub open spec fn operation_paths(op: JournalOperation) -> Seq<(Seq<char>, Seq<u8>)> {
    match op {
        JournalOperation::Create { destination, .. } => seq![destination@],
        JournalOperation::Update { path, .. } => seq![path@],
        JournalOperation::Delete { path, .. } => seq![path@],
        JournalOperation::Move { source, destination, .. } => seq![source@, destination@],
    }
}

pub open spec fn all_paths(ms: Seq<JournalMutation>) -> Seq<(Seq<char>, Seq<u8>)>
    decreases ms.len(),
{
    if ms.len() == 0 {
        Seq::empty()
    } else {
        all_paths(ms.drop_last()) + operation_paths(ms.last().operation)
    }
}

/// The first reason a decoded record is rejected by the bounded reader.
pub open spec fn decoded_error(r: JournalRecord, limits: JournalReadLimits) -> Option<JournalError> {
    first_error(
        r.validation_error(),
        first_error(
            limit_error("mutation count", r.mutations@.len() as int, limits.max_mutations),
            first_error(
                record_keys_error(r, limits.max_key_bytes),
                if all_paths(r.mutations@).no_duplicates() {
                    None
                } else {
                    Some(
                        JournalError::InvalidField {
                            field: "mutations",
                            reason: "durable paths must be unique",
                        },
                    )
                },
            ),
        ),
    )
}

/// Rejects an observed amount above its structural limit.
pub fn check_limit(resource: &'static str, observed: u64, limit: u64) -> (r: Result<(), JournalError>)
    ensures
        match limit_error(resource, observed as int, limit) {
            Some(e) => r == Err::<(), JournalError>(e),
            None => r is Ok,
        },
{
    if observed > limit {
        Err(JournalError::StructuralLimit { resource, observed, limit })
    } else {
        Ok(())
    }
}

/// A non-empty text field within the byte limit.
pub fn validate_text(field: &'static str, value: &String, max_bytes: u64) -> (r: Result<(), JournalError>)
    ensures
        match text_error(field, value@, max_bytes) {
            Some(e) => r == Err::<(), JournalError>(e),
            None => r is Ok,
        },
{
    if value.as_str().is_empty() {
        return Err(JournalError::InvalidField { field, reason: "value must not be empty" });
    }
    check_limit(field, text_len(value) as u64, max_bytes)
}

/// A non-empty namespace and value whose combined length is within the byte limit.
pub fn validate_opaque(field: &'static str, namespace: &String, value: &Vec<u8>, max_bytes: u64) -> (r:
    Result<(), JournalError>)
    ensures
        match opaque_error(field, namespace@, value@, max_bytes) {
            Some(e) => r == Err::<(), JournalError>(e),
            None => r is Ok,
        },
{
    if namespace.as_str().is_empty() || value.len() == 0 {
        return Err(
            JournalError::InvalidField { field, reason: "namespace and value must not be empty" },
        );
    }
    check_limit(field, (text_len(namespace) as u64).saturating_add(value.len() as u64), max_bytes)
}

pub fn validate_path_key(field: &'static str, key: &DurablePathKey, max_bytes: u64) -> (r: Result<
    (),
    JournalError,
>)
    ensures
        match path_key_error(field, *key, max_bytes) {
            Some(e) => r == Err::<(), JournalError>(e),
            None => r is Ok,
        },
{
    validate_opaque(field, &key.namespace, &key.value, max_bytes)
}

/// Identity and metadata keys within bounds, and a fingerprint that matches the metadata bytes.
pub fn validate_file_evidence(field: &'static str, evidence: &FileEvidence, max_bytes: u64) -> (r:
    Result<(), JournalError>)
    ensures
        match evidence_error(field, *evidence, max_bytes) {
            Some(e) => r == Err::<(), JournalError>(e),
            None => r is Ok,
        },
{
    validate_opaque(field, &evidence.identity.namespace, &evidence.identity.value, max_bytes)?;
    validate_opaque(field, &evidence.metadata.namespace, &evidence.metadata.value, max_bytes)?;
    let expected = MetadataFingerprint::new(evidence.metadata.value.as_slice());
    if !expected.same(&evidence.metadata.fingerprint) {
        return Err(
            JournalError::InvalidField {
                field,
                reason: "metadata fingerprint does not match metadata bytes",
            },
        );
    }
    Ok(())
}

pub fn validate_durable_file(field: &'static str, file: &DurableFileEvidence, max_bytes: u64) -> (r:
    Result<(), JournalError>)
    ensures
        match durable_error(field, *file, max_bytes) {
            Some(e) => r == Err::<(), JournalError>(e),
            None => r is Ok,
        },
{
    validate_path_key(field, &file.key, max_bytes)?;
    validate_file_evidence(field, &file.evidence, max_bytes)
}

pub fn validate_operation(operation: &JournalOperation, max_bytes: u64) -> (r: Result<(), JournalError>)
    ensures
        match operation_error(*operation, max_bytes) {
            Some(e) => r == Err::<(), JournalError>(e),
            None => r is Ok,
        },
{
    match operation {
        JournalOperation::Create { destination, staged } => {
            validate_path_key("destination", destination, max_bytes)?;
            validate_durable_file("staged", staged, max_bytes)
        },
        JournalOperation::Update { path, before, staged, backup } => {
            validate_path_key("path", path, max_bytes)?;
            validate_file_evidence("before", before, max_bytes)?;
            validate_durable_file("staged", staged, max_bytes)?;
            validate_durable_file("backup", backup, max_bytes)
        },
        JournalOperation::Delete { path, before, backup } => {
            validate_path_key("path", path, max_bytes)?;
            validate_file_evidence("before", before, max_bytes)?;
            validate_durable_file("backup", backup, max_bytes)
        },
        JournalOperation::Move { source, destination, before, staged, backup } => {
            validate_path_key("source", source, max_bytes)?;
            validate_path_key("destination", destination, max_bytes)?;
            validate_file_evidence("before", before, max_bytes)?;
            validate_durable_file("staged", staged, max_bytes)?;
            validate_durable_file("backup", backup, max_bytes)
        },
    }
}

/// Every identifier, key and evidence field of a record is non-empty and within the byte limit.
pub fn validate_record_keys(record: &JournalRecord, max_bytes: u64) -> (r: Result<(), JournalError>)
    ensures
        match record_keys_error(*record, max_bytes) {
            Some(e) => r == Err::<(), JournalError>(e),
            None => r is Ok,
        },
{
    validate_text("transactionId", &record.transaction_id.0, max_bytes)?;
    validate_opaque(
        "transactionKey",
        &record.transaction_key.namespace,
        &record.transaction_key.value,
        max_bytes,
    )?;
    validate_text("environmentId", &record.environment_id, max_bytes)?;
    validate_path_key("root", &record.root, max_bytes)?;
    validate_opaque(
        "rootIdentity",
        &record.root_identity.namespace,
        &record.root_identity.value,
        max_bytes,
    )?;
    validate_operations(&record.mutations, max_bytes)
}

fn validate_operations(mutations: &Vec<JournalMutation>, max_bytes: u64) -> (r: Result<(), JournalError>)
    ensures
        match operations_error(mutations@, mutations@.len() as int, max_bytes) {
            Some(e) => r == Err::<(), JournalError>(e),
            None => r is Ok,
        },
{
    let mut i: usize = 0;
    while i < mutations.len()
        invariant
            i <= mutations@.len(),
            operations_error(mutations@, i as int, max_bytes) is None,
        decreases mutations@.len() - i,
    {
        let checked = validate_operation(&mutations[i].operation, max_bytes);
        if checked.is_err() {
            proof {
                lemma_first_operation_error_sticks(mutations@, i as int + 1, mutations@.len() as int, max_bytes);
            }
            return checked;
        }
        i += 1;
    }
    Ok(())
}

proof fn lemma_first_operation_error_sticks(ms: Seq<JournalMutation>, k: int, n: int, max: u64)
    requires
        0 <= k <= n,
        operations_error(ms, k, max) is Some,
    ensures
        operations_error(ms, n, max) == operations_error(ms, k, max),
    decreases n - k,
{
    if n > k {
        lemma_first_operation_error_sticks(ms, k, n - 1, max);
    }
}

fn push_path<'a>(paths: &mut Vec<&'a DurablePathKey>, key: &'a DurablePathKey)
    ensures
        final(paths)@.map_values(|k: &DurablePathKey| k@) == old(paths)@.map_values(
            |k: &DurablePathKey| k@,
        ).push(key@),
{
    let ghost before = paths@;
    paths.push(key);
    assert(paths@.map_values(|k: &DurablePathKey| k@) =~= before.map_values(|k: &DurablePathKey| k@).push(key@));
}

/// Durable paths must not repeat within or across operations.
pub fn validate_unique_paths(record: &JournalRecord) -> (r: Result<(), JournalError>)
    ensures
        all_paths(record.mutations@).no_duplicates() ==> r is Ok,
        !all_paths(record.mutations@).no_duplicates() ==> r == Err::<(), JournalError>(
            JournalError::InvalidField { field: "mutations", reason: "durable paths must be unique" },
        ),
{
    let mut paths: Vec<&DurablePathKey> = Vec::new();
    let mut i: usize = 0;
    while i < record.mutations.len()
        invariant
            i <= record.mutations@.len(),
            paths@.map_values(|k: &DurablePathKey| k@) == all_paths(record.mutations@.take(i as int)),
        decreases record.mutations@.len() - i,
    {
        let ghost prefix = record.mutations@.take(i as int);
        match &record.mutations[i].operation {
            JournalOperation::Create { destination, .. } => push_path(&mut paths, destination),
            JournalOperation::Update { path, .. } => push_path(&mut paths, path),
            JournalOperation::Delete { path, .. } => push_path(&mut paths, path),
            JournalOperation::Move { source, destination, .. } => {
                push_path(&mut paths, source);
                push_path(&mut paths, destination);
            },
        }
        proof {
            let t = record.mutations@.take(i + 1);
            assert(t.drop_last() =~= prefix);
            assert(all_paths(t) =~= all_paths(prefix) + operation_paths(record.mutations@[i as int].operation));
        }
        i += 1;
    }
    assert(record.mutations@.take(record.mutations@.len() as int) =~= record.mutations@);
    let ghost all = all_paths(record.mutations@);
    let mut index: usize = 0;
    while index < paths.len()
        invariant
            index <= paths@.len(),
            all == paths@.map_values(|k: &DurablePathKey| k@),
            all == all_paths(record.mutations@),
            forall|a: int, b: int| 0 <= a < b < index ==> all[a] != all[b],
        decreases paths@.len() - index,
    {
        let mut earlier: usize = 0;
        while earlier < index
            invariant
                earlier <= index < paths@.len(),
                all == paths@.map_values(|k: &DurablePathKey| k@),
                all == all_paths(record.mutations@),
                forall|a: int| 0 <= a < earlier ==> all[a] != all[index as int],
                forall|a: int, b: int| 0 <= a < b < index ==> all[a] != all[b],
            decreases index - earlier,
        {
            if paths[earlier].same(paths[index]) {
                assert(all[earlier as int] == paths@[earlier as int]@);
                assert(all[index as int] == paths@[index as int]@);
                assert(all[earlier as int] == all[index as int]);
                assert(!all.no_duplicates());
                return Err(
                    JournalError::InvalidField { field: "mutations", reason: "durable paths must be unique" },
                );
            }
            earlier += 1;
        }
        index += 1;
    }
    assert(all.no_duplicates());
    Ok(())
}

impl JournalRecord {
    /// Rejects serialized journal bytes above the read limit, before any parsing.
    pub fn check_encoded_size(bytes: &JournalBytes, limits: JournalReadLimits) -> (r: Result<(), JournalError>)
        ensures
            match limit_error("bytes", bytes.bytes().len() as int, limits.max_bytes) {
                Some(e) => r == Err::<(), JournalError>(e),
                None => r is Ok,
            },
    {
        check_limit("bytes", bytes.len() as u64, limits.max_bytes)
    }

    /// Validates a record read back from durable storage: the record itself, the mutation
    /// count, every key and evidence field, and the uniqueness of durable paths.
    pub fn validate_decoded(&self, limits: JournalReadLimits) -> (r: Result<(), JournalError>)
        ensures
            match decoded_error(*self, limits) {
                Some(e) => r == Err::<(), JournalError>(e),
                None => r is Ok,
            },
    {
        self.validate()?;
        check_limit("mutation count", self.mutations.len() as u64, limits.max_mutations)?;
        validate_record_keys(self, limits.max_key_bytes)?;
        validate_unique_paths(self)
    }
}

} // verus!
