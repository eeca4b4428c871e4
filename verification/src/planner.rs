use vstd::prelude::*;

use crate::digest::sha256;
use crate::digest::ExactBytesDigest;
use crate::edits::compile_edits;
use crate::edits::compile_spec;
use crate::edits::issue_error;
use crate::edits::EditOutputLimit;
use crate::keys::text_len;
use crate::keys::utf8;
use crate::keys::CanonicalPathKey;
use crate::keys::ExecutorRootIdentity;
use crate::limits::check_limit;
use crate::limits::sat_add;
use crate::observation::FileKind;
use crate::observation::ObservedFile;
use crate::observation::ObservedPath;
use crate::observation::TransactionFileSystemError;
use crate::request::FileEdit;
use crate::request::PlanSummary;
use crate::request::PlannedMutation;
use crate::request::PlannedTransaction;
use crate::request::TransactionAction;
use crate::plan_digest::digest_plan;
use crate::ordering::is_sorted_order;
use crate::plan_digest::plan_bytes;
use crate::ordering::rank_keys;
use crate::ordering::reorder;
use crate::request::TransactionLimits;
use crate::plan_laws::canonical_plan_digest;
use crate::plan_laws::distinct_keys;
use crate::plan_laws::lemma_sorted_digest_is_canonical;

verus! {

#[derive(Clone, Debug, PartialEq, Eq)]
pub enum PlanError {
    FileSystem(TransactionFileSystemError),
    Empty,
    Limit { resource: &'static str, observed: u64, limit: u64 },
    PathConflict { first: String, second: String },
    ExpectedAbsent { path: String },
    ExpectedExistingFile { path: String },
    Stale { path: String },
    UnsupportedKind { path: String, kind: FileKind },
    HardLink { path: String, link_count: u64 },
    InvalidEdits { path: String },
    PlanDigestMismatch { expected: ExactBytesDigest, actual: ExactBytesDigest },
    InvalidUtf8 { path: String },
    InvalidAnchor { path: String, reason: String },
    InvalidEditText { path: String, reason: String },
    PreviewSerialization { reason: String },
}

impl From<TransactionFileSystemError> for PlanError {
    fn from(e: TransactionFileSystemError) -> (r: Self) {
        PlanError::FileSystem(e)
    }
}

impl vstd::std_specs::convert::FromSpecImpl<TransactionFileSystemError> for PlanError {
    open spec fn obeys_from_spec() -> bool {
        true
    }

    open spec fn from_spec(e: TransactionFileSystemError) -> Self {
        PlanError::FileSystem(e)
    }
}

/// A model path resolved to an executor handle and the canonical key of the object it names.
pub struct ResolvedPath<P> {
    pub model_path: String,
    pub handle: P,
    pub key: CanonicalPathKey,
}

/// Accounting of a plan in progress: the limits, every path claimed so far with the model
/// path that claimed it, and the running summary.
pub struct PlanState {
    pub limits: TransactionLimits,
    pub used_paths: Vec<(CanonicalPathKey, String)>,
    pub summary: PlanSummary,
}

/// The claimed keys and the model paths that claimed them.
pub open spec fn claims_view(used: Seq<(CanonicalPathKey, String)>) -> Seq<((Seq<char>, Seq<u8>), Seq<char>)> {
    used.map_values(|e: (CanonicalPathKey, String)| (e.0@, e.1@))
}

/// Bytes an executor key occupies: namespace bytes plus value bytes, saturating.
pub open spec fn key_size(k: (Seq<char>, Seq<u8>)) -> int {
    sat_add(utf8(k.0).len() as int, k.1.len() as int)
}

/// Total bytes held by a plan: before-images plus after-images, saturating.
pub open spec fn total_bytes(s: PlanSummary) -> int {
    sat_add(s.before_bytes as int, s.after_bytes as int)
}

/// The summary after charging a before-image of `n` bytes.
pub open spec fn with_before(s: PlanSummary, n: int) -> PlanSummary {
    PlanSummary { before_bytes: sat_add(s.before_bytes as int, n) as u64, ..s }
}

/// The summary after charging an after-image of `n` bytes.
pub open spec fn with_after(s: PlanSummary, n: int) -> PlanSummary {
    PlanSummary { after_bytes: sat_add(s.after_bytes as int, n) as u64, ..s }
}

/// The total-bytes error, if the summary exceeds the total limit.
pub open spec fn total_error(limits: TransactionLimits, s: PlanSummary) -> Option<PlanError> {
    if total_bytes(s) > limits.max_total_bytes {
        Some(
            PlanError::Limit {
                resource: "total bytes",
                observed: total_bytes(s) as u64,
                limit: limits.max_total_bytes,
            },
        )
    } else {
        None
    }
}

/// Accounting of one observation: a present file must fit the file limit, and its bytes are
/// charged as a before-image against the total limit.
pub open spec fn observe_step(limits: TransactionLimits, s: PlanSummary, observed: ObservedPath) -> Result<
    PlanSummary,
    PlanError,
> {
    match observed {
        ObservedPath::Absent => Ok(s),
        ObservedPath::Present(f) => {
            let n = f.contents@.len() as int;
            if n > limits.max_file_bytes {
                Err(
                    PlanError::Limit {
                        resource: "file bytes",
                        observed: n as u64,
                        limit: limits.max_file_bytes,
                    },
                )
            } else {
                match total_error(limits, with_before(s, n)) {
                    Some(e) => Err(e),
                    None => Ok(with_before(s, n)),
                }
            }
        },
    }
}

/// Accounting of an after-image of `n` bytes.
pub open spec fn after_step(limits: TransactionLimits, s: PlanSummary, n: int) -> Result<PlanSummary, PlanError> {
    if n > limits.max_file_bytes {
        Err(PlanError::Limit { resource: "file bytes", observed: n as u64, limit: limits.max_file_bytes })
    } else {
        match total_error(limits, with_after(s, n)) {
            Some(e) => Err(e),
            None => Ok(with_after(s, n)),
        }
    }
}

/// An observation meets an existing-file expectation: a regular file with exactly one link
/// whose exact digest is the expected one.
pub open spec fn requirement_met(expected: Seq<u8>, observed: ObservedPath) -> bool {
    match observed {
        ObservedPath::Absent => false,
        ObservedPath::Present(f) => f.kind == FileKind::File && f.link_count == 1
            && f.exact_digest.bytes() == expected,
    }
}

/// The error reported when an observation fails an existing-file expectation: the first
/// failing check among presence, kind, link count and digest.
pub open spec fn requirement_error(e: PlanError, path: Seq<char>, expected: Seq<u8>, observed: ObservedPath) -> bool {
    match observed {
        ObservedPath::Absent => e matches PlanError::ExpectedExistingFile { path: p } && p@ == path,
        ObservedPath::Present(f) => if f.kind != FileKind::File {
            e matches PlanError::UnsupportedKind { path: p, kind } && p@ == path && kind == f.kind
        } else if f.link_count != 1 {
            e matches PlanError::HardLink { path: p, link_count } && p@ == path && link_count
                == f.link_count
        } else {
            e matches PlanError::Stale { path: p } && p@ == path
        },
    }
}

/// The error for a path that was expected to be absent.
pub open spec fn absent_error(e: PlanError, path: Seq<char>) -> bool {
    e matches PlanError::ExpectedAbsent { path: p } && p@ == path
}

pub open spec fn count_create(s: PlanSummary) -> PlanSummary {
    PlanSummary { creates: sat_add(s.creates as int, 1) as u64, ..s }
}

pub open spec fn count_update(s: PlanSummary) -> PlanSummary {
    PlanSummary { updates: sat_add(s.updates as int, 1) as u64, ..s }
}

pub open spec fn count_delete(s: PlanSummary) -> PlanSummary {
    PlanSummary { deletes: sat_add(s.deletes as int, 1) as u64, ..s }
}

pub open spec fn count_move(s: PlanSummary) -> PlanSummary {
    PlanSummary { moves: sat_add(s.moves as int, 1) as u64, ..s }
}

/// The output limit that compiled edits must respect: the file limit.
pub open spec fn edit_limit(limits: TransactionLimits) -> EditOutputLimit {
    EditOutputLimit { max_bytes: limits.max_file_bytes }
}

/// The error reported when the root identity key is too large, if it is.
pub open spec fn root_identity_error(identity: (Seq<char>, Seq<u8>), limits: TransactionLimits) -> Option<PlanError> {
    if key_size(identity) > limits.max_executor_key_bytes {
        Some(
            PlanError::Limit {
                resource: "executor key bytes",
                observed: key_size(identity) as u64,
                limit: limits.max_executor_key_bytes,
            },
        )
    } else {
        None
    }
}

fn sat(a: u64, b: u64) -> (r: u64)
    ensures
        r == sat_add(a as int, b as int),
{
    a.saturating_add(b)
}

/// Saturating byte size of a (namespace, value) key.
fn key_len(namespace: &String, value: &Vec<u8>) -> (r: u64)
    ensures
        r == key_size((namespace@, value@)),
{
    sat(text_len(namespace) as u64, value.len() as u64)
}

/// Rejects a root identity whose key exceeds the executor-key limit.
pub fn check_root_identity(identity: &ExecutorRootIdentity, limits: TransactionLimits) -> (r: Result<(), PlanError>)
    ensures
        match root_identity_error(identity@, limits) {
            Some(e) => r == Err::<(), PlanError>(e),
            None => r is Ok,
        },
{
    check_limit(
        "executor key bytes",
        key_len(&identity.namespace, &identity.value),
        limits.max_executor_key_bytes,
    )
}

/// Checks an observation against an existing-file expectation and hands the file back.
pub fn require_file(path: &str, expected: &ExactBytesDigest, observed: ObservedPath) -> (r: Result<
    ObservedFile,
    PlanError,
>)
    ensures
        requirement_met(expected.bytes(), observed) ==> (r matches Ok(f) && observed == ObservedPath::Present(f)),
        !requirement_met(expected.bytes(), observed) ==> (r matches Err(e) && requirement_error(
            e,
            path@,
            expected.bytes(),
            observed,
        )),
{
    let file = match observed {
        ObservedPath::Absent => {
            return Err(PlanError::ExpectedExistingFile { path: crate::text::text(path) });
        },
        ObservedPath::Present(file) => file,
    };
    if file.kind != FileKind::File {
        return Err(PlanError::UnsupportedKind { path: crate::text::text(path), kind: file.kind });
    }
    if file.link_count != 1 {
        return Err(PlanError::HardLink { path: crate::text::text(path), link_count: file.link_count });
    }
    if !file.exact_digest.same(expected) {
        return Err(PlanError::Stale { path: crate::text::text(path) });
    }
    Ok(file)
}

impl PlanState {
    /// No two claims share a canonical key.
    pub open spec fn wf(&self) -> bool {
        forall|i: int, j: int|
            0 <= i < j < self.used_paths@.len() ==> #[trigger] self.used_paths@[i].0@
                != #[trigger] self.used_paths@[j].0@
    }

    /// A fresh plan: nothing claimed and an all-zero summary.
    pub fn new(limits: TransactionLimits) -> (r: Self)
        ensures
            r.wf(),
            r.limits == limits,
            r.used_paths@.len() == 0,
            r.summary == (PlanSummary {
                creates: 0,
                updates: 0,
                deletes: 0,
                moves: 0,
                before_bytes: 0,
                after_bytes: 0,
            }),
    {
        PlanState {
            limits,
            used_paths: Vec::new(),
            summary: PlanSummary {
                creates: 0,
                updates: 0,
                deletes: 0,
                moves: 0,
                before_bytes: 0,
                after_bytes: 0,
            },
        }
    }

    /// Rejects a model path longer than the model-path limit, before it is resolved.
    pub fn check_model_path(&self, model_path: &str) -> (r: Result<(), PlanError>)
        ensures
            utf8(model_path@).len() <= self.limits.max_model_path_bytes ==> r is Ok,
            utf8(model_path@).len() > self.limits.max_model_path_bytes ==> r == Err::<(), PlanError>(
                PlanError::Limit {
                    resource: "model path bytes",
                    observed: utf8(model_path@).len() as u64,
                    limit: self.limits.max_model_path_bytes,
                },
            ),
    {
        check_limit(
            "model path bytes",
            model_path.as_bytes().len() as u64,
            self.limits.max_model_path_bytes,
        )
    }

    /// Claims the object a model path resolved to: its key must fit the executor-key limit,
    /// and no earlier path of the plan may have resolved to the same object.
    pub fn claim<P>(&mut self, model_path: String, handle: P, key: CanonicalPathKey) -> (r: Result<
        ResolvedPath<P>,
        PlanError,
    >)
        requires
            old(self).wf(),
        ensures
            final(self).wf(),
            final(self).limits == old(self).limits,
            final(self).summary == old(self).summary,
            key_size(key@) > old(self).limits.max_executor_key_bytes ==> r == Err::<ResolvedPath<P>, PlanError>(
                PlanError::Limit {
                    resource: "executor key bytes",
                    observed: key_size(key@) as u64,
                    limit: old(self).limits.max_executor_key_bytes,
                },
            ) && final(self).used_paths@ == old(self).used_paths@,
            key_size(key@) <= old(self).limits.max_executor_key_bytes ==> ((exists|i: int|
                0 <= i < old(self).used_paths@.len() && #[trigger] old(self).used_paths@[i].0@
                    == key@) ==> (r matches Err(PlanError::PathConflict { first, second })
                && second@ == model_path@ && final(self).used_paths@ == old(self).used_paths@
                && exists|i: int|
                0 <= i < old(self).used_paths@.len() && #[trigger] old(self).used_paths@[i].0@
                    == key@ && old(self).used_paths@[i].1@ == first@)),
            key_size(key@) <= old(self).limits.max_executor_key_bytes ==> (!(exists|i: int|
                0 <= i < old(self).used_paths@.len() && #[trigger] old(self).used_paths@[i].0@
                    == key@) ==> (r matches Ok(p) && p.model_path@ == model_path@ && p.handle
                == handle && p.key@ == key@ && claims_view(final(self).used_paths@) == claims_view(
                old(self).used_paths@,
            ).push((key@, model_path@)))),
    {
        check_limit(
            "executor key bytes",
            key_len(&key.namespace, &key.value),
            self.limits.max_executor_key_bytes,
        )?;
        let mut i: usize = 0;
        while i < self.used_paths.len()
            invariant
                i <= self.used_paths@.len(),
                self.wf(),
                *self == *old(self),
                key_size(key@) <= self.limits.max_executor_key_bytes,
                forall|j: int| 0 <= j < i ==> #[trigger] self.used_paths@[j].0@ != key@,
            decreases self.used_paths@.len() - i,
        {
            if self.used_paths[i].0.same(&key) {
                let first = self.used_paths[i].1.clone();
                return Err(PlanError::PathConflict { first, second: model_path });
            }
            i += 1;
        }
        let ghost before = self.used_paths@;
        self.used_paths.push((key.clone_key(), model_path.clone()));
        assert(claims_view(self.used_paths@) =~= claims_view(before).push((key@, model_path@)));
        Ok(ResolvedPath { model_path, handle, key })
    }

    /// Fails when the running total exceeds the total-bytes limit.
    pub fn check_total(&self) -> (r: Result<(), PlanError>)
        ensures
            match total_error(self.limits, self.summary) {
                Some(e) => r == Err::<(), PlanError>(e),
                None => r is Ok,
            },
    {
        let observed = sat(self.summary.before_bytes, self.summary.after_bytes);
        if observed > self.limits.max_total_bytes {
            return Err(
                PlanError::Limit {
                    resource: "total bytes",
                    observed,
                    limit: self.limits.max_total_bytes,
                },
            );
        }
        Ok(())
    }

    /// Charges a before-image and checks the total.
    pub fn charge_before(&mut self, bytes: u64) -> (r: Result<(), PlanError>)
        ensures
            final(self).limits == old(self).limits,
            final(self).used_paths@ == old(self).used_paths@,
            final(self).summary == with_before(old(self).summary, bytes as int),
            match total_error(old(self).limits, with_before(old(self).summary, bytes as int)) {
                Some(e) => r == Err::<(), PlanError>(e),
                None => r is Ok,
            },
    {
        self.summary.before_bytes = sat(self.summary.before_bytes, bytes);
        self.check_total()
    }

    /// Checks an after-image against the file limit, charges it and checks the total.
    pub fn charge_after(&mut self, bytes: u64) -> (r: Result<(), PlanError>)
        ensures
            final(self).limits == old(self).limits,
            final(self).used_paths@ == old(self).used_paths@,
            bytes <= old(self).limits.max_file_bytes ==> final(self).summary == with_after(
                old(self).summary,
                bytes as int,
            ),
            match after_step(old(self).limits, old(self).summary, bytes as int) {
                Ok(s) => r is Ok && final(self).summary == s,
                Err(e) => r == Err::<(), PlanError>(e),
            },
    {
        check_limit("file bytes", bytes, self.limits.max_file_bytes)?;
        self.summary.after_bytes = sat(self.summary.after_bytes, bytes);
        self.check_total()
    }

    /// Accounts for one observation: a present file must fit the file limit and is charged
    /// as a before-image.
    pub fn record_observation(&mut self, observed: &ObservedPath) -> (r: Result<(), PlanError>)
        ensures
            final(self).limits == old(self).limits,
            final(self).used_paths@ == old(self).used_paths@,
            match observe_step(old(self).limits, old(self).summary, *observed) {
                Ok(s) => r is Ok && final(self).summary == s,
                Err(e) => r == Err::<(), PlanError>(e),
            },
    {
        match observed {
            ObservedPath::Absent => Ok(()),
            ObservedPath::Present(file) => {
                let n = file.contents.len() as u64;
                check_limit("file bytes", n, self.limits.max_file_bytes)?;
                self.charge_before(n)
            },
        }
    }

    /// Plans a create: the path must be absent, and the new contents are charged as an
    /// after-image.
    pub fn plan_create<P>(&mut self, path: ResolvedPath<P>, observed: ObservedPath, contents: Vec<u8>) -> (r: Result<
        PlannedMutation<P>,
        PlanError,
    >)
        ensures
            final(self).limits == old(self).limits,
            final(self).used_paths@ == old(self).used_paths@,
            match observe_step(old(self).limits, old(self).summary, observed) {
                Err(e) => r == Err::<PlannedMutation<P>, PlanError>(e),
                Ok(s1) => if observed is Present {
                    r matches Err(e) && absent_error(e, path.model_path@)
                } else {
                    match after_step(old(self).limits, s1, contents@.len() as int) {
                        Err(e) => r == Err::<PlannedMutation<P>, PlanError>(e),
                        Ok(s2) => r matches Ok(
                            PlannedMutation::Create {
                                path: h,
                                model_path,
                                path_key,
                                contents: c,
                                after_digest,
                            },
                        ) && h == path.handle && model_path@ == path.model_path@ && path_key@
                            == path.key@ && c@ == contents@ && after_digest.bytes() == sha256(
                            contents@,
                        ) && final(self).summary == count_create(s2),
                    }
                },
            },
    {
        self.record_observation(&observed)?;
        match observed {
            ObservedPath::Present(_) => {
                return Err(PlanError::ExpectedAbsent { path: path.model_path });
            },
            ObservedPath::Absent => {},
        }
        self.charge_after(contents.len() as u64)?;
        self.summary.creates = sat(self.summary.creates, 1);
        let after_digest = ExactBytesDigest::new(contents.as_slice());
        Ok(
            PlannedMutation::Create {
                path: path.handle,
                model_path: path.model_path,
                path_key: path.key,
                contents,
                after_digest,
            },
        )
    }

    /// Plans an update: the path must hold the expected file, the edits are compiled against
    /// its exact bytes, and the result is charged as an after-image.
    pub fn plan_update<P>(
        &mut self,
        path: ResolvedPath<P>,
        observed: ObservedPath,
        expected: &ExactBytesDigest,
        edits: Vec<FileEdit>,
    ) -> (r: Result<PlannedMutation<P>, PlanError>)
        ensures
            final(self).limits == old(self).limits,
            final(self).used_paths@ == old(self).used_paths@,
            match observe_step(old(self).limits, old(self).summary, observed) {
                Err(e) => r == Err::<PlannedMutation<P>, PlanError>(e),
                Ok(s1) => if !requirement_met(expected.bytes(), observed) {
                    r matches Err(e) && requirement_error(e, path.model_path@, expected.bytes(), observed)
                } else {
                    match compile_spec(observed->0.contents@, edits@, false, edit_limit(old(self).limits)) {
                        Err(issue) => r matches Err(e) && issue_error(e, path.model_path@, issue),
                        Ok(after) => match after_step(old(self).limits, s1, after.len() as int) {
                            Err(e) => r == Err::<PlannedMutation<P>, PlanError>(e),
                            Ok(s2) => r matches Ok(
                                PlannedMutation::Update {
                                    path: h,
                                    model_path,
                                    path_key,
                                    before,
                                    contents,
                                    after_digest,
                                },
                            ) && h == path.handle && model_path@ == path.model_path@ && path_key@
                                == path.key@ && observed == ObservedPath::Present(before)
                                && contents@ == after && after_digest.bytes() == sha256(after) && final(self).summary == count_update(s2),
                        },
                    }
                },
            },
    {
        self.record_observation(&observed)?;
        let before = require_file(path.model_path.as_str(), expected, observed)?;
        let limit = EditOutputLimit { max_bytes: self.limits.max_file_bytes };
        let contents = compile_edits(path.model_path.as_str(), before.contents.as_slice(), edits, false, limit)?;
        self.charge_after(contents.len() as u64)?;
        self.summary.updates = sat(self.summary.updates, 1);
        let after_digest = ExactBytesDigest::new(contents.as_slice());
        Ok(
            PlannedMutation::Update {
                path: path.handle,
                model_path: path.model_path,
                path_key: path.key,
                before,
                contents,
                after_digest,
            },
        )
    }

    /// Plans a delete: the path must hold the expected file.
    pub fn plan_delete<P>(&mut self, path: ResolvedPath<P>, observed: ObservedPath, expected: &ExactBytesDigest) -> (r: Result<
        PlannedMutation<P>,
        PlanError,
    >)
        ensures
            final(self).limits == old(self).limits,
            final(self).used_paths@ == old(self).used_paths@,
            match observe_step(old(self).limits, old(self).summary, observed) {
                Err(e) => r == Err::<PlannedMutation<P>, PlanError>(e),
                Ok(s1) => if !requirement_met(expected.bytes(), observed) {
                    r matches Err(e) && requirement_error(e, path.model_path@, expected.bytes(), observed)
                } else {
                    r matches Ok(
                        PlannedMutation::Delete { path: h, model_path, path_key, before },
                    ) && h == path.handle && model_path@ == path.model_path@ && path_key@
                        == path.key@ && observed == ObservedPath::Present(before) && final(self).summary == count_delete(s1)
                },
            },
    {
        self.record_observation(&observed)?;
        let before = require_file(path.model_path.as_str(), expected, observed)?;
        self.summary.deletes = sat(self.summary.deletes, 1);
        Ok(
            PlannedMutation::Delete {
                path: path.handle,
                model_path: path.model_path,
                path_key: path.key,
                before,
            },
        )
    }

    /// First half of a move: the source must hold the expected file.
    pub fn move_source<P>(&mut self, source: &ResolvedPath<P>, observed: ObservedPath, expected: &ExactBytesDigest) -> (r: Result<
        ObservedFile,
        PlanError,
    >)
        ensures
            final(self).limits == old(self).limits,
            final(self).used_paths@ == old(self).used_paths@,
            match observe_step(old(self).limits, old(self).summary, observed) {
                Err(e) => r == Err::<ObservedFile, PlanError>(e),
                Ok(s1) => final(self).summary == s1 && if !requirement_met(expected.bytes(), observed) {
                    r matches Err(e) && requirement_error(e, source.model_path@, expected.bytes(), observed)
                } else {
                    r matches Ok(f) && observed == ObservedPath::Present(f)
                },
            },
    {
        self.record_observation(&observed)?;
        require_file(source.model_path.as_str(), expected, observed)
    }

    /// Second half of a move: the destination must be absent, the edits (none keeps the
    /// bytes) are compiled against the source's bytes, and the result is charged.
    pub fn plan_move<P>(
        &mut self,
        source: ResolvedPath<P>,
        destination: ResolvedPath<P>,
        before: ObservedFile,
        observed_destination: ObservedPath,
        edits: Vec<FileEdit>,
    ) -> (r: Result<PlannedMutation<P>, PlanError>)
        ensures
            final(self).limits == old(self).limits,
            final(self).used_paths@ == old(self).used_paths@,
            match observe_step(old(self).limits, old(self).summary, observed_destination) {
                Err(e) => r == Err::<PlannedMutation<P>, PlanError>(e),
                Ok(s1) => if observed_destination is Present {
                    r matches Err(e) && absent_error(e, destination.model_path@)
                } else {
                    match compile_spec(before.contents@, edits@, true, edit_limit(old(self).limits)) {
                        Err(issue) => r matches Err(e) && issue_error(e, source.model_path@, issue),
                        Ok(after) => match after_step(old(self).limits, s1, after.len() as int) {
                            Err(e) => r == Err::<PlannedMutation<P>, PlanError>(e),
                            Ok(s2) => r matches Ok(
                                PlannedMutation::Move {
                                    source: hs,
                                    model_source,
                                    source_key,
                                    before: b,
                                    destination: hd,
                                    model_destination,
                                    destination_key,
                                    contents,
                                    after_digest,
                                },
                            ) && hs == source.handle && model_source@ == source.model_path@
                                && source_key@ == source.key@ && b == before && hd
                                == destination.handle && model_destination@
                                == destination.model_path@ && destination_key@
                                == destination.key@ && contents@ == after
                                && after_digest.bytes() == sha256(after) && final(self).summary == count_move(s2),
                        },
                    }
                },
            },
    {
        self.record_observation(&observed_destination)?;
        match observed_destination {
            ObservedPath::Present(_) => {
                return Err(PlanError::ExpectedAbsent { path: destination.model_path });
            },
            ObservedPath::Absent => {},
        }
        let limit = EditOutputLimit { max_bytes: self.limits.max_file_bytes };
        let contents = compile_edits(source.model_path.as_str(), before.contents.as_slice(), edits, true, limit)?;
        self.charge_after(contents.len() as u64)?;
        self.summary.moves = sat(self.summary.moves, 1);
        let after_digest = ExactBytesDigest::new(contents.as_slice());
        Ok(
            PlannedMutation::Move {
                source: source.handle,
                model_source: source.model_path,
                source_key: source.key,
                before,
                destination: destination.handle,
                model_destination: destination.model_path,
                destination_key: destination.key,
                contents,
                after_digest,
            },
        )
    }
}

/// The plan is refused when the caller committed a preview whose digest is not the digest of
/// the plan as it stands now.
pub open spec fn digest_refused(action: TransactionAction, digest: Seq<u8>) -> bool {
    action matches TransactionAction::CommitPreviewed { expected_plan_digest } && expected_plan_digest.bytes()
        != digest
}

/// `r` is the finished plan of these parts, digested with its mutations in key order: the plan
/// itself, or the refusal of a committed preview whose digest is not this plan's.
pub open spec fn plan_outcome<R, P>(
    environment_id: String,
    root_uri: String,
    root: R,
    root_identity: ExecutorRootIdentity,
    action: TransactionAction,
    mutations: Vec<PlannedMutation<P>>,
    summary: PlanSummary,
    r: Result<PlannedTransaction<R, P>, PlanError>,
) -> bool {
    let digest = canonical_plan_digest(environment_id@, root_uri@, root_identity@, mutations@);
    &&& digest_refused(action, digest) ==> (r matches Err(PlanError::PlanDigestMismatch { expected, actual })
        && action == (TransactionAction::CommitPreviewed { expected_plan_digest: expected }) && actual.bytes()
        == digest)
    &&& !digest_refused(action, digest) ==> (r matches Ok(t) && t.environment_id == environment_id && t.root_uri
        == root_uri && t.root == root && t.root_identity == root_identity && t.action == action && t.mutations
        == mutations && t.plan_digest.bytes() == digest && t.summary == summary)
}

/// Digests the finished plan and binds it to its root; a committed preview must carry the
/// digest of this very plan.
pub fn finish_plan<R, P>(
    environment_id: String,
    root_uri: String,
    root: R,
    root_identity: ExecutorRootIdentity,
    action: TransactionAction,
    mutations: Vec<PlannedMutation<P>>,
    summary: PlanSummary,
) -> (r: Result<PlannedTransaction<R, P>, PlanError>)
    ensures
        exists|order: Seq<usize>|
            is_sorted_order(rank_keys(mutations@), order) && ({
                let digest = sha256(
                    plan_bytes(environment_id@, root_uri@, root_identity@, reorder(mutations@, order)),
                );
                &&& digest_refused(action, digest) ==> (r matches Err(
                    PlanError::PlanDigestMismatch { expected, actual },
                ) && action == (TransactionAction::CommitPreviewed { expected_plan_digest: expected })
                    && actual.bytes() == digest)
                &&& !digest_refused(action, digest) ==> (r matches Ok(t) && t.environment_id
                    == environment_id && t.root_uri == root_uri && t.root == root && t.root_identity
                    == root_identity && t.action == action && t.mutations == mutations
                    && t.plan_digest.bytes() == digest && t.summary == summary)
            }),
        distinct_keys(mutations@) ==> plan_outcome(
            environment_id,
            root_uri,
            root,
            root_identity,
            action,
            mutations,
            summary,
            r,
        ),
{
    let plan_digest = digest_plan(
        environment_id.as_str(),
        root_uri.as_str(),
        &root_identity,
        &mutations,
    );
    proof {
        if distinct_keys(mutations@) {
            let order = choose|order: Seq<usize>|
                is_sorted_order(rank_keys(mutations@), order) && plan_digest.bytes() == sha256(
                    plan_bytes(environment_id@, root_uri@, root_identity@, reorder(mutations@, order)),
                );
            lemma_sorted_digest_is_canonical(environment_id@, root_uri@, root_identity@, mutations@, order);
        }
    }
    match &action {
        TransactionAction::CommitPreviewed { expected_plan_digest } => {
            if !expected_plan_digest.same(&plan_digest) {
                return Err(
                    PlanError::PlanDigestMismatch {
                        expected: ExactBytesDigest(expected_plan_digest.0),
                        actual: plan_digest,
                    },
                );
            }
        },
        _ => {},
    }
    Ok(
        PlannedTransaction {
            environment_id,
            root_uri,
            root,
            root_identity,
            action,
            mutations,
            plan_digest,
            summary,
        },
    )
}

} // verus!
