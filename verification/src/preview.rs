use vstd::prelude::*;
use vstd::string::StringSliceAdditionalSpecFns;

use crate::digest::ExactBytesDigest;
use crate::keys::utf8;
use crate::limits::check_limit;
use crate::ordering::is_sorted_order;
use crate::ordering::sorted_order;
use crate::ordering::rank_keys;
use crate::ordering::reorder;
use crate::request::PlanSummary;
use crate::request::PlannedMutation;
use crate::request::PlannedTransaction;
use crate::request::TransactionLimits;
use crate::limits::sat_add;
use crate::planner::PlanError;
use crate::text::decimal_chars;
use crate::text::str_from_utf8;

verus! {

/// Bounded UTF-8 content included in a model-visible transaction preview.
#[derive(Clone, Debug, PartialEq, Eq)]
pub struct PreviewText {
    pub text: String,
    pub truncated: bool,
}

/// Accounting of the preview budget while contents are taken in order: raw bytes left,
/// the response limit, the response size without any content, and what the taken content
/// adds to it.
#[derive(Clone, Copy, Debug, PartialEq, Eq, Structural)]
pub struct PreviewBudget {
    pub remaining_raw_bytes: u64,
    pub response_limit: u64,
    pub base_response_bytes: u64,
    pub encoded_content_bytes: u64,
    pub preview_bytes: u64,
    pub completed_nonempty: u64,
    pub total_nonempty: u64,
}

/// Bytes a one-byte character takes inside a JSON string: two for the short escapes, six for
/// other control characters, one otherwise.
pub open spec fn json_ascii_bytes(b: u8) -> int {
    if b == 34 || b == 92 || b == 8 || b == 9 || b == 10 || b == 12 || b == 13 {
        2
    } else if b < 32 {
        6
    } else {
        1
    }
}

/// Width in bytes of the character that starts at `pos`.
pub open spec fn char_width(bytes: Seq<u8>, pos: int) -> int {
    vstd::utf8::length_of_first_scalar(bytes.subrange(pos, bytes.len() as int))
}

/// Bytes the character at `pos` takes inside a JSON string; wider characters are written as
/// they are.
pub open spec fn char_json_bytes(bytes: Seq<u8>, pos: int) -> int {
    if char_width(bytes, pos) == 1 {
        json_ascii_bytes(bytes[pos])
    } else {
        char_width(bytes, pos)
    }
}

/// Number of decimal digits of a number.
pub open spec fn digit_count(n: u64) -> int {
    decimal_chars(n).len() as int
}

/// Size of the response once content adds `encoded` bytes, the preview counter reads
/// `preview_bytes` and `completed` non-empty contents are complete: each completed content
/// turns `true` into `false`, and so does the plan-wide flag once every content is complete.
pub open spec fn response_size(b: PreviewBudget, preview_bytes: u64, encoded: u64, completed: u64) -> int {
    let completed_all: int = if b.total_nonempty != 0 && completed == b.total_nonempty {
        1
    } else {
        0
    };
    sat_add(
        sat_add(
            sat_add(sat_add(b.base_response_bytes as int, encoded as int), digit_count(preview_bytes) - 1),
            completed as int,
        ),
        completed_all,
    )
}

/// The budget after also taking the character at `pos`.
pub open spec fn with_char(b: PreviewBudget, bytes: Seq<u8>, pos: int) -> PreviewBudget {
    let w = char_width(bytes, pos);
    PreviewBudget {
        remaining_raw_bytes: (b.remaining_raw_bytes - w) as u64,
        preview_bytes: sat_add(b.preview_bytes as int, w) as u64,
        encoded_content_bytes: sat_add(b.encoded_content_bytes as int, char_json_bytes(bytes, pos)) as u64,
        completed_nonempty: sat_add(
            b.completed_nonempty as int,
            if pos + w == bytes.len() {
                1int
            } else {
                0int
            },
        ) as u64,
        ..b
    }
}

/// The character at `pos` fits: its raw bytes are left, and the response with it stays
/// within the limit.
pub open spec fn char_fits(b: PreviewBudget, bytes: Seq<u8>, pos: int) -> bool {
    let c = with_char(b, bytes, pos);
    char_width(bytes, pos) <= b.remaining_raw_bytes && response_size(
        b,
        c.preview_bytes,
        c.encoded_content_bytes,
        c.completed_nonempty,
    ) <= b.response_limit
}

/// Taking characters from `pos` on while they fit: where the taken prefix ends, and the
/// budget afterwards.
pub open spec fn take_from(b: PreviewBudget, bytes: Seq<u8>, pos: int) -> (int, PreviewBudget)
    decreases bytes.len() - pos,
{
    if pos < 0 || pos >= bytes.len() || pos + char_width(bytes, pos) > bytes.len() || !char_fits(
        b,
        bytes,
        pos,
    ) {
        (pos, b)
    } else {
        proof {
            assert(char_width(bytes, pos) >= 1);
        }
        take_from(with_char(b, bytes, pos), bytes, pos + char_width(bytes, pos))
    }
}

proof fn lemma_take_keeps(b: PreviewBudget, bytes: Seq<u8>, pos: int)
    ensures
        take_from(b, bytes, pos).1.total_nonempty == b.total_nonempty,
        take_from(b, bytes, pos).1.response_limit == b.response_limit,
        take_from(b, bytes, pos).1.base_response_bytes == b.base_response_bytes,
    decreases bytes.len() - pos,
{
    if !(pos < 0 || pos >= bytes.len() || pos + char_width(bytes, pos) > bytes.len() || !char_fits(
        b,
        bytes,
        pos,
    )) {
        assert(char_width(bytes, pos) >= 1);
        lemma_take_keeps(with_char(b, bytes, pos), bytes, pos + char_width(bytes, pos));
    }
}

proof fn lemma_boundary_extend(bytes: Seq<u8>, pos: int)
    requires
        vstd::utf8::valid_utf8(bytes),
        vstd::utf8::is_char_boundary(bytes, pos),
        0 <= pos < bytes.len(),
    ensures
        vstd::utf8::valid_first_scalar(bytes.subrange(pos, bytes.len() as int)),
        pos + char_width(bytes, pos) <= bytes.len(),
        vstd::utf8::is_char_boundary(bytes, pos + char_width(bytes, pos)),
    decreases bytes.len(),
{
    let w0 = vstd::utf8::length_of_first_scalar(bytes);
    let tail = vstd::utf8::pop_first_scalar(bytes);
    assert(vstd::utf8::valid_first_scalar(bytes));
    assert(1 <= w0 <= bytes.len());
    assert(tail.len() == bytes.len() - w0);
    if pos == 0 {
        assert(bytes.subrange(0, bytes.len() as int) =~= bytes);
        assert(vstd::utf8::is_char_boundary(tail, 0));
    } else {
        assert(vstd::utf8::is_char_boundary(tail, pos - w0));
        assert(pos - w0 >= 0);
        assert(vstd::utf8::valid_utf8(tail));
        lemma_boundary_extend(tail, pos - w0);
        assert(tail.subrange(pos - w0, tail.len() as int) =~= bytes.subrange(pos, bytes.len() as int));
    }
}

fn sat(a: u64, b: u64) -> (r: u64)
    ensures
        r == sat_add(a as int, b as int),
{
    a.saturating_add(b)
}

/// Number of decimal digits of a number.
pub fn decimal_digits(value: u64) -> (r: u64)
    ensures
        r == digit_count(value),
        1 <= r <= value + 1,
    decreases value,
{
    if value < 10 {
        1
    } else {
        proof {
            assert(decimal_chars(value).len() == decimal_chars(value / 10).len() + 1);
        }
        decimal_digits(value / 10) + 1
    }
}

fn json_ascii(b: u8) -> (r: u64)
    ensures
        r == json_ascii_bytes(b),
{
    if b == 34 || b == 92 || b == 8 || b == 9 || b == 10 || b == 12 || b == 13 {
        2
    } else if b < 32 {
        6
    } else {
        1
    }
}

impl PreviewBudget {
    /// Response size for candidate counters.
    pub fn response_bytes(&self, preview_bytes: u64, encoded_content_bytes: u64, completed_nonempty: u64) -> (r: u64)
        ensures
            r == response_size(*self, preview_bytes, encoded_content_bytes, completed_nonempty),
    {
        let preview_byte_digits = decimal_digits(preview_bytes) - 1;
        let completed_all: u64 = if self.total_nonempty != 0 && completed_nonempty == self.total_nonempty {
            1
        } else {
            0
        };
        sat(
            sat(
                sat(sat(self.base_response_bytes, encoded_content_bytes), preview_byte_digits),
                completed_nonempty,
            ),
            completed_all,
        )
    }

    /// Takes the longest prefix of whole characters of one content that fits, charging it to
    /// the budget; contents that are not UTF-8 are refused.
    pub fn take(&mut self, path: &str, contents: &[u8]) -> (r: Result<PreviewText, PlanError>)
        ensures
            !vstd::utf8::valid_utf8(contents@) ==> (r matches Err(PlanError::InvalidUtf8 { path: p })
                && p@ == path@ && *final(self) == *old(self)),
            vstd::utf8::valid_utf8(contents@) ==> ({
                let (end, after) = take_from(*old(self), contents@, 0);
                &&& r matches Ok(t)
                &&& utf8(t.text@) == contents@.subrange(0, end)
                &&& t.truncated == (end != contents@.len())
                &&& *final(self) == after
            }),
    {
        let s = match str_from_utf8(contents) {
            Some(s) => s,
            None => {
                return Err(PlanError::InvalidUtf8 { path: crate::text::text(path) });
            },
        };
        let ghost start = *self;
        let mut end: usize = 0;
        let mut stop = false;
        proof {
            assert(vstd::utf8::is_char_boundary(contents@, 0));
        }
        while !stop && end < contents.len()
            invariant
                end <= contents@.len(),
                vstd::utf8::valid_utf8(contents@),
                vstd::utf8::is_char_boundary(contents@, end as int),
                take_from(start, contents@, 0) == take_from(*self, contents@, end as int),
                stop ==> take_from(*self, contents@, end as int) == (end as int, *self),
            decreases contents@.len() - end + if stop {
                0int
            } else {
                1int
            },
        {
            proof {
                lemma_boundary_extend(contents@, end as int);
            }
            let lead = contents[end];
            let ghost rest = contents@.subrange(end as int, contents@.len() as int);
            assert(rest[0] == lead);
            let width: usize = if lead < 0x80 {
                1
            } else if lead < 0xe0 {
                2
            } else if lead < 0xf0 {
                3
            } else {
                4
            };
            assert(width == char_width(contents@, end as int));
            let raw = width as u64;
            if raw > self.remaining_raw_bytes {
                stop = true;
            } else {
                let candidate_preview_bytes = sat(self.preview_bytes, raw);
                let json = if width == 1 {
                    json_ascii(lead)
                } else {
                    raw
                };
                let candidate_encoded = sat(self.encoded_content_bytes, json);
                let completes: u64 = if end + width == contents.len() {
                    1
                } else {
                    0
                };
                let candidate_completed = sat(self.completed_nonempty, completes);
                if self.response_bytes(candidate_preview_bytes, candidate_encoded, candidate_completed)
                    > self.response_limit {
                    stop = true;
                } else {
                    end = end + width;
                    self.remaining_raw_bytes = self.remaining_raw_bytes - raw;
                    self.preview_bytes = candidate_preview_bytes;
                    self.encoded_content_bytes = candidate_encoded;
                    self.completed_nonempty = candidate_completed;
                }
            }
        }
        let (head, _) = s.split_at(end);
        let text = crate::text::text(head);
        Ok(PreviewText { text, truncated: end != contents.len() })
    }
}

/// Model-visible description of one planned filesystem mutation.
#[derive(Clone, Debug, PartialEq, Eq)]
pub enum MutationPreview {
    Create { path: String, after_digest: ExactBytesDigest, content: PreviewText },
    Update {
        path: String,
        before_digest: ExactBytesDigest,
        after_digest: ExactBytesDigest,
        content: PreviewText,
    },
    Delete { path: String, before_digest: ExactBytesDigest, content: PreviewText },
    Move {
        source: String,
        destination: String,
        before_digest: ExactBytesDigest,
        after_digest: ExactBytesDigest,
        content: PreviewText,
    },
}

/// Bounded projection of a transaction plan: no executor handles and no full images.
#[derive(Clone, Debug, PartialEq, Eq)]
pub struct PlanPreview {
    pub environment_id: String,
    /// The root's path URI, in its string form.
    pub root: String,
    pub plan_digest: ExactBytesDigest,
    pub summary: PlanSummary,
    pub preview_bytes: u64,
    pub preview_truncated: bool,
    pub mutations: Vec<MutationPreview>,
}

/// The model path a mutation is shown under and the content its preview draws from: the
/// after-image, or the before-image of a delete.
pub open spec fn preview_source<P>(m: PlannedMutation<P>) -> (Seq<char>, Seq<u8>) {
    match m {
        PlannedMutation::Create { model_path, contents, .. } => (model_path@, contents@),
        PlannedMutation::Update { model_path, contents, .. } => (model_path@, contents@),
        PlannedMutation::Delete { model_path, before, .. } => (model_path@, before.contents@),
        PlannedMutation::Move { model_source, contents, .. } => (model_source@, contents@),
    }
}

pub open spec fn content_of(p: MutationPreview) -> PreviewText {
    match p {
        MutationPreview::Create { content, .. } => content,
        MutationPreview::Update { content, .. } => content,
        MutationPreview::Delete { content, .. } => content,
        MutationPreview::Move { content, .. } => content,
    }
}

/// The preview shows the mutation's kind, model paths and digests.
pub open spec fn projects<P>(p: MutationPreview, m: PlannedMutation<P>) -> bool {
    match m {
        PlannedMutation::Create { model_path, after_digest, .. } => p matches MutationPreview::Create {
            path,
            after_digest: a,
            ..
        } && path@ == model_path@ && a == after_digest,
        PlannedMutation::Update { model_path, before, after_digest, .. } => p matches MutationPreview::Update {
            path,
            before_digest: b,
            after_digest: a,
            ..
        } && path@ == model_path@ && b == before.exact_digest && a == after_digest,
        PlannedMutation::Delete { model_path, before, .. } => p matches MutationPreview::Delete {
            path,
            before_digest: b,
            ..
        } && path@ == model_path@ && b == before.exact_digest,
        PlannedMutation::Move { model_source, model_destination, before, after_digest, .. } => p matches MutationPreview::Move {
            source,
            destination,
            before_digest: b,
            after_digest: a,
            ..
        } && source@ == model_source@ && destination@ == model_destination@ && b
            == before.exact_digest && a == after_digest,
    }
}

/// The preview contents of the mutations in order.
pub open spec fn preview_sources<P>(ordered: Seq<PlannedMutation<P>>) -> Seq<Seq<u8>> {
    ordered.map_values(|m: PlannedMutation<P>| preview_source(m).1)
}

/// How many of the first `n` contents are non-empty.
pub open spec fn nonempty_count(sources: Seq<Seq<u8>>, n: int) -> int
    decreases n,
{
    if n <= 0 {
        0
    } else {
        nonempty_count(sources, n - 1) + if sources[n - 1].len() > 0 {
            1int
        } else {
            0int
        }
    }
}

/// The budget a preview starts with.
pub open spec fn initial_budget(limits: TransactionLimits, base: u64, total_nonempty: int) -> PreviewBudget {
    PreviewBudget {
        remaining_raw_bytes: limits.max_preview_bytes,
        response_limit: limits.max_response_bytes,
        base_response_bytes: base,
        encoded_content_bytes: 0,
        preview_bytes: 0,
        completed_nonempty: 0,
        total_nonempty: total_nonempty as u64,
    }
}

/// The budget after taking from the first `n` contents in order.
pub open spec fn budget_after(b: PreviewBudget, sources: Seq<Seq<u8>>, n: int) -> PreviewBudget
    decreases n,
{
    if n <= 0 {
        b
    } else {
        take_from(budget_after(b, sources, n - 1), sources[n - 1], 0).1
    }
}

/// The preview text is the prefix that fits the budget, and says whether it was cut.
pub open spec fn shows(t: PreviewText, source: Seq<u8>, b: PreviewBudget) -> bool {
    let end = take_from(b, source, 0).0;
    utf8(t.text@) == source.subrange(0, end) && t.truncated == (end != source.len())
}

/// Index `k` is the first content that is not valid UTF-8.
pub open spec fn first_invalid(sources: Seq<Seq<u8>>, k: int) -> bool {
    0 <= k < sources.len() && !vstd::utf8::valid_utf8(sources[k]) && forall|j: int|
        0 <= j < k ==> vstd::utf8::valid_utf8(#[trigger] sources[j])
}

fn preview_source_of<P>(m: &PlannedMutation<P>) -> (r: (&String, &Vec<u8>))
    ensures
        (r.0@, r.1@) == preview_source(*m),
{
    match m {
        PlannedMutation::Create { model_path, contents, .. } => (model_path, contents),
        PlannedMutation::Update { model_path, contents, .. } => (model_path, contents),
        PlannedMutation::Delete { model_path, before, .. } => (model_path, &before.contents),
        PlannedMutation::Move { model_source, contents, .. } => (model_source, contents),
    }
}

fn project<P>(m: &PlannedMutation<P>, content: PreviewText) -> (r: MutationPreview)
    ensures
        projects(r, *m),
        content_of(r) == content,
{
    match m {
        PlannedMutation::Create { model_path, after_digest, .. } => MutationPreview::Create {
            path: model_path.clone(),
            after_digest: *after_digest,
            content,
        },
        PlannedMutation::Update { model_path, before, after_digest, .. } => MutationPreview::Update {
            path: model_path.clone(),
            before_digest: before.exact_digest,
            after_digest: *after_digest,
            content,
        },
        PlannedMutation::Delete { model_path, before, .. } => MutationPreview::Delete {
            path: model_path.clone(),
            before_digest: before.exact_digest,
            content,
        },
        PlannedMutation::Move { model_source, model_destination, before, after_digest, .. } => MutationPreview::Move {
            source: model_source.clone(),
            destination: model_destination.clone(),
            before_digest: before.exact_digest,
            after_digest: *after_digest,
            content,
        },
    }
}

/// `r` is the plan's preview without any content: the plan's identity and summary, and its
/// mutations in key order, every text empty and marked cut when there is content.
pub open spec fn skeleton_of<R, P>(plan: PlannedTransaction<R, P>, r: PlanPreview) -> bool {
    exists|order: Seq<usize>|
        is_sorted_order(rank_keys(plan.mutations@), order) && ({
            let ordered = reorder(plan.mutations@, order);
            let sources = preview_sources(ordered);
            &&& r.environment_id@ == plan.environment_id@
            &&& r.root@ == plan.root_uri@
            &&& r.plan_digest == plan.plan_digest
            &&& r.summary == plan.summary
            &&& r.preview_bytes == 0
            &&& r.preview_truncated == (nonempty_count(sources, sources.len() as int) != 0)
            &&& r.mutations@.len() == ordered.len()
            &&& forall|i: int|
                0 <= i < ordered.len() ==> projects(#[trigger] r.mutations@[i], ordered[i])
                    && content_of(r.mutations@[i]).text@.len() == 0 && content_of(r.mutations@[i]).truncated
                    == (sources[i].len() > 0)
        })
}

/// The preview without any content: every text empty and marked cut when there is content,
/// in key order. Its serialized size is the base the content budget starts from.
pub fn preview_skeleton<R, P>(plan: &PlannedTransaction<R, P>) -> (r: PlanPreview)
    ensures
        skeleton_of(*plan, r),
{
    let order = sorted_order(&plan.mutations);
    let ghost ordered = reorder(plan.mutations@, order@);
    let ghost sources = preview_sources(ordered);
    let mut mutations: Vec<MutationPreview> = Vec::new();
    let mut nonempty: u64 = 0;
    let mut i: usize = 0;
    while i < order.len()
        invariant
            i <= order@.len(),
            is_sorted_order(rank_keys(plan.mutations@), order@),
            ordered == reorder(plan.mutations@, order@),
            sources == preview_sources(ordered),
            mutations@.len() == i,
            nonempty as int == nonempty_count(sources, i as int),
            nonempty <= i,
            forall|j: int|
                0 <= j < i ==> projects(#[trigger] mutations@[j], ordered[j])
                    && content_of(mutations@[j]).text@.len() == 0 && content_of(mutations@[j]).truncated
                    == (sources[j].len() > 0),
        decreases order@.len() - i,
    {
        let m = &plan.mutations[order[i]];
        let (_, contents) = preview_source_of(m);
        let content = PreviewText { text: String::new(), truncated: contents.len() != 0 };
        if contents.len() != 0 {
            nonempty = nonempty + 1;
        }
        mutations.push(project(m, content));
        i += 1;
    }
    PlanPreview {
        environment_id: plan.environment_id.clone(),
        root: plan.root_uri.clone(),
        plan_digest: plan.plan_digest,
        summary: plan.summary,
        preview_bytes: 0,
        preview_truncated: nonempty != 0,
        mutations,
    }
}

/// `p` is the preview of the key-ordered mutations `ordered`: each mutation projected in
/// order, each content the prefix that fits the budget left by the contents before it, and the
/// totals those takes leave.
pub open spec fn built_from<P>(ordered: Seq<PlannedMutation<P>>, limits: TransactionLimits, base: u64, p: PlanPreview) -> bool {
    let sources = preview_sources(ordered);
    let total = nonempty_count(sources, sources.len() as int);
    let b0 = initial_budget(limits, base, total);
    let last = budget_after(b0, sources, sources.len() as int);
    &&& p.mutations@.len() == ordered.len()
    &&& forall|i: int|
        0 <= i < ordered.len() ==> projects(#[trigger] p.mutations@[i], ordered[i]) && shows(
            content_of(p.mutations@[i]),
            sources[i],
            budget_after(b0, sources, i),
        )
    &&& p.preview_bytes == last.preview_bytes
    &&& p.preview_truncated == (last.completed_nonempty != total)
}

/// `p` is the preview of the plan: its identity and summary, and its mutations in key order.
pub open spec fn previewed<R, P>(plan: PlannedTransaction<R, P>, limits: TransactionLimits, base: u64, p: PlanPreview) -> bool {
    &&& p.environment_id@ == plan.environment_id@
    &&& p.root@ == plan.root_uri@
    &&& p.plan_digest == plan.plan_digest
    &&& p.summary == plan.summary
    &&& exists|order: Seq<usize>|
        is_sorted_order(rank_keys(plan.mutations@), order) && built_from(
            reorder(plan.mutations@, order),
            limits,
            base,
            p,
        )
}

/// The result of previewing `plan` with a skeleton of `base` serialized bytes: a limit error
/// when the skeleton does not fit the response limit; otherwise, in key order, the first
/// content that is not UTF-8 is refused by its path, and with none the preview is built.
pub open spec fn preview_outcome<R, P>(
    plan: PlannedTransaction<R, P>,
    limits: TransactionLimits,
    base: u64,
    r: Result<PlanPreview, PlanError>,
) -> bool {
    &&& base > limits.max_response_bytes ==> r == Err::<PlanPreview, PlanError>(
        PlanError::Limit { resource: "response bytes", observed: base, limit: limits.max_response_bytes },
    )
    &&& exists|order: Seq<usize>| outcome_in_order(plan, limits, base, r, order)
}

/// `r` is the result of previewing `plan` in the key order `order`, once the skeleton fits.
pub open spec fn outcome_in_order<R, P>(
    plan: PlannedTransaction<R, P>,
    limits: TransactionLimits,
    base: u64,
    r: Result<PlanPreview, PlanError>,
    order: Seq<usize>,
) -> bool {
    let ordered = reorder(plan.mutations@, order);
    let sources = preview_sources(ordered);
    let total = nonempty_count(sources, sources.len() as int);
    let b0 = initial_budget(limits, base, total);
    let last = budget_after(b0, sources, sources.len() as int);
    &&& is_sorted_order(rank_keys(plan.mutations@), order)
    &&& (base <= limits.max_response_bytes && exists|k: int| first_invalid(sources, k)) ==> (r matches Err(
        PlanError::InvalidUtf8 { path },
    ) && exists|k: int| first_invalid(sources, k) && path@ == preview_source(ordered[k]).0)
    &&& (base <= limits.max_response_bytes && forall|k: int|
        0 <= k < sources.len() ==> vstd::utf8::valid_utf8(#[trigger] sources[k])) ==> (r matches Ok(p)
        && p.environment_id@ == plan.environment_id@ && p.root@ == plan.root_uri@ && p.plan_digest
        == plan.plan_digest && p.summary == plan.summary && built_from(ordered, limits, base, p))
}

/// Fills the preview skeleton with content, given the serialized size of that skeleton:
/// the skeleton must fit the response limit, then contents are taken in key order, each
/// while its raw bytes and the response size fit.
pub fn build_preview_with_base<R, P>(
    plan: &PlannedTransaction<R, P>,
    limits: TransactionLimits,
    base_response_bytes: u64,
) -> (r: Result<PlanPreview, PlanError>)
    ensures
        base_response_bytes > limits.max_response_bytes ==> r == Err::<PlanPreview, PlanError>(
            PlanError::Limit {
                resource: "response bytes",
                observed: base_response_bytes,
                limit: limits.max_response_bytes,
            },
        ),
        exists|order: Seq<usize>|
            is_sorted_order(rank_keys(plan.mutations@), order) && ({
                let ordered = reorder(plan.mutations@, order);
                let sources = preview_sources(ordered);
                let total = nonempty_count(sources, sources.len() as int);
                let b0 = initial_budget(limits, base_response_bytes, total);
                let last = budget_after(b0, sources, sources.len() as int);
                &&& (base_response_bytes <= limits.max_response_bytes && exists|k: int|
                    first_invalid(sources, k)) ==> (r matches Err(PlanError::InvalidUtf8 { path })
                    && exists|k: int| first_invalid(sources, k) && path@ == preview_source(ordered[k]).0)
                &&& (base_response_bytes <= limits.max_response_bytes && forall|k: int|
                    0 <= k < sources.len() ==> vstd::utf8::valid_utf8(#[trigger] sources[k])) ==> (r matches Ok(p)
                    && p.environment_id@ == plan.environment_id@ && p.root@ == plan.root_uri@
                    && p.plan_digest == plan.plan_digest && p.summary == plan.summary
                    && p.mutations@.len() == ordered.len() && (forall|i: int|
                    0 <= i < ordered.len() ==> projects(#[trigger] p.mutations@[i], ordered[i])
                        && shows(content_of(p.mutations@[i]), sources[i], budget_after(b0, sources, i)))
                    && p.preview_bytes == last.preview_bytes && p.preview_truncated
                    == (last.completed_nonempty != total))
            }),
        r matches Ok(p) ==> previewed(*plan, limits, base_response_bytes, p),
        preview_outcome(*plan, limits, base_response_bytes, r),
{
    let order = sorted_order(&plan.mutations);
    let ghost ordered = reorder(plan.mutations@, order@);
    let ghost sources = preview_sources(ordered);
    let mut nonempty: u64 = 0;
    let mut i: usize = 0;
    while i < order.len()
        invariant
            i <= order@.len(),
            is_sorted_order(rank_keys(plan.mutations@), order@),
            ordered == reorder(plan.mutations@, order@),
            sources == preview_sources(ordered),
            nonempty as int == nonempty_count(sources, i as int),
            nonempty <= i,
        decreases order@.len() - i,
    {
        let (_, contents) = preview_source_of(&plan.mutations[order[i]]);
        if contents.len() != 0 {
            nonempty = nonempty + 1;
        }
        i += 1;
    }
    match check_limit("response bytes", base_response_bytes, limits.max_response_bytes) {
        Ok(()) => {},
        Err(e) => {
            assert(outcome_in_order(*plan, limits, base_response_bytes, Err(e), order@));
            return Err(e);
        },
    }
    let ghost b0 = initial_budget(limits, base_response_bytes, nonempty as int);
    let mut budget = PreviewBudget {
        remaining_raw_bytes: limits.max_preview_bytes,
        response_limit: limits.max_response_bytes,
        base_response_bytes,
        encoded_content_bytes: 0,
        preview_bytes: 0,
        completed_nonempty: 0,
        total_nonempty: nonempty,
    };
    let mut mutations: Vec<MutationPreview> = Vec::new();
    let mut j: usize = 0;
    while j < order.len()
        invariant
            j <= order@.len(),
            is_sorted_order(rank_keys(plan.mutations@), order@),
            ordered == reorder(plan.mutations@, order@),
            sources == preview_sources(ordered),
            nonempty as int == nonempty_count(sources, sources.len() as int),
            b0 == initial_budget(limits, base_response_bytes, nonempty as int),
            budget == budget_after(b0, sources, j as int),
            budget.total_nonempty == nonempty,
            base_response_bytes <= limits.max_response_bytes,
            mutations@.len() == j,
            forall|k: int| 0 <= k < j ==> vstd::utf8::valid_utf8(#[trigger] sources[k]),
            forall|k: int|
                0 <= k < j ==> projects(#[trigger] mutations@[k], ordered[k]) && shows(
                    content_of(mutations@[k]),
                    sources[k],
                    budget_after(b0, sources, k),
                ),
        decreases order@.len() - j,
    {
        let m = &plan.mutations[order[j]];
        let (path, contents) = preview_source_of(m);
        let ghost before = budget;
        let taken = budget.take(path.as_str(), contents.as_slice());
        let content = match taken {
            Ok(t) => t,
            Err(e) => {
                proof {
                    assert(sources[j as int] == contents@);
                    assert(first_invalid(sources, j as int));
                    assert(is_sorted_order(rank_keys(plan.mutations@), order@));
                    assert(outcome_in_order(*plan, limits, base_response_bytes, Err(e), order@));
                }
                return Err(e);
            },
        };
        proof {
            lemma_take_keeps(before, contents@, 0);
            assert(sources[j as int] == contents@);
        }
        mutations.push(project(m, content));
        j += 1;
    }
    assert(is_sorted_order(rank_keys(plan.mutations@), order@));
    let preview = PlanPreview {
        environment_id: plan.environment_id.clone(),
        root: plan.root_uri.clone(),
        plan_digest: plan.plan_digest,
        summary: plan.summary,
        preview_bytes: budget.preview_bytes,
        preview_truncated: budget.completed_nonempty != budget.total_nonempty,
        mutations,
    };
    assert(built_from(ordered, limits, base_response_bytes, preview));
    assert(outcome_in_order(*plan, limits, base_response_bytes, Ok(preview), order@));
    Ok(preview)
}

proof fn lemma_take_within(b: PreviewBudget, bytes: Seq<u8>, pos: int)
    requires
        0 <= pos <= bytes.len(),
    ensures
        pos <= take_from(b, bytes, pos).0 <= bytes.len(),
    decreases bytes.len() - pos,
{
    if !(pos < 0 || pos >= bytes.len() || pos + char_width(bytes, pos) > bytes.len() || !char_fits(
        b,
        bytes,
        pos,
    )) {
        assert(char_width(bytes, pos) >= 1);
        lemma_take_within(with_char(b, bytes, pos), bytes, pos + char_width(bytes, pos));
    }
}

/// The preview's text shows the start of the file a mutation leaves behind (a creation's, an
/// update's or a move's planned contents) or, for a deletion, of the file it removes; it is
/// marked cut exactly when it is shorter than that file.
pub open spec fn shows_start_of<P>(p: MutationPreview, m: PlannedMutation<P>) -> bool {
    let t = content_of(p);
    let shown = utf8(t.text@);
    let image = match m {
        PlannedMutation::Create { contents, .. } => contents@,
        PlannedMutation::Update { contents, .. } => contents@,
        PlannedMutation::Move { contents, .. } => contents@,
        PlannedMutation::Delete { before, .. } => before.contents@,
    };
    &&& shown.len() <= image.len()
    &&& shown == image.take(shown.len() as int)
    &&& (t.truncated <==> shown.len() < image.len())
}

/// The mutation preview is one of the mutations' projections, showing the start of that
/// mutation's file.
pub open spec fn shown_from<P>(pm: MutationPreview, ms: Seq<PlannedMutation<P>>) -> bool {
    exists|j: int| 0 <= j < ms.len() && projects(pm, ms[j]) && #[trigger] shows_start_of(pm, ms[j])
}

/// Every mutation a preview shows is one of the plan's, projected with its paths and digests,
/// and its text is the start of that mutation's planned after-image (the removed file for a
/// deletion), never of another file.
pub proof fn lemma_preview_shows_planned_contents<R, P>(
    plan: PlannedTransaction<R, P>,
    limits: TransactionLimits,
    base: u64,
    p: PlanPreview,
)
    requires
        previewed(plan, limits, base, p),
    ensures
        forall|i: int| 0 <= i < p.mutations@.len() ==> shown_from(#[trigger] p.mutations@[i], plan.mutations@),
{
    let order = choose|order: Seq<usize>|
        is_sorted_order(rank_keys(plan.mutations@), order) && built_from(
            reorder(plan.mutations@, order),
            limits,
            base,
            p,
        );
    let ordered = reorder(plan.mutations@, order);
    let sources = preview_sources(ordered);
    let total = nonempty_count(sources, sources.len() as int);
    let b0 = initial_budget(limits, base, total);
    assert forall|i: int| 0 <= i < p.mutations@.len() implies shown_from(#[trigger] p.mutations@[i], plan.mutations@) by {
        let j = order[i] as int;
        assert(ordered[i] == plan.mutations@[j]);
        assert(projects(p.mutations@[i], ordered[i]));
        assert(shows(content_of(p.mutations@[i]), sources[i], budget_after(b0, sources, i)));
        lemma_take_within(budget_after(b0, sources, i), sources[i], 0);
        assert(sources[i] == preview_source(plan.mutations@[j]).1);
        assert(shows_start_of(p.mutations@[i], plan.mutations@[j]));
    }
}

/// The budget's own accounting holds: shown and remaining raw bytes add up to the preview
/// limit, and the response it describes fits the response limit.
pub open spec fn budget_sound(b: PreviewBudget, limits: TransactionLimits, base: u64, total: int) -> bool {
    &&& b.preview_bytes + b.remaining_raw_bytes == limits.max_preview_bytes
    &&& b.response_limit == limits.max_response_bytes
    &&& b.base_response_bytes == base
    &&& b.total_nonempty == total as u64
    &&& response_size(b, b.preview_bytes, b.encoded_content_bytes, b.completed_nonempty) <= b.response_limit
}

proof fn lemma_take_sound(b: PreviewBudget, bytes: Seq<u8>, pos: int, limits: TransactionLimits, base: u64, total: int)
    requires
        budget_sound(b, limits, base, total),
    ensures
        budget_sound(take_from(b, bytes, pos).1, limits, base, total),
    decreases bytes.len() - pos,
{
    if !(pos < 0 || pos >= bytes.len() || pos + char_width(bytes, pos) > bytes.len() || !char_fits(
        b,
        bytes,
        pos,
    )) {
        assert(char_width(bytes, pos) >= 1);
        let c = with_char(b, bytes, pos);
        assert(c.preview_bytes == b.preview_bytes + char_width(bytes, pos));
        lemma_take_sound(c, bytes, pos + char_width(bytes, pos), limits, base, total);
    }
}

/// A preview never shows more raw bytes than the preview limit, and the response size it
/// accounts for never exceeds the response limit, once the skeleton itself fits.
pub proof fn lemma_preview_within_limits(
    limits: TransactionLimits,
    base: u64,
    sources: Seq<Seq<u8>>,
    n: int,
)
    requires
        base <= limits.max_response_bytes,
        0 <= n <= sources.len(),
    ensures
        ({
            let total = nonempty_count(sources, sources.len() as int);
            let b = budget_after(initial_budget(limits, base, total), sources, n);
            &&& b.preview_bytes <= limits.max_preview_bytes
            &&& b.preview_bytes + b.remaining_raw_bytes == limits.max_preview_bytes
            &&& response_size(b, b.preview_bytes, b.encoded_content_bytes, b.completed_nonempty)
                <= limits.max_response_bytes
        }),
    decreases n,
{
    let total = nonempty_count(sources, sources.len() as int);
    let b0 = initial_budget(limits, base, total);
    if n == 0 {
        assert(decimal_chars(0u64).len() == 1);
        assert(budget_sound(b0, limits, base, total));
    } else {
        lemma_preview_within_limits(limits, base, sources, n - 1);
        let prev = budget_after(b0, sources, n - 1);
        lemma_budget_after_sound(limits, base, sources, n - 1, total);
        lemma_take_sound(prev, sources[n - 1], 0, limits, base, total);
    }
}

proof fn lemma_budget_after_sound(limits: TransactionLimits, base: u64, sources: Seq<Seq<u8>>, n: int, total: int)
    requires
        base <= limits.max_response_bytes,
        0 <= n <= sources.len(),
    ensures
        budget_sound(budget_after(initial_budget(limits, base, total), sources, n), limits, base, total),
    decreases n,
{
    let b0 = initial_budget(limits, base, total);
    if n == 0 {
        assert(decimal_chars(0u64).len() == 1);
    } else {
        lemma_budget_after_sound(limits, base, sources, n - 1, total);
        lemma_take_sound(budget_after(b0, sources, n - 1), sources[n - 1], 0, limits, base, total);
    }
}

} // verus!
