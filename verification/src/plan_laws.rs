use vstd::prelude::*;

use crate::digest::sha256;
use crate::keys::key_order_bytes;
use crate::keys::lemma_pair_order_properties;
use crate::keys::pair_order;
use crate::ordering::is_sorted_order;
use crate::ordering::lists;
use crate::plan_digest::plan_bytes;
use crate::ordering::rank_keys;
use crate::ordering::reorder;
use crate::request::mutation_order_key;
use crate::request::PlannedMutation;
use crate::request::PlannedTransaction;
use crate::request::TransactionLimits;
use crate::preview::built_from;
use crate::preview::content_of;
use crate::preview::nonempty_count;
use crate::preview::skeleton_of;
use crate::preview::previewed;
use crate::preview::preview_outcome;
use crate::preview::outcome_in_order;
use crate::preview::first_invalid;
use crate::preview::preview_source;
use crate::planner::PlanError;
use crate::digest::ExactBytesDigest;
use crate::request::TransactionAction;
use crate::request::PlanSummary;
use crate::keys::ExecutorRootIdentity;
use crate::planner::plan_outcome;
use crate::preview::projects;
use crate::preview::preview_sources;
use crate::preview::MutationPreview;
use crate::preview::PlanPreview;

verus! {

/// No two mutations share a key.
pub open spec fn distinct_keys<P>(ms: Seq<PlannedMutation<P>>) -> bool {
    forall|i: int, j: int|
        0 <= i < ms.len() && 0 <= j < ms.len() && i != j ==> #[trigger] mutation_order_key(ms[i])@
            != #[trigger] mutation_order_key(ms[j])@
}

/// The mutation occurs in `ms`.
pub open spec fn occurs<P>(ms: Seq<PlannedMutation<P>>, m: PlannedMutation<P>) -> bool {
    exists|j: int| 0 <= j < ms.len() && ms[j] == m
}

/// Every mutation of `a` occurs in `b`.
pub open spec fn contained_in<P>(a: Seq<PlannedMutation<P>>, b: Seq<PlannedMutation<P>>) -> bool {
    forall|i: int| 0 <= i < a.len() ==> occurs(b, #[trigger] a[i])
}

spec fn rank<P>(m: PlannedMutation<P>) -> (Seq<u8>, Seq<u8>) {
    key_order_bytes(mutation_order_key(m)@)
}

spec fn strictly_sorted<P>(s: Seq<PlannedMutation<P>>) -> bool {
    forall|i: int, j: int| 0 <= i < j < s.len() ==> pair_order(rank(#[trigger] s[i]), rank(#[trigger] s[j])) < 0
}

proof fn lemma_rank_injective(a: (Seq<char>, Seq<u8>), b: (Seq<char>, Seq<u8>))
    requires
        key_order_bytes(a) == key_order_bytes(b),
    ensures
        a == b,
{
    vstd::utf8::encode_utf8_decode_utf8(a.0);
    vstd::utf8::encode_utf8_decode_utf8(b.0);
}

/// With distinct keys, a sorted order lists the mutations strictly increasing by key.
proof fn lemma_sorted_is_strict<P>(ms: Seq<PlannedMutation<P>>, order: Seq<usize>)
    requires
        distinct_keys(ms),
        is_sorted_order(rank_keys(ms), order),
    ensures
        strictly_sorted(reorder(ms, order)),
        reorder(ms, order).len() == ms.len(),
        contained_in(ms, reorder(ms, order)),
        contained_in(reorder(ms, order), ms),
{
    let s = reorder(ms, order);
    let keys = rank_keys(ms);
    assert forall|i: int, j: int| 0 <= i < j < s.len() implies pair_order(
        rank(#[trigger] s[i]),
        rank(#[trigger] s[j]),
    ) < 0 by {
        let a = order[i] as int;
        let b = order[j] as int;
        assert(keys[a] == rank(ms[a]) && keys[b] == rank(ms[b]));
        lemma_pair_order_properties(keys[a], keys[b]);
        if pair_order(keys[a], keys[b]) == 0 {
            lemma_rank_injective(mutation_order_key(ms[a])@, mutation_order_key(ms[b])@);
        }
    }
    assert forall|k: int| 0 <= k < ms.len() implies occurs(s, #[trigger] ms[k]) by {
        assert(lists(order, k));
        let i = choose|i: int| 0 <= i < order.len() && order[i] == k;
        assert(s[i] == ms[k]);
    }
    assert forall|i: int| 0 <= i < s.len() implies occurs(ms, #[trigger] s[i]) by {
        assert(s[i] == ms[order[i] as int]);
    }
}

proof fn lemma_sorted_prefix_equal<P>(s1: Seq<PlannedMutation<P>>, s2: Seq<PlannedMutation<P>>, i: int)
    requires
        0 <= i < s1.len(),
        s1.len() == s2.len(),
        strictly_sorted(s1),
        strictly_sorted(s2),
        contained_in(s1, s2),
        contained_in(s2, s1),
    ensures
        forall|t: int| 0 <= t <= i ==> s1[t] == s2[t],
    decreases i,
{
    if i > 0 {
        lemma_sorted_prefix_equal(s1, s2, i - 1);
    }
    assert(occurs(s2, s1[i]));
    assert(occurs(s1, s2[i]));
    let j = choose|j: int| 0 <= j < s2.len() && s2[j] == s1[i];
    let k = choose|k: int| 0 <= k < s1.len() && s1[k] == s2[i];
    lemma_pair_order_properties(rank(s1[i]), rank(s2[i]));
    if j < i {
        assert(s2[j] == s1[j]);
        lemma_pair_order_properties(rank(s1[j]), rank(s1[i]));
        assert(pair_order(rank(s1[j]), rank(s1[i])) < 0);
    } else if k < i {
        assert(s1[k] == s2[k]);
        lemma_pair_order_properties(rank(s2[k]), rank(s2[i]));
        assert(pair_order(rank(s2[k]), rank(s2[i])) < 0);
    } else if j > i && k > i {
        assert(pair_order(rank(s2[i]), rank(s2[j])) < 0);
        assert(pair_order(rank(s1[i]), rank(s1[k])) < 0);
    }
}

/// Planning the same mutations in any request order gives the same key-ordered mutation list,
/// and therefore the same plan digest.
pub proof fn lemma_plan_digest_order_independent<P>(
    environment_id: Seq<char>,
    root_uri: Seq<char>,
    root_identity: (Seq<char>, Seq<u8>),
    first: Seq<PlannedMutation<P>>,
    second: Seq<PlannedMutation<P>>,
    first_order: Seq<usize>,
    second_order: Seq<usize>,
)
    requires
        first.len() == second.len(),
        contained_in(first, second),
        contained_in(second, first),
        distinct_keys(first),
        distinct_keys(second),
        is_sorted_order(rank_keys(first), first_order),
        is_sorted_order(rank_keys(second), second_order),
    ensures
        reorder(first, first_order) == reorder(second, second_order),
        sha256(plan_bytes(environment_id, root_uri, root_identity, reorder(first, first_order)))
            == sha256(plan_bytes(environment_id, root_uri, root_identity, reorder(second, second_order))),
{
    let s1 = reorder(first, first_order);
    let s2 = reorder(second, second_order);
    lemma_sorted_is_strict(first, first_order);
    lemma_sorted_is_strict(second, second_order);
    assert(contained_in(s1, s2)) by {
        assert forall|i: int| 0 <= i < s1.len() implies occurs(s2, #[trigger] s1[i]) by {
            assert(occurs(first, s1[i]));
            let a = choose|a: int| 0 <= a < first.len() && first[a] == s1[i];
            assert(occurs(second, first[a]));
            let b = choose|b: int| 0 <= b < second.len() && second[b] == first[a];
            assert(occurs(s2, second[b]));
        }
    }
    assert(contained_in(s2, s1)) by {
        assert forall|i: int| 0 <= i < s2.len() implies occurs(s1, #[trigger] s2[i]) by {
            assert(occurs(second, s2[i]));
            let a = choose|a: int| 0 <= a < second.len() && second[a] == s2[i];
            assert(occurs(first, second[a]));
            let b = choose|b: int| 0 <= b < first.len() && first[b] == second[a];
            assert(occurs(s1, first[b]));
        }
    }
    if s1.len() > 0 {
        lemma_sorted_prefix_equal(s1, s2, s1.len() - 1);
    }
    assert(s1 =~= s2);
}


/// Two mutation previews show the same kind, paths, digests and content.
pub open spec fn same_mutation_preview(a: MutationPreview, b: MutationPreview) -> bool {
    &&& content_of(a).text@ == content_of(b).text@
    &&& content_of(a).truncated == content_of(b).truncated
    &&& match (a, b) {
        (MutationPreview::Create { path: p1, after_digest: a1, .. }, MutationPreview::Create {
            path: p2,
            after_digest: a2,
            ..
        }) => p1@ == p2@ && a1 == a2,
        (MutationPreview::Update { path: p1, before_digest: b1, after_digest: a1, .. }, MutationPreview::Update {
            path: p2,
            before_digest: b2,
            after_digest: a2,
            ..
        }) => p1@ == p2@ && b1 == b2 && a1 == a2,
        (MutationPreview::Delete { path: p1, before_digest: b1, .. }, MutationPreview::Delete {
            path: p2,
            before_digest: b2,
            ..
        }) => p1@ == p2@ && b1 == b2,
        (MutationPreview::Move {
            source: s1,
            destination: d1,
            before_digest: b1,
            after_digest: a1,
            ..
        }, MutationPreview::Move { source: s2, destination: d2, before_digest: b2, after_digest: a2, .. }) => s1@
            == s2@ && d1@ == d2@ && b1 == b2 && a1 == a2,
        _ => false,
    }
}

/// Two previews agree in every field.
pub open spec fn same_preview(a: PlanPreview, b: PlanPreview) -> bool {
    &&& a.environment_id@ == b.environment_id@
    &&& a.root@ == b.root@
    &&& a.plan_digest == b.plan_digest
    &&& a.summary == b.summary
    &&& a.preview_bytes == b.preview_bytes
    &&& a.preview_truncated == b.preview_truncated
    &&& a.mutations@.len() == b.mutations@.len()
    &&& forall|i: int|
        0 <= i < a.mutations@.len() ==> same_mutation_preview(#[trigger] a.mutations@[i], b.mutations@[i])
}

proof fn lemma_projections_agree<P>(a: MutationPreview, b: MutationPreview, m: PlannedMutation<P>)
    requires
        projects(a, m),
        projects(b, m),
        content_of(a).text@ == content_of(b).text@,
        content_of(a).truncated == content_of(b).truncated,
    ensures
        same_mutation_preview(a, b),
{
}

/// Previewing the same mutations planned in any request order gives the same preview: the
/// budget is spent in key order, whatever order the request listed the mutations in.
pub proof fn lemma_preview_order_independent<R, P>(
    first: PlannedTransaction<R, P>,
    second: PlannedTransaction<R, P>,
    limits: TransactionLimits,
    base: u64,
    first_preview: PlanPreview,
    second_preview: PlanPreview,
)
    requires
        first.environment_id@ == second.environment_id@,
        first.root_uri@ == second.root_uri@,
        first.plan_digest == second.plan_digest,
        first.summary == second.summary,
        first.mutations@.len() == second.mutations@.len(),
        contained_in(first.mutations@, second.mutations@),
        contained_in(second.mutations@, first.mutations@),
        distinct_keys(first.mutations@),
        distinct_keys(second.mutations@),
        previewed(first, limits, base, first_preview),
        previewed(second, limits, base, second_preview),
    ensures
        same_preview(first_preview, second_preview),
{
    let o1 = choose|order: Seq<usize>|
        is_sorted_order(rank_keys(first.mutations@), order) && built_from(
            reorder(first.mutations@, order),
            limits,
            base,
            first_preview,
        );
    let o2 = choose|order: Seq<usize>|
        is_sorted_order(rank_keys(second.mutations@), order) && built_from(
            reorder(second.mutations@, order),
            limits,
            base,
            second_preview,
        );
    lemma_plan_digest_order_independent(
        first.environment_id@,
        first.root_uri@,
        first.root_identity@,
        first.mutations@,
        second.mutations@,
        o1,
        o2,
    );
    let ordered = reorder(first.mutations@, o1);
    assert(ordered == reorder(second.mutations@, o2));
    let sources = preview_sources(ordered);
    assert forall|i: int| 0 <= i < first_preview.mutations@.len() implies same_mutation_preview(
        #[trigger] first_preview.mutations@[i],
        second_preview.mutations@[i],
    ) by {
        let a = first_preview.mutations@[i];
        let b = second_preview.mutations@[i];
        assert(projects(a, ordered[i]));
        assert(projects(b, ordered[i]));
        vstd::utf8::encode_utf8_decode_utf8(content_of(a).text@);
        vstd::utf8::encode_utf8_decode_utf8(content_of(b).text@);
        lemma_projections_agree(a, b, ordered[i]);
    }
}

/// The content-free skeleton of a preview does not depend on the order the request listed its
/// mutations in, so neither does its serialized size, the base of the preview budget.
pub proof fn lemma_skeleton_order_independent<R, P>(
    first: PlannedTransaction<R, P>,
    second: PlannedTransaction<R, P>,
    first_skeleton: PlanPreview,
    second_skeleton: PlanPreview,
)
    requires
        first.environment_id@ == second.environment_id@,
        first.root_uri@ == second.root_uri@,
        first.plan_digest == second.plan_digest,
        first.summary == second.summary,
        first.mutations@.len() == second.mutations@.len(),
        contained_in(first.mutations@, second.mutations@),
        contained_in(second.mutations@, first.mutations@),
        distinct_keys(first.mutations@),
        distinct_keys(second.mutations@),
        skeleton_of(first, first_skeleton),
        skeleton_of(second, second_skeleton),
    ensures
        same_preview(first_skeleton, second_skeleton),
{
    let o1 = choose|order: Seq<usize>|
        is_sorted_order(rank_keys(first.mutations@), order) && ({
            let ordered = reorder(first.mutations@, order);
            let sources = preview_sources(ordered);
            &&& first_skeleton.preview_truncated == (nonempty_count(sources, sources.len() as int) != 0)
            &&& first_skeleton.mutations@.len() == ordered.len()
            &&& forall|i: int|
                0 <= i < ordered.len() ==> projects(#[trigger] first_skeleton.mutations@[i], ordered[i])
                    && content_of(first_skeleton.mutations@[i]).text@.len() == 0 && content_of(
                    first_skeleton.mutations@[i],
                ).truncated == (sources[i].len() > 0)
        });
    let o2 = choose|order: Seq<usize>|
        is_sorted_order(rank_keys(second.mutations@), order) && ({
            let ordered = reorder(second.mutations@, order);
            let sources = preview_sources(ordered);
            &&& second_skeleton.preview_truncated == (nonempty_count(sources, sources.len() as int) != 0)
            &&& second_skeleton.mutations@.len() == ordered.len()
            &&& forall|i: int|
                0 <= i < ordered.len() ==> projects(#[trigger] second_skeleton.mutations@[i], ordered[i])
                    && content_of(second_skeleton.mutations@[i]).text@.len() == 0 && content_of(
                    second_skeleton.mutations@[i],
                ).truncated == (sources[i].len() > 0)
        });
    lemma_plan_digest_order_independent(
        first.environment_id@,
        first.root_uri@,
        first.root_identity@,
        first.mutations@,
        second.mutations@,
        o1,
        o2,
    );
    let ordered = reorder(first.mutations@, o1);
    assert(ordered == reorder(second.mutations@, o2));
    assert forall|i: int| 0 <= i < first_skeleton.mutations@.len() implies same_mutation_preview(
        #[trigger] first_skeleton.mutations@[i],
        second_skeleton.mutations@[i],
    ) by {
        let a = first_skeleton.mutations@[i];
        let b = second_skeleton.mutations@[i];
        assert(projects(a, ordered[i]));
        assert(projects(b, ordered[i]));
        assert(content_of(a).text@ =~= content_of(b).text@);
        lemma_projections_agree(a, b, ordered[i]);
    }
}

/// Two planning errors report the same thing: the same exceeded limit, or the same refused
/// path.
pub open spec fn same_plan_error(a: PlanError, b: PlanError) -> bool {
    match (a, b) {
        (PlanError::InvalidUtf8 { path: p }, PlanError::InvalidUtf8 { path: q }) => p@ == q@,
        _ => a == b,
    }
}

proof fn lemma_first_invalid_unique(sources: Seq<Seq<u8>>, j: int, k: int)
    requires
        first_invalid(sources, j),
        first_invalid(sources, k),
    ensures
        j == k,
{
    if j < k {
        assert(vstd::utf8::valid_utf8(sources[j]));
    } else if k < j {
        assert(vstd::utf8::valid_utf8(sources[k]));
    }
}

/// Previewing the same mutations planned in any request order gives the same result with the
/// same skeleton size: the same preview, or the same error, since both the content checks and
/// the budget go in key order.
pub proof fn lemma_preview_result_order_independent<R, P>(
    first: PlannedTransaction<R, P>,
    second: PlannedTransaction<R, P>,
    limits: TransactionLimits,
    base: u64,
    first_result: Result<PlanPreview, PlanError>,
    second_result: Result<PlanPreview, PlanError>,
)
    requires
        first.environment_id@ == second.environment_id@,
        first.root_uri@ == second.root_uri@,
        first.plan_digest == second.plan_digest,
        first.summary == second.summary,
        first.mutations@.len() == second.mutations@.len(),
        contained_in(first.mutations@, second.mutations@),
        contained_in(second.mutations@, first.mutations@),
        distinct_keys(first.mutations@),
        distinct_keys(second.mutations@),
        preview_outcome(first, limits, base, first_result),
        preview_outcome(second, limits, base, second_result),
    ensures
        first_result is Ok <==> second_result is Ok,
        first_result is Ok ==> same_preview(first_result->Ok_0, second_result->Ok_0),
        first_result is Err ==> same_plan_error(first_result->Err_0, second_result->Err_0),
{
    if base > limits.max_response_bytes {
        return;
    }
    let o1 = choose|order: Seq<usize>| outcome_in_order(first, limits, base, first_result, order);
    let o2 = choose|order: Seq<usize>| outcome_in_order(second, limits, base, second_result, order);
    lemma_plan_digest_order_independent(
        first.environment_id@,
        first.root_uri@,
        first.root_identity@,
        first.mutations@,
        second.mutations@,
        o1,
        o2,
    );
    let sources = preview_sources(reorder(first.mutations@, o1));
    if exists|k: int| first_invalid(sources, k) {
        lemma_invalid_results_agree(first, second, limits, base, first_result, second_result, o1, o2);
    } else {
        lemma_valid_results_agree(first, second, limits, base, first_result, second_result, o1, o2);
    }
}

proof fn lemma_invalid_results_agree<R, P>(
    first: PlannedTransaction<R, P>,
    second: PlannedTransaction<R, P>,
    limits: TransactionLimits,
    base: u64,
    first_result: Result<PlanPreview, PlanError>,
    second_result: Result<PlanPreview, PlanError>,
    o1: Seq<usize>,
    o2: Seq<usize>,
)
    requires
        base <= limits.max_response_bytes,
        outcome_in_order(first, limits, base, first_result, o1),
        outcome_in_order(second, limits, base, second_result, o2),
        reorder(first.mutations@, o1) == reorder(second.mutations@, o2),
        exists|k: int| first_invalid(preview_sources(reorder(first.mutations@, o1)), k),
    ensures
        first_result is Err && second_result is Err,
        same_plan_error(first_result->Err_0, second_result->Err_0),
{
    let ordered = reorder(first.mutations@, o1);
    let sources = preview_sources(ordered);
    let p1 = first_result->Err_0->InvalidUtf8_path;
    let p2 = second_result->Err_0->InvalidUtf8_path;
    let k1 = choose|k: int| first_invalid(sources, k) && p1@ == preview_source(ordered[k]).0;
    let k2 = choose|k: int| first_invalid(sources, k) && p2@ == preview_source(ordered[k]).0;
    lemma_first_invalid_unique(sources, k1, k2);
}

proof fn lemma_valid_results_agree<R, P>(
    first: PlannedTransaction<R, P>,
    second: PlannedTransaction<R, P>,
    limits: TransactionLimits,
    base: u64,
    first_result: Result<PlanPreview, PlanError>,
    second_result: Result<PlanPreview, PlanError>,
    o1: Seq<usize>,
    o2: Seq<usize>,
)
    requires
        first.environment_id@ == second.environment_id@,
        first.root_uri@ == second.root_uri@,
        first.plan_digest == second.plan_digest,
        first.summary == second.summary,
        first.mutations@.len() == second.mutations@.len(),
        contained_in(first.mutations@, second.mutations@),
        contained_in(second.mutations@, first.mutations@),
        distinct_keys(first.mutations@),
        distinct_keys(second.mutations@),
        base <= limits.max_response_bytes,
        outcome_in_order(first, limits, base, first_result, o1),
        outcome_in_order(second, limits, base, second_result, o2),
        reorder(first.mutations@, o1) == reorder(second.mutations@, o2),
        !exists|k: int| first_invalid(preview_sources(reorder(first.mutations@, o1)), k),
    ensures
        first_result is Ok && second_result is Ok,
        same_preview(first_result->Ok_0, second_result->Ok_0),
{
    let sources = preview_sources(reorder(first.mutations@, o1));
    assert forall|k: int| 0 <= k < sources.len() implies vstd::utf8::valid_utf8(#[trigger] sources[k]) by {
        if !vstd::utf8::valid_utf8(sources[k]) {
            lemma_some_first_invalid(sources, k);
        }
    }
    let p1 = first_result->Ok_0;
    let p2 = second_result->Ok_0;
    assert(previewed(first, limits, base, p1));
    assert(previewed(second, limits, base, p2));
    lemma_preview_order_independent(first, second, limits, base, p1, p2);
}

proof fn lemma_some_first_invalid(sources: Seq<Seq<u8>>, k: int)
    requires
        0 <= k < sources.len(),
        !vstd::utf8::valid_utf8(sources[k]),
    ensures
        exists|j: int| first_invalid(sources, j),
    decreases k,
{
    if forall|i: int| 0 <= i < k ==> vstd::utf8::valid_utf8(#[trigger] sources[i]) {
        assert(first_invalid(sources, k));
    } else {
        let i = choose|i: int| 0 <= i < k && !vstd::utf8::valid_utf8(#[trigger] sources[i]);
        lemma_some_first_invalid(sources, i);
    }
}


/// The digest of a plan whose mutations are taken in key order.
pub open spec fn canonical_plan_digest<P>(
    environment_id: Seq<char>,
    root_uri: Seq<char>,
    root_identity: (Seq<char>, Seq<u8>),
    mutations: Seq<PlannedMutation<P>>,
) -> Seq<u8> {
    let order = choose|order: Seq<usize>| is_sorted_order(rank_keys(mutations), order);
    sha256(plan_bytes(environment_id, root_uri, root_identity, reorder(mutations, order)))
}

/// With distinct keys, every key order of the mutations gives the canonical digest.
pub proof fn lemma_sorted_digest_is_canonical<P>(
    environment_id: Seq<char>,
    root_uri: Seq<char>,
    root_identity: (Seq<char>, Seq<u8>),
    mutations: Seq<PlannedMutation<P>>,
    order: Seq<usize>,
)
    requires
        distinct_keys(mutations),
        is_sorted_order(rank_keys(mutations), order),
    ensures
        sha256(plan_bytes(environment_id, root_uri, root_identity, reorder(mutations, order)))
            == canonical_plan_digest(environment_id, root_uri, root_identity, mutations),
{
    let chosen = choose|o: Seq<usize>| is_sorted_order(rank_keys(mutations), o);
    assert forall|i: int| 0 <= i < mutations.len() implies occurs(mutations, #[trigger] mutations[i]) by {
        assert(mutations[i] == mutations[i]);
    }
    lemma_plan_digest_order_independent(
        environment_id,
        root_uri,
        root_identity,
        mutations,
        mutations,
        order,
        chosen,
    );
}

/// Committing a preview with the digest that the preview of the same parts reported plans the
/// same transaction, now to be committed; any other digest is refused, reporting the plan's
/// actual digest.
pub proof fn lemma_commit_previewed_plans_the_preview<R, P>(
    environment_id: String,
    root_uri: String,
    root: R,
    root_identity: ExecutorRootIdentity,
    mutations: Vec<PlannedMutation<P>>,
    summary: PlanSummary,
    previewed: Result<PlannedTransaction<R, P>, PlanError>,
    expected: ExactBytesDigest,
    committed: Result<PlannedTransaction<R, P>, PlanError>,
)
    requires
        plan_outcome(
            environment_id,
            root_uri,
            root,
            root_identity,
            TransactionAction::Preview,
            mutations,
            summary,
            previewed,
        ),
        plan_outcome(
            environment_id,
            root_uri,
            root,
            root_identity,
            TransactionAction::CommitPreviewed { expected_plan_digest: expected },
            mutations,
            summary,
            committed,
        ),
    ensures
        previewed is Ok,
        expected.bytes() == previewed->Ok_0.plan_digest.bytes() ==> (committed matches Ok(t) && t.plan_digest.bytes()
            == previewed->Ok_0.plan_digest.bytes() && t.environment_id == environment_id && t.root_uri == root_uri
            && t.root == root && t.root_identity == root_identity && t.mutations == mutations && t.summary == summary
            && t.action == (TransactionAction::CommitPreviewed { expected_plan_digest: expected })),
        expected.bytes() != previewed->Ok_0.plan_digest.bytes() ==> (committed matches Err(
            PlanError::PlanDigestMismatch { expected: e, actual },
        ) && e == expected && actual.bytes() == previewed->Ok_0.plan_digest.bytes()),
{
}

} // verus!
