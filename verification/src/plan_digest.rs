use vstd::prelude::*;

use crate::digest::sha256;
use crate::digest::sha256_array;
use crate::digest::ExactBytesDigest;
use crate::framing::be64;
use crate::framing::framed;
use crate::framing::opaque_frame;
use crate::framing::push_framed;
use crate::framing::push_number;
use crate::framing::push_opaque;
use crate::framing::text_frame;
use crate::journal::kind_number;
use crate::keys::utf8;
use crate::keys::ExecutorRootIdentity;
use crate::observation::FileKind;
use crate::observation::ObservedFile;
use crate::ordering::is_sorted_order;
use crate::ordering::rank_keys;
use crate::ordering::reorder;
use crate::ordering::sorted_order;
use crate::request::PlannedMutation;

verus! {

// ----- the plan digest -----

/// Domain separation for plan digests.
pub open spec fn plan_domain() -> Seq<u8> {
    utf8("hashline-transaction-plan-v1"@)
}

/// Digest encoding of an observed before-image: digest, identity, metadata namespace and
/// fingerprint, link count and kind.
pub open spec fn observed_file_bytes(f: ObservedFile) -> Seq<u8> {
    framed(f.exact_digest.bytes()) + opaque_frame(f.identity@) + text_frame(f.metadata.namespace@)
        + framed(f.metadata.fingerprint.bytes()) + be64(f.link_count) + be64(kind_number(f.kind))
}

/// Digest encoding of one planned mutation: a tag, its keys, its before-image evidence and the
/// digest of its after-image.
pub open spec fn mutation_bytes<P>(m: PlannedMutation<P>) -> Seq<u8> {
    match m {
        PlannedMutation::Create { path_key, after_digest, .. } => be64(1) + opaque_frame(path_key@)
            + framed(after_digest.bytes()),
        PlannedMutation::Update { path_key, before, after_digest, .. } => be64(2) + opaque_frame(
            path_key@,
        ) + observed_file_bytes(before) + framed(after_digest.bytes()),
        PlannedMutation::Delete { path_key, before, .. } => be64(3) + opaque_frame(path_key@)
            + observed_file_bytes(before),
        PlannedMutation::Move { source_key, before, destination_key, after_digest, .. } => be64(4)
            + opaque_frame(source_key@) + observed_file_bytes(before) + opaque_frame(destination_key@)
            + framed(after_digest.bytes()),
    }
}

pub open spec fn mutations_bytes<P>(ms: Seq<PlannedMutation<P>>) -> Seq<u8>
    decreases ms.len(),
{
    if ms.len() == 0 {
        Seq::empty()
    } else {
        mutations_bytes(ms.drop_last()) + mutation_bytes(ms.last())
    }
}

/// The bytes whose SHA-256 is the plan digest: domain, environment, root, root identity, the
/// number of mutations, then the mutations in key order.
pub open spec fn plan_bytes<P>(
    environment_id: Seq<char>,
    root_uri: Seq<char>,
    root_identity: (Seq<char>, Seq<u8>),
    ordered: Seq<PlannedMutation<P>>,
) -> Seq<u8> {
    framed(plan_domain()) + text_frame(environment_id) + text_frame(root_uri) + opaque_frame(
        root_identity,
    ) + be64(ordered.len() as u64) + mutations_bytes(ordered)
}

/// The creations, updates or moves `a` and `b` are the same change, on the same keys and
/// before-image, except that they leave after-images with different digests.
pub open spec fn differ_in_after_image<P>(a: PlannedMutation<P>, b: PlannedMutation<P>) -> bool {
    match (a, b) {
        (
            PlannedMutation::Create { path_key: k1, after_digest: d1, .. },
            PlannedMutation::Create { path_key: k2, after_digest: d2, .. },
        ) => k1@ == k2@ && d1.bytes() != d2.bytes(),
        (
            PlannedMutation::Update { path_key: k1, before: b1, after_digest: d1, .. },
            PlannedMutation::Update { path_key: k2, before: b2, after_digest: d2, .. },
        ) => k1@ == k2@ && b1 == b2 && d1.bytes() != d2.bytes(),
        (
            PlannedMutation::Move { source_key: s1, before: b1, destination_key: t1, after_digest: d1, .. },
            PlannedMutation::Move { source_key: s2, before: b2, destination_key: t2, after_digest: d2, .. },
        ) => s1@ == s2@ && b1 == b2 && t1@ == t2@ && d1.bytes() != d2.bytes(),
        _ => false,
    }
}

proof fn lemma_mutations_bytes_append<P>(a: Seq<PlannedMutation<P>>, b: Seq<PlannedMutation<P>>)
    ensures
        mutations_bytes(a + b) == mutations_bytes(a) + mutations_bytes(b),
    decreases b.len(),
{
    if b.len() == 0 {
        assert(a + b =~= a);
        assert(mutations_bytes(b) =~= Seq::<u8>::empty());
        assert(mutations_bytes(a) + mutations_bytes(b) =~= mutations_bytes(a));
    } else {
        lemma_mutations_bytes_append(a, b.drop_last());
        assert((a + b).drop_last() =~= a + b.drop_last());
        assert((a + b).last() == b.last());
        assert(mutations_bytes(a) + mutations_bytes(b) =~= mutations_bytes(a) + mutations_bytes(b.drop_last())
            + mutation_bytes(b.last()));
    }
}

/// Two encodings that differ only in one segment of equal length differ as wholes.
proof fn lemma_differing_segment(head: Seq<u8>, x: Seq<u8>, y: Seq<u8>, tail: Seq<u8>)
    requires
        x.len() == y.len(),
        x != y,
    ensures
        head + x + tail != head + y + tail,
{
    if head + x + tail == head + y + tail {
        assert((head + x + tail).subrange(head.len() as int, (head.len() + x.len()) as int) =~= x);
        assert((head + y + tail).subrange(head.len() as int, (head.len() + y.len()) as int) =~= y);
    }
}

proof fn lemma_frames_differ(pre: Seq<u8>, d1: Seq<u8>, d2: Seq<u8>)
    requires
        d1.len() == 32,
        d2.len() == 32,
        d1 != d2,
    ensures
        (pre + framed(d1)).len() == (pre + framed(d2)).len(),
        pre + framed(d1) != pre + framed(d2),
{
    let x = pre + framed(d1);
    let y = pre + framed(d2);
    if x == y {
        assert(x.subrange(x.len() - 32, x.len() as int) =~= d1);
        assert(y.subrange(y.len() - 32, y.len() as int) =~= d2);
    }
}

/// An update's encoding ends with the framed digest of its after-image, after its tag, key
/// and before-image.
proof fn lemma_update_bytes_end_with_after_image<P>(m: PlannedMutation<P>)
    requires
        m is Update,
    ensures
        mutation_bytes(m) == be64(2) + opaque_frame(m->Update_path_key@) + observed_file_bytes(m->Update_before)
            + framed(m->Update_after_digest.bytes()),
{
}

proof fn lemma_after_image_separates_mutations<P>(a: PlannedMutation<P>, b: PlannedMutation<P>)
    requires
        differ_in_after_image(a, b),
    ensures
        mutation_bytes(a).len() == mutation_bytes(b).len(),
        mutation_bytes(a) != mutation_bytes(b),
{
    match (a, b) {
        (
            PlannedMutation::Create { path_key: k, after_digest: d1, .. },
            PlannedMutation::Create { after_digest: d2, .. },
        ) => {
            let pre = be64(1) + opaque_frame(k@);
            assert(d1.bytes().len() == 32 && d2.bytes().len() == 32);
            assert(mutation_bytes(a).len() == pre.len() + 40);
            assert(mutation_bytes(a) =~= pre + framed(d1.bytes()));
            assert(mutation_bytes(b) =~= pre + framed(d2.bytes()));
            lemma_frames_differ(pre, d1.bytes(), d2.bytes());
        },
        (
            PlannedMutation::Update { path_key: k, before, after_digest: d1, .. },
            PlannedMutation::Update { after_digest: d2, .. },
        ) => {
            let pre = be64(2) + opaque_frame(k@) + observed_file_bytes(before);
            lemma_update_bytes_end_with_after_image(a);
            lemma_update_bytes_end_with_after_image(b);
            assert(d1.bytes().len() == 32 && d2.bytes().len() == 32);
            lemma_frames_differ(pre, d1.bytes(), d2.bytes());
        },
        (
            PlannedMutation::Move { source_key, before, destination_key, after_digest: d1, .. },
            PlannedMutation::Move { after_digest: d2, .. },
        ) => {
            let pre = be64(4) + opaque_frame(source_key@) + observed_file_bytes(before) + opaque_frame(
                destination_key@,
            );
            assert(d1.bytes().len() == 32 && d2.bytes().len() == 32);
            assert(mutation_bytes(a).len() == pre.len() + 40);
            assert(mutation_bytes(a) =~= pre + framed(d1.bytes()));
            assert(mutation_bytes(b) =~= pre + framed(d2.bytes()));
            lemma_frames_differ(pre, d1.bytes(), d2.bytes());
        },
        _ => {},
    }
}

/// The bytes a plan digest is taken over tell apart two key-ordered plans that differ only in
/// the after-image one creation, update or move leaves: the digest binds every after-image.
pub proof fn lemma_plan_bytes_bind_after_images<P>(
    environment_id: Seq<char>,
    root_uri: Seq<char>,
    root_identity: (Seq<char>, Seq<u8>),
    first: Seq<PlannedMutation<P>>,
    second: Seq<PlannedMutation<P>>,
    i: int,
)
    requires
        first.len() == second.len(),
        0 <= i < first.len(),
        forall|k: int| 0 <= k < first.len() && k != i ==> first[k] == second[k],
        differ_in_after_image(first[i], second[i]),
    ensures
        plan_bytes(environment_id, root_uri, root_identity, first) != plan_bytes(
            environment_id,
            root_uri,
            root_identity,
            second,
        ),
{
    let before = first.take(i);
    let after = first.skip(i + 1);
    assert(second.take(i) =~= before);
    assert(second.skip(i + 1) =~= after);
    lemma_mutations_bytes_split(first, i);
    lemma_mutations_bytes_split(second, i);
    lemma_after_image_separates_mutations(first[i], second[i]);
    let head = framed(plan_domain()) + text_frame(environment_id) + text_frame(root_uri) + opaque_frame(
        root_identity,
    ) + be64(first.len() as u64) + mutations_bytes(before);
    assert(plan_bytes(environment_id, root_uri, root_identity, first) =~= head + mutation_bytes(first[i])
        + mutations_bytes(after));
    assert(plan_bytes(environment_id, root_uri, root_identity, second) =~= head + mutation_bytes(second[i])
        + mutations_bytes(after));
    lemma_differing_segment(head, mutation_bytes(first[i]), mutation_bytes(second[i]), mutations_bytes(after));
}

proof fn lemma_single_mutation_bytes<P>(m: PlannedMutation<P>)
    ensures
        mutations_bytes(seq![m]) == mutation_bytes(m),
{
    assert(seq![m].drop_last() =~= Seq::<PlannedMutation<P>>::empty());
    assert(mutations_bytes(Seq::<PlannedMutation<P>>::empty()) =~= Seq::<u8>::empty());
    assert(Seq::<u8>::empty() + mutation_bytes(m) =~= mutation_bytes(m));
}

proof fn lemma_mutations_bytes_split<P>(ms: Seq<PlannedMutation<P>>, i: int)
    requires
        0 <= i < ms.len(),
    ensures
        mutations_bytes(ms) == mutations_bytes(ms.take(i)) + mutation_bytes(ms[i]) + mutations_bytes(
            ms.skip(i + 1),
        ),
{
    let one = seq![ms[i]];
    let front = ms.take(i);
    let back = ms.skip(i + 1);
    assert(ms =~= front + one + back);
    lemma_mutations_bytes_append(front + one, back);
    lemma_mutations_bytes_append(front, one);
    lemma_single_mutation_bytes(ms[i]);
}

fn push_observed_file(out: &mut Vec<u8>, f: &ObservedFile)
    ensures
        final(out)@ == old(out)@ + observed_file_bytes(*f),
{
    push_framed(out, &f.exact_digest.0);
    push_opaque(out, &f.identity.namespace, &f.identity.value);
    crate::framing::push_text(out, &f.metadata.namespace);
    push_framed(out, &f.metadata.fingerprint.0);
    push_number(out, f.link_count);
    let kind: u64 = match f.kind {
        FileKind::File => 1,
        FileKind::Directory => 2,
        FileKind::SymbolicLink => 3,
        FileKind::Other => 4,
    };
    push_number(out, kind);
    assert(out@ =~= old(out)@ + observed_file_bytes(*f));
}

fn push_mutation<P>(out: &mut Vec<u8>, m: &PlannedMutation<P>)
    ensures
        final(out)@ == old(out)@ + mutation_bytes(*m),
{
    match m {
        PlannedMutation::Create { path_key, after_digest, .. } => {
            push_number(out, 1);
            push_opaque(out, &path_key.namespace, &path_key.value);
            push_framed(out, &after_digest.0);
            assert(out@ =~= old(out)@ + mutation_bytes(*m));
        },
        PlannedMutation::Update { path_key, before, after_digest, .. } => {
            push_number(out, 2);
            push_opaque(out, &path_key.namespace, &path_key.value);
            push_observed_file(out, before);
            push_framed(out, &after_digest.0);
            assert(out@ =~= old(out)@ + mutation_bytes(*m));
        },
        PlannedMutation::Delete { path_key, before, .. } => {
            push_number(out, 3);
            push_opaque(out, &path_key.namespace, &path_key.value);
            push_observed_file(out, before);
            assert(out@ =~= old(out)@ + mutation_bytes(*m));
        },
        PlannedMutation::Move { source_key, before, destination_key, after_digest, .. } => {
            push_number(out, 4);
            push_opaque(out, &source_key.namespace, &source_key.value);
            push_observed_file(out, before);
            push_opaque(out, &destination_key.namespace, &destination_key.value);
            push_framed(out, &after_digest.0);
            assert(out@ =~= old(out)@ + mutation_bytes(*m));
        },
    }
}

/// The plan digest: SHA-256 over the environment, the root, its identity and every planned
/// mutation in key order, so that the order of the request does not matter.
pub fn digest_plan<P>(
    environment_id: &str,
    root_uri: &str,
    root_identity: &ExecutorRootIdentity,
    mutations: &Vec<PlannedMutation<P>>,
) -> (r: ExactBytesDigest)
    ensures
        exists|order: Seq<usize>|
            is_sorted_order(rank_keys(mutations@), order) && r.bytes() == sha256(
                plan_bytes(environment_id@, root_uri@, root_identity@, reorder(mutations@, order)),
            ),
{
    let order = sorted_order(mutations);
    let ghost ordered = reorder(mutations@, order@);
    let mut out: Vec<u8> = Vec::new();
    push_framed(&mut out, "hashline-transaction-plan-v1".as_bytes());
    push_framed(&mut out, environment_id.as_bytes());
    push_framed(&mut out, root_uri.as_bytes());
    push_opaque(&mut out, &root_identity.namespace, &root_identity.value);
    push_number(&mut out, order.len() as u64);
    let ghost head = out@;
    let mut i: usize = 0;
    while i < order.len()
        invariant
            i <= order@.len(),
            is_sorted_order(rank_keys(mutations@), order@),
            ordered == reorder(mutations@, order@),
            out@ == head + mutations_bytes(ordered.take(i as int)),
        decreases order@.len() - i,
    {
        let index = order[i];
        push_mutation(&mut out, &mutations[index]);
        proof {
            assert(ordered.take(i + 1).drop_last() =~= ordered.take(i as int));
            assert(ordered.take(i + 1).last() == mutations@[index as int]);
        }
        i += 1;
    }
    assert(ordered.take(ordered.len() as int) =~= ordered);
    assert(out@ =~= plan_bytes(environment_id@, root_uri@, root_identity@, ordered));
    ExactBytesDigest::from_array(sha256_array(out.as_slice()))
}

} // verus!
