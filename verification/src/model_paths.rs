use vstd::prelude::*;

use crate::durable_keys::sidecar_name;
use crate::keys::utf8;
use crate::observation::TransactionFileSystemError;

verus! {

/// A path segment that names nothing: empty (a repeated or trailing separator) or `.`.
pub open spec fn is_filler(segment: Seq<u8>) -> bool {
    segment.len() == 0 || segment == seq![46u8]
}

/// The segment, unless it names nothing.
pub open spec fn kept_segment(segment: Seq<u8>) -> Seq<Seq<u8>> {
    if is_filler(segment) {
        Seq::empty()
    } else {
        seq![segment]
    }
}

/// The named components of `rest`, read after a segment that begins with `current`: the
/// segments between `/` separators, without empty and `.` segments. A leading `/` and every
/// `.` name no component, as in the components of a Unix path.
pub open spec fn components_from(rest: Seq<u8>, current: Seq<u8>) -> Seq<Seq<u8>>
    decreases rest.len(),
{
    if rest.len() == 0 {
        kept_segment(current)
    } else if rest[0] == 47u8 {
        kept_segment(current) + components_from(rest.drop_first(), Seq::empty())
    } else {
        components_from(rest.drop_first(), current.push(rest[0]))
    }
}

/// The named components of a Unix path.
pub open spec fn path_components(path: Seq<u8>) -> Seq<Seq<u8>> {
    components_from(path, Seq::empty())
}

/// The first problem, from component `i` on, that keeps a relative path from naming a place
/// under the root: a parent traversal, or a component holding NUL.
pub open spec fn component_problem(components: Seq<Seq<u8>>, i: int) -> Option<Seq<char>>
    decreases components.len() - i,
{
    if i < 0 || i >= components.len() {
        None
    } else if components[i] == seq![46u8, 46u8] {
        Some("parent traversal is not allowed"@)
    } else if components[i].contains(0u8) {
        Some("path contains NUL"@)
    } else {
        component_problem(components, i + 1)
    }
}

/// The components below the root once the root's own are set aside, or the first reason
/// they name no acceptable place: a bad component, the root itself, or the reserved sidecar.
pub open spec fn checked_components(relative: Seq<Seq<u8>>) -> Result<Seq<Seq<u8>>, Seq<char>> {
    match component_problem(relative, 0) {
        Some(reason) => Err(reason),
        None => if relative.len() == 0 {
            Err("path resolves to the selected root"@)
        } else if relative[0] == sidecar_name() {
            Err("path uses the reserved Hashline transaction sidecar name"@)
        } else {
            Ok(relative)
        },
    }
}

/// The components of a model path below the root, or why it names no place below the root.
/// An absolute path must begin with the root's own components; a relative one is read
/// from the root.
pub open spec fn model_components(root: Seq<u8>, model: Seq<u8>) -> Result<Seq<Seq<u8>>, Seq<char>> {
    if model.len() == 0 {
        Err("path is empty"@)
    } else {
        let all = path_components(model);
        let prefix = path_components(root);
        if model[0] != 47u8 {
            checked_components(all)
        } else if prefix.len() <= all.len() && all.take(prefix.len() as int) == prefix {
            checked_components(all.skip(prefix.len() as int))
        } else {
            Err("absolute path is outside the selected root"@)
        }
    }
}

/// The named components of a Unix path, read in one pass.
fn split_components(path: &[u8]) -> (r: Vec<Vec<u8>>)
    ensures
        r@.map_values(|c: Vec<u8>| c@) == path_components(path@),
{
    let mut out: Vec<Vec<u8>> = Vec::new();
    let mut current: Vec<u8> = Vec::new();
    let mut i: usize = 0;
    assert(path@.skip(0) =~= path@);
    assert(out@.map_values(|c: Vec<u8>| c@) =~= Seq::<Seq<u8>>::empty());
    assert(Seq::<Seq<u8>>::empty() + path_components(path@) =~= path_components(path@));
    while i < path.len()
        invariant
            i <= path@.len(),
            out@.map_values(|c: Vec<u8>| c@) + components_from(path@.skip(i as int), current@)
                == path_components(path@),
        decreases path@.len() - i,
    {
        let ghost rest = path@.skip(i as int);
        assert(rest.drop_first() =~= path@.skip(i + 1));
        if path[i] == 47u8 {
            let ghost before = out@.map_values(|c: Vec<u8>| c@);
            let filler = current.len() == 0 || (current.len() == 1 && current[0] == 46u8);
            proof {
                assert(filler == is_filler(current@)) by {
                    if current@.len() == 1 {
                        assert(current@ =~= seq![current@[0]]);
                    }
                }
            }
            if !filler {
                out.push(current);
                assert(out@.map_values(|c: Vec<u8>| c@) =~= before + kept_segment(current@));
            } else {
                assert(out@.map_values(|c: Vec<u8>| c@) =~= before + kept_segment(current@));
            }
            current = Vec::new();
            proof {
                assert(current@ =~= Seq::<u8>::empty());
            }
        } else {
            current.push(path[i]);
        }
        i += 1;
    }
    let ghost before = out@.map_values(|c: Vec<u8>| c@);
    assert(path@.skip(i as int) =~= Seq::<u8>::empty());
    let filler = current.len() == 0 || (current.len() == 1 && current[0] == 46u8);
    proof {
        assert(filler == is_filler(current@)) by {
            if current@.len() == 1 {
                assert(current@ =~= seq![current@[0]]);
            }
        }
    }
    if !filler {
        out.push(current);
    }
    assert(out@.map_values(|c: Vec<u8>| c@) =~= before + kept_segment(current@));
    out
}

fn invalid_model_path(path: &str, reason: &str) -> (e: TransactionFileSystemError)
    ensures
        e matches TransactionFileSystemError::InvalidModelPath { path: p, reason: why } && p@ == path@
            && why@ == reason@,
{
    TransactionFileSystemError::InvalidModelPath { path: crate::text::text(path), reason: crate::text::text(reason) }
}

fn contains_nul(bytes: &Vec<u8>) -> (r: bool)
    ensures
        r == bytes@.contains(0u8),
{
    let mut i: usize = 0;
    while i < bytes.len()
        invariant
            i <= bytes@.len(),
            forall|j: int| 0 <= j < i ==> bytes@[j] != 0u8,
        decreases bytes@.len() - i,
    {
        if bytes[i] == 0u8 {
            return true;
        }
        i += 1;
    }
    false
}

/// Splits a model path into the components it names below an executor root whose absolute
/// path is `root_absolute`. The path must name something strictly below the root, without
/// parent traversal, NUL, or the reserved transaction sidecar as its first component; an
/// absolute path must lie under the root.
pub fn relative_components(root_absolute: &str, model_path: &str) -> (r: Result<
    Vec<Vec<u8>>,
    TransactionFileSystemError,
>)
    ensures
        match model_components(utf8(root_absolute@), utf8(model_path@)) {
            Ok(components) => r matches Ok(cs) && cs@.map_values(|c: Vec<u8>| c@) == components,
            Err(reason) => r matches Err(TransactionFileSystemError::InvalidModelPath { path, reason: why })
                && path@ == model_path@ && why@ == reason,
        },
{
    proof {
        reveal_strlit("path is empty");
        reveal_strlit("absolute path is outside the selected root");
        reveal_strlit("parent traversal is not allowed");
        reveal_strlit("path contains NUL");
        reveal_strlit("path resolves to the selected root");
        reveal_strlit("path uses the reserved Hashline transaction sidecar name");
    }
    let model = model_path.as_bytes();
    if model.len() == 0 {
        return Err(invalid_model_path(model_path, "path is empty"));
    }
    let all = split_components(model);
    let ghost all_view = all@.map_values(|c: Vec<u8>| c@);
    let mut relative: Vec<Vec<u8>> = Vec::new();
    let mut start: usize = 0;
    if model[0] == 47u8 {
        let prefix = split_components(root_absolute.as_bytes());
        let ghost prefix_view = prefix@.map_values(|c: Vec<u8>| c@);
        if prefix.len() > all.len() {
            return Err(invalid_model_path(model_path, "absolute path is outside the selected root"));
        }
        let mut k: usize = 0;
        while k < prefix.len()
            invariant
                k <= prefix@.len(),
                prefix@.len() <= all@.len(),
                model@ == utf8(model_path@),
                model@.len() > 0 && model@[0] == 47u8,
                all_view == path_components(model@),
                prefix_view == path_components(utf8(root_absolute@)),
                all_view == all@.map_values(|c: Vec<u8>| c@),
                prefix_view == prefix@.map_values(|c: Vec<u8>| c@),
                forall|j: int| 0 <= j < k ==> all_view[j] == prefix_view[j],
            decreases prefix@.len() - k,
        {
            if !crate::digest::bytes_equal(all[k].as_slice(), prefix[k].as_slice()) {
                proof {
                    assert(all_view[k as int] != prefix_view[k as int]);
                    assert(all_view.take(prefix_view.len() as int)[k as int] == all_view[k as int]);
                }
                return Err(invalid_model_path(model_path, "absolute path is outside the selected root"));
            }
            k += 1;
        }
        assert(all_view.take(prefix_view.len() as int) =~= prefix_view);
        start = prefix.len();
    }
    let ghost expected = all_view.skip(start as int);
    assert(model[0] != 47u8 ==> expected =~= all_view);
    assert(model_components(utf8(root_absolute@), utf8(model_path@)) == checked_components(expected));
    let mut i: usize = start;
    while i < all.len()
        invariant
            start <= i <= all@.len(),
            all_view == all@.map_values(|c: Vec<u8>| c@),
            expected == all_view.skip(start as int),
            relative@.map_values(|c: Vec<u8>| c@) == expected.take(i - start),
            component_problem(expected, 0) == component_problem(expected, i - start),
            model_components(utf8(root_absolute@), utf8(model_path@)) == checked_components(expected),
        decreases all@.len() - i,
    {
        let component = &all[i];
        assert(expected[i - start] == component@);
        let dots: &[u8] = &[46u8, 46u8];
        assert(dots@ =~= seq![46u8, 46u8]);
        if crate::digest::bytes_equal(component.as_slice(), dots) {
            return Err(invalid_model_path(model_path, "parent traversal is not allowed"));
        }
        if contains_nul(component) {
            return Err(invalid_model_path(model_path, "path contains NUL"));
        }
        let mut copy: Vec<u8> = Vec::new();
        crate::framing::push_raw(&mut copy, component.as_slice());
        assert(copy@ =~= component@);
        let ghost before = relative@.map_values(|c: Vec<u8>| c@);
        relative.push(copy);
        proof {
            assert(relative@.map_values(|c: Vec<u8>| c@) =~= before.push(component@));
            assert(expected.take(i + 1 - start) =~= expected.take(i - start).push(expected[i - start]));
            assert(relative@.map_values(|c: Vec<u8>| c@) =~= expected.take(i + 1 - start));
        }
        i += 1;
    }
    assert(expected.take(i - start) =~= expected);
    assert(component_problem(expected, i - start) is None);
    if relative.len() == 0 {
        return Err(invalid_model_path(model_path, "path resolves to the selected root"));
    }
    let sidecar: &[u8] = &[
        46u8, 99, 111, 100, 101, 120, 45, 104, 97, 115, 104, 108, 105, 110, 101, 45, 116, 114, 97, 110,
        115, 97, 99, 116, 105, 111, 110, 115,
    ];
    assert(sidecar@ =~= sidecar_name());
    if crate::digest::bytes_equal(relative[0].as_slice(), sidecar) {
        return Err(invalid_model_path(model_path, "path uses the reserved Hashline transaction sidecar name"));
    }
    Ok(relative)
}


proof fn lemma_components_are_names(rest: Seq<u8>, current: Seq<u8>)
    ensures
        forall|k: int|
            0 <= k < components_from(rest, current).len() ==> !is_filler(
                #[trigger] components_from(rest, current)[k],
            ),
    decreases rest.len(),
{
    let head = kept_segment(current);
    assert forall|k: int| 0 <= k < head.len() implies !is_filler(#[trigger] head[k]) by {
        assert(head[k] == current);
    }
    if rest.len() > 0 {
        if rest[0] == 47u8 {
            lemma_components_are_names(rest.drop_first(), Seq::empty());
            let tail = components_from(rest.drop_first(), Seq::empty());
            assert(components_from(rest, current) == head + tail);
            assert forall|k: int| 0 <= k < (head + tail).len() implies !is_filler(#[trigger] (head + tail)[k]) by {
                if k >= head.len() {
                    assert((head + tail)[k] == tail[k - head.len()]);
                } else {
                    assert((head + tail)[k] == head[k]);
                }
            }
        } else {
            lemma_components_are_names(rest.drop_first(), current.push(rest[0]));
            assert(components_from(rest, current) == components_from(rest.drop_first(), current.push(rest[0])));
        }
    } else {
        assert(components_from(rest, current) == head);
    }
}

proof fn lemma_no_problem_means_clean(components: Seq<Seq<u8>>, i: int)
    requires
        0 <= i,
        component_problem(components, i) is None,
    ensures
        forall|k: int|
            i <= k < components.len() ==> #[trigger] components[k] != seq![46u8, 46u8] && !components[k].contains(
                0u8,
            ),
    decreases components.len() - i,
{
    if i < components.len() {
        lemma_no_problem_means_clean(components, i + 1);
    }
}

/// A model path that is accepted names a place strictly below the root and never leaves it:
/// it has at least one component, every component is a real name (not empty, `.` or `..`)
/// without NUL, and the first is not the reserved transaction sidecar.
pub proof fn lemma_accepted_paths_stay_below_root(root: Seq<u8>, model: Seq<u8>)
    ensures
        model_components(root, model) matches Ok(cs) ==> {
            &&& cs.len() > 0
            &&& cs[0] != sidecar_name()
            &&& forall|k: int|
                0 <= k < cs.len() ==> !is_filler(#[trigger] cs[k]) && cs[k] != seq![46u8, 46u8]
                    && !cs[k].contains(0u8)
        },
{
    if model_components(root, model) is Ok && model.len() > 0 {
        let all = path_components(model);
        let prefix = path_components(root);
        lemma_components_are_names(model, Seq::empty());
        let relative = if model[0] == 47u8 {
            all.skip(prefix.len() as int)
        } else {
            all
        };
        assert forall|k: int| 0 <= k < relative.len() implies !is_filler(#[trigger] relative[k]) by {
            if model[0] == 47u8 {
                assert(relative[k] == all[k + prefix.len()]);
            }
        }
        lemma_no_problem_means_clean(relative, 0);
    }
}

} // verus!
