//! An in-memory destination tree: the paths it holds, in a vector. Applying
//! a layer plan to it is proved to give `apply_steps`, so it stands for a
//! real directory wherever a test or a dry run needs one.
use vstd::prelude::*;
use crate::layers::{
    apply_layer, apply_step, apply_steps, paths_view, plan_layer, plan_spec, queue_spec,
    step_removes, steps_view, EntryKind, LayerStep,
};
use crate::args::has_prefix;
use crate::wire::{bytes_eq, copy_of};

verus! {

/// The set of paths that the tree `t` holds.
pub open spec fn tree_view(t: Seq<Vec<u8>>) -> Set<Seq<u8>> {
    paths_view(t).to_set()
}

pub proof fn lemma_contains_push(s: Seq<Seq<u8>>, v: Seq<u8>, x: Seq<u8>)
    ensures
        s.push(v).contains(x) <==> s.contains(x) || x == v,
{
    if s.contains(x) {
        let i = choose|i: int| 0 <= i < s.len() && s[i] == x;
        assert(s.push(v)[i] == x);
    }
    if x == v {
        assert(s.push(v)[s.len() as int] == x);
    }
    if s.push(v).contains(x) {
        let i = choose|i: int| 0 <= i < s.push(v).len() && s.push(v)[i] == x;
        if i < s.len() {
            assert(s[i] == x);
        }
    }
}

/// Whether applying `step` removes the path `x`.
pub fn step_removes_path(step: &LayerStep<Vec<u8>>, x: &[u8]) -> (r: bool)
    ensures
        r == step_removes(step@, x@),
{
    match step {
        LayerStep::ClearDirectory(d) => has_prefix(x, d.as_slice()) && x.len() > d.len(),
        LayerStep::Remove(t) => {
            if bytes_eq(x, t.as_slice()) {
                return true;
            }
            let mut child = copy_of(t.as_slice());
            child.push(0x2f);
            let r = has_prefix(x, child.as_slice());
            assert(child@ == t@.push(0x2fu8));
            r
        },
        LayerStep::Unpack(_) => false,
    }
}

/// Applies one step to `tree`; `paths` gives the path of each archive
/// entry.
pub fn apply_step_to_tree(tree: &mut Vec<Vec<u8>>, step: &LayerStep<Vec<u8>>, paths: &[Vec<u8>])
    requires
        step matches LayerStep::Unpack(i) ==> i < paths@.len(),
    ensures
        tree_view(final(tree)@) == apply_step(tree_view(old(tree)@), step@, paths_view(paths@)),
{
    match step {
        LayerStep::Unpack(i) => {
            let ghost before = paths_view(tree@);
            tree.push(copy_of(paths[*i].as_slice()));
            assert(paths_view(tree@) =~= before.push(paths@[*i as int]@));
            assert forall|x: Seq<u8>| #[trigger] tree_view(tree@).contains(x) <==> tree_view(
                old(tree)@,
            ).insert(paths_view(paths@)[*i as int]).contains(x) by {
                lemma_contains_push(before, paths@[*i as int]@, x);
            }
            assert(tree_view(tree@) =~= tree_view(old(tree)@).insert(paths_view(paths@)[*i as int]));
        },
        _ => {
            let ghost old_view = paths_view(tree@);
            let mut kept: Vec<Vec<u8>> = Vec::new();
            let mut j: usize = 0;
            while j < tree.len()
                invariant
                    j <= tree@.len(),
                    old_view == paths_view(tree@),
                    tree@ == old(tree)@,
                    !(step@ is Unpack),
                    forall|x: Seq<u8>|
                        #[trigger] paths_view(kept@).contains(x) <==> (old_view.subrange(
                            0,
                            j as int,
                        ).contains(x) && !step_removes(step@, x)),
                decreases tree@.len() - j,
            {
                let ghost before = paths_view(kept@);
                let ghost prefix = old_view.subrange(0, j as int);
                assert(old_view.subrange(0, j + 1) =~= prefix.push(old_view[j as int]));
                if !step_removes_path(step, tree[j].as_slice()) {
                    kept.push(copy_of(tree[j].as_slice()));
                    assert(paths_view(kept@) =~= before.push(old_view[j as int]));
                    assert forall|x: Seq<u8>| #[trigger] paths_view(kept@).contains(x) <==> (
                    old_view.subrange(0, j + 1).contains(x) && !step_removes(step@, x)) by {
                        lemma_contains_push(before, old_view[j as int], x);
                        lemma_contains_push(prefix, old_view[j as int], x);
                    }
                } else {
                    assert forall|x: Seq<u8>| #[trigger] paths_view(kept@).contains(x) <==> (
                    old_view.subrange(0, j + 1).contains(x) && !step_removes(step@, x)) by {
                        lemma_contains_push(prefix, old_view[j as int], x);
                    }
                }
                j = j + 1;
            }
            assert(old_view.subrange(0, j as int) =~= old_view);
            *tree = kept;
            assert(tree_view(tree@) =~= tree_view(old(tree)@).filter(
                |x: Seq<u8>| !step_removes(step@, x),
            ));
        },
    }
}

/// Applies the steps to `tree` in order.
pub fn apply_plan_to_tree(tree: &mut Vec<Vec<u8>>, steps: &[LayerStep<Vec<u8>>], paths: &[Vec<u8>])
    requires
        forall|k: int|
            0 <= k < steps@.len() ==> (#[trigger] steps@[k] matches LayerStep::Unpack(i) ==> i
                < paths@.len()),
    ensures
        tree_view(final(tree)@) == apply_steps(
            tree_view(old(tree)@),
            steps_view(steps@),
            paths_view(paths@),
        ),
{
    let ghost all = steps_view(steps@);
    let ghost ps = paths_view(paths@);
    let mut i: usize = 0;
    assert(all.subrange(0, all.len() as int) =~= all);
    while i < steps.len()
        invariant
            i <= steps@.len(),
            all == steps_view(steps@),
            ps == paths_view(paths@),
            forall|k: int|
                0 <= k < steps@.len() ==> (#[trigger] steps@[k] matches LayerStep::Unpack(i) ==> i
                    < paths@.len()),
            apply_steps(tree_view(old(tree)@), all, ps) == apply_steps(
                tree_view(tree@),
                all.subrange(i as int, all.len() as int),
                ps,
            ),
        decreases steps@.len() - i,
    {
        let ghost t0 = tree_view(tree@);
        let ghost rest = all.subrange(i as int, all.len() as int);
        assert(rest[0] == steps@[i as int]@);
        assert(rest.subrange(1, rest.len() as int) =~= all.subrange(i + 1, all.len() as int));
        apply_step_to_tree(tree, &steps[i], paths);
        i = i + 1;
    }
}


/// Every archive index that a queue unpacks is below `n`.
pub proof fn lemma_queue_indices(paths: Seq<Seq<u8>>, kind: EntryKind, n: int)
    requires
        0 <= n <= usize::MAX,
    ensures
        forall|k: int|
            0 <= k < queue_spec(paths, kind, n).len() ==> (#[trigger] queue_spec(paths, kind, n)[k] matches LayerStep::Unpack(i) ==> i < n),
    decreases n,
{
    if n > 0 {
        lemma_queue_indices(paths, kind, n - 1);
        let q0 = queue_spec(paths, kind, n - 1);
        let q = queue_spec(paths, kind, n);
        assert forall|k: int| 0 <= k < q.len() implies (#[trigger] q[k] matches LayerStep::Unpack(i) ==> i < n) by {
            if k < q0.len() {
                assert(q[k] == q0[k]);
            }
        }
    }
}

/// Applies the layer whose entries have the paths `paths` to `tree`:
/// opaque whiteouts, then whiteouts, then the entries to unpack.
pub fn apply_layer_to_tree(tree: &mut Vec<Vec<u8>>, paths: &[Vec<u8>])
    ensures
        tree_view(final(tree)@) == apply_layer(tree_view(old(tree)@), paths_view(paths@)),
{
    let plan = plan_layer(paths);
    let count = paths.len();
    proof {
        let ps = paths_view(paths@);
        let n = count as int;
        assert(ps.len() == n);
        lemma_queue_indices(ps, EntryKind::OpaqueWhiteout, n);
        lemma_queue_indices(ps, EntryKind::Whiteout, n);
        lemma_queue_indices(ps, EntryKind::Modification, n);
        let o = queue_spec(ps, EntryKind::OpaqueWhiteout, n);
        let w = queue_spec(ps, EntryKind::Whiteout, n);
        let m = queue_spec(ps, EntryKind::Modification, n);
        let ow = o + w;
        assert(plan_spec(ps) == ow + m);
        assert(ow.len() == o.len() + w.len());
        assert(steps_view(plan@) == ow + m);
        assert(steps_view(plan@).len() == plan@.len());
        assert(plan@.len() == ow.len() + m.len());
        assert forall|k: int| 0 <= k < plan@.len() implies (#[trigger] plan@[k] matches LayerStep::Unpack(i) ==> i < paths@.len()) by {
            assert(steps_view(plan@)[k] == plan@[k]@);
            if k < o.len() {
                assert(ow[k] == o[k]);
                assert((ow + m)[k] == o[k]);
            } else if k < ow.len() {
                assert(ow[k] == w[k - o.len()]);
                assert((ow + m)[k] == w[k - o.len()]);
            } else {
                assert((ow + m)[k] == m[k - ow.len()]);
            }
        }
    }
    apply_plan_to_tree(tree, plan.as_slice(), paths);
}

} // verus!
