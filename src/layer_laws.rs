//! What applying a layer does to a tree, proved over `apply_layer`.
use vstd::prelude::*;
use crate::layers::{
    apply_layer, apply_step, apply_steps, below, covers, dir_prefix, entry_kind, queue_spec,
    step_removes, whiteout_target, EntryKind, LayerStep,
};

verus! {

/// Whether entry `k` is an opaque whiteout or a whiteout (as `kind` says)
/// whose step removes `x`.
pub open spec fn entry_removes(paths: Seq<Seq<u8>>, kind: EntryKind, k: int, x: Seq<u8>) -> bool {
    &&& entry_kind(paths[k]) == kind
    &&& if kind == EntryKind::OpaqueWhiteout {
        below(dir_prefix(paths[k]), x)
    } else {
        covers(whiteout_target(paths[k]), x)
    }
}

/// Whether one of the first `n` entries of kind `kind` removes `x`.
pub open spec fn removed_in(paths: Seq<Seq<u8>>, kind: EntryKind, n: int, x: Seq<u8>) -> bool {
    exists|k: int| 0 <= k < n && #[trigger] entry_removes(paths, kind, k, x)
}

/// Whether one of the first `n` entries is a modification with path `x`.
pub open spec fn unpacked_in(paths: Seq<Seq<u8>>, n: int, x: Seq<u8>) -> bool {
    exists|k: int| 0 <= k < n && #[trigger] entry_kind(paths[k]) == EntryKind::Modification
        && paths[k] == x
}

/// Whether some whiteout of the layer removes `x`.
pub open spec fn removed_by_layer(paths: Seq<Seq<u8>>, x: Seq<u8>) -> bool {
    removed_in(paths, EntryKind::OpaqueWhiteout, paths.len() as int, x) || removed_in(
        paths,
        EntryKind::Whiteout,
        paths.len() as int,
        x,
    )
}

pub proof fn lemma_apply_concat(
    t: Set<Seq<u8>>,
    a: Seq<LayerStep<Seq<u8>>>,
    b: Seq<LayerStep<Seq<u8>>>,
    paths: Seq<Seq<u8>>,
)
    ensures
        apply_steps(t, a + b, paths) == apply_steps(apply_steps(t, a, paths), b, paths),
    decreases a.len(),
{
    if a.len() == 0 {
        assert(a + b =~= b);
    } else {
        let rest = a.subrange(1, a.len() as int);
        assert((a + b).subrange(1, (a + b).len() as int) =~= rest + b);
        assert((a + b)[0] == a[0]);
        lemma_apply_concat(apply_step(t, a[0], paths), rest, b, paths);
    }
}

pub proof fn lemma_apply_single(t: Set<Seq<u8>>, s: LayerStep<Seq<u8>>, paths: Seq<Seq<u8>>)
    ensures
        apply_steps(t, seq![s], paths) == apply_step(t, s, paths),
{
    assert(seq![s].subrange(1, 1) =~= Seq::<LayerStep<Seq<u8>>>::empty());
    assert(apply_steps(apply_step(t, s, paths), Seq::empty(), paths) == apply_step(t, s, paths));
}

pub proof fn lemma_removal_queue(
    t: Set<Seq<u8>>,
    paths: Seq<Seq<u8>>,
    kind: EntryKind,
    n: int,
    x: Seq<u8>,
)
    requires
        kind != EntryKind::Modification,
        0 <= n <= paths.len(),
    ensures
        apply_steps(t, queue_spec(paths, kind, n), paths).contains(x) <==> t.contains(x)
            && !removed_in(paths, kind, n, x),
    decreases n,
{
    if n == 0 {
        assert(queue_spec(paths, kind, 0) =~= Seq::<LayerStep<Seq<u8>>>::empty());
    } else {
        lemma_removal_queue(t, paths, kind, n - 1, x);
        let q0 = queue_spec(paths, kind, n - 1);
        let p = paths[n - 1];
        let extra = queue_spec(paths, kind, n).subrange(q0.len() as int, queue_spec(paths, kind, n).len() as int);
        assert(queue_spec(paths, kind, n) =~= q0 + extra);
        lemma_apply_concat(t, q0, extra, paths);
        let t0 = apply_steps(t, q0, paths);
        if entry_kind(p) != kind {
            assert(extra =~= Seq::<LayerStep<Seq<u8>>>::empty());
            assert(!entry_removes(paths, kind, n - 1, x));
            if removed_in(paths, kind, n, x) {
                let k = choose|k: int| 0 <= k < n && #[trigger] entry_removes(paths, kind, k, x);
                assert(removed_in(paths, kind, n - 1, x));
            }
        } else {
            let step = extra[0];
            assert(extra =~= seq![step]);
            lemma_apply_single(t0, step, paths);
            assert(step_removes(step, x) == entry_removes(paths, kind, n - 1, x));
            if removed_in(paths, kind, n, x) && !entry_removes(paths, kind, n - 1, x) {
                let k = choose|k: int| 0 <= k < n && #[trigger] entry_removes(paths, kind, k, x);
                assert(removed_in(paths, kind, n - 1, x));
            }
            if removed_in(paths, kind, n - 1, x) {
                let k = choose|k: int| 0 <= k < n - 1 && #[trigger] entry_removes(paths, kind, k, x);
                assert(removed_in(paths, kind, n, x));
            }
            if entry_removes(paths, kind, n - 1, x) {
                assert(removed_in(paths, kind, n, x));
            }
        }
    }
}

pub proof fn lemma_unpack_queue(t: Set<Seq<u8>>, paths: Seq<Seq<u8>>, n: int, x: Seq<u8>)
    requires
        0 <= n <= paths.len() <= usize::MAX,
    ensures
        apply_steps(t, queue_spec(paths, EntryKind::Modification, n), paths).contains(x)
            <==> t.contains(x) || unpacked_in(paths, n, x),
    decreases n,
{
    let kind = EntryKind::Modification;
    if n == 0 {
        assert(queue_spec(paths, kind, 0) =~= Seq::<LayerStep<Seq<u8>>>::empty());
    } else {
        lemma_unpack_queue(t, paths, n - 1, x);
        let q0 = queue_spec(paths, kind, n - 1);
        let p = paths[n - 1];
        let extra = queue_spec(paths, kind, n).subrange(q0.len() as int, queue_spec(paths, kind, n).len() as int);
        assert(queue_spec(paths, kind, n) =~= q0 + extra);
        lemma_apply_concat(t, q0, extra, paths);
        let t0 = apply_steps(t, q0, paths);
        if unpacked_in(paths, n, x) {
            let k = choose|k: int| 0 <= k < n && #[trigger] entry_kind(paths[k]) == kind && paths[k] == x;
            if k < n - 1 {
                assert(unpacked_in(paths, n - 1, x));
            }
        }
        if unpacked_in(paths, n - 1, x) {
            let k = choose|k: int| 0 <= k < n - 1 && #[trigger] entry_kind(paths[k]) == kind && paths[k] == x;
            assert(unpacked_in(paths, n, x));
        }
        if entry_kind(p) != kind {
            assert(extra =~= Seq::<LayerStep<Seq<u8>>>::empty());
        } else {
            let step = extra[0];
            assert(extra =~= seq![step]);
            lemma_apply_single(t0, step, paths);
            assert(step == LayerStep::<Seq<u8>>::Unpack((n - 1) as usize));
            if p == x {
                assert(unpacked_in(paths, n, x));
            }
        }
    }
}

/// After applying a layer, a path is present exactly when it was present and
/// no whiteout of the layer removed it, or a modification of the layer has
/// that path. Whiteouts never remove what the same layer unpacks.
pub proof fn lemma_apply_layer_contents(tree: Set<Seq<u8>>, paths: Seq<Seq<u8>>, x: Seq<u8>)
    requires
        paths.len() <= usize::MAX,
    ensures
        apply_layer(tree, paths).contains(x) <==> (tree.contains(x) && !removed_by_layer(paths, x))
            || unpacked_in(paths, paths.len() as int, x),
{
    let n = paths.len() as int;
    let o = queue_spec(paths, EntryKind::OpaqueWhiteout, n);
    let w = queue_spec(paths, EntryKind::Whiteout, n);
    let m = queue_spec(paths, EntryKind::Modification, n);
    lemma_apply_concat(tree, o + w, m, paths);
    lemma_apply_concat(tree, o, w, paths);
    let t1 = apply_steps(tree, o, paths);
    let t2 = apply_steps(t1, w, paths);
    lemma_removal_queue(tree, paths, EntryKind::OpaqueWhiteout, n, x);
    lemma_removal_queue(t1, paths, EntryKind::Whiteout, n, x);
    lemma_unpack_queue(t2, paths, n, x);
}

/// A whiteout `.wh.<name>` leaves `<name>`, and everything below it, absent
/// unless the same layer unpacks that very path.
pub proof fn lemma_whiteout_removes(tree: Set<Seq<u8>>, paths: Seq<Seq<u8>>, k: int, x: Seq<u8>)
    requires
        paths.len() <= usize::MAX,
        0 <= k < paths.len(),
        entry_kind(paths[k]) == EntryKind::Whiteout,
        covers(whiteout_target(paths[k]), x),
        !unpacked_in(paths, paths.len() as int, x),
    ensures
        !apply_layer(tree, paths).contains(x),
{
    assert(entry_removes(paths, EntryKind::Whiteout, k, x));
    lemma_apply_layer_contents(tree, paths, x);
}

/// An opaque whiteout clears every path below its directory, unless the
/// same layer unpacks that very path.
pub proof fn lemma_opaque_whiteout_clears(tree: Set<Seq<u8>>, paths: Seq<Seq<u8>>, k: int, x: Seq<u8>)
    requires
        paths.len() <= usize::MAX,
        0 <= k < paths.len(),
        entry_kind(paths[k]) == EntryKind::OpaqueWhiteout,
        below(dir_prefix(paths[k]), x),
        !unpacked_in(paths, paths.len() as int, x),
    ensures
        !apply_layer(tree, paths).contains(x),
{
    assert(entry_removes(paths, EntryKind::OpaqueWhiteout, k, x));
    lemma_apply_layer_contents(tree, paths, x);
}

/// Every modification of a layer is present after applying it, whatever the
/// whiteouts of the same layer say: the queues are applied in order.
pub proof fn lemma_modifications_land(tree: Set<Seq<u8>>, paths: Seq<Seq<u8>>, k: int)
    requires
        paths.len() <= usize::MAX,
        0 <= k < paths.len(),
        entry_kind(paths[k]) == EntryKind::Modification,
    ensures
        apply_layer(tree, paths).contains(paths[k]),
{
    assert(unpacked_in(paths, paths.len() as int, paths[k]));
    lemma_apply_layer_contents(tree, paths, paths[k]);
}

} // verus!
