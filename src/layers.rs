//! Applying an OCI layer onto a destination tree: tar entries are split into
//! opaque whiteouts, whiteouts and modifications, and applied in that order.
//!
//! Paths are byte strings with `/` between components. A destination tree is
//! modelled as the set of paths present in it.
use vstd::prelude::*;

verus! {

/// What an entry of a layer archive asks for.
#[derive(Clone, Copy, Debug, PartialEq, Eq)]
pub enum EntryKind {
    /// `.wh..wh..opq`: clear the directory that holds it.
    OpaqueWhiteout,
    /// `.wh.<name>`: remove the sibling `<name>`.
    Whiteout,
    /// Anything else: unpack it as it is.
    Modification,
}

/// One step of applying a layer; `B` is `Vec<u8>` in executable code and
/// `Seq<u8>` in specifications.
#[derive(Clone, Debug, PartialEq, Eq)]
pub enum LayerStep<B> {
    /// Remove everything below the directory prefix (`dir/`, or empty for
    /// the root).
    ClearDirectory(B),
    /// Remove this path, and everything below it if it is a directory.
    Remove(B),
    /// Unpack the archive entry with this index.
    Unpack(usize),
}

impl View for LayerStep<Vec<u8>> {
    type V = LayerStep<Seq<u8>>;

    open spec fn view(&self) -> LayerStep<Seq<u8>> {
        match self {
            LayerStep::ClearDirectory(d) => LayerStep::ClearDirectory(d@),
            LayerStep::Remove(p) => LayerStep::Remove(p@),
            LayerStep::Unpack(i) => LayerStep::Unpack(*i),
        }
    }
}

pub open spec fn steps_view(s: Seq<LayerStep<Vec<u8>>>) -> Seq<LayerStep<Seq<u8>>> {
    s.map_values(|x: LayerStep<Vec<u8>>| x@)
}

pub open spec fn paths_view(s: Seq<Vec<u8>>) -> Seq<Seq<u8>> {
    s.map_values(|x: Vec<u8>| x@)
}

/// `.wh.`
pub open spec fn whiteout_prefix() -> Seq<u8> {
    seq![0x2eu8, 0x77, 0x68, 0x2e]
}

/// `.wh..wh..opq`
pub open spec fn opaque_marker() -> Seq<u8> {
    seq![0x2eu8, 0x77, 0x68, 0x2e, 0x2e, 0x77, 0x68, 0x2e, 0x2e, 0x6f, 0x70, 0x71]
}

pub open spec fn is_prefix(a: Seq<u8>, b: Seq<u8>) -> bool {
    a.len() <= b.len() && b.subrange(0, a.len() as int) == a
}

/// Where the last component of `p` starts: just after its last `/`, or 0.
pub open spec fn name_start(p: Seq<u8>) -> nat
    decreases p.len(),
{
    if p.len() == 0 {
        0
    } else if p.last() == 0x2fu8 {
        p.len()
    } else {
        name_start(p.drop_last())
    }
}

/// The last component of `p`.
pub open spec fn file_name(p: Seq<u8>) -> Seq<u8> {
    p.subrange(name_start(p) as int, p.len() as int)
}

/// The directory prefix of `p`: everything up to and including its last `/`.
pub open spec fn dir_prefix(p: Seq<u8>) -> Seq<u8> {
    p.subrange(0, name_start(p) as int)
}

pub open spec fn entry_kind(p: Seq<u8>) -> EntryKind {
    if file_name(p) == opaque_marker() {
        EntryKind::OpaqueWhiteout
    } else if is_prefix(whiteout_prefix(), file_name(p)) {
        EntryKind::Whiteout
    } else {
        EntryKind::Modification
    }
}

/// The sibling that the whiteout `p` removes: `p` without the `.wh.` that
/// starts its last component.
pub open spec fn whiteout_target(p: Seq<u8>) -> Seq<u8> {
    dir_prefix(p) + file_name(p).subrange(4, file_name(p).len() as int)
}

/// The steps that the first `n` entries contribute to one queue.
pub open spec fn queue_spec(paths: Seq<Seq<u8>>, kind: EntryKind, n: int) -> Seq<LayerStep<Seq<u8>>>
    decreases n,
{
    if n <= 0 {
        Seq::empty()
    } else {
        let p = paths[n - 1];
        queue_spec(paths, kind, n - 1) + if entry_kind(p) != kind {
            Seq::empty()
        } else if kind == EntryKind::OpaqueWhiteout {
            seq![LayerStep::ClearDirectory(dir_prefix(p))]
        } else if kind == EntryKind::Whiteout {
            seq![LayerStep::Remove(whiteout_target(p))]
        } else {
            seq![LayerStep::Unpack((n - 1) as usize)]
        }
    }
}

/// The steps of a layer whose entries have the paths `paths`: every opaque
/// whiteout, then every whiteout, then every modification, each queue in the
/// order of the archive.
pub open spec fn plan_spec(paths: Seq<Seq<u8>>) -> Seq<LayerStep<Seq<u8>>> {
    queue_spec(paths, EntryKind::OpaqueWhiteout, paths.len() as int) + queue_spec(
        paths,
        EntryKind::Whiteout,
        paths.len() as int,
    ) + queue_spec(paths, EntryKind::Modification, paths.len() as int)
}

/// Whether `x` is `t` or lies below it.
pub open spec fn covers(t: Seq<u8>, x: Seq<u8>) -> bool {
    x == t || is_prefix(t.push(0x2fu8), x)
}

/// Whether `x` lies strictly below the directory prefix `d`.
pub open spec fn below(d: Seq<u8>, x: Seq<u8>) -> bool {
    is_prefix(d, x) && x.len() > d.len()
}

/// Whether applying `step` removes `x`.
pub open spec fn step_removes(step: LayerStep<Seq<u8>>, x: Seq<u8>) -> bool {
    match step {
        LayerStep::ClearDirectory(d) => below(d, x),
        LayerStep::Remove(t) => covers(t, x),
        LayerStep::Unpack(_) => false,
    }
}

/// The tree after one step; `paths` gives the path of each archive entry.
pub open spec fn apply_step(tree: Set<Seq<u8>>, step: LayerStep<Seq<u8>>, paths: Seq<Seq<u8>>) -> Set<Seq<u8>> {
    match step {
        LayerStep::Unpack(i) => tree.insert(paths[i as int]),
        _ => tree.filter(|x: Seq<u8>| !step_removes(step, x)),
    }
}

/// The tree after the steps, in order.
pub open spec fn apply_steps(tree: Set<Seq<u8>>, steps: Seq<LayerStep<Seq<u8>>>, paths: Seq<Seq<u8>>) -> Set<Seq<u8>>
    decreases steps.len(),
{
    if steps.len() == 0 {
        tree
    } else {
        apply_steps(
            apply_step(tree, steps[0], paths),
            steps.subrange(1, steps.len() as int),
            paths,
        )
    }
}

/// The tree after applying the layer with entry paths `paths` onto `tree`.
pub open spec fn apply_layer(tree: Set<Seq<u8>>, paths: Seq<Seq<u8>>) -> Set<Seq<u8>> {
    apply_steps(tree, plan_spec(paths), paths)
}


pub proof fn lemma_name_start_bound(p: Seq<u8>)
    ensures
        name_start(p) <= p.len(),
        name_start(p) > 0 ==> p[name_start(p) - 1] == 0x2fu8,
        forall|i: int| name_start(p) <= i < p.len() ==> p[i] != 0x2fu8,
    decreases p.len(),
{
    if p.len() > 0 && p.last() != 0x2fu8 {
        lemma_name_start_bound(p.drop_last());
        assert forall|i: int| name_start(p) <= i < p.len() implies p[i] != 0x2fu8 by {
            if i < p.len() - 1 {
                assert(p.drop_last()[i] == p[i]);
            }
        }
    }
}

/// Where the last component of `p` starts.
pub fn name_start_of(p: &[u8]) -> (r: usize)
    ensures
        r == name_start(p@),
{
    let mut i: usize = p.len();
    assert(p@.subrange(0, i as int) =~= p@);
    while i > 0 && p[i - 1] != 0x2f
        invariant
            i <= p@.len(),
            name_start(p@) == name_start(p@.subrange(0, i as int)),
        decreases i,
    {
        assert(p@.subrange(0, i as int).drop_last() =~= p@.subrange(0, i - 1));
        i = i - 1;
    }
    i
}

/// Whether `p[start..]` begins with `lit`.
pub fn has_prefix_at(p: &[u8], start: usize, lit: &[u8]) -> (r: bool)
    requires
        start <= p@.len(),
    ensures
        r == is_prefix(lit@, p@.subrange(start as int, p@.len() as int)),
{
    let ghost q = p@.subrange(start as int, p@.len() as int);
    if p.len() - start < lit.len() {
        return false;
    }
    let mut i: usize = 0;
    while i < lit.len()
        invariant
            i <= lit@.len(),
            start + lit@.len() <= p@.len(),
            p@.len() <= usize::MAX,
            q == p@.subrange(start as int, p@.len() as int),
            forall|j: int| 0 <= j < i ==> q[j] == lit@[j],
        decreases lit@.len() - i,
    {
        if p[start + i] != lit[i] {
            assert(q.subrange(0, lit@.len() as int)[i as int] != lit@[i as int]);
            return false;
        }
        i = i + 1;
    }
    assert(q.subrange(0, lit@.len() as int) =~= lit@);
    true
}

/// The last component of `path`.
pub fn path_to_file_name_str(path: &[u8]) -> (r: Vec<u8>)
    ensures
        r@ == file_name(path@),
{
    let start = name_start_of(path);
    proof {
        lemma_name_start_bound(path@);
    }
    let mut name: Vec<u8> = Vec::new();
    let mut i: usize = start;
    while i < path.len()
        invariant
            start <= i <= path@.len(),
            start == name_start(path@),
            name@ == path@.subrange(start as int, i as int),
        decreases path@.len() - i,
    {
        name.push(path[i]);
        i = i + 1;
        assert(name@ =~= path@.subrange(start as int, i as int));
    }
    name
}

/// What the entry with path `p` asks for.
pub fn entry_kind_of(p: &[u8]) -> (r: EntryKind)
    ensures
        r == entry_kind(p@),
{
    let start = name_start_of(p);
    proof {
        lemma_name_start_bound(p@);
    }
    let opaque: [u8; 12] = [0x2e, 0x77, 0x68, 0x2e, 0x2e, 0x77, 0x68, 0x2e, 0x2e, 0x6f, 0x70, 0x71];
    let whiteout: [u8; 4] = [0x2e, 0x77, 0x68, 0x2e];
    assert(opaque@ =~= opaque_marker());
    assert(whiteout@ =~= whiteout_prefix());
    let ghost name = file_name(p@);
    if p.len() - start == 12 && has_prefix_at(p, start, &opaque) {
        assert(name.subrange(0, 12) =~= name);
        EntryKind::OpaqueWhiteout
    } else if has_prefix_at(p, start, &whiteout) {
        proof {
            if name == opaque_marker() {
                assert(name.subrange(0, 12) =~= name);
            }
        }
        EntryKind::Whiteout
    } else {
        proof {
            if name == opaque_marker() {
                assert(name.subrange(0, 4) =~= whiteout_prefix());
            }
        }
        EntryKind::Modification
    }
}

/// The directory prefix of `p`, up to and including its last `/`.
pub fn dir_prefix_of(p: &[u8]) -> (r: Vec<u8>)
    ensures
        r@ == dir_prefix(p@),
{
    let start = name_start_of(p);
    proof {
        lemma_name_start_bound(p@);
    }
    let mut d: Vec<u8> = Vec::new();
    let mut i: usize = 0;
    while i < start
        invariant
            i <= start <= p@.len(),
            start == name_start(p@),
            d@ == p@.subrange(0, i as int),
        decreases start - i,
    {
        d.push(p[i]);
        i = i + 1;
        assert(d@ =~= p@.subrange(0, i as int));
    }
    d
}

/// The sibling that the whiteout `p` removes.
pub fn whiteout_target_of(p: &[u8]) -> (r: Vec<u8>)
    requires
        entry_kind(p@) == EntryKind::Whiteout,
    ensures
        r@ == whiteout_target(p@),
{
    let start = name_start_of(p);
    proof {
        lemma_name_start_bound(p@);
    }
    let mut t = dir_prefix_of(p);
    let n: usize = p.len();
    assert(start + 4 <= n);
    let mut i: usize = start + 4;
    assert(file_name(p@).subrange(4, 4) =~= Seq::<u8>::empty());
    assert(t@ =~= dir_prefix(p@) + file_name(p@).subrange(4, (i - start) as int));
    while i < p.len()
        invariant
            start + 4 <= i <= p@.len(),
            start == name_start(p@),
            t@ == dir_prefix(p@) + file_name(p@).subrange(4, (i - start) as int),
        decreases p@.len() - i,
    {
        t.push(p[i]);
        i = i + 1;
        assert(t@ =~= dir_prefix(p@) + file_name(p@).subrange(4, (i - start) as int));
    }
    t
}

/// Splits the entries of a layer into its three queues: opaque whiteouts,
/// whiteouts and modifications, each in the order of the archive.
pub fn create_steps_queues(paths: &[Vec<u8>]) -> (r: (
    Vec<LayerStep<Vec<u8>>>,
    Vec<LayerStep<Vec<u8>>>,
    Vec<LayerStep<Vec<u8>>>,
))
    ensures
        steps_view(r.0@) == queue_spec(
            paths_view(paths@),
            EntryKind::OpaqueWhiteout,
            paths@.len() as int,
        ),
        steps_view(r.1@) == queue_spec(paths_view(paths@), EntryKind::Whiteout, paths@.len() as int),
        steps_view(r.2@) == queue_spec(
            paths_view(paths@),
            EntryKind::Modification,
            paths@.len() as int,
        ),
{
    let ghost ps = paths_view(paths@);
    let mut opaque: Vec<LayerStep<Vec<u8>>> = Vec::new();
    let mut whiteouts: Vec<LayerStep<Vec<u8>>> = Vec::new();
    let mut modifications: Vec<LayerStep<Vec<u8>>> = Vec::new();
    let mut i: usize = 0;
    assert(steps_view(opaque@) =~= Seq::<LayerStep<Seq<u8>>>::empty());
    assert(steps_view(whiteouts@) =~= Seq::<LayerStep<Seq<u8>>>::empty());
    assert(steps_view(modifications@) =~= Seq::<LayerStep<Seq<u8>>>::empty());
    while i < paths.len()
        invariant
            i <= paths@.len(),
            ps == paths_view(paths@),
            steps_view(opaque@) == queue_spec(ps, EntryKind::OpaqueWhiteout, i as int),
            steps_view(whiteouts@) == queue_spec(ps, EntryKind::Whiteout, i as int),
            steps_view(modifications@) == queue_spec(ps, EntryKind::Modification, i as int),
        decreases paths@.len() - i,
    {
        let p = paths[i].as_slice();
        assert(p@ == ps[i as int]);
        let kind = entry_kind_of(p);
        let ghost o0 = steps_view(opaque@);
        let ghost w0 = steps_view(whiteouts@);
        let ghost m0 = steps_view(modifications@);
        match kind {
            EntryKind::OpaqueWhiteout => {
                opaque.push(LayerStep::ClearDirectory(dir_prefix_of(p)));
            },
            EntryKind::Whiteout => {
                whiteouts.push(LayerStep::Remove(whiteout_target_of(p)));
            },
            EntryKind::Modification => {
                modifications.push(LayerStep::Unpack(i));
            },
        }
        i = i + 1;
        assert(steps_view(opaque@) =~= queue_spec(ps, EntryKind::OpaqueWhiteout, i as int));
        assert(steps_view(whiteouts@) =~= queue_spec(ps, EntryKind::Whiteout, i as int));
        assert(steps_view(modifications@) =~= queue_spec(ps, EntryKind::Modification, i as int));
    }
    (opaque, whiteouts, modifications)
}

/// The steps of applying a layer whose entries have the paths `paths`:
/// opaque whiteouts first, then whiteouts, then modifications.
pub fn plan_layer(paths: &[Vec<u8>]) -> (r: Vec<LayerStep<Vec<u8>>>)
    ensures
        steps_view(r@) == plan_spec(paths_view(paths@)),
{
    let (mut opaque, mut whiteouts, mut modifications) = create_steps_queues(paths);
    let ghost o = steps_view(opaque@);
    let ghost w = steps_view(whiteouts@);
    let ghost m = steps_view(modifications@);
    opaque.append(&mut whiteouts);
    opaque.append(&mut modifications);
    assert(steps_view(opaque@) =~= o + w + m);
    opaque
}

} // verus!
