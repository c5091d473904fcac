//! Planning the import of an OCI tarball: which image it names, which layer
//! is latest, the chain of layers from the base up, and what to create for
//! each layer.
use vstd::prelude::*;
use crate::layers::{file_name, path_to_file_name_str};
use crate::wire::{bytes_eq, copy_of};

verus! {

/// Why an image could not be imported. `B` is `Vec<u8>` in executable code
/// and `Seq<u8>` in specifications.
#[derive(Clone, Debug, PartialEq, Eq)]
pub enum ImportError<B> {
    /// The tarball path has no file name.
    NoFileName,
    /// The repositories file has no entry for the image: its name, then the
    /// names it has.
    RepositoryFileIncomplete(B, Vec<B>),
    /// No layer metadata has this id.
    MissingLayer(B),
    /// Following parents comes back to a layer already seen.
    LayerCycle,
    /// The chain of layers is empty.
    NoLayers,
}

/// One entry of the repositories file: an image name and its latest layer.
#[derive(Clone, Debug, PartialEq, Eq)]
pub struct RepositoryEntry {
    pub name: Vec<u8>,
    pub latest: Vec<u8>,
}

/// What the metadata of one layer says: its id and its parent's id.
#[derive(Clone, Debug, PartialEq, Eq)]
pub struct LayerRecord {
    pub id: Vec<u8>,
    pub parent: Option<Vec<u8>>,
}

/// What to create for one layer; `B` is `Vec<u8>` in executable code and
/// `Seq<u8>` in specifications.
#[derive(Clone, Debug, PartialEq, Eq)]
pub enum ImportStep<B> {
    /// Create an empty subvolume `name` and unpack layer `layer` into it.
    CreateSubvolume { name: B, layer: B },
    /// Snapshot subvolume `parent` as `name`, then apply layer `layer` onto
    /// it with whiteouts.
    Snapshot { name: B, parent: B, layer: B },
}

/// An error of the storage backend.
#[derive(Clone, Copy, Debug, PartialEq, Eq)]
pub enum StoreError {
    AlreadyExists,
    NotFound,
    PermissionDenied,
    /// Any other failure, by its error number.
    Other(i32),
}

impl View for ImportStep<Vec<u8>> {
    type V = ImportStep<Seq<u8>>;

    open spec fn view(&self) -> ImportStep<Seq<u8>> {
        match self {
            ImportStep::CreateSubvolume { name, layer } => ImportStep::CreateSubvolume {
                name: name@,
                layer: layer@,
            },
            ImportStep::Snapshot { name, parent, layer } => ImportStep::Snapshot {
                name: name@,
                parent: parent@,
                layer: layer@,
            },
        }
    }
}

pub open spec fn ids_view(s: Seq<Vec<u8>>) -> Seq<Seq<u8>> {
    s.map_values(|x: Vec<u8>| x@)
}

pub open spec fn entry_names(s: Seq<RepositoryEntry>) -> Seq<Seq<u8>> {
    s.map_values(|e: RepositoryEntry| e.name@)
}

/// The image name that a tarball path gives: its file name up to the first
/// `.`.
pub open spec fn image_name_of(name: Seq<u8>, v: Seq<u8>) -> bool {
    &&& v.len() <= name.len()
    &&& v == name.subrange(0, v.len() as int)
    &&& forall|j: int| 0 <= j < v.len() ==> name[j] != 0x2eu8
    &&& (v.len() == name.len() || name[v.len() as int] == 0x2eu8)
}

/// The index of the first repositories entry named `name`, from `i` on.
pub open spec fn repository_index(repos: Seq<RepositoryEntry>, name: Seq<u8>, i: int) -> Option<int>
    decreases repos.len() - i,
{
    if i < 0 || i >= repos.len() {
        None
    } else if repos[i].name@ == name {
        Some(i)
    } else {
        repository_index(repos, name, i + 1)
    }
}

/// The index of the first layer record with id `id`, from `i` on.
pub open spec fn layer_index(layers: Seq<LayerRecord>, id: Seq<u8>, i: int) -> Option<int>
    decreases layers.len() - i,
{
    if i < 0 || i >= layers.len() {
        None
    } else if layers[i].id@ == id {
        Some(i)
    } else {
        layer_index(layers, id, i + 1)
    }
}

/// The ids from the base layer up to `id`, following at most `fuel`
/// parents; running out of fuel means a cycle.
pub open spec fn layer_chain(layers: Seq<LayerRecord>, id: Seq<u8>, fuel: nat) -> Result<Seq<Seq<u8>>, ImportError<Seq<u8>>>
    decreases fuel,
{
    match layer_index(layers, id, 0) {
        None => Err(ImportError::MissingLayer(id)),
        Some(i) => match layers[i].parent {
            None => Ok(seq![id]),
            Some(p) => if fuel == 0 {
                Err(ImportError::LayerCycle)
            } else {
                match layer_chain(layers, p@, (fuel - 1) as nat) {
                    Ok(c) => Ok(c.push(id)),
                    Err(e) => Err(e),
                }
            },
        },
    }
}

/// The layers of an image whose latest layer is `latest`, base first.
pub open spec fn layer_stack_spec(layers: Seq<LayerRecord>, latest: Seq<u8>) -> Result<Seq<Seq<u8>>, ImportError<Seq<u8>>> {
    layer_chain(layers, latest, layers.len())
}

/// The subvolume name for layer `i` of `n`: the image's name for the last
/// layer, the layer's own id for the others.
pub open spec fn layer_name_spec(image: Seq<u8>, stack: Seq<Seq<u8>>, i: int) -> Seq<u8> {
    if i == stack.len() - 1 {
        image
    } else {
        stack[i]
    }
}

/// What to create for layer `i` of the stack.
pub open spec fn import_step_spec(image: Seq<u8>, stack: Seq<Seq<u8>>, i: int) -> ImportStep<Seq<u8>> {
    if i == 0 {
        ImportStep::CreateSubvolume { name: layer_name_spec(image, stack, 0), layer: stack[0] }
    } else {
        ImportStep::Snapshot {
            name: layer_name_spec(image, stack, i),
            parent: layer_name_spec(image, stack, i - 1),
            layer: stack[i],
        }
    }
}

/// The image name that the tarball at `path` carries: its file name up to
/// the first `.`. Fails when the path has no file name.
pub fn image_name_from_tarball(path: &[u8]) -> (r: Result<Vec<u8>, ImportError<Vec<u8>>>)
    ensures
        file_name(path@).len() == 0 <==> r matches Err(ImportError::NoFileName),
        file_name(path@).len() > 0 ==> (r matches Ok(v) && image_name_of(file_name(path@), v@)),
{
    let name = path_to_file_name_str(path);
    if name.len() == 0 {
        return Err(ImportError::NoFileName);
    }
    let mut v: Vec<u8> = Vec::new();
    let mut i: usize = 0;
    while i < name.len() && name[i] != 0x2e
        invariant
            i <= name@.len(),
            v@ == name@.subrange(0, i as int),
            forall|j: int| 0 <= j < i ==> name@[j] != 0x2eu8,
        decreases name@.len() - i,
    {
        v.push(name[i]);
        i = i + 1;
        assert(v@ =~= name@.subrange(0, i as int));
    }
    Ok(v)
}

/// The latest layer of image `name` in the repositories file, or the error
/// that names the image and every image the file has.
pub fn extract_latest_content(repos: &[RepositoryEntry], name: &[u8]) -> (r: Result<Vec<u8>, ImportError<Vec<u8>>>)
    ensures
        match repository_index(repos@, name@, 0) {
            Some(i) => r matches Ok(v) && v@ == repos@[i].latest@,
            None => r matches Err(ImportError::RepositoryFileIncomplete(n, keys)) && n@ == name@
                && ids_view(keys@) == entry_names(repos@),
        },
{
    let mut i: usize = 0;
    while i < repos.len()
        invariant
            i <= repos@.len(),
            repository_index(repos@, name@, 0) == repository_index(repos@, name@, i as int),
        decreases repos@.len() - i,
    {
        if bytes_eq(repos[i].name.as_slice(), name) {
            return Ok(copy_of(repos[i].latest.as_slice()));
        }
        i = i + 1;
    }
    let mut keys: Vec<Vec<u8>> = Vec::new();
    let mut k: usize = 0;
    while k < repos.len()
        invariant
            k <= repos@.len(),
            ids_view(keys@) == entry_names(repos@.subrange(0, k as int)),
        decreases repos@.len() - k,
    {
        let ghost before = ids_view(keys@);
        let key = copy_of(repos[k].name.as_slice());
        keys.push(key);
        assert(ids_view(keys@) =~= before.push(repos@[k as int].name@));
        assert(entry_names(repos@.subrange(0, k + 1)) =~= entry_names(repos@.subrange(0, k as int)).push(repos@[k as int].name@));
        k = k + 1;
    }
    assert(repos@.subrange(0, k as int) =~= repos@);
    Err(ImportError::RepositoryFileIncomplete(copy_of(name), keys))
}

pub open spec fn append_ids(r: Result<Seq<Seq<u8>>, ImportError<Seq<u8>>>, s: Seq<Seq<u8>>) -> Result<Seq<Seq<u8>>, ImportError<Seq<u8>>> {
    match r {
        Ok(c) => Ok(c + s),
        Err(e) => Err(e),
    }
}

pub proof fn lemma_layer_index_found(layers: Seq<LayerRecord>, id: Seq<u8>, k: int)
    ensures
        layer_index(layers, id, k) matches Some(i) ==> k <= i < layers.len() && layers[i].id@ == id,
    decreases layers.len() - k,
{
    if 0 <= k < layers.len() && layers[k].id@ != id {
        lemma_layer_index_found(layers, id, k + 1);
    }
}

/// The index of the first layer record with id `id`.
pub fn find_layer(layers: &[LayerRecord], id: &[u8]) -> (r: Option<usize>)
    ensures
        match r {
            Some(i) => layer_index(layers@, id@, 0) == Some(i as int) && i < layers@.len(),
            None => layer_index(layers@, id@, 0) is None,
        },
{
    proof {
        lemma_layer_index_found(layers@, id@, 0);
    }
    let mut i: usize = 0;
    while i < layers.len()
        invariant
            i <= layers@.len(),
            layer_index(layers@, id@, 0) == layer_index(layers@, id@, i as int),
        decreases layers@.len() - i,
    {
        if bytes_eq(layers[i].id.as_slice(), id) {
            return Some(i);
        }
        i = i + 1;
    }
    None
}

/// The layers of an image whose latest layer is `latest`, base first,
/// following each layer's parent. A chain that comes back to a layer already
/// seen is reported as a cycle.
pub fn build_layer_stack(layers: &[LayerRecord], latest: &[u8]) -> (r: Result<Vec<Vec<u8>>, ImportError<Vec<u8>>>)
    ensures
        match r {
            Ok(v) => layer_stack_spec(layers@, latest@) == Ok::<_, ImportError<Seq<u8>>>(ids_view(v@)),
            Err(ImportError::MissingLayer(id)) => layer_stack_spec(layers@, latest@) == Err::<
                Seq<Seq<u8>>,
                _,
            >(ImportError::MissingLayer(id@)),
            Err(ImportError::LayerCycle) => layer_stack_spec(layers@, latest@) == Err::<
                Seq<Seq<u8>>,
                _,
            >(ImportError::<Seq<u8>>::LayerCycle),
            Err(_) => false,
        },
{
    let mut cur: Vec<u8> = copy_of(latest);
    let mut fuel: usize = layers.len();
    let mut suffix: Vec<Vec<u8>> = Vec::new();
    assert(layer_chain(layers@, cur@, fuel as nat) matches Ok(c) ==> c + ids_view(suffix@) =~= c);
    loop
        invariant
            fuel <= layers@.len(),
            layer_stack_spec(layers@, latest@) == append_ids(
                layer_chain(layers@, cur@, fuel as nat),
                ids_view(suffix@),
            ),
        decreases fuel,
    {
        let ghost s0 = ids_view(suffix@);
        let i = match find_layer(layers, cur.as_slice()) {
            None => return Err(ImportError::MissingLayer(cur)),
            Some(i) => i,
        };
        match &layers[i].parent {
            None => {
                let ghost c = cur@;
                suffix.insert(0, cur);
                assert(ids_view(suffix@) =~= seq![c] + s0);
                return Ok(suffix);
            },
            Some(p) => {
                if fuel == 0 {
                    return Err(ImportError::LayerCycle);
                }
                let ghost c = cur@;
                let next = copy_of(p.as_slice());
                suffix.insert(0, cur);
                assert(ids_view(suffix@) =~= seq![c] + s0);
                assert(forall|x: Seq<Seq<u8>>| x.push(c) + s0 =~= x + ids_view(suffix@));
                cur = next;
                fuel = fuel - 1;
            },
        }
    }
}

/// The subvolume name for the layer `layer`: the image's name when no layer
/// is left to apply after it, the layer's own id otherwise.
pub fn layer_name(container_name: &[u8], layer: &[u8], pending_layers: usize) -> (r: Vec<u8>)
    ensures
        r@ == if pending_layers == 0 {
            container_name@
        } else {
            layer@
        },
{
    if pending_layers == 0 {
        copy_of(container_name)
    } else {
        copy_of(layer)
    }
}

/// What to create for each layer of `stack` (base first) when importing it
/// as image `image`: the base layer is unpacked into a new subvolume; each
/// later layer is applied onto a snapshot of the previous one. The last
/// layer's subvolume takes the image's name, the others their layer ids.
pub fn import_from_layer_stack(image: &[u8], stack: &[Vec<u8>]) -> (r: Result<Vec<ImportStep<Vec<u8>>>, ImportError<Vec<u8>>>)
    ensures
        stack@.len() == 0 <==> r matches Err(ImportError::NoLayers),
        stack@.len() > 0 ==> (r matches Ok(v) && v@.len() == stack@.len() && forall|i: int|
            0 <= i < stack@.len() ==> #[trigger] v@[i]@ == import_step_spec(
                image@,
                ids_view(stack@),
                i,
            )),
{
    let n = stack.len();
    if n == 0 {
        return Err(ImportError::NoLayers);
    }
    let ghost ids = ids_view(stack@);
    let mut steps: Vec<ImportStep<Vec<u8>>> = Vec::new();
    let first = layer_name(image, stack[0].as_slice(), n - 1);
    let mut previous = copy_of(first.as_slice());
    steps.push(ImportStep::CreateSubvolume { name: first, layer: copy_of(stack[0].as_slice()) });
    let mut i: usize = 1;
    while i < n
        invariant
            n == stack@.len(),
            ids == ids_view(stack@),
            1 <= i <= n,
            steps@.len() == i,
            previous@ == layer_name_spec(image@, ids, i - 1),
            forall|j: int| 0 <= j < i ==> #[trigger] steps@[j]@ == import_step_spec(image@, ids, j),
        decreases n - i,
    {
        let name = layer_name(image, stack[i].as_slice(), n - 1 - i);
        let next = copy_of(name.as_slice());
        steps.push(
            ImportStep::Snapshot { name, parent: previous, layer: copy_of(stack[i].as_slice()) },
        );
        previous = next;
        i = i + 1;
    }
    Ok(steps)
}

/// Swallows `AlreadyExists`, so that importing an image twice succeeds;
/// every other outcome passes through.
pub fn recover_from_eexist(result: Result<(), StoreError>) -> (r: Result<(), StoreError>)
    ensures
        result == Err::<(), StoreError>(StoreError::AlreadyExists) ==> r is Ok,
        result != Err::<(), StoreError>(StoreError::AlreadyExists) ==> r == result,
{
    match result {
        Err(StoreError::AlreadyExists) => Ok(()),
        other => other,
    }
}

} // verus!
