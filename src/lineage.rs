//! Subvolume records of the repository and the lineage of an image: the
//! chain of parents from its base subvolume up to the image itself.
use vstd::prelude::*;
use crate::wire::bytes_eq;

verus! {

/// Longest subvolume name that a volume request carries, with its NUL.
pub const VOL_ARGS_NAME_SIZE: usize = 4088;

/// A timestamp of a subvolume record.
#[derive(Clone, Copy, Debug, PartialEq, Eq, Default)]
pub struct BtrfsTimespec {
    pub sec: u64,
    pub nsec: u32,
}

/// What the storage backend reports of one subvolume.
#[derive(Clone, Debug, PartialEq, Eq)]
pub struct BtrfsSubvolInfo {
    pub treeid: u64,
    pub name: Vec<u8>,
    pub parent_id: u64,
    pub dirid: u64,
    pub generation: u64,
    pub flags: u64,
    pub uuid: Vec<u8>,
    /// All zero bytes for a subvolume that has no parent.
    pub parent_uuid: Vec<u8>,
    pub received_uuid: Vec<u8>,
    pub ctransid: u64,
    pub otransid: u64,
    pub stransid: u64,
    pub rtransid: u64,
    pub ctime: BtrfsTimespec,
    pub otime: BtrfsTimespec,
    pub stime: BtrfsTimespec,
    pub rtime: BtrfsTimespec,
}

/// The request that creates, snapshots or deletes a subvolume: a file
/// descriptor and a NUL-padded name.
#[derive(Clone, Debug, PartialEq, Eq)]
pub struct BtrfsVolArgs {
    pub fd: i64,
    pub name: Vec<u8>,
}

impl BtrfsVolArgs {
    /// A request for `name`, cut to `VOL_ARGS_NAME_SIZE` bytes and padded
    /// with zeros up to that size.
    pub fn new(fd: i64, name: &[u8]) -> (r: BtrfsVolArgs)
        ensures
            r.fd == fd,
            r.name@.len() == VOL_ARGS_NAME_SIZE,
            forall|i: int|
                0 <= i < VOL_ARGS_NAME_SIZE ==> #[trigger] r.name@[i] == if i < name@.len() {
                    name@[i]
                } else {
                    0u8
                },
    {
        let mut buf: Vec<u8> = Vec::new();
        let mut i: usize = 0;
        while i < VOL_ARGS_NAME_SIZE
            invariant
                i <= VOL_ARGS_NAME_SIZE,
                buf@.len() == i,
                forall|j: int|
                    0 <= j < i ==> #[trigger] buf@[j] == if j < name@.len() {
                        name@[j]
                    } else {
                        0u8
                    },
            decreases VOL_ARGS_NAME_SIZE - i,
        {
            if i < name.len() {
                buf.push(name[i]);
            } else {
                buf.push(0);
            }
            i = i + 1;
        }
        BtrfsVolArgs { fd, name: buf }
    }
}

/// Why the lineage of an image could not be found.
#[derive(Clone, Copy, Debug, PartialEq, Eq)]
pub enum LineageError {
    /// No subvolume has the image's name.
    NotFound,
    /// Following parents comes back to a subvolume already seen.
    Cycle,
}

pub open spec fn is_zero(u: Seq<u8>) -> bool {
    forall|i: int| 0 <= i < u.len() ==> u[i] == 0u8
}

/// The first index whose record satisfies `f`, searching from `i`.
pub open spec fn first_index(infos: Seq<BtrfsSubvolInfo>, f: spec_fn(BtrfsSubvolInfo) -> bool, i: int) -> Option<int>
    decreases infos.len() - i,
{
    if i < 0 || i >= infos.len() {
        None
    } else if f(infos[i]) {
        Some(i)
    } else {
        first_index(infos, f, i + 1)
    }
}

pub open spec fn index_of_name(infos: Seq<BtrfsSubvolInfo>, name: Seq<u8>) -> Option<int> {
    first_index(infos, |s: BtrfsSubvolInfo| s.name@ == name, 0)
}

pub open spec fn index_of_uuid(infos: Seq<BtrfsSubvolInfo>, uuid: Seq<u8>) -> Option<int> {
    first_index(infos, |s: BtrfsSubvolInfo| s.uuid@ == uuid, 0)
}

/// The chain of indices from the base up to `i`, following at most `fuel`
/// records; running out of fuel means a cycle. A record whose parent UUID is
/// zero, or names no record, is a base.
pub open spec fn chain(infos: Seq<BtrfsSubvolInfo>, i: int, fuel: nat) -> Result<Seq<usize>, LineageError>
    decreases fuel,
{
    if fuel == 0 {
        Err(LineageError::Cycle)
    } else if is_zero(infos[i].parent_uuid@) {
        Ok(seq![i as usize])
    } else {
        match index_of_uuid(infos, infos[i].parent_uuid@) {
            None => Ok(seq![i as usize]),
            Some(j) => match chain(infos, j, (fuel - 1) as nat) {
                Ok(c) => Ok(c.push(i as usize)),
                Err(e) => Err(e),
            },
        }
    }
}

/// The lineage of the subvolume named `name` among `infos`, as indices into
/// `infos`, base first. A chain can hold each record at most once.
pub open spec fn lineage_spec(infos: Seq<BtrfsSubvolInfo>, name: Seq<u8>) -> Result<Seq<usize>, LineageError> {
    match index_of_name(infos, name) {
        None => Err(LineageError::NotFound),
        Some(i) => chain(infos, i, infos.len()),
    }
}


pub open spec fn append_chain(r: Result<Seq<usize>, LineageError>, s: Seq<usize>) -> Result<Seq<usize>, LineageError> {
    match r {
        Ok(c) => Ok(c + s),
        Err(e) => Err(e),
    }
}

/// Whether every byte of `u` is zero.
pub fn is_zero_uuid(u: &[u8]) -> (r: bool)
    ensures
        r == is_zero(u@),
{
    let mut i: usize = 0;
    while i < u.len()
        invariant
            i <= u@.len(),
            forall|j: int| 0 <= j < i ==> u@[j] == 0u8,
        decreases u@.len() - i,
    {
        if u[i] != 0 {
            return false;
        }
        i = i + 1;
    }
    true
}

pub proof fn lemma_first_index_found(infos: Seq<BtrfsSubvolInfo>, f: spec_fn(BtrfsSubvolInfo) -> bool, k: int)
    ensures
        first_index(infos, f, k) matches Some(i) ==> k <= i < infos.len() && f(infos[i]),
    decreases infos.len() - k,
{
    if 0 <= k < infos.len() && !f(infos[k]) {
        lemma_first_index_found(infos, f, k + 1);
    }
}

/// The index of the first record named `name`.
pub fn find_by_name(infos: &[BtrfsSubvolInfo], name: &[u8]) -> (r: Option<usize>)
    ensures
        match r {
            Some(i) => index_of_name(infos@, name@) == Some(i as int) && i < infos@.len(),
            None => index_of_name(infos@, name@) is None,
        },
{
    proof {
        lemma_first_index_found(infos@, |s: BtrfsSubvolInfo| s.name@ == name@, 0);
    }
    let ghost f = |s: BtrfsSubvolInfo| s.name@ == name@;
    let mut i: usize = 0;
    while i < infos.len()
        invariant
            i <= infos@.len(),
            f == (|s: BtrfsSubvolInfo| s.name@ == name@),
            first_index(infos@, f, 0) == first_index(infos@, f, i as int),
        decreases infos@.len() - i,
    {
        if bytes_eq(infos[i].name.as_slice(), name) {
            return Some(i);
        }
        i = i + 1;
    }
    None
}

/// The index of the first record whose UUID is `uuid`.
pub fn find_by_uuid(infos: &[BtrfsSubvolInfo], uuid: &[u8]) -> (r: Option<usize>)
    ensures
        match r {
            Some(i) => index_of_uuid(infos@, uuid@) == Some(i as int) && i < infos@.len(),
            None => index_of_uuid(infos@, uuid@) is None,
        },
{
    proof {
        lemma_first_index_found(infos@, |s: BtrfsSubvolInfo| s.uuid@ == uuid@, 0);
    }
    let ghost f = |s: BtrfsSubvolInfo| s.uuid@ == uuid@;
    let mut i: usize = 0;
    while i < infos.len()
        invariant
            i <= infos@.len(),
            f == (|s: BtrfsSubvolInfo| s.uuid@ == uuid@),
            first_index(infos@, f, 0) == first_index(infos@, f, i as int),
        decreases infos@.len() - i,
    {
        if bytes_eq(infos[i].uuid.as_slice(), uuid) {
            return Some(i);
        }
        i = i + 1;
    }
    None
}

/// The lineage of the subvolume named `name`: indices into `infos` from its
/// base subvolume up to itself. Each parent is looked up by UUID, and the
/// walk ends where no parent is found; a chain that comes back to a record
/// already seen is reported as a cycle.
pub fn get_btrfs_subvolume_stack(infos: &[BtrfsSubvolInfo], name: &[u8]) -> (r: Result<Vec<usize>, LineageError>)
    ensures
        match r {
            Ok(v) => lineage_spec(infos@, name@) == Ok::<_, LineageError>(v@),
            Err(e) => lineage_spec(infos@, name@) == Err::<Seq<usize>, _>(e),
        },
{
    let mut cur = match find_by_name(infos, name) {
        None => return Err(LineageError::NotFound),
        Some(i) => i,
    };
    let mut fuel: usize = infos.len();
    let mut suffix: Vec<usize> = Vec::new();
    assert(chain(infos@, cur as int, fuel as nat) matches Ok(c) ==> c + suffix@ =~= c);
    loop
        invariant
            cur < infos@.len(),
            fuel <= infos@.len(),
            lineage_spec(infos@, name@) == append_chain(chain(infos@, cur as int, fuel as nat), suffix@),
        decreases fuel,
    {
        if fuel == 0 {
            return Err(LineageError::Cycle);
        }
        let ghost s0 = suffix@;
        if is_zero_uuid(infos[cur].parent_uuid.as_slice()) {
            suffix.insert(0, cur);
            assert(seq![cur] + s0 =~= suffix@);
            return Ok(suffix);
        }
        match find_by_uuid(infos, infos[cur].parent_uuid.as_slice()) {
            None => {
                suffix.insert(0, cur);
                assert(seq![cur] + s0 =~= suffix@);
                return Ok(suffix);
            },
            Some(j) => {
                suffix.insert(0, cur);
                assert(forall|c: Seq<usize>| c.push(cur) + s0 =~= c + suffix@);
                cur = j;
                fuel = fuel - 1;
            },
        }
    }
}

/// A base subvolume (one whose parent UUID is zero or names no record) has
/// a lineage of one record: itself.
pub proof fn lemma_base_lineage(infos: Seq<BtrfsSubvolInfo>, name: Seq<u8>, i: int)
    requires
        index_of_name(infos, name) == Some(i),
        0 <= i < infos.len() <= usize::MAX,
        is_zero(infos[i].parent_uuid@) || index_of_uuid(infos, infos[i].parent_uuid@) is None,
    ensures
        lineage_spec(infos, name) == Ok::<_, LineageError>(seq![i as usize]),
{
}

pub proof fn lemma_first_index_unique(infos: Seq<BtrfsSubvolInfo>, f: spec_fn(BtrfsSubvolInfo) -> bool, k: int, i: int)
    requires
        0 <= k <= i < infos.len(),
        f(infos[i]),
        forall|j: int| 0 <= j < infos.len() && j != i ==> !f(#[trigger] infos[j]),
    ensures
        first_index(infos, f, k) == Some(i),
    decreases i - k,
{
    if k < i {
        lemma_first_index_unique(infos, f, k + 1, i);
    }
}

/// In a store whose UUIDs and names are distinct, an image `c` whose parent
/// is `b`, whose parent is the base `a`, has the lineage `a, b, c`.
pub proof fn lemma_three_layer_lineage(infos: Seq<BtrfsSubvolInfo>, a: int, b: int, c: int)
    requires
        3 <= infos.len() <= usize::MAX,
        0 <= a < infos.len(),
        0 <= b < infos.len(),
        0 <= c < infos.len(),
        forall|i: int, j: int|
            0 <= i < infos.len() && 0 <= j < infos.len() && i != j ==> #[trigger] infos[i].uuid@
                != #[trigger] infos[j].uuid@ && infos[i].name@ != infos[j].name@,
        is_zero(infos[a].parent_uuid@),
        !is_zero(infos[b].parent_uuid@),
        !is_zero(infos[c].parent_uuid@),
        infos[b].parent_uuid@ == infos[a].uuid@,
        infos[c].parent_uuid@ == infos[b].uuid@,
    ensures
        lineage_spec(infos, infos[c].name@) == Ok::<_, LineageError>(
            seq![a as usize, b as usize, c as usize],
        ),
{
    let n = infos.len();
    let fname = |s: BtrfsSubvolInfo| s.name@ == infos[c].name@;
    let fa = |s: BtrfsSubvolInfo| s.uuid@ == infos[a].uuid@;
    let fb = |s: BtrfsSubvolInfo| s.uuid@ == infos[b].uuid@;
    assert(b != a);
    assert(c != b);
    assert(c != a);
    assert forall|j: int| 0 <= j < n && j != c implies !fname(#[trigger] infos[j]) by {
        assert(infos[j].uuid@ != infos[c].uuid@);
    }
    assert forall|j: int| 0 <= j < n && j != a implies !fa(#[trigger] infos[j]) by {
        assert(infos[j].uuid@ != infos[a].uuid@);
    }
    assert forall|j: int| 0 <= j < n && j != b implies !fb(#[trigger] infos[j]) by {
        assert(infos[j].uuid@ != infos[b].uuid@);
    }
    lemma_first_index_unique(infos, fname, 0, c);
    lemma_first_index_unique(infos, fa, 0, a);
    lemma_first_index_unique(infos, fb, 0, b);
    assert(index_of_name(infos, infos[c].name@) == Some(c));
    assert(index_of_uuid(infos, infos[b].uuid@) == Some(b));
    assert(index_of_uuid(infos, infos[a].uuid@) == Some(a));
    assert(chain(infos, a, (n - 2) as nat) == Ok::<_, LineageError>(seq![a as usize]));
    assert(chain(infos, b, (n - 1) as nat) == Ok::<_, LineageError>(seq![a as usize].push(b as usize)));
    assert(seq![a as usize].push(b as usize).push(c as usize) =~= seq![a as usize, b as usize, c as usize]);
}


/// A run of `n` zero bytes.
fn zeros(n: usize) -> (r: Vec<u8>)
    ensures
        r@.len() == n,
        is_zero(r@),
{
    let mut v: Vec<u8> = Vec::new();
    let mut i: usize = 0;
    while i < n
        invariant
            i <= n,
            v@.len() == i,
            is_zero(v@),
        decreases n - i,
    {
        v.push(0);
        i = i + 1;
    }
    v
}

impl Default for BtrfsSubvolInfo {
    /// A record of zeros: empty name, zero UUIDs, no parent.
    fn default() -> (r: BtrfsSubvolInfo)
        ensures
            r.treeid == 0 && r.parent_id == 0 && r.dirid == 0 && r.generation == 0 && r.flags == 0,
            r.ctransid == 0 && r.otransid == 0 && r.stransid == 0 && r.rtransid == 0,
            r.name@.len() == 0,
            r.uuid@.len() == 16 && is_zero(r.uuid@),
            r.parent_uuid@.len() == 16 && is_zero(r.parent_uuid@),
            r.received_uuid@.len() == 16 && is_zero(r.received_uuid@),
            r.ctime == (BtrfsTimespec { sec: 0, nsec: 0 }),
            r.otime == (BtrfsTimespec { sec: 0, nsec: 0 }),
            r.stime == (BtrfsTimespec { sec: 0, nsec: 0 }),
            r.rtime == (BtrfsTimespec { sec: 0, nsec: 0 }),
    {
        let zero = BtrfsTimespec { sec: 0, nsec: 0 };
        BtrfsSubvolInfo {
            treeid: 0,
            name: Vec::new(),
            parent_id: 0,
            dirid: 0,
            generation: 0,
            flags: 0,
            uuid: zeros(16),
            parent_uuid: zeros(16),
            received_uuid: zeros(16),
            ctransid: 0,
            otransid: 0,
            stransid: 0,
            rtransid: 0,
            ctime: zero,
            otime: zero,
            stime: zero,
            rtime: zero,
        }
    }
}

} // verus!
