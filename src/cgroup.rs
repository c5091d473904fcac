//! The cgroup side of running a container: where the cgroup tree is
//! mounted, which directories a container's cgroup uses, and what to write
//! into its interface files.
use vstd::prelude::*;
use crate::args::CgroupOption;
use crate::layers::is_prefix;
use crate::wire::{bytes_eq, copy_of, push_bytes};

verus! {

/// `s` cut at every `sep`, with `cur` in front of the first piece.
pub open spec fn split_acc(s: Seq<u8>, sep: u8, cur: Seq<u8>) -> Seq<Seq<u8>>
    decreases s.len(),
{
    if s.len() == 0 {
        seq![cur]
    } else if s[0] == sep {
        seq![cur] + split_acc(s.subrange(1, s.len() as int), sep, Seq::empty())
    } else {
        split_acc(s.subrange(1, s.len() as int), sep, cur.push(s[0]))
    }
}

/// The pieces of `s` between occurrences of `sep`, as `str::split` gives
/// them.
pub open spec fn split_spec(s: Seq<u8>, sep: u8) -> Seq<Seq<u8>> {
    split_acc(s, sep, Seq::empty())
}

/// Splits `s` at every `sep`.
pub fn split_bytes(s: &[u8], sep: u8) -> (r: Vec<Vec<u8>>)
    ensures
        r@.map_values(|v: Vec<u8>| v@) == split_spec(s@, sep),
{
    let mut done: Vec<Vec<u8>> = Vec::new();
    let mut cur: Vec<u8> = Vec::new();
    let mut j: usize = 0;
    assert(s@.subrange(0, s@.len() as int) =~= s@);
    while j < s.len()
        invariant
            j <= s@.len(),
            split_spec(s@, sep) == done@.map_values(|v: Vec<u8>| v@) + split_acc(
                s@.subrange(j as int, s@.len() as int),
                sep,
                cur@,
            ),
        decreases s@.len() - j,
    {
        let ghost rest = s@.subrange(j as int, s@.len() as int);
        assert(rest.subrange(1, rest.len() as int) =~= s@.subrange(j + 1, s@.len() as int));
        if s[j] == sep {
            let ghost before = done@.map_values(|v: Vec<u8>| v@);
            let ghost c = cur@;
            done.push(cur);
            cur = Vec::new();
            assert(done@.map_values(|v: Vec<u8>| v@) =~= before.push(c));
            assert(before + (seq![c] + split_acc(s@.subrange(j + 1, s@.len() as int), sep, Seq::empty()))
                =~= before.push(c) + split_acc(s@.subrange(j + 1, s@.len() as int), sep, cur@));
        } else {
            cur.push(s[j]);
        }
        j = j + 1;
    }
    let ghost before = done@.map_values(|v: Vec<u8>| v@);
    let ghost c = cur@;
    done.push(cur);
    assert(done@.map_values(|v: Vec<u8>| v@) =~= before.push(c));
    assert(before + seq![c] =~= before.push(c));
    done
}

/// `cgroup2`
pub open spec fn word_cgroup2() -> Seq<u8> {
    seq![0x63u8, 0x67, 0x72, 0x6f, 0x75, 0x70, 0x32]
}

/// The index of the first line, from `k` on, that starts with `cgroup2`.
pub open spec fn cgroup_line(lines: Seq<Seq<u8>>, k: int) -> Option<int>
    decreases lines.len() - k,
{
    if k < 0 || k >= lines.len() {
        None
    } else if is_prefix(word_cgroup2(), lines[k]) {
        Some(k)
    } else {
        cgroup_line(lines, k + 1)
    }
}

/// The mount point of the cgroup2 tree in the mount table `mounts`: the
/// second space-separated field of its first line that starts with
/// `cgroup2`.
pub open spec fn cgroups_path_spec(mounts: Seq<u8>) -> Option<Seq<u8>> {
    let lines = split_spec(mounts, 0x0au8);
    match cgroup_line(lines, 0) {
        None => None,
        Some(k) => {
            let fields = split_spec(lines[k], 0x20u8);
            if fields.len() >= 2 {
                Some(fields[1])
            } else {
                None
            }
        },
    }
}

/// Finds where the cgroup2 tree is mounted, from the mount table `mounts`.
pub fn find_cgroups_path(mounts: &[u8]) -> (r: Option<Vec<u8>>)
    ensures
        match r {
            Some(p) => cgroups_path_spec(mounts@) == Some(p@),
            None => cgroups_path_spec(mounts@) is None,
        },
{
    let lines = split_bytes(mounts, 0x0a);
    let ghost lv = lines@.map_values(|v: Vec<u8>| v@);
    let word: Vec<u8> = vec![0x63, 0x67, 0x72, 0x6f, 0x75, 0x70, 0x32];
    assert(word@ =~= word_cgroup2());
    let mut k: usize = 0;
    while k < lines.len()
        invariant
            k <= lines@.len(),
            lv == lines@.map_values(|v: Vec<u8>| v@),
            lv == split_spec(mounts@, 0x0au8),
            word@ == word_cgroup2(),
            cgroup_line(lv, 0) == cgroup_line(lv, k as int),
        decreases lines@.len() - k,
    {
        assert(lines@[k as int]@ == lv[k as int]);
        if crate::args::has_prefix(lines[k].as_slice(), word.as_slice()) {
            let fields = split_bytes(lines[k].as_slice(), 0x20);
            if fields.len() >= 2 {
                assert(fields@[1]@ == fields@.map_values(|v: Vec<u8>| v@)[1]);
                return Some(copy_of(fields[1].as_slice()));
            }
            return None;
        }
        k = k + 1;
    }
    None
}

/// The decimal digits of `n`, without leading zeros.
pub open spec fn decimal_spec(n: nat) -> Seq<u8>
    decreases n,
{
    if n < 10 {
        seq![(0x30 + n) as u8]
    } else {
        decimal_spec(n / 10) + seq![(0x30 + n % 10) as u8]
    }
}

/// The decimal form of `n`, with a `-` when it is negative.
pub open spec fn signed_decimal_spec(n: int) -> Seq<u8> {
    if n < 0 {
        seq![0x2du8] + decimal_spec((0 - n) as nat)
    } else {
        decimal_spec(n as nat)
    }
}

/// Appends the decimal digits of `n`.
pub fn push_decimal(out: &mut Vec<u8>, n: u64)
    ensures
        final(out)@ == old(out)@ + decimal_spec(n as nat),
    decreases n,
{
    if n < 10 {
        out.push(0x30 + n as u8);
        assert(final(out)@ =~= old(out)@ + decimal_spec(n as nat));
    } else {
        push_decimal(out, n / 10);
        out.push(0x30 + (n % 10) as u8);
        assert(final(out)@ =~= old(out)@ + decimal_spec(n as nat));
    }
}

/// Appends the decimal form of `n`, with a `-` when it is negative.
pub fn push_signed_decimal(out: &mut Vec<u8>, n: i64)
    ensures
        final(out)@ == old(out)@ + signed_decimal_spec(n as int),
{
    if n < 0 {
        out.push(0x2d);
        let ghost mid = out@;
        let magnitude: u64 = if n == i64::MIN {
            9223372036854775808
        } else {
            (-n) as u64
        };
        push_decimal(out, magnitude);
        assert(final(out)@ =~= old(out)@ + signed_decimal_spec(n as int));
    } else {
        push_decimal(out, n as u64);
    }
}

/// The interface file that option `o` sets, and what is written to it.
pub open spec fn setting_spec(o: CgroupOption<Seq<u8>>) -> (Seq<u8>, Seq<u8>) {
    match o {
        CgroupOption::CpuMax(a, b) => (seq![0x63, 0x70, 0x75, 0x2e, 0x6d, 0x61, 0x78], a + seq![0x20u8] + decimal_spec(b as nat)),
        CgroupOption::CpuWeight(a) => (seq![0x63, 0x70, 0x75, 0x2e, 0x77, 0x65, 0x69, 0x67, 0x68, 0x74], decimal_spec(a as nat)),
        CgroupOption::CpuWeightNice(a) => (seq![0x63, 0x70, 0x75, 0x2e, 0x77, 0x65, 0x69, 0x67, 0x68, 0x74, 0x2e, 0x6e, 0x69, 0x63, 0x65], signed_decimal_spec(a as int)),
        CgroupOption::CpusetCpus(a) => (seq![0x63, 0x70, 0x75, 0x73, 0x65, 0x74, 0x2e, 0x63, 0x70, 0x75, 0x73], a),
        CgroupOption::CpusetCpusPartition(a) => (seq![0x63, 0x70, 0x75, 0x73, 0x65, 0x74, 0x2e, 0x63, 0x70, 0x75, 0x73, 0x2e, 0x70, 0x61, 0x72, 0x74, 0x69, 0x74, 0x69, 0x6f, 0x6e], a),
        CgroupOption::CpusetMems(a) => (seq![0x63, 0x70, 0x75, 0x73, 0x65, 0x74, 0x2e, 0x6d, 0x65, 0x6d, 0x73], a),
        CgroupOption::IoMax(a) => (seq![0x69, 0x6f, 0x2e, 0x6d, 0x61, 0x78], a),
        CgroupOption::IoWeight(a, b) => (seq![0x69, 0x6f, 0x2e, 0x77, 0x65, 0x69, 0x67, 0x68, 0x74], a + seq![0x20u8] + decimal_spec(b as nat)),
        CgroupOption::MemoryHigh(a) => (seq![0x6d, 0x65, 0x6d, 0x6f, 0x72, 0x79, 0x2e, 0x68, 0x69, 0x67, 0x68], a),
        CgroupOption::MemoryLow(a) => (seq![0x6d, 0x65, 0x6d, 0x6f, 0x72, 0x79, 0x2e, 0x6c, 0x6f, 0x77], decimal_spec(a as nat)),
        CgroupOption::MemoryMax(a) => (seq![0x6d, 0x65, 0x6d, 0x6f, 0x72, 0x79, 0x2e, 0x6d, 0x61, 0x78], a),
        CgroupOption::MemoryMin(a) => (seq![0x6d, 0x65, 0x6d, 0x6f, 0x72, 0x79, 0x2e, 0x6d, 0x69, 0x6e], decimal_spec(a as nat)),
        CgroupOption::MemoryOomGroup(a) => (seq![0x6d, 0x65, 0x6d, 0x6f, 0x72, 0x79, 0x2e, 0x6f, 0x6f, 0x6d, 0x2e, 0x67, 0x72, 0x6f, 0x75, 0x70], decimal_spec(a as nat)),
        CgroupOption::MemorySwapMax(a) => (seq![0x6d, 0x65, 0x6d, 0x6f, 0x72, 0x79, 0x2e, 0x73, 0x77, 0x61, 0x70, 0x2e, 0x6d, 0x61, 0x78], a),
        CgroupOption::PidsMax(a) => (seq![0x70, 0x69, 0x64, 0x73, 0x2e, 0x6d, 0x61, 0x78], decimal_spec(a as nat)),
        CgroupOption::RdmaMax(a) => (seq![0x72, 0x64, 0x6d, 0x61, 0x2e, 0x6d, 0x61, 0x78], a),
    }
}

/// The interface file that `o` sets, and what is written to it.
pub fn cgroup_setting(o: &CgroupOption<Vec<u8>>) -> (r: (Vec<u8>, Vec<u8>))
    ensures
        (r.0@, r.1@) == setting_spec(o@),
{
    let r = match o {
        CgroupOption::CpuMax(a, b) => (vec![0x63, 0x70, 0x75, 0x2e, 0x6d, 0x61, 0x78], { let mut v = copy_of(a.as_slice()); v.push(0x20); push_decimal(&mut v, *b as u64); v }),
        CgroupOption::CpuWeight(a) => (vec![0x63, 0x70, 0x75, 0x2e, 0x77, 0x65, 0x69, 0x67, 0x68, 0x74], { let mut v: Vec<u8> = Vec::new(); push_decimal(&mut v, *a as u64); v }),
        CgroupOption::CpuWeightNice(a) => (vec![0x63, 0x70, 0x75, 0x2e, 0x77, 0x65, 0x69, 0x67, 0x68, 0x74, 0x2e, 0x6e, 0x69, 0x63, 0x65], { let mut v: Vec<u8> = Vec::new(); push_signed_decimal(&mut v, *a); v }),
        CgroupOption::CpusetCpus(a) => (vec![0x63, 0x70, 0x75, 0x73, 0x65, 0x74, 0x2e, 0x63, 0x70, 0x75, 0x73], copy_of(a.as_slice())),
        CgroupOption::CpusetCpusPartition(a) => (vec![0x63, 0x70, 0x75, 0x73, 0x65, 0x74, 0x2e, 0x63, 0x70, 0x75, 0x73, 0x2e, 0x70, 0x61, 0x72, 0x74, 0x69, 0x74, 0x69, 0x6f, 0x6e], copy_of(a.as_slice())),
        CgroupOption::CpusetMems(a) => (vec![0x63, 0x70, 0x75, 0x73, 0x65, 0x74, 0x2e, 0x6d, 0x65, 0x6d, 0x73], copy_of(a.as_slice())),
        CgroupOption::IoMax(a) => (vec![0x69, 0x6f, 0x2e, 0x6d, 0x61, 0x78], copy_of(a.as_slice())),
        CgroupOption::IoWeight(a, b) => (vec![0x69, 0x6f, 0x2e, 0x77, 0x65, 0x69, 0x67, 0x68, 0x74], { let mut v = copy_of(a.as_slice()); v.push(0x20); push_decimal(&mut v, *b as u64); v }),
        CgroupOption::MemoryHigh(a) => (vec![0x6d, 0x65, 0x6d, 0x6f, 0x72, 0x79, 0x2e, 0x68, 0x69, 0x67, 0x68], copy_of(a.as_slice())),
        CgroupOption::MemoryLow(a) => (vec![0x6d, 0x65, 0x6d, 0x6f, 0x72, 0x79, 0x2e, 0x6c, 0x6f, 0x77], { let mut v: Vec<u8> = Vec::new(); push_decimal(&mut v, *a as u64); v }),
        CgroupOption::MemoryMax(a) => (vec![0x6d, 0x65, 0x6d, 0x6f, 0x72, 0x79, 0x2e, 0x6d, 0x61, 0x78], copy_of(a.as_slice())),
        CgroupOption::MemoryMin(a) => (vec![0x6d, 0x65, 0x6d, 0x6f, 0x72, 0x79, 0x2e, 0x6d, 0x69, 0x6e], { let mut v: Vec<u8> = Vec::new(); push_decimal(&mut v, *a as u64); v }),
        CgroupOption::MemoryOomGroup(a) => (vec![0x6d, 0x65, 0x6d, 0x6f, 0x72, 0x79, 0x2e, 0x6f, 0x6f, 0x6d, 0x2e, 0x67, 0x72, 0x6f, 0x75, 0x70], { let mut v: Vec<u8> = Vec::new(); push_decimal(&mut v, *a as u64); v }),
        CgroupOption::MemorySwapMax(a) => (vec![0x6d, 0x65, 0x6d, 0x6f, 0x72, 0x79, 0x2e, 0x73, 0x77, 0x61, 0x70, 0x2e, 0x6d, 0x61, 0x78], copy_of(a.as_slice())),
        CgroupOption::PidsMax(a) => (vec![0x70, 0x69, 0x64, 0x73, 0x2e, 0x6d, 0x61, 0x78], { let mut v: Vec<u8> = Vec::new(); push_decimal(&mut v, *a as u64); v }),
        CgroupOption::RdmaMax(a) => (vec![0x72, 0x64, 0x6d, 0x61, 0x2e, 0x6d, 0x61, 0x78], copy_of(a.as_slice())),
    };
    assert(r.0@ =~= setting_spec(o@).0);
    r
}


/// How to set up the cgroup of one container.
#[derive(Clone, Debug, PartialEq, Eq)]
pub struct CgroupFactory {
    pub name: Vec<u8>,
    pub options: Vec<CgroupOption<Vec<u8>>>,
}

/// What setting up a container's cgroup takes, relative to the engine's
/// cgroup directory: the container's directory, the directory of its
/// processes inside it, and the interface files to write, in order.
#[derive(Clone, Debug, PartialEq, Eq)]
pub struct CgroupPlan {
    pub parent: Vec<u8>,
    pub path: Vec<u8>,
    pub settings: Vec<(Vec<u8>, Vec<u8>)>,
}

/// `-core`
pub open spec fn core_suffix() -> Seq<u8> {
    seq![0x2d, 0x63, 0x6f, 0x72, 0x65]
}

/// `-processes`
pub open spec fn processes_suffix() -> Seq<u8> {
    seq![0x2d, 0x70, 0x72, 0x6f, 0x63, 0x65, 0x73, 0x73, 0x65, 0x73]
}

impl CgroupFactory {
    pub fn new(name: Vec<u8>, options: Vec<CgroupOption<Vec<u8>>>) -> (r: CgroupFactory)
        ensures
            r.name@ == name@,
            r.options@ == options@,
    {
        CgroupFactory { name, options }
    }

    /// The directories `<name>-core` and `<name>-core/<name>-processes`,
    /// and one interface file per option, in the order of the options.
    pub fn build(&self) -> (r: CgroupPlan)
        ensures
            r.parent@ == self.name@ + core_suffix(),
            r.path@ == self.name@ + core_suffix() + seq![0x2fu8] + self.name@ + processes_suffix(),
            r.settings@.len() == self.options@.len(),
            forall|i: int|
                0 <= i < self.options@.len() ==> (#[trigger] r.settings@[i].0@, r.settings@[i].1@)
                    == setting_spec(self.options@[i]@),
    {
        let core: Vec<u8> = vec![0x2d, 0x63, 0x6f, 0x72, 0x65];
        let processes: Vec<u8> = vec![0x2d, 0x70, 0x72, 0x6f, 0x63, 0x65, 0x73, 0x73, 0x65, 0x73];
        assert(core@ =~= core_suffix());
        assert(processes@ =~= processes_suffix());
        let mut parent = copy_of(self.name.as_slice());
        push_bytes(&mut parent, core.as_slice());
        let mut path = copy_of(parent.as_slice());
        path.push(0x2f);
        push_bytes(&mut path, self.name.as_slice());
        push_bytes(&mut path, processes.as_slice());
        assert(path@ =~= self.name@ + core_suffix() + seq![0x2fu8] + self.name@ + processes_suffix());
        let mut settings: Vec<(Vec<u8>, Vec<u8>)> = Vec::new();
        let mut i: usize = 0;
        while i < self.options.len()
            invariant
                i <= self.options@.len(),
                settings@.len() == i,
                forall|j: int|
                    0 <= j < i ==> (#[trigger] settings@[j].0@, settings@[j].1@) == setting_spec(
                        self.options@[j]@,
                    ),
            decreases self.options@.len() - i,
        {
            settings.push(cgroup_setting(&self.options[i]));
            i = i + 1;
        }
        CgroupPlan { parent, path, settings }
    }
}

/// The engine's cgroup directory for user `uid` below the cgroup2 mount
/// point `root`: `user.slice/user-<uid>.slice/user@<uid>.service/ruthless`.
pub open spec fn ruthless_cgroup_spec(root: Seq<u8>, uid: u32) -> Seq<u8> {
    let sep = if root.len() > 0 && root.last() == 0x2fu8 {
        Seq::<u8>::empty()
    } else {
        seq![0x2fu8]
    };
    root + sep + seq![0x75, 0x73, 0x65, 0x72, 0x2e, 0x73, 0x6c, 0x69, 0x63, 0x65, 0x2f, 0x75, 0x73, 0x65, 0x72, 0x2d] + decimal_spec(uid as nat) + seq![0x2e, 0x73, 0x6c, 0x69, 0x63, 0x65, 0x2f, 0x75, 0x73, 0x65, 0x72, 0x40]
        + decimal_spec(uid as nat) + seq![0x2e, 0x73, 0x65, 0x72, 0x76, 0x69, 0x63, 0x65, 0x2f, 0x72, 0x75, 0x74, 0x68, 0x6c, 0x65, 0x73, 0x73]
}

/// The engine's cgroup directory for user `uid` below the cgroup2 mount
/// point `root`.
pub fn get_ruthless_cgroup_path(root: &[u8], uid: u32) -> (r: Vec<u8>)
    ensures
        r@ == ruthless_cgroup_spec(root@, uid),
{
    let mut out = copy_of(root);
    if !(root.len() > 0 && root[root.len() - 1] == 0x2f) {
        out.push(0x2f);
    }
    let a: Vec<u8> = vec![0x75, 0x73, 0x65, 0x72, 0x2e, 0x73, 0x6c, 0x69, 0x63, 0x65, 0x2f, 0x75, 0x73, 0x65, 0x72, 0x2d];
    let b: Vec<u8> = vec![0x2e, 0x73, 0x6c, 0x69, 0x63, 0x65, 0x2f, 0x75, 0x73, 0x65, 0x72, 0x40];
    let c: Vec<u8> = vec![0x2e, 0x73, 0x65, 0x72, 0x76, 0x69, 0x63, 0x65, 0x2f, 0x72, 0x75, 0x74, 0x68, 0x6c, 0x65, 0x73, 0x73];
    push_bytes(&mut out, a.as_slice());
    push_decimal(&mut out, uid as u64);
    push_bytes(&mut out, b.as_slice());
    push_decimal(&mut out, uid as u64);
    push_bytes(&mut out, c.as_slice());
    assert(out@ =~= ruthless_cgroup_spec(root@, uid));
    out
}

/// The container that the cgroup directory `dir` belongs to: its name
/// without the `-core` suffix.
pub fn container_of_cgroup(dir: &[u8]) -> (r: Vec<u8>)
    ensures
        dir@.len() >= 5 && dir@.subrange(dir@.len() - 5, dir@.len() as int) == core_suffix()
            ==> r@ == dir@.subrange(0, dir@.len() - 5),
        !(dir@.len() >= 5 && dir@.subrange(dir@.len() - 5, dir@.len() as int) == core_suffix())
            ==> r@ == dir@,
{
    let core: Vec<u8> = vec![0x2d, 0x63, 0x6f, 0x72, 0x65];
    assert(core@ =~= core_suffix());
    if dir.len() >= 5 {
        let mut tail: Vec<u8> = Vec::new();
        let mut i: usize = dir.len() - 5;
        while i < dir.len()
            invariant
                dir@.len() >= 5,
                dir@.len() - 5 <= i <= dir@.len(),
                tail@ == dir@.subrange(dir@.len() - 5, i as int),
            decreases dir@.len() - i,
        {
            tail.push(dir[i]);
            i = i + 1;
            assert(tail@ =~= dir@.subrange(dir@.len() - 5, i as int));
        }
        if bytes_eq(tail.as_slice(), core.as_slice()) {
            let mut name: Vec<u8> = Vec::new();
            let mut j: usize = 0;
            while j < dir.len() - 5
                invariant
                    j <= dir@.len() - 5,
                    dir@.len() >= 5,
                    name@ == dir@.subrange(0, j as int),
                decreases dir@.len() - 5 - j,
            {
                name.push(dir[j]);
                j = j + 1;
                assert(name@ =~= dir@.subrange(0, j as int));
            }
            return name;
        }
    }
    copy_of(dir)
}

/// Whether `pat` occurs in `s` at some position.
pub open spec fn contains_spec(s: Seq<u8>, pat: Seq<u8>) -> bool {
    exists|i: int| 0 <= i && i + pat.len() <= s.len() && #[trigger] s.subrange(i, i + pat.len()) == pat
}

/// The line fragment ` <lib_path> btrfs ` that shows `lib_path` mounted as
/// a copy-on-write filesystem.
pub open spec fn btrfs_mount_entry(lib_path: Seq<u8>) -> Seq<u8> {
    seq![0x20u8] + lib_path + seq![0x20, 0x62, 0x74, 0x72, 0x66, 0x73, 0x20]
}

/// Whether the mount table `mounts` shows `lib_path` mounted as btrfs.
pub fn lib_path_is_mounted(mounts: &[u8], lib_path: &[u8]) -> (r: bool)
    ensures
        r == contains_spec(mounts@, btrfs_mount_entry(lib_path@)),
{
    let mut pat: Vec<u8> = vec![0x20];
    push_bytes(&mut pat, lib_path);
    let fs: Vec<u8> = vec![0x20, 0x62, 0x74, 0x72, 0x66, 0x73, 0x20];
    push_bytes(&mut pat, fs.as_slice());
    assert(pat@ =~= btrfs_mount_entry(lib_path@));
    if mounts.len() < pat.len() {
        assert(!contains_spec(mounts@, pat@));
        return false;
    }
    let mut i: usize = 0;
    while i <= mounts.len() - pat.len()
        invariant
            pat@.len() <= mounts@.len(),
            i <= mounts@.len() - pat@.len() + 1,
            pat@ == btrfs_mount_entry(lib_path@),
            forall|k: int| 0 <= k < i ==> #[trigger] mounts@.subrange(k, k + pat@.len()) != pat@,
        decreases mounts@.len() - pat@.len() + 1 - i,
    {
        if crate::layers::has_prefix_at(mounts, i, pat.as_slice()) {
            assert(mounts@.subrange(i as int, mounts@.len() as int).subrange(0, pat@.len() as int)
                =~= mounts@.subrange(i as int, i + pat@.len()));
            return true;
        }
        assert(mounts@.subrange(i as int, mounts@.len() as int).subrange(0, pat@.len() as int)
            =~= mounts@.subrange(i as int, i + pat@.len()));
        i = i + 1;
    }
    false
}


/// The lines of `content`, without the empty piece after a final newline.
pub open spec fn pid_lines(content: Seq<u8>) -> Seq<Seq<u8>> {
    let ls = split_spec(content, 0x0au8);
    if ls.len() > 0 && ls.last().len() == 0 {
        ls.drop_last()
    } else {
        ls
    }
}

/// The process ids of the first `n` lines, or `None` when one of them is
/// not a decimal `i32`.
pub open spec fn pids_spec(lines: Seq<Seq<u8>>, n: int) -> Option<Seq<i32>>
    decreases n,
{
    if n <= 0 {
        Some(Seq::empty())
    } else {
        match pids_spec(lines, n - 1) {
            None => None,
            Some(ps) => match crate::args::parse_i64_spec(lines[n - 1]) {
                Some(v) => if i32::MIN <= v <= i32::MAX {
                    Some(ps.push(v as i32))
                } else {
                    None
                },
                None => None,
            },
        }
    }
}

/// The process ids listed in a `cgroup.procs` file, one per line.
pub fn parse_pids(content: &[u8]) -> (r: Option<Vec<i32>>)
    ensures
        match r {
            Some(v) => pids_spec(pid_lines(content@), pid_lines(content@).len() as int) == Some(v@),
            None => pids_spec(pid_lines(content@), pid_lines(content@).len() as int) is None,
        },
{
    let mut lines = split_bytes(content, 0x0a);
    let ghost all = lines@.map_values(|v: Vec<u8>| v@);
    if lines.len() > 0 && lines[lines.len() - 1].len() == 0 {
        lines.pop();
        assert(lines@.map_values(|v: Vec<u8>| v@) =~= all.drop_last());
    }
    let ghost ls = lines@.map_values(|v: Vec<u8>| v@);
    assert(ls == pid_lines(content@));
    let mut pids: Vec<i32> = Vec::new();
    let mut i: usize = 0;
    while i < lines.len()
        invariant
            i <= lines@.len(),
            ls == lines@.map_values(|v: Vec<u8>| v@),
            ls == pid_lines(content@),
            pids_spec(ls, i as int) == Some(pids@),
        decreases lines@.len() - i,
    {
        assert(lines@[i as int]@ == ls[i as int]);
        match crate::args::parse_i64(lines[i].as_slice()) {
            Some(v) => {
                if v < -2147483648 || v > 2147483647 {
                    proof {
                        assert(pids_spec(ls, i + 1) is None);
                        lemma_pids_none_stays(ls, i + 1, ls.len() as int);
                    }
                    return None;
                }
                pids.push(v as i32);
            },
            None => {
                proof {
                    assert(pids_spec(ls, i + 1) is None);
                    lemma_pids_none_stays(ls, i + 1, ls.len() as int);
                }
                return None;
            },
        }
        i = i + 1;
    }
    Some(pids)
}

/// Once a line fails to parse, so do all longer runs of lines.
pub proof fn lemma_pids_none_stays(lines: Seq<Seq<u8>>, n: int, m: int)
    requires
        0 < n <= m,
        pids_spec(lines, n) is None,
    ensures
        pids_spec(lines, m) is None,
    decreases m - n,
{
    if n < m {
        lemma_pids_none_stays(lines, n, m - 1);
    }
}

} // verus!
