//! Command-line arguments: subcommands, their operands and the resource
//! options of `run`. Arguments are byte strings.
use vstd::prelude::*;
use crate::layers::is_prefix;
use crate::wire::{bytes_eq, copy_of};

verus! {

/// Number of resource options that `run` knows.
pub const CGROUP_OPTION_COUNT: usize = 16;

/// A resource limit of a container. `B` is `Vec<u8>` in executable code and
/// `Seq<u8>` in specifications.
#[derive(Clone, Debug, PartialEq, Eq)]
pub enum CgroupOption<B> {
    CpuMax(B, usize),
    CpuWeight(usize),
    CpuWeightNice(i64),
    CpusetCpus(B),
    CpusetCpusPartition(B),
    CpusetMems(B),
    IoMax(B),
    IoWeight(B, usize),
    MemoryHigh(B),
    MemoryLow(usize),
    MemoryMax(B),
    MemoryMin(usize),
    MemoryOomGroup(usize),
    MemorySwapMax(B),
    PidsMax(usize),
    RdmaMax(B),
}

impl View for CgroupOption<Vec<u8>> {
    type V = CgroupOption<Seq<u8>>;

    open spec fn view(&self) -> CgroupOption<Seq<u8>> {
        match self {
            CgroupOption::CpuMax(a, b) => CgroupOption::CpuMax(a@, *b),
            CgroupOption::CpuWeight(a) => CgroupOption::CpuWeight(*a),
            CgroupOption::CpuWeightNice(a) => CgroupOption::CpuWeightNice(*a),
            CgroupOption::CpusetCpus(a) => CgroupOption::CpusetCpus(a@),
            CgroupOption::CpusetCpusPartition(a) => CgroupOption::CpusetCpusPartition(a@),
            CgroupOption::CpusetMems(a) => CgroupOption::CpusetMems(a@),
            CgroupOption::IoMax(a) => CgroupOption::IoMax(a@),
            CgroupOption::IoWeight(a, b) => CgroupOption::IoWeight(a@, *b),
            CgroupOption::MemoryHigh(a) => CgroupOption::MemoryHigh(a@),
            CgroupOption::MemoryLow(a) => CgroupOption::MemoryLow(*a),
            CgroupOption::MemoryMax(a) => CgroupOption::MemoryMax(a@),
            CgroupOption::MemoryMin(a) => CgroupOption::MemoryMin(*a),
            CgroupOption::MemoryOomGroup(a) => CgroupOption::MemoryOomGroup(*a),
            CgroupOption::MemorySwapMax(a) => CgroupOption::MemorySwapMax(a@),
            CgroupOption::PidsMax(a) => CgroupOption::PidsMax(*a),
            CgroupOption::RdmaMax(a) => CgroupOption::RdmaMax(a@),
        }
    }
}

/// Why the arguments could not be understood. `B` is `Vec<u8>` in
/// executable code and `Seq<u8>` in specifications.
#[derive(Clone, Debug, PartialEq, Eq)]
pub enum ArgumentParsingError<B> {
    NotEnoughArguments,
    UnexpectedCommand(B),
    MissingContainerName,
    MissingImage,
    MissingImageToDelete,
    MissingTarballLocation,
    NoContainerSubCommand,
    NoImageSubCommand,
    InvalidImageSubCommand(B),
    CantParseNumber(B),
    InvalidArgument(B),
}

/// What the command line asks for.
#[derive(Clone, Debug, PartialEq, Eq)]
pub enum CliCommand {
    DeleteContainer(Vec<u8>),
    DeleteImage(Vec<u8>),
    Export(Vec<u8>, Vec<u8>),
    Help(Option<Vec<u8>>),
    Import(Vec<u8>),
    ListContainers,
    ListImages,
    Logs(Vec<u8>),
    Run {
        command: Vec<Vec<u8>>,
        detach: bool,
        image: Vec<u8>,
        name: Option<Vec<u8>>,
        resource_options: Vec<CgroupOption<Vec<u8>>>,
    },
}

/// Whether every byte of `s` is an ASCII digit.
pub open spec fn all_digits(s: Seq<u8>) -> bool {
    forall|i: int| 0 <= i < s.len() ==> 0x30 <= #[trigger] s[i] <= 0x39
}

/// The value of the decimal digits `s`.
pub open spec fn digits_value(s: Seq<u8>) -> nat
    decreases s.len(),
{
    if s.len() == 0 {
        0
    } else {
        digits_value(s.drop_last()) * 10 + (s.last() - 0x30) as nat
    }
}

/// `s` without one leading `c`, if it has one.
pub open spec fn strip_sign(s: Seq<u8>, c: u8) -> Seq<u8> {
    if s.len() > 0 && s[0] == c {
        s.subrange(1, s.len() as int)
    } else {
        s
    }
}

/// A decimal `usize` with an optional `+`, as `usize::from_str` reads it.
pub open spec fn parse_usize_spec(s: Seq<u8>) -> Option<usize> {
    let d = strip_sign(s, 0x2b);
    if d.len() > 0 && all_digits(d) && digits_value(d) <= usize::MAX {
        Some(digits_value(d) as usize)
    } else {
        None
    }
}

/// A decimal `i64` with an optional `+` or `-`, as `i64::from_str`
/// reads it.
pub open spec fn parse_i64_spec(s: Seq<u8>) -> Option<i64> {
    if s.len() > 0 && s[0] == 0x2du8 {
        let d = s.subrange(1, s.len() as int);
        if d.len() > 0 && all_digits(d) && digits_value(d) <= i64::MAX + 1 {
            Some((0 - digits_value(d)) as i64)
        } else {
            None
        }
    } else {
        let d = strip_sign(s, 0x2b);
        if d.len() > 0 && all_digits(d) && digits_value(d) <= i64::MAX {
            Some(digits_value(d) as i64)
        } else {
            None
        }
    }
}

/// The index of the first `,` of `s`.
pub open spec fn comma_index(s: Seq<u8>) -> Option<int> {
    if exists|i: int| 0 <= i < s.len() && s[i] == 0x2cu8 {
        Some(choose|i: int| 0 <= i < s.len() && s[i] == 0x2cu8 && forall|j: int| 0 <= j < i ==> s[j] != 0x2cu8)
    } else {
        None
    }
}

/// The prefix of resource option `k`, `=` included.
pub open spec fn option_prefix(k: int) -> Seq<u8> {
    if k < 0 {
        Seq::empty()
    } else if k == 0 {
        seq![0x2d, 0x2d, 0x63, 0x70, 0x75, 0x2d, 0x6d, 0x61, 0x78, 0x3d]
    } else if k == 1 {
        seq![0x2d, 0x2d, 0x63, 0x70, 0x75, 0x2d, 0x77, 0x65, 0x69, 0x67, 0x68, 0x74, 0x3d]
    } else if k == 2 {
        seq![0x2d, 0x2d, 0x63, 0x70, 0x75, 0x2d, 0x77, 0x65, 0x69, 0x67, 0x68, 0x74, 0x2d, 0x6e, 0x69, 0x63, 0x65, 0x3d]
    } else if k == 3 {
        seq![0x2d, 0x2d, 0x63, 0x70, 0x75, 0x73, 0x65, 0x74, 0x2d, 0x63, 0x70, 0x75, 0x73, 0x3d]
    } else if k == 4 {
        seq![0x2d, 0x2d, 0x63, 0x70, 0x75, 0x73, 0x65, 0x74, 0x2d, 0x63, 0x70, 0x75, 0x73, 0x2d, 0x70, 0x61, 0x72, 0x74, 0x69, 0x74, 0x69, 0x6f, 0x6e, 0x3d]
    } else if k == 5 {
        seq![0x2d, 0x2d, 0x63, 0x70, 0x75, 0x73, 0x65, 0x74, 0x2d, 0x6d, 0x65, 0x6d, 0x73, 0x3d]
    } else if k == 6 {
        seq![0x2d, 0x2d, 0x69, 0x6f, 0x2d, 0x6d, 0x61, 0x78, 0x3d]
    } else if k == 7 {
        seq![0x2d, 0x2d, 0x69, 0x6f, 0x2d, 0x77, 0x65, 0x69, 0x67, 0x68, 0x74, 0x3d]
    } else if k == 8 {
        seq![0x2d, 0x2d, 0x6d, 0x65, 0x6d, 0x6f, 0x72, 0x79, 0x2d, 0x68, 0x69, 0x67, 0x68, 0x3d]
    } else if k == 9 {
        seq![0x2d, 0x2d, 0x6d, 0x65, 0x6d, 0x6f, 0x72, 0x79, 0x2d, 0x6c, 0x6f, 0x77, 0x3d]
    } else if k == 10 {
        seq![0x2d, 0x2d, 0x6d, 0x65, 0x6d, 0x6f, 0x72, 0x79, 0x2d, 0x6d, 0x61, 0x78, 0x3d]
    } else if k == 11 {
        seq![0x2d, 0x2d, 0x6d, 0x65, 0x6d, 0x6f, 0x72, 0x79, 0x2d, 0x6d, 0x69, 0x6e, 0x3d]
    } else if k == 12 {
        seq![0x2d, 0x2d, 0x6d, 0x65, 0x6d, 0x6f, 0x72, 0x79, 0x2d, 0x6f, 0x6f, 0x6d, 0x2d, 0x67, 0x72, 0x6f, 0x75, 0x70, 0x3d]
    } else if k == 13 {
        seq![0x2d, 0x2d, 0x6d, 0x65, 0x6d, 0x6f, 0x72, 0x79, 0x2d, 0x73, 0x77, 0x61, 0x70, 0x2d, 0x6d, 0x61, 0x78, 0x3d]
    } else if k == 14 {
        seq![0x2d, 0x2d, 0x70, 0x69, 0x64, 0x73, 0x2d, 0x6d, 0x61, 0x78, 0x3d]
    } else if k == 15 {
        seq![0x2d, 0x2d, 0x72, 0x64, 0x6d, 0x61, 0x2d, 0x6d, 0x61, 0x78, 0x3d]
    } else {
        Seq::empty()
    }
}

/// The first resource option, from `k` on, whose prefix starts `arg`.
pub open spec fn option_index(arg: Seq<u8>, k: int) -> Option<int>
    decreases CGROUP_OPTION_COUNT - k,
{
    if k < 0 || k >= CGROUP_OPTION_COUNT {
        None
    } else if is_prefix(option_prefix(k), arg) {
        Some(k)
    } else {
        option_index(arg, k + 1)
    }
}

/// Resource option `k` with the value `value`; `Err` when a number in it
/// does not parse.
pub open spec fn option_value(k: int, value: Seq<u8>) -> Result<CgroupOption<Seq<u8>>, ()> {
    if k == 0 {
        match comma_index(value) {
            None => Err(()),
            Some(c) => match parse_usize_spec(value.subrange(c + 1, value.len() as int)) {
                Some(n) => Ok(CgroupOption::CpuMax(value.subrange(0, c), n)),
                None => Err(()),
            },
        }
    } else if k == 1 {
        match parse_usize_spec(value) { Some(n) => Ok(CgroupOption::CpuWeight(n)), None => Err(()) }
    } else if k == 2 {
        match parse_i64_spec(value) { Some(n) => Ok(CgroupOption::CpuWeightNice(n)), None => Err(()) }
    } else if k == 3 {
        Ok(CgroupOption::CpusetCpus(value))
    } else if k == 4 {
        Ok(CgroupOption::CpusetCpusPartition(value))
    } else if k == 5 {
        Ok(CgroupOption::CpusetMems(value))
    } else if k == 6 {
        Ok(CgroupOption::IoMax(value))
    } else if k == 7 {
        match comma_index(value) {
            None => Err(()),
            Some(c) => match parse_usize_spec(value.subrange(c + 1, value.len() as int)) {
                Some(n) => Ok(CgroupOption::IoWeight(value.subrange(0, c), n)),
                None => Err(()),
            },
        }
    } else if k == 8 {
        Ok(CgroupOption::MemoryHigh(value))
    } else if k == 9 {
        match parse_usize_spec(value) { Some(n) => Ok(CgroupOption::MemoryLow(n)), None => Err(()) }
    } else if k == 10 {
        Ok(CgroupOption::MemoryMax(value))
    } else if k == 11 {
        match parse_usize_spec(value) { Some(n) => Ok(CgroupOption::MemoryMin(n)), None => Err(()) }
    } else if k == 12 {
        match parse_usize_spec(value) { Some(n) => Ok(CgroupOption::MemoryOomGroup(n)), None => Err(()) }
    } else if k == 13 {
        Ok(CgroupOption::MemorySwapMax(value))
    } else if k == 14 {
        match parse_usize_spec(value) { Some(n) => Ok(CgroupOption::PidsMax(n)), None => Err(()) }
    } else if k == 15 {
        Ok(CgroupOption::RdmaMax(value))
    } else {
        Err(())
    }
}

/// Reads a decimal `usize` with an optional `+`.
pub fn parse_usize(s: &[u8]) -> (r: Option<usize>)
    ensures
        r == parse_usize_spec(s@),
{
    let start: usize = if s.len() > 0 && s[0] == 0x2b { 1 } else { 0 };
    let ghost d = strip_sign(s@, 0x2b);
    assert(d =~= s@.subrange(start as int, s@.len() as int));
    if s.len() == start {
        return None;
    }
    let mut acc: usize = 0;
    let mut i: usize = start;
    while i < s.len()
        invariant
            start <= i <= s@.len(),
            d == s@.subrange(start as int, s@.len() as int),
            d == strip_sign(s@, 0x2b),
            all_digits(s@.subrange(start as int, i as int)),
            acc as nat == digits_value(s@.subrange(start as int, i as int)),
        decreases s@.len() - i,
    {
        let b = s[i];
        assert(s@.subrange(start as int, i + 1).drop_last() =~= s@.subrange(start as int, i as int));
        if b < 0x30 || b > 0x39 {
            assert(d[i - start] == b);
            assert(!all_digits(d));
            return None;
        }
        let digit = (b - 0x30) as usize;
        if acc > (usize::MAX - digit) / 10 {
            proof {
                lemma_prefix_overflows(s@, start as int, i as int, acc as int, digit as int, usize::MAX as int);
            }
            return None;
        }
        acc = acc * 10 + digit;
        i = i + 1;
    }
    assert(s@.subrange(start as int, i as int) =~= d);
    Some(acc)
}

/// Reads a decimal `i64` with an optional `+` or `-`.
pub fn parse_i64(s: &[u8]) -> (r: Option<i64>)
    ensures
        r == parse_i64_spec(s@),
{
    let negative = s.len() > 0 && s[0] == 0x2d;
    let start: usize = if s.len() > 0 && (s[0] == 0x2b || s[0] == 0x2d) { 1 } else { 0 };
    let ghost d = s@.subrange(start as int, s@.len() as int);
    proof {
        if negative {
            assert(d =~= s@.subrange(1, s@.len() as int));
        } else {
            assert(d =~= strip_sign(s@, 0x2b));
        }
    }
    if s.len() == start {
        return None;
    }
    let limit: u64 = if negative { 9223372036854775808 } else { 9223372036854775807 };
    let mut acc: u64 = 0;
    let mut i: usize = start;
    while i < s.len()
        invariant
            start <= i <= s@.len(),
            d == s@.subrange(start as int, s@.len() as int),
            all_digits(s@.subrange(start as int, i as int)),
            acc as nat == digits_value(s@.subrange(start as int, i as int)),
            acc <= limit,
            negative ==> d == s@.subrange(1, s@.len() as int) && s@.len() > 0 && s@[0] == 0x2du8,
            !negative ==> d == strip_sign(s@, 0x2b) && !(s@.len() > 0 && s@[0] == 0x2du8),
            limit == if negative { i64::MAX + 1 } else { i64::MAX as int },
        decreases s@.len() - i,
    {
        let b = s[i];
        assert(s@.subrange(start as int, i + 1).drop_last() =~= s@.subrange(start as int, i as int));
        if b < 0x30 || b > 0x39 {
            assert(d[i - start] == b);
            assert(!all_digits(d));
            return None;
        }
        let digit = (b - 0x30) as u64;
        if acc > (limit - digit) / 10 {
            proof {
                lemma_prefix_overflows(s@, start as int, i as int, acc as int, digit as int, limit as int);
            }
            return None;
        }
        acc = acc * 10 + digit;
        i = i + 1;
    }
    assert(s@.subrange(start as int, i as int) =~= d);
    if negative {
        if acc == 9223372036854775808 {
            Some(i64::MIN)
        } else {
            Some(-(acc as i64))
        }
    } else {
        Some(acc as i64)
    }
}

/// When the digits `s[start..=i]` already exceed `limit`, so do all the
/// digits of `s` from `start` on.
pub proof fn lemma_prefix_overflows(s: Seq<u8>, start: int, i: int, acc: int, digit: int, limit: int)
    requires
        0 <= start <= i < s.len(),
        all_digits(s.subrange(start, i)),
        acc == digits_value(s.subrange(start, i)),
        0x30 <= s[i] <= 0x39,
        digit == s[i] - 0x30,
        0 <= digit <= 9,
        limit >= 9,
        acc > (limit - digit) / 10,
    ensures
        all_digits(s.subrange(start, s.len() as int)) ==> digits_value(
            s.subrange(start, s.len() as int),
        ) > limit,
{
    let d = s.subrange(start, s.len() as int);
    let k = i + 1 - start;
    assert(d.subrange(0, k) =~= s.subrange(start, i + 1));
    assert(s.subrange(start, i + 1).drop_last() =~= s.subrange(start, i));
    assert(acc * 10 + digit > limit) by (nonlinear_arith)
        requires
            acc > (limit - digit) / 10,
            0 <= digit <= 9,
            limit >= 9,
    {
    }
    assert forall|j: int| 0 <= j < k implies 0x30 <= #[trigger] d.subrange(0, k)[j] <= 0x39 by {
        if j < k - 1 {
            assert(s.subrange(start, i)[j] == d.subrange(0, k)[j]);
        }
    }
    lemma_digits_value_monotone(d, k);
}

/// The value of a prefix of digits is at most the value of all of them.
pub proof fn lemma_digits_value_monotone(s: Seq<u8>, k: int)
    requires
        0 <= k <= s.len(),
        all_digits(s.subrange(0, k)),
    ensures
        all_digits(s) ==> digits_value(s.subrange(0, k)) <= digits_value(s),
    decreases s.len() - k,
{
    if k < s.len() && all_digits(s) {
        assert(s.subrange(0, k + 1).drop_last() =~= s.subrange(0, k));
        lemma_digits_value_monotone(s, k + 1);
    }
    if k == s.len() {
        assert(s.subrange(0, k) =~= s);
    }
}

/// The text before the first `,` of `s` and the number after it.
fn split_text_number(s: &[u8]) -> (r: (Vec<u8>, Option<usize>))
    ensures
        match comma_index(s@) {
            None => r.1 is None,
            Some(c) => r.0@ == s@.subrange(0, c) && r.1 == parse_usize_spec(
                s@.subrange(c + 1, s@.len() as int),
            ),
        },
{
    let mut i: usize = 0;
    while i < s.len() && s[i] != 0x2c
        invariant
            i <= s@.len(),
            forall|j: int| 0 <= j < i ==> s@[j] != 0x2cu8,
        decreases s@.len() - i,
    {
        i = i + 1;
    }
    if i == s.len() {
        return (Vec::new(), None);
    }
    proof {
        let c = comma_index(s@)->Some_0;
        assert(c == i as int);
    }
    let mut text: Vec<u8> = Vec::new();
    let mut j: usize = 0;
    while j < i
        invariant
            j <= i < s@.len(),
            text@ == s@.subrange(0, j as int),
        decreases i - j,
    {
        text.push(s[j]);
        j = j + 1;
        assert(text@ =~= s@.subrange(0, j as int));
    }
    let rest = copy_of(suffix(s, i + 1).as_slice());
    (text, parse_usize(rest.as_slice()))
}

/// The bytes of `s` from `start` on.
fn suffix(s: &[u8], start: usize) -> (r: Vec<u8>)
    requires
        start <= s@.len(),
    ensures
        r@ == s@.subrange(start as int, s@.len() as int),
{
    let mut v: Vec<u8> = Vec::new();
    let mut i: usize = start;
    while i < s.len()
        invariant
            start <= i <= s@.len(),
            v@ == s@.subrange(start as int, i as int),
        decreases s@.len() - i,
    {
        v.push(s[i]);
        i = i + 1;
        assert(v@ =~= s@.subrange(start as int, i as int));
    }
    v
}

/// The prefix of resource option `k`.
fn option_prefix_of(k: usize) -> (r: Vec<u8>)
    requires
        k < CGROUP_OPTION_COUNT,
    ensures
        r@ == option_prefix(k as int),
{
    let r = match k {
        0 => vec![0x2d, 0x2d, 0x63, 0x70, 0x75, 0x2d, 0x6d, 0x61, 0x78, 0x3d],
        1 => vec![0x2d, 0x2d, 0x63, 0x70, 0x75, 0x2d, 0x77, 0x65, 0x69, 0x67, 0x68, 0x74, 0x3d],
        2 => vec![0x2d, 0x2d, 0x63, 0x70, 0x75, 0x2d, 0x77, 0x65, 0x69, 0x67, 0x68, 0x74, 0x2d, 0x6e, 0x69, 0x63, 0x65, 0x3d],
        3 => vec![0x2d, 0x2d, 0x63, 0x70, 0x75, 0x73, 0x65, 0x74, 0x2d, 0x63, 0x70, 0x75, 0x73, 0x3d],
        4 => vec![0x2d, 0x2d, 0x63, 0x70, 0x75, 0x73, 0x65, 0x74, 0x2d, 0x63, 0x70, 0x75, 0x73, 0x2d, 0x70, 0x61, 0x72, 0x74, 0x69, 0x74, 0x69, 0x6f, 0x6e, 0x3d],
        5 => vec![0x2d, 0x2d, 0x63, 0x70, 0x75, 0x73, 0x65, 0x74, 0x2d, 0x6d, 0x65, 0x6d, 0x73, 0x3d],
        6 => vec![0x2d, 0x2d, 0x69, 0x6f, 0x2d, 0x6d, 0x61, 0x78, 0x3d],
        7 => vec![0x2d, 0x2d, 0x69, 0x6f, 0x2d, 0x77, 0x65, 0x69, 0x67, 0x68, 0x74, 0x3d],
        8 => vec![0x2d, 0x2d, 0x6d, 0x65, 0x6d, 0x6f, 0x72, 0x79, 0x2d, 0x68, 0x69, 0x67, 0x68, 0x3d],
        9 => vec![0x2d, 0x2d, 0x6d, 0x65, 0x6d, 0x6f, 0x72, 0x79, 0x2d, 0x6c, 0x6f, 0x77, 0x3d],
        10 => vec![0x2d, 0x2d, 0x6d, 0x65, 0x6d, 0x6f, 0x72, 0x79, 0x2d, 0x6d, 0x61, 0x78, 0x3d],
        11 => vec![0x2d, 0x2d, 0x6d, 0x65, 0x6d, 0x6f, 0x72, 0x79, 0x2d, 0x6d, 0x69, 0x6e, 0x3d],
        12 => vec![0x2d, 0x2d, 0x6d, 0x65, 0x6d, 0x6f, 0x72, 0x79, 0x2d, 0x6f, 0x6f, 0x6d, 0x2d, 0x67, 0x72, 0x6f, 0x75, 0x70, 0x3d],
        13 => vec![0x2d, 0x2d, 0x6d, 0x65, 0x6d, 0x6f, 0x72, 0x79, 0x2d, 0x73, 0x77, 0x61, 0x70, 0x2d, 0x6d, 0x61, 0x78, 0x3d],
        14 => vec![0x2d, 0x2d, 0x70, 0x69, 0x64, 0x73, 0x2d, 0x6d, 0x61, 0x78, 0x3d],
        15 => vec![0x2d, 0x2d, 0x72, 0x64, 0x6d, 0x61, 0x2d, 0x6d, 0x61, 0x78, 0x3d],
        _ => Vec::new(),
    };
    assert(r@ =~= option_prefix(k as int));
    r
}

pub proof fn lemma_option_index_found(arg: Seq<u8>, k: int)
    ensures
        option_index(arg, k) matches Some(j) ==> k <= j < CGROUP_OPTION_COUNT && is_prefix(
            option_prefix(j),
            arg,
        ),
    decreases CGROUP_OPTION_COUNT - k,
{
    if 0 <= k < CGROUP_OPTION_COUNT && !is_prefix(option_prefix(k), arg) {
        lemma_option_index_found(arg, k + 1);
    }
}

/// The first resource option whose prefix starts `argument`.
fn find_option(argument: &[u8]) -> (r: Option<usize>)
    ensures
        match r {
            Some(k) => option_index(argument@, 0) == Some(k as int) && k < CGROUP_OPTION_COUNT
                && is_prefix(option_prefix(k as int), argument@),
            None => option_index(argument@, 0) is None,
        },
{
    proof {
        lemma_option_index_found(argument@, 0);
    }
    let mut k: usize = 0;
    while k < CGROUP_OPTION_COUNT
        invariant
            k <= CGROUP_OPTION_COUNT,
            option_index(argument@, 0) == option_index(argument@, k as int),
        decreases CGROUP_OPTION_COUNT - k,
    {
        let prefix = option_prefix_of(k);
        if has_prefix(argument, prefix.as_slice()) {
            return Some(k);
        }
        k = k + 1;
    }
    None
}

/// Reads one resource option of `run` and appends it to `resource_options`.
pub fn parse_cgroup_option(argument: &[u8], resource_options: &mut Vec<CgroupOption<Vec<u8>>>) -> (r: Result<(), ArgumentParsingError<Vec<u8>>>)
    ensures
        match option_index(argument@, 0) {
            None => r matches Err(ArgumentParsingError::InvalidArgument(a)) && a@ == argument@
                && final(resource_options)@ == old(resource_options)@,
            Some(k) => match option_value(k, argument@.subrange(option_prefix(k).len() as int, argument@.len() as int)) {
                Ok(o) => r is Ok && final(resource_options)@.len() == old(resource_options)@.len() + 1
                    && final(resource_options)@.subrange(0, old(resource_options)@.len() as int) == old(resource_options)@
                    && final(resource_options)@.last()@ == o,
                Err(_) => r matches Err(ArgumentParsingError::CantParseNumber(a)) && a@ == argument@
                    && final(resource_options)@ == old(resource_options)@,
            },
        },
{
    let k = match find_option(argument) {
        None => return Err(ArgumentParsingError::InvalidArgument(copy_of(argument))),
        Some(k) => k,
    };
    let prefix = option_prefix_of(k);
    let value = suffix(argument, prefix.len());
    let option = match k {
        0 => {
            let (text, number) = split_text_number(value.as_slice());
            match number {
                Some(n) => CgroupOption::CpuMax(text, n),
                None => return Err(ArgumentParsingError::CantParseNumber(copy_of(argument))),
            }
        },
        1 => match parse_usize(value.as_slice()) {
            Some(n) => CgroupOption::CpuWeight(n),
            None => return Err(ArgumentParsingError::CantParseNumber(copy_of(argument))),
        },
        2 => match parse_i64(value.as_slice()) {
            Some(n) => CgroupOption::CpuWeightNice(n),
            None => return Err(ArgumentParsingError::CantParseNumber(copy_of(argument))),
        },
        3 => CgroupOption::CpusetCpus(value),
        4 => CgroupOption::CpusetCpusPartition(value),
        5 => CgroupOption::CpusetMems(value),
        6 => CgroupOption::IoMax(value),
        7 => {
            let (text, number) = split_text_number(value.as_slice());
            match number {
                Some(n) => CgroupOption::IoWeight(text, n),
                None => return Err(ArgumentParsingError::CantParseNumber(copy_of(argument))),
            }
        },
        8 => CgroupOption::MemoryHigh(value),
        9 => match parse_usize(value.as_slice()) {
            Some(n) => CgroupOption::MemoryLow(n),
            None => return Err(ArgumentParsingError::CantParseNumber(copy_of(argument))),
        },
        10 => CgroupOption::MemoryMax(value),
        11 => match parse_usize(value.as_slice()) {
            Some(n) => CgroupOption::MemoryMin(n),
            None => return Err(ArgumentParsingError::CantParseNumber(copy_of(argument))),
        },
        12 => match parse_usize(value.as_slice()) {
            Some(n) => CgroupOption::MemoryOomGroup(n),
            None => return Err(ArgumentParsingError::CantParseNumber(copy_of(argument))),
        },
        13 => CgroupOption::MemorySwapMax(value),
        14 => match parse_usize(value.as_slice()) {
            Some(n) => CgroupOption::PidsMax(n),
            None => return Err(ArgumentParsingError::CantParseNumber(copy_of(argument))),
        },
        15 => CgroupOption::RdmaMax(value),
        _ => return Err(ArgumentParsingError::InvalidArgument(copy_of(argument))),
    };
    resource_options.push(option);
    assert(resource_options@.subrange(0, old(resource_options)@.len() as int) =~= old(resource_options)@);
    Ok(())
}

/// Whether `s` starts with `p`.
pub fn has_prefix(s: &[u8], p: &[u8]) -> (r: bool)
    ensures
        r == is_prefix(p@, s@),
{
    if s.len() < p.len() {
        return false;
    }
    let mut i: usize = 0;
    while i < p.len()
        invariant
            i <= p@.len() <= s@.len(),
            forall|j: int| 0 <= j < i ==> s@[j] == p@[j],
        decreases p@.len() - i,
    {
        if s[i] != p[i] {
            assert(s@.subrange(0, p@.len() as int)[i as int] != p@[i as int]);
            return false;
        }
        i = i + 1;
    }
    assert(s@.subrange(0, p@.len() as int) =~= p@);
    true
}


impl View for ArgumentParsingError<Vec<u8>> {
    type V = ArgumentParsingError<Seq<u8>>;

    open spec fn view(&self) -> ArgumentParsingError<Seq<u8>> {
        match self {
            ArgumentParsingError::NotEnoughArguments => ArgumentParsingError::NotEnoughArguments,
            ArgumentParsingError::UnexpectedCommand(c) => ArgumentParsingError::UnexpectedCommand(c@),
            ArgumentParsingError::MissingContainerName => ArgumentParsingError::MissingContainerName,
            ArgumentParsingError::MissingImage => ArgumentParsingError::MissingImage,
            ArgumentParsingError::MissingImageToDelete => ArgumentParsingError::MissingImageToDelete,
            ArgumentParsingError::MissingTarballLocation => ArgumentParsingError::MissingTarballLocation,
            ArgumentParsingError::NoContainerSubCommand => ArgumentParsingError::NoContainerSubCommand,
            ArgumentParsingError::NoImageSubCommand => ArgumentParsingError::NoImageSubCommand,
            ArgumentParsingError::InvalidImageSubCommand(c) => ArgumentParsingError::InvalidImageSubCommand(c@),
            ArgumentParsingError::CantParseNumber(c) => ArgumentParsingError::CantParseNumber(c@),
            ArgumentParsingError::InvalidArgument(c) => ArgumentParsingError::InvalidArgument(c@),
        }
    }
}

pub open spec fn args_view(s: Seq<Vec<u8>>) -> Seq<Seq<u8>> {
    s.map_values(|a: Vec<u8>| a@)
}

pub open spec fn options_view(s: Seq<CgroupOption<Vec<u8>>>) -> Seq<CgroupOption<Seq<u8>>> {
    s.map_values(|o: CgroupOption<Vec<u8>>| o@)
}

/// `list`
pub open spec fn word_list() -> Seq<u8> {
    seq![0x6c, 0x69, 0x73, 0x74]
}

/// `delete`
pub open spec fn word_delete() -> Seq<u8> {
    seq![0x64, 0x65, 0x6c, 0x65, 0x74, 0x65]
}

/// `-d`
pub open spec fn word_dash_d() -> Seq<u8> {
    seq![0x2d, 0x64]
}

/// `--detach`
pub open spec fn word_detach_flag() -> Seq<u8> {
    seq![0x2d, 0x2d, 0x64, 0x65, 0x74, 0x61, 0x63, 0x68]
}

/// `-n`
pub open spec fn word_dash_n() -> Seq<u8> {
    seq![0x2d, 0x6e]
}

/// `--name=`
pub open spec fn word_name_flag() -> Seq<u8> {
    seq![0x2d, 0x2d, 0x6e, 0x61, 0x6d, 0x65, 0x3d]
}

/// `--`
pub open spec fn word_option_flag() -> Seq<u8> {
    seq![0x2d, 0x2d]
}

/// `container`
pub open spec fn word_container() -> Seq<u8> {
    seq![0x63, 0x6f, 0x6e, 0x74, 0x61, 0x69, 0x6e, 0x65, 0x72]
}

/// `export`
pub open spec fn word_export() -> Seq<u8> {
    seq![0x65, 0x78, 0x70, 0x6f, 0x72, 0x74]
}

/// `help`
pub open spec fn word_help() -> Seq<u8> {
    seq![0x68, 0x65, 0x6c, 0x70]
}

/// `image`
pub open spec fn word_image() -> Seq<u8> {
    seq![0x69, 0x6d, 0x61, 0x67, 0x65]
}

/// `import`
pub open spec fn word_import() -> Seq<u8> {
    seq![0x69, 0x6d, 0x70, 0x6f, 0x72, 0x74]
}

/// `logs`
pub open spec fn word_logs() -> Seq<u8> {
    seq![0x6c, 0x6f, 0x67, 0x73]
}

/// `run`
pub open spec fn word_run() -> Seq<u8> {
    seq![0x72, 0x75, 0x6e]
}

/// `image list`
pub open spec fn word_image_list() -> Seq<u8> {
    seq![0x69, 0x6d, 0x61, 0x67, 0x65, 0x20, 0x6c, 0x69, 0x73, 0x74]
}

/// `image delete`
pub open spec fn word_image_delete() -> Seq<u8> {
    seq![0x69, 0x6d, 0x61, 0x67, 0x65, 0x20, 0x64, 0x65, 0x6c, 0x65, 0x74, 0x65]
}

/// What the arguments of `run` have set so far.
pub struct RunSpec {
    pub command: Seq<Seq<u8>>,
    pub detach: bool,
    pub image: Option<Seq<u8>>,
    pub name: Option<Seq<u8>>,
    pub options: Seq<CgroupOption<Seq<u8>>>,
}

pub open spec fn run_start() -> RunSpec {
    RunSpec { command: Seq::empty(), detach: false, image: None, name: None, options: Seq::empty() }
}

/// Reading the arguments of `run` from index `i` on. Until the command
/// starts, `-d`/`--detach`, `-n name`, `--name=name` and resource options
/// are recognised; the first other word is the image, the rest the command.
pub open spec fn run_spec(args: Seq<Seq<u8>>, i: int, st: RunSpec) -> Result<RunSpec, ArgumentParsingError<Seq<u8>>>
    decreases args.len() - i,
{
    if i < 0 || i >= args.len() {
        Ok(st)
    } else {
        let s = args[i];
        let open = st.command.len() == 0;
        if open && (s == word_dash_d() || s == word_detach_flag()) {
            run_spec(args, i + 1, RunSpec { detach: true, ..st })
        } else if open && s == word_dash_n() {
            if i + 1 >= args.len() {
                Err(ArgumentParsingError::MissingContainerName)
            } else {
                run_spec(args, i + 2, RunSpec { name: Some(args[i + 1]), ..st })
            }
        } else if open && is_prefix(word_name_flag(), s) {
            run_spec(args, i + 1, RunSpec { name: Some(s.subrange(7, s.len() as int)), ..st })
        } else if open && is_prefix(word_option_flag(), s) {
            match option_index(s, 0) {
                None => Err(ArgumentParsingError::InvalidArgument(s)),
                Some(k) => match option_value(k, s.subrange(option_prefix(k).len() as int, s.len() as int)) {
                    Err(_) => Err(ArgumentParsingError::CantParseNumber(s)),
                    Ok(o) => run_spec(args, i + 1, RunSpec { options: st.options.push(o), ..st }),
                },
            }
        } else if st.image is None {
            run_spec(args, i + 1, RunSpec { image: Some(s), ..st })
        } else {
            run_spec(args, i + 1, RunSpec { command: st.command.push(s), ..st })
        }
    }
}

fn list_bytes() -> (r: Vec<u8>)
    ensures
        r@ == word_list(),
{
    let r: Vec<u8> = vec![0x6c, 0x69, 0x73, 0x74];
    assert(r@ =~= word_list());
    r
}

fn delete_bytes() -> (r: Vec<u8>)
    ensures
        r@ == word_delete(),
{
    let r: Vec<u8> = vec![0x64, 0x65, 0x6c, 0x65, 0x74, 0x65];
    assert(r@ =~= word_delete());
    r
}

fn dash_d_bytes() -> (r: Vec<u8>)
    ensures
        r@ == word_dash_d(),
{
    let r: Vec<u8> = vec![0x2d, 0x64];
    assert(r@ =~= word_dash_d());
    r
}

fn detach_flag_bytes() -> (r: Vec<u8>)
    ensures
        r@ == word_detach_flag(),
{
    let r: Vec<u8> = vec![0x2d, 0x2d, 0x64, 0x65, 0x74, 0x61, 0x63, 0x68];
    assert(r@ =~= word_detach_flag());
    r
}

fn dash_n_bytes() -> (r: Vec<u8>)
    ensures
        r@ == word_dash_n(),
{
    let r: Vec<u8> = vec![0x2d, 0x6e];
    assert(r@ =~= word_dash_n());
    r
}

fn name_flag_bytes() -> (r: Vec<u8>)
    ensures
        r@ == word_name_flag(),
{
    let r: Vec<u8> = vec![0x2d, 0x2d, 0x6e, 0x61, 0x6d, 0x65, 0x3d];
    assert(r@ =~= word_name_flag());
    r
}

fn option_flag_bytes() -> (r: Vec<u8>)
    ensures
        r@ == word_option_flag(),
{
    let r: Vec<u8> = vec![0x2d, 0x2d];
    assert(r@ =~= word_option_flag());
    r
}

fn container_bytes() -> (r: Vec<u8>)
    ensures
        r@ == word_container(),
{
    let r: Vec<u8> = vec![0x63, 0x6f, 0x6e, 0x74, 0x61, 0x69, 0x6e, 0x65, 0x72];
    assert(r@ =~= word_container());
    r
}

fn export_bytes() -> (r: Vec<u8>)
    ensures
        r@ == word_export(),
{
    let r: Vec<u8> = vec![0x65, 0x78, 0x70, 0x6f, 0x72, 0x74];
    assert(r@ =~= word_export());
    r
}

fn help_bytes() -> (r: Vec<u8>)
    ensures
        r@ == word_help(),
{
    let r: Vec<u8> = vec![0x68, 0x65, 0x6c, 0x70];
    assert(r@ =~= word_help());
    r
}

fn image_bytes() -> (r: Vec<u8>)
    ensures
        r@ == word_image(),
{
    let r: Vec<u8> = vec![0x69, 0x6d, 0x61, 0x67, 0x65];
    assert(r@ =~= word_image());
    r
}

fn import_bytes() -> (r: Vec<u8>)
    ensures
        r@ == word_import(),
{
    let r: Vec<u8> = vec![0x69, 0x6d, 0x70, 0x6f, 0x72, 0x74];
    assert(r@ =~= word_import());
    r
}

fn logs_bytes() -> (r: Vec<u8>)
    ensures
        r@ == word_logs(),
{
    let r: Vec<u8> = vec![0x6c, 0x6f, 0x67, 0x73];
    assert(r@ =~= word_logs());
    r
}

fn run_bytes() -> (r: Vec<u8>)
    ensures
        r@ == word_run(),
{
    let r: Vec<u8> = vec![0x72, 0x75, 0x6e];
    assert(r@ =~= word_run());
    r
}

fn image_list_bytes() -> (r: Vec<u8>)
    ensures
        r@ == word_image_list(),
{
    let r: Vec<u8> = vec![0x69, 0x6d, 0x61, 0x67, 0x65, 0x20, 0x6c, 0x69, 0x73, 0x74];
    assert(r@ =~= word_image_list());
    r
}

fn image_delete_bytes() -> (r: Vec<u8>)
    ensures
        r@ == word_image_delete(),
{
    let r: Vec<u8> = vec![0x69, 0x6d, 0x61, 0x67, 0x65, 0x20, 0x64, 0x65, 0x6c, 0x65, 0x74, 0x65];
    assert(r@ =~= word_image_delete());
    r
}

/// What `parse_container_subcommand` returns for the words `args`.
pub open spec fn container_outcome(args: Seq<Seq<u8>>, r: Result<CliCommand, ArgumentParsingError<Vec<u8>>>) -> bool {
    &&& (args.len() == 0 ==> r == Err::<CliCommand, _>(ArgumentParsingError::<Vec<u8>>::NoContainerSubCommand))
    &&& (args.len() > 0 && args[0] == word_list() ==> r == Ok::<_, ArgumentParsingError<Vec<u8>>>(CliCommand::ListContainers))
    &&& (args.len() == 1 && args[0] == word_delete() ==> r == Err::<CliCommand, _>(ArgumentParsingError::<Vec<u8>>::MissingContainerName))
    &&& (args.len() > 1 && args[0] == word_delete() ==> (r matches Ok(CliCommand::DeleteContainer(c)) && c@ == args[1]))
    &&& (args.len() > 0 && args[0] != word_list() && args[0] != word_delete() ==> (r matches Err(ArgumentParsingError::InvalidImageSubCommand(c)) && c@ == args[0]))
}

/// Reads `container list` or `container delete <container>`; `args` are the
/// words after `container`.
pub fn parse_container_subcommand(args: &[Vec<u8>]) -> (r: Result<CliCommand, ArgumentParsingError<Vec<u8>>>)
    ensures
        container_outcome(args_view(args@), r),
{
    if args.len() == 0 {
        return Err(ArgumentParsingError::NoContainerSubCommand);
    }
    if bytes_eq(args[0].as_slice(), list_bytes().as_slice()) {
        Ok(CliCommand::ListContainers)
    } else if bytes_eq(args[0].as_slice(), delete_bytes().as_slice()) {
        if args.len() < 2 {
            return Err(ArgumentParsingError::MissingContainerName);
        }
        Ok(CliCommand::DeleteContainer(copy_of(args[1].as_slice())))
    } else {
        Err(ArgumentParsingError::InvalidImageSubCommand(copy_of(args[0].as_slice())))
    }
}

/// What `parse_image_subcommand` returns for the words `args`.
pub open spec fn image_outcome(args: Seq<Seq<u8>>, r: Result<CliCommand, ArgumentParsingError<Vec<u8>>>) -> bool {
    &&& (args.len() == 0 ==> r == Err::<CliCommand, _>(ArgumentParsingError::<Vec<u8>>::NoImageSubCommand))
    &&& (args.len() > 0 && args[0] == word_list() ==> r == Ok::<_, ArgumentParsingError<Vec<u8>>>(CliCommand::ListImages))
    &&& (args.len() == 1 && args[0] == word_delete() ==> r == Err::<CliCommand, _>(ArgumentParsingError::<Vec<u8>>::MissingImageToDelete))
    &&& (args.len() > 1 && args[0] == word_delete() ==> (r matches Ok(CliCommand::DeleteImage(c)) && c@ == args[1]))
    &&& (args.len() > 0 && args[0] != word_list() && args[0] != word_delete() ==> (r matches Err(ArgumentParsingError::InvalidImageSubCommand(c)) && c@ == args[0]))
}

/// Reads `image list` or `image delete <image>`; `args` are the words after
/// `image`.
pub fn parse_image_subcommand(args: &[Vec<u8>]) -> (r: Result<CliCommand, ArgumentParsingError<Vec<u8>>>)
    ensures
        image_outcome(args_view(args@), r),
{
    if args.len() == 0 {
        return Err(ArgumentParsingError::NoImageSubCommand);
    }
    if bytes_eq(args[0].as_slice(), list_bytes().as_slice()) {
        Ok(CliCommand::ListImages)
    } else if bytes_eq(args[0].as_slice(), delete_bytes().as_slice()) {
        if args.len() < 2 {
            return Err(ArgumentParsingError::MissingImageToDelete);
        }
        Ok(CliCommand::DeleteImage(copy_of(args[1].as_slice())))
    } else {
        Err(ArgumentParsingError::InvalidImageSubCommand(copy_of(args[0].as_slice())))
    }
}

/// What `parse_logs` returns for the words `args`.
pub open spec fn logs_outcome(args: Seq<Seq<u8>>, r: Result<CliCommand, ArgumentParsingError<Vec<u8>>>) -> bool {
    &&& (args.len() == 0 ==> r == Err::<CliCommand, _>(ArgumentParsingError::<Vec<u8>>::MissingContainerName))
    &&& (args.len() > 0 ==> (r matches Ok(CliCommand::Logs(c)) && c@ == args[0]))
}

/// Reads `logs <container>`; `args` are the words after `logs`.
pub fn parse_logs(args: &[Vec<u8>]) -> (r: Result<CliCommand, ArgumentParsingError<Vec<u8>>>)
    ensures
        logs_outcome(args_view(args@), r),
{
    if args.len() == 0 {
        return Err(ArgumentParsingError::MissingContainerName);
    }
    Ok(CliCommand::Logs(copy_of(args[0].as_slice())))
}

/// The words joined with single spaces.
pub open spec fn join_spec(words: Seq<Seq<u8>>) -> Seq<u8>
    decreases words.len(),
{
    if words.len() == 0 {
        Seq::empty()
    } else if words.len() == 1 {
        words[0]
    } else {
        join_spec(words.drop_last()) + seq![0x20u8] + words.last()
    }
}

/// The words joined with single spaces.
pub fn join_words(words: &[Vec<u8>]) -> (r: Vec<u8>)
    ensures
        r@ == join_spec(args_view(words@)),
{
    let ghost w = args_view(words@);
    let mut out: Vec<u8> = Vec::new();
    let mut i: usize = 0;
    assert(w.subrange(0, 0) =~= Seq::<Seq<u8>>::empty());
    while i < words.len()
        invariant
            i <= words@.len(),
            w == args_view(words@),
            out@ == join_spec(w.subrange(0, i as int)),
        decreases words@.len() - i,
    {
        if i > 0 {
            out.push(0x20);
        }
        let mut j: usize = 0;
        let ghost before = out@;
        while j < words[i].len()
            invariant
                j <= words@[i as int]@.len(),
                i < words@.len(),
                out@ == before + words@[i as int]@.subrange(0, j as int),
            decreases words@[i as int]@.len() - j,
        {
            out.push(words[i][j]);
            j = j + 1;
            assert(out@ =~= before + words@[i as int]@.subrange(0, j as int));
        }
        assert(words@[i as int]@.subrange(0, j as int) =~= words@[i as int]@);
        assert(w.subrange(0, i + 1).drop_last() =~= w.subrange(0, i as int));
        i = i + 1;
        assert(out@ =~= join_spec(w.subrange(0, i as int)));
    }
    assert(w.subrange(0, i as int) =~= w);
    out
}

/// What `parse_help` returns for the words `args`.
pub open spec fn help_outcome(args: Seq<Seq<u8>>, r: Result<CliCommand, ArgumentParsingError<Vec<u8>>>) -> bool {
    &&& (args.len() == 0 ==> r == Ok::<_, ArgumentParsingError<Vec<u8>>>(CliCommand::Help(None)))
    &&& (args.len() > 0 ==> ({
            let topic = join_spec(args);
            if topic == word_run() || topic == word_image_list() || topic == word_image_delete() {
                r matches Ok(CliCommand::Help(Some(t))) && t@ == topic
            } else {
                r matches Err(ArgumentParsingError::UnexpectedCommand(t)) && t@ == topic
            }
        }))
}

/// Reads `help [topic]`; `args` are the words after `help`. The topic is
/// the words joined with spaces, and must be `run`, `image list` or
/// `image delete`.
pub fn parse_help(args: &[Vec<u8>]) -> (r: Result<CliCommand, ArgumentParsingError<Vec<u8>>>)
    ensures
        help_outcome(args_view(args@), r),
{
    if args.len() == 0 {
        return Ok(CliCommand::Help(None));
    }
    let topic = join_words(args);
    if bytes_eq(topic.as_slice(), run_bytes().as_slice()) || bytes_eq(topic.as_slice(), image_list_bytes().as_slice())
        || bytes_eq(topic.as_slice(), image_delete_bytes().as_slice()) {
        Ok(CliCommand::Help(Some(topic)))
    } else {
        Err(ArgumentParsingError::UnexpectedCommand(topic))
    }
}


pub open spec fn opt_view(o: Option<Vec<u8>>) -> Option<Seq<u8>> {
    match o {
        Some(v) => Some(v@),
        None => None,
    }
}

/// What `parse_run_subcommand` returns for the words `args`.
pub open spec fn run_outcome(args: Seq<Seq<u8>>, r: Result<CliCommand, ArgumentParsingError<Vec<u8>>>) -> bool {
    match run_spec(args, 0, run_start()) {
        Err(e) => r matches Err(e2) && e2@ == e,
        Ok(st) => match st.image {
            None => r matches Err(ArgumentParsingError::MissingImage),
            Some(img) => r matches Ok(CliCommand::Run { command, detach, image, name, resource_options })
                && args_view(command@) == st.command && detach == st.detach && image@ == img
                && opt_view(name) == st.name && options_view(resource_options@) == st.options,
        },
    }
}

/// Reads the words after `run`: options, the image, then the command.
pub fn parse_run_subcommand(args: &[Vec<u8>]) -> (r: Result<CliCommand, ArgumentParsingError<Vec<u8>>>)
    ensures
        run_outcome(args_view(args@), r),
{
    let ghost av = args_view(args@);
    let mut command: Vec<Vec<u8>> = Vec::new();
    let mut detach = false;
    let mut image: Option<Vec<u8>> = None;
    let mut name: Option<Vec<u8>> = None;
    let mut resource_options: Vec<CgroupOption<Vec<u8>>> = Vec::new();
    let dash_d = dash_d_bytes();
    let detach_flag = detach_flag_bytes();
    let dash_n = dash_n_bytes();
    let name_flag = name_flag_bytes();
    let option_flag = option_flag_bytes();
    let mut i: usize = 0;
    assert(args_view(command@) =~= Seq::<Seq<u8>>::empty());
    assert(options_view(resource_options@) =~= Seq::<CgroupOption<Seq<u8>>>::empty());
    while i < args.len()
        invariant
            i <= args@.len(),
            av == args_view(args@),
            dash_d@ == word_dash_d(),
            detach_flag@ == word_detach_flag(),
            dash_n@ == word_dash_n(),
            name_flag@ == word_name_flag(),
            option_flag@ == word_option_flag(),
            run_spec(av, 0, run_start()) == run_spec(
                av,
                i as int,
                RunSpec {
                    command: args_view(command@),
                    detach,
                    image: opt_view(image),
                    name: opt_view(name),
                    options: options_view(resource_options@),
                },
            ),
        decreases args@.len() - i,
    {
        let s = args[i].as_slice();
        assert(s@ == av[i as int]);
        let open = command.len() == 0;
        if open && (bytes_eq(s, dash_d.as_slice()) || bytes_eq(s, detach_flag.as_slice())) {
            detach = true;
            i = i + 1;
        } else if open && bytes_eq(s, dash_n.as_slice()) {
            if i + 1 >= args.len() {
                return Err(ArgumentParsingError::MissingContainerName);
            }
            name = Some(copy_of(args[i + 1].as_slice()));
            i = i + 2;
        } else if open && has_prefix(s, name_flag.as_slice()) {
            name = Some(suffix(s, 7));
            i = i + 1;
        } else if open && has_prefix(s, option_flag.as_slice()) {
            let ghost before = options_view(resource_options@);
            parse_cgroup_option(s, &mut resource_options)?;
            assert(options_view(resource_options@) =~= before.push(resource_options@.last()@));
            i = i + 1;
        } else if image.is_none() {
            image = Some(copy_of(s));
            i = i + 1;
        } else {
            let ghost before = args_view(command@);
            command.push(copy_of(s));
            assert(args_view(command@) =~= before.push(s@));
            i = i + 1;
        }
    }
    match image {
        None => Err(ArgumentParsingError::MissingImage),
        Some(image) => Ok(CliCommand::Run { command, detach, image, name, resource_options }),
    }
}

/// The words of `args` after the first.
fn tail_words(args: &[Vec<u8>]) -> (r: Vec<Vec<u8>>)
    requires
        args@.len() > 0,
    ensures
        args_view(r@) == args_view(args@).subrange(1, args@.len() as int),
{
    let mut out: Vec<Vec<u8>> = Vec::new();
    let mut i: usize = 1;
    while i < args.len()
        invariant
            1 <= i <= args@.len(),
            args_view(out@) == args_view(args@).subrange(1, i as int),
        decreases args@.len() - i,
    {
        let ghost before = args_view(out@);
        out.push(copy_of(args[i].as_slice()));
        assert(args_view(out@) =~= before.push(args@[i as int]@));
        i = i + 1;
        assert(args_view(out@) =~= args_view(args@).subrange(1, i as int));
    }
    out
}

/// Reads a whole command line (without the program name).
pub fn parse_arguments(args: &[Vec<u8>]) -> (r: Result<CliCommand, ArgumentParsingError<Vec<u8>>>)
    ensures
        args@.len() == 0 ==> r == Err::<CliCommand, _>(ArgumentParsingError::<Vec<u8>>::NotEnoughArguments),
        args@.len() > 0 ==> ({
            let first = args@[0]@;
            let rest = args_view(args@).subrange(1, args@.len() as int);
            if first == word_container() {
                container_outcome(rest, r)
            } else if first == word_export() {
                if rest.len() == 0 {
                    r == Err::<CliCommand, _>(ArgumentParsingError::<Vec<u8>>::MissingImage)
                } else if rest.len() == 1 {
                    r == Err::<CliCommand, _>(ArgumentParsingError::<Vec<u8>>::MissingTarballLocation)
                } else {
                    r matches Ok(CliCommand::Export(i, t)) && i@ == rest[0] && t@ == rest[1]
                }
            } else if first == word_help() {
                help_outcome(rest, r)
            } else if first == word_image() {
                image_outcome(rest, r)
            } else if first == word_import() {
                if rest.len() == 0 {
                    r == Err::<CliCommand, _>(ArgumentParsingError::<Vec<u8>>::MissingTarballLocation)
                } else {
                    r matches Ok(CliCommand::Import(t)) && t@ == rest[0]
                }
            } else if first == word_logs() {
                logs_outcome(rest, r)
            } else if first == word_run() {
                run_outcome(rest, r)
            } else {
                r matches Err(ArgumentParsingError::UnexpectedCommand(c)) && c@ == first
            }
        }),
{
    if args.len() == 0 {
        return Err(ArgumentParsingError::NotEnoughArguments);
    }
    let first = args[0].as_slice();
    let rest = tail_words(args);
    let ghost rv = args_view(args@).subrange(1, args@.len() as int);
    assert(rest@.len() == rv.len());
    if bytes_eq(first, container_bytes().as_slice()) {
        parse_container_subcommand(rest.as_slice())
    } else if bytes_eq(first, export_bytes().as_slice()) {
        if rest.len() == 0 {
            return Err(ArgumentParsingError::MissingImage);
        }
        if rest.len() == 1 {
            return Err(ArgumentParsingError::MissingTarballLocation);
        }
        assert(rest@[0]@ == rv[0] && rest@[1]@ == rv[1]);
        Ok(CliCommand::Export(copy_of(rest[0].as_slice()), copy_of(rest[1].as_slice())))
    } else if bytes_eq(first, help_bytes().as_slice()) {
        parse_help(rest.as_slice())
    } else if bytes_eq(first, image_bytes().as_slice()) {
        parse_image_subcommand(rest.as_slice())
    } else if bytes_eq(first, import_bytes().as_slice()) {
        if rest.len() == 0 {
            return Err(ArgumentParsingError::MissingTarballLocation);
        }
        assert(rest@[0]@ == rv[0]);
        Ok(CliCommand::Import(copy_of(rest[0].as_slice())))
    } else if bytes_eq(first, logs_bytes().as_slice()) {
        parse_logs(rest.as_slice())
    } else if bytes_eq(first, run_bytes().as_slice()) {
        parse_run_subcommand(rest.as_slice())
    } else {
        Err(ArgumentParsingError::UnexpectedCommand(copy_of(first)))
    }
}

} // verus!
