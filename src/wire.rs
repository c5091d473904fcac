//! Byte strings: big-endian integers, the additive checksum of the
//! change-log stream, and copying and comparing bytes.
use vstd::prelude::*;

verus! {

/// Value of two bytes read most significant first.
pub open spec fn be16(s: Seq<u8>) -> nat {
    s[0] as nat * 256 + s[1] as nat
}

/// Value of four bytes read most significant first.
pub open spec fn be32(s: Seq<u8>) -> nat {
    be16(s) * 65536 + be16(s.subrange(2, 4))
}

/// Value of eight bytes read most significant first.
pub open spec fn be64(s: Seq<u8>) -> nat {
    be32(s) * 4294967296 + be32(s.subrange(4, 8))
}

/// The two bytes of `v < 2^16`, most significant first.
pub open spec fn be16_bytes(v: nat) -> Seq<u8> {
    seq![(v / 256) as u8, (v % 256) as u8]
}

/// The four bytes of `v < 2^32`, most significant first.
pub open spec fn be32_bytes(v: nat) -> Seq<u8> {
    be16_bytes(v / 65536) + be16_bytes(v % 65536)
}

/// The eight bytes of `v < 2^64`, most significant first.
pub open spec fn be64_bytes(v: nat) -> Seq<u8> {
    be32_bytes(v / 4294967296) + be32_bytes(v % 4294967296)
}

/// Sum of all bytes, as an unbounded number.
pub open spec fn byte_sum(s: Seq<u8>) -> nat
    decreases s.len(),
{
    if s.len() == 0 {
        0
    } else {
        byte_sum(s.drop_last()) + s.last() as nat
    }
}

/// The frame checksum: the sum of the payload bytes, wrapped to 32 bits.
pub open spec fn checksum_of(s: Seq<u8>) -> nat {
    byte_sum(s) % 4294967296
}

pub proof fn lemma_be16_round_trip(v: nat)
    requires
        v < 65536,
    ensures
        be16_bytes(v).len() == 2,
        be16(be16_bytes(v)) == v,
{
}

pub proof fn lemma_be32_round_trip(v: nat)
    requires
        v < 4294967296,
    ensures
        be32_bytes(v).len() == 4,
        be32(be32_bytes(v)) == v,
{
    lemma_be16_round_trip(v / 65536);
    lemma_be16_round_trip(v % 65536);
    assert(be32_bytes(v).subrange(2, 4) =~= be16_bytes(v % 65536));
}

pub proof fn lemma_be64_round_trip(v: nat)
    requires
        v < 0x1_0000_0000_0000_0000,
    ensures
        be64_bytes(v).len() == 8,
        be64(be64_bytes(v)) == v,
{
    lemma_be32_round_trip(v / 4294967296);
    lemma_be32_round_trip(v % 4294967296);
    let b = be64_bytes(v);
    assert(b.subrange(4, 8) =~= be32_bytes(v % 4294967296));
    assert(b.subrange(0, 4) =~= be32_bytes(v / 4294967296));
    assert(be32(b) == be32(b.subrange(0, 4)));
}

/// Reads two bytes at `pos`, most significant first.
pub fn read_be16(s: &[u8], pos: usize) -> (r: u16)
    requires
        pos + 2 <= s@.len(),
    ensures
        r as nat == be16(s@.subrange(pos as int, pos + 2)),
{
    (s[pos] as u16) * 256 + (s[pos + 1] as u16)
}

/// Reads four bytes at `pos`, most significant first.
pub fn read_be32(s: &[u8], pos: usize) -> (r: u32)
    requires
        pos + 4 <= s@.len(),
    ensures
        r as nat == be32(s@.subrange(pos as int, pos + 4)),
{
    let n: usize = s.len();
    assert(pos + 4 <= n);
    let hi = read_be16(s, pos);
    let lo = read_be16(s, pos + 2);
    assert(s@.subrange(pos as int, pos + 4).subrange(2, 4) =~= s@.subrange(pos + 2, pos + 4));
    (hi as u32) * 65536 + (lo as u32)
}

/// Reads eight bytes at `pos`, most significant first.
pub fn read_be64(s: &[u8], pos: usize) -> (r: u64)
    requires
        pos + 8 <= s@.len(),
    ensures
        r as nat == be64(s@.subrange(pos as int, pos + 8)),
{
    let n: usize = s.len();
    assert(pos + 8 <= n);
    let hi = read_be32(s, pos);
    let lo = read_be32(s, pos + 4);
    assert(s@.subrange(pos as int, pos + 8).subrange(4, 8) =~= s@.subrange(pos + 4, pos + 8));
    assert(s@.subrange(pos as int, pos + 8).subrange(0, 4) =~= s@.subrange(pos as int, pos + 4));
    assert(be32(s@.subrange(pos as int, pos + 8)) == be32(s@.subrange(pos as int, pos + 4)));
    (hi as u64) * 4294967296 + (lo as u64)
}

/// Appends `v` as two bytes, most significant first.
pub fn push_be16(out: &mut Vec<u8>, v: u16)
    ensures
        final(out)@ == old(out)@ + be16_bytes(v as nat),
{
    out.push((v / 256) as u8);
    out.push((v % 256) as u8);
    assert(final(out)@ =~= old(out)@ + be16_bytes(v as nat));
}

/// Appends `v` as four bytes, most significant first.
pub fn push_be32(out: &mut Vec<u8>, v: u32)
    ensures
        final(out)@ == old(out)@ + be32_bytes(v as nat),
{
    push_be16(out, (v / 65536) as u16);
    push_be16(out, (v % 65536) as u16);
    assert(final(out)@ =~= old(out)@ + be32_bytes(v as nat));
}

/// Appends `v` as eight bytes, most significant first.
pub fn push_be64(out: &mut Vec<u8>, v: u64)
    ensures
        final(out)@ == old(out)@ + be64_bytes(v as nat),
{
    push_be32(out, (v / 4294967296) as u32);
    push_be32(out, (v % 4294967296) as u32);
    assert(final(out)@ =~= old(out)@ + be64_bytes(v as nat));
}

pub proof fn lemma_byte_sum_push(s: Seq<u8>, b: u8)
    ensures
        byte_sum(s.push(b)) == byte_sum(s) + b,
{
    assert(s.push(b).drop_last() =~= s);
}

/// The additive checksum of `s[start..end]`, wrapped to 32 bits.
pub fn checksum(s: &[u8], start: usize, end: usize) -> (r: u32)
    requires
        start <= end <= s@.len(),
    ensures
        r as nat == checksum_of(s@.subrange(start as int, end as int)),
{
    let mut acc: u32 = 0;
    let mut i: usize = start;
    while i < end
        invariant
            start <= i <= end <= s@.len(),
            acc as nat == checksum_of(s@.subrange(start as int, i as int)),
        decreases end - i,
    {
        proof {
            let prefix = s@.subrange(start as int, i as int);
            assert(s@.subrange(start as int, i + 1) =~= prefix.push(s@[i as int]));
            lemma_byte_sum_push(prefix, s@[i as int]);
            vstd::arithmetic::div_mod::lemma_add_mod_noop(
                byte_sum(prefix) as int,
                s@[i as int] as int,
                4294967296,
            );
            vstd::arithmetic::div_mod::lemma_small_mod(s@[i as int] as nat, 4294967296);
        }
        acc = ((acc as u64 + s[i] as u64) % 4294967296) as u32;
        i = i + 1;
    }
    acc
}

/// A copy of the bytes `b`.
pub fn copy_of(b: &[u8]) -> (r: Vec<u8>)
    ensures
        r@ == b@,
{
    let mut v: Vec<u8> = Vec::new();
    let mut i: usize = 0;
    while i < b.len()
        invariant
            i <= b@.len(),
            v@ == b@.subrange(0, i as int),
        decreases b@.len() - i,
    {
        v.push(b[i]);
        i = i + 1;
        assert(v@ =~= b@.subrange(0, i as int));
    }
    assert(b@.subrange(0, i as int) =~= b@);
    v
}

/// Whether the two byte strings are equal.
pub fn bytes_eq(a: &[u8], b: &[u8]) -> (r: bool)
    ensures
        r == (a@ == b@),
{
    if a.len() != b.len() {
        return false;
    }
    let mut i: usize = 0;
    while i < a.len()
        invariant
            i <= a@.len() == b@.len(),
            forall|j: int| 0 <= j < i ==> a@[j] == b@[j],
        decreases a@.len() - i,
    {
        if a[i] != b[i] {
            return false;
        }
        i = i + 1;
    }
    assert(a@ =~= b@);
    true
}

/// Appends the bytes `b`.
pub fn push_bytes(out: &mut Vec<u8>, b: &[u8])
    ensures
        final(out)@ == old(out)@ + b@,
{
    let ghost start = out@;
    let mut i: usize = 0;
    while i < b.len()
        invariant
            i <= b@.len(),
            out@ == start + b@.subrange(0, i as int),
        decreases b@.len() - i,
    {
        out.push(b[i]);
        i = i + 1;
        assert(out@ =~= start + b@.subrange(0, i as int));
    }
    assert(b@.subrange(0, i as int) =~= b@);
}

} // verus!
