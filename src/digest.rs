//! Layer ids: the lowercase hex SHA-256 digest of a layer's archive.
use vstd::prelude::*;

verus! {

/// The SHA-256 digest of `data`.
pub uninterp spec fn sha256_of(data: Seq<u8>) -> Seq<u8>;

/// Relies on `ring::digest::digest` with `SHA256`: a 32-byte digest that
/// depends on the data alone. It panics only for inputs of 2^61 bytes or
/// more, whose length in bits does not fit 64 bits.
#[verifier::external_body]
fn sha256(data: &[u8]) -> (r: Vec<u8>)
    requires
        data@.len() < 0x2000_0000_0000_0000,
    ensures
        r@ == sha256_of(data@),
        r@.len() == 32,
{
    ring::digest::digest(&ring::digest::SHA256, data).as_ref().to_vec()
}

/// The lowercase ASCII hex digit of `n < 16`.
pub open spec fn hex_digit(n: u8) -> u8 {
    if n < 10 {
        (0x30 + n) as u8
    } else {
        (0x61 + n - 10) as u8
    }
}

/// Two lowercase hex digits per byte, most significant digit first.
pub open spec fn hex_spec(b: Seq<u8>) -> Seq<u8>
    decreases b.len(),
{
    if b.len() == 0 {
        Seq::empty()
    } else {
        hex_spec(b.drop_last()) + seq![hex_digit(b.last() / 16), hex_digit(b.last() % 16)]
    }
}

fn hex_digit_of(n: u8) -> (r: u8)
    requires
        n < 16,
    ensures
        r == hex_digit(n),
{
    if n < 10 {
        0x30 + n
    } else {
        0x61 + n - 10
    }
}

/// `b` in lowercase hex, two digits per byte.
pub fn hex_lower(b: &[u8]) -> (r: Vec<u8>)
    ensures
        r@ == hex_spec(b@),
{
    let mut out: Vec<u8> = Vec::new();
    let mut i: usize = 0;
    assert(b@.subrange(0, 0) =~= Seq::<u8>::empty());
    while i < b.len()
        invariant
            i <= b@.len(),
            out@ == hex_spec(b@.subrange(0, i as int)),
        decreases b@.len() - i,
    {
        out.push(hex_digit_of(b[i] / 16));
        out.push(hex_digit_of(b[i] % 16));
        assert(b@.subrange(0, i + 1).drop_last() =~= b@.subrange(0, i as int));
        i = i + 1;
        assert(out@ =~= hex_spec(b@.subrange(0, i as int)));
    }
    assert(b@.subrange(0, i as int) =~= b@);
    out
}

/// The id of a layer whose archive holds `content`: the lowercase hex of
/// its SHA-256 digest.
pub fn layer_id(content: &[u8]) -> (r: Vec<u8>)
    requires
        content@.len() < 0x2000_0000_0000_0000,
    ensures
        r@ == hex_spec(sha256_of(content@)),
        r@.len() == 64,
{
    let d = sha256(content);
    let r = hex_lower(d.as_slice());
    proof {
        lemma_hex_len(d@);
    }
    r
}

pub proof fn lemma_hex_len(b: Seq<u8>)
    ensures
        hex_spec(b).len() == 2 * b.len(),
    decreases b.len(),
{
    if b.len() > 0 {
        lemma_hex_len(b.drop_last());
    }
}

} // verus!
