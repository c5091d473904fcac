//! Laws of the change-log stream, stated over the specifications that the
//! decoder and encoder are proved against.
use vstd::prelude::*;
use crate::encode::{
    command_type, command_wf, encode_frame_spec, lemma_payload_round_trip, payload_spec,
};
use crate::stream::{
    assemble, command_layout, decode_spec, parse_frame_spec, stream_magic, tlv_fits, Command,
    StreamError, Tlv,
};
use crate::wire::{
    be16_bytes, be32, be32_bytes, byte_sum, checksum_of, lemma_be16_round_trip,
    lemma_be32_round_trip,
};

verus! {

/// A frame is accepted only if its declared checksum is the wrapped sum of
/// its payload bytes.
pub proof fn lemma_accepted_frame_has_checksum(s: Seq<u8>)
    requires
        parse_frame_spec(s) is Ok,
    ensures
        s.len() >= 10,
        s.len() >= 10 + be32(s.subrange(0, 4)),
        checksum_of(s.subrange(10, 10 + be32(s.subrange(0, 4)) as int)) == be32(s.subrange(6, 10)),
{
}

pub proof fn lemma_byte_sum_update(s: Seq<u8>, i: int, b: u8)
    requires
        0 <= i < s.len(),
    ensures
        byte_sum(s.update(i, b)) + s[i] == byte_sum(s) + b,
    decreases s.len(),
{
    let u = s.update(i, b);
    if i == s.len() - 1 {
        assert(u.drop_last() =~= s.drop_last());
    } else {
        assert(u.drop_last() =~= s.drop_last().update(i, b));
        lemma_byte_sum_update(s.drop_last(), i, b);
    }
}

/// Changing one payload byte of a well-formed frame makes it fail with
/// `InvalidChecksum`, naming the declared and the recomputed checksum.
pub proof fn lemma_mutated_byte_rejected(c: Command<Seq<u8>>, i: int, b: u8, tail: Seq<u8>)
    requires
        command_wf(c),
        10 <= i < encode_frame_spec(c).len(),
        encode_frame_spec(c)[i] != b,
    ensures
        parse_frame_spec(encode_frame_spec(c).update(i, b) + tail) == Err::<
            (Command<Seq<u8>>, nat),
            StreamError,
        >(
            StreamError::InvalidChecksum(
                checksum_of(payload_spec(c)) as u32,
                checksum_of(payload_spec(c).update(i - 10, b)) as u32,
            ),
        ),
{
    reveal(encode_frame_spec);
    let p = payload_spec(c);
    let q = p.update(i - 10, b);
    lemma_payload_round_trip(c);
    lemma_be32_round_trip(p.len());
    lemma_be16_round_trip(command_type(c) as nat);
    lemma_be32_round_trip(checksum_of(p));
    let e = encode_frame_spec(c).update(i, b) + tail;
    assert(e.subrange(0, 4) =~= be32_bytes(p.len()));
    assert(e.subrange(4, 6) =~= be16_bytes(command_type(c) as nat));
    assert(e.subrange(6, 10) =~= be32_bytes(checksum_of(p)));
    assert(e.subrange(10, 10 + p.len() as int) =~= q);
    assert(p[i - 10] != b);
    lemma_byte_sum_update(p, i - 10, b);
    let x = byte_sum(p) as int;
    let y = byte_sum(q) as int;
    assert(x != y);
    assert(-256 < x - y < 256);
    assert(x % 4294967296 != y % 4294967296) by (nonlinear_arith)
        requires
            x != y,
            -256 < x - y < 256,
            x >= 0,
            y >= 0,
    {
        vstd::arithmetic::div_mod::lemma_fundamental_div_mod(x, 4294967296);
        vstd::arithmetic::div_mod::lemma_fundamental_div_mod(y, 4294967296);
    }
}

/// For every known command type, a payload with another number of TLVs than
/// its layout fails with `WrongNumberOfTlvs`, and one with the right number
/// but a TLV of the wrong kind at some position fails with `UnexpectedTlv`.
pub proof fn lemma_layout_enforced(ty: u16, tlvs: Seq<Tlv<Seq<u8>>>, i: int)
    requires
        command_layout(ty) is Some,
    ensures
        tlvs.len() != command_layout(ty)->Some_0.len() ==> assemble(ty, tlvs) == Err::<
            Command<Seq<u8>>,
            StreamError,
        >(
            StreamError::WrongNumberOfTlvs(
                tlvs.len() as usize,
                command_layout(ty)->Some_0.len() as usize,
            ),
        ),
        tlvs.len() == command_layout(ty)->Some_0.len() && 0 <= i < tlvs.len() && !tlv_fits(
            tlvs[i],
            command_layout(ty)->Some_0[i],
        ) ==> assemble(ty, tlvs) == Err::<Command<Seq<u8>>, StreamError>(
            StreamError::UnexpectedTlv,
        ),
{
}

/// A stream whose magic string has a wrong byte fails with
/// `InvalidMagicNumber`, whatever follows the header.
pub proof fn lemma_corrupt_magic_rejected(s: Seq<u8>, i: int, b: u8)
    requires
        0 <= i < 13 <= s.len(),
        b != stream_magic()[i],
    ensures
        decode_spec(s.update(i, b)) == Err::<Seq<Command<Seq<u8>>>, StreamError>(
            StreamError::InvalidMagicNumber,
        ),
{
    assert(s.update(i, b).subrange(0, 13)[i] == b);
}

} // verus!
