//! Encoding of commands into the change-log stream, and the proof that
//! decoding gives back what was encoded.
use vstd::prelude::*;
use crate::stream::{
    assemble, command_layout, commands_view, decode_spec, parse_frame_spec, parse_frames_spec,
    parse_payload_spec, parse_tlv_spec, parse_tlvs_spec, stream_magic, tag_kind, tlv_fits, tlvs_fit,
    tlvs_view, value_fits, Command, Tlv, TlvValue, CMD_CHMOD, CMD_CHOWN, CMD_CLONE, CMD_END,
    CMD_LINK, CMD_MKDIR, CMD_MKFIFO, CMD_MKFILE, CMD_MKNOD, CMD_MKSOCK, CMD_REMOVE_XATTR,
    CMD_RENAME, CMD_RMDIR, CMD_SET_XATTR, CMD_SNAPSHOT, CMD_SUBVOL, CMD_SYMLINK, CMD_TRUNCATE,
    CMD_UNLINK, CMD_UPDATE_EXTENT, CMD_UTIMES, CMD_WRITE, HEADER_SIZE, TLV_ATIME,
    TLV_CLONE_CTRANSID, TLV_CLONE_LENGTH, TLV_CLONE_OFFSET, TLV_CLONE_PATH, TLV_CTIME, TLV_DATA,
    TLV_GID, TLV_MODE, TLV_MTIME, TLV_OFFSET, TLV_PATH, TLV_PATH_LINK, TLV_PATH_TO, TLV_RDEV,
    TLV_SIZE, TLV_UID, TLV_UUID, TLV_XATTR_DATA, TLV_XATTR_NAME,
};
use crate::wire::{
    push_bytes, copy_of, be16_bytes, be32_bytes, be64_bytes, checksum, checksum_of,
    lemma_be16_round_trip, lemma_be32_round_trip, lemma_be64_round_trip, push_be16, push_be32,
    push_be64,
};

verus! {

/// The version written in the header of an encoded stream.
pub const STREAM_VERSION: u32 = 1;

/// The command type of `c`.
pub open spec fn command_type(c: Command<Seq<u8>>) -> u16 {
    match c {
        Command::Subvol(a, b, c) => CMD_SUBVOL,
        Command::Snapshot(a, b, c, d, e) => CMD_SNAPSHOT,
        Command::Mkfile(a) => CMD_MKFILE,
        Command::Mkdir(a) => CMD_MKDIR,
        Command::Mknod(a, b, c) => CMD_MKNOD,
        Command::Mkfifo(a) => CMD_MKFIFO,
        Command::Mksock(a) => CMD_MKSOCK,
        Command::Symlink(a, b) => CMD_SYMLINK,
        Command::Rename(a, b) => CMD_RENAME,
        Command::Link(a, b) => CMD_LINK,
        Command::Unlink(a) => CMD_UNLINK,
        Command::Rmdir(a) => CMD_RMDIR,
        Command::SetXattr(a, b, c) => CMD_SET_XATTR,
        Command::RemoveXattr(a, b) => CMD_REMOVE_XATTR,
        Command::Write(a, b, c) => CMD_WRITE,
        Command::Clone(a, b, c, d, e, f, g) => CMD_CLONE,
        Command::Truncate(a, b) => CMD_TRUNCATE,
        Command::Chmod(a, b) => CMD_CHMOD,
        Command::Chown(a, b, c) => CMD_CHOWN,
        Command::Utimes(a, b, c, d) => CMD_UTIMES,
        Command::End => CMD_END,
        Command::UpdateExtent(a, b, c) => CMD_UPDATE_EXTENT,
    }
}

/// The TLVs that carry the fields of `c`, in the order of its layout.
pub open spec fn command_tlvs(c: Command<Seq<u8>>) -> Seq<Tlv<Seq<u8>>> {
    match c {
        Command::Subvol(a, b, c) => seq![
                Tlv { tag: TLV_PATH, value: TlvValue::Bytes(a) },
                Tlv { tag: TLV_UUID, value: TlvValue::Bytes(b) },
                Tlv { tag: TLV_CLONE_CTRANSID, value: TlvValue::Number(c) },
            ],
        Command::Snapshot(a, b, c, d, e) => seq![
                Tlv { tag: TLV_PATH, value: TlvValue::Bytes(a) },
                Tlv { tag: TLV_UUID, value: TlvValue::Bytes(b) },
                Tlv { tag: TLV_CLONE_CTRANSID, value: TlvValue::Number(c) },
                Tlv { tag: TLV_UUID, value: TlvValue::Bytes(d) },
                Tlv { tag: TLV_CLONE_CTRANSID, value: TlvValue::Number(e) },
            ],
        Command::Mkfile(a) => seq![
                Tlv { tag: TLV_PATH, value: TlvValue::Bytes(a) },
            ],
        Command::Mkdir(a) => seq![
                Tlv { tag: TLV_PATH, value: TlvValue::Bytes(a) },
            ],
        Command::Mknod(a, b, c) => seq![
                Tlv { tag: TLV_PATH, value: TlvValue::Bytes(a) },
                Tlv { tag: TLV_MODE, value: TlvValue::Number(b) },
                Tlv { tag: TLV_RDEV, value: TlvValue::Number(c) },
            ],
        Command::Mkfifo(a) => seq![
                Tlv { tag: TLV_PATH, value: TlvValue::Bytes(a) },
            ],
        Command::Mksock(a) => seq![
                Tlv { tag: TLV_PATH, value: TlvValue::Bytes(a) },
            ],
        Command::Symlink(a, b) => seq![
                Tlv { tag: TLV_PATH, value: TlvValue::Bytes(a) },
                Tlv { tag: TLV_PATH_LINK, value: TlvValue::Bytes(b) },
            ],
        Command::Rename(a, b) => seq![
                Tlv { tag: TLV_PATH, value: TlvValue::Bytes(a) },
                Tlv { tag: TLV_PATH_TO, value: TlvValue::Bytes(b) },
            ],
        Command::Link(a, b) => seq![
                Tlv { tag: TLV_PATH, value: TlvValue::Bytes(a) },
                Tlv { tag: TLV_PATH_LINK, value: TlvValue::Bytes(b) },
            ],
        Command::Unlink(a) => seq![
                Tlv { tag: TLV_PATH, value: TlvValue::Bytes(a) },
            ],
        Command::Rmdir(a) => seq![
                Tlv { tag: TLV_PATH, value: TlvValue::Bytes(a) },
            ],
        Command::SetXattr(a, b, c) => seq![
                Tlv { tag: TLV_PATH, value: TlvValue::Bytes(a) },
                Tlv { tag: TLV_XATTR_NAME, value: TlvValue::Bytes(b) },
                Tlv { tag: TLV_XATTR_DATA, value: TlvValue::Bytes(c) },
            ],
        Command::RemoveXattr(a, b) => seq![
                Tlv { tag: TLV_PATH, value: TlvValue::Bytes(a) },
                Tlv { tag: TLV_XATTR_NAME, value: TlvValue::Bytes(b) },
            ],
        Command::Write(a, b, c) => seq![
                Tlv { tag: TLV_PATH, value: TlvValue::Bytes(a) },
                Tlv { tag: TLV_OFFSET, value: TlvValue::Number(b) },
                Tlv { tag: TLV_DATA, value: TlvValue::Bytes(c) },
            ],
        Command::Clone(a, b, c, d, e, f, g) => seq![
                Tlv { tag: TLV_PATH, value: TlvValue::Bytes(a) },
                Tlv { tag: TLV_OFFSET, value: TlvValue::Number(b) },
                Tlv { tag: TLV_CLONE_LENGTH, value: TlvValue::Number(c) },
                Tlv { tag: TLV_UUID, value: TlvValue::Bytes(d) },
                Tlv { tag: TLV_CLONE_CTRANSID, value: TlvValue::Number(e) },
                Tlv { tag: TLV_CLONE_PATH, value: TlvValue::Bytes(f) },
                Tlv { tag: TLV_CLONE_OFFSET, value: TlvValue::Number(g) },
            ],
        Command::Truncate(a, b) => seq![
                Tlv { tag: TLV_PATH, value: TlvValue::Bytes(a) },
                Tlv { tag: TLV_SIZE, value: TlvValue::Number(b) },
            ],
        Command::Chmod(a, b) => seq![
                Tlv { tag: TLV_PATH, value: TlvValue::Bytes(a) },
                Tlv { tag: TLV_MODE, value: TlvValue::Number(b) },
            ],
        Command::Chown(a, b, c) => seq![
                Tlv { tag: TLV_PATH, value: TlvValue::Bytes(a) },
                Tlv { tag: TLV_UID, value: TlvValue::Number(b) },
                Tlv { tag: TLV_GID, value: TlvValue::Number(c) },
            ],
        Command::Utimes(a, b, c, d) => seq![
                Tlv { tag: TLV_PATH, value: TlvValue::Bytes(a) },
                Tlv { tag: TLV_ATIME, value: TlvValue::Time(b) },
                Tlv { tag: TLV_MTIME, value: TlvValue::Time(c) },
                Tlv { tag: TLV_CTIME, value: TlvValue::Time(d) },
            ],
        Command::End => Seq::empty(),
        Command::UpdateExtent(a, b, c) => seq![
                Tlv { tag: TLV_PATH, value: TlvValue::Bytes(a) },
                Tlv { tag: TLV_OFFSET, value: TlvValue::Number(b) },
                Tlv { tag: TLV_SIZE, value: TlvValue::Number(c) },
            ],
    }
}

/// The bytes that carry a TLV's value.
pub open spec fn value_bytes(v: TlvValue<Seq<u8>>) -> Seq<u8> {
    match v {
        TlvValue::Bytes(b) => b,
        TlvValue::Number(n) => be64_bytes(n as nat),
        TlvValue::Time(t) => be64_bytes(t.secs as nat) + be32_bytes(t.nsecs as nat),
        TlvValue::Marker => Seq::empty(),
    }
}

/// Whether `t` can be written: a known tag, a value of its shape, and a
/// value short enough for the 16-bit length field.
pub open spec fn tlv_wf(t: Tlv<Seq<u8>>) -> bool {
    &&& tag_kind(t.tag) matches Some(kind)
    &&& value_fits(t.value, kind)
    &&& value_bytes(t.value).len() < 65536
}

pub open spec fn tlvs_wf(ts: Seq<Tlv<Seq<u8>>>) -> bool {
    forall|i: int| 0 <= i < ts.len() ==> #[trigger] tlv_wf(ts[i])
}

/// Whether `c` can be written: UUIDs of sixteen bytes, and paths, names and
/// data shorter than 65536 bytes.
pub open spec fn command_wf(c: Command<Seq<u8>>) -> bool {
    tlvs_wf(command_tlvs(c))
}

pub open spec fn commands_wf(cs: Seq<Command<Seq<u8>>>) -> bool {
    forall|i: int| 0 <= i < cs.len() ==> #[trigger] command_wf(cs[i])
}

/// The bytes of one TLV.
pub open spec fn encode_tlv_spec(t: Tlv<Seq<u8>>) -> Seq<u8> {
    be16_bytes(t.tag as nat) + be16_bytes(value_bytes(t.value).len()) + value_bytes(t.value)
}

/// The bytes of a run of TLVs.
pub open spec fn encode_tlvs_spec(ts: Seq<Tlv<Seq<u8>>>) -> Seq<u8>
    decreases ts.len(),
{
    if ts.len() == 0 {
        Seq::empty()
    } else {
        encode_tlv_spec(ts[0]) + encode_tlvs_spec(ts.subrange(1, ts.len() as int))
    }
}

/// The payload of the frame of `c`.
pub open spec fn payload_spec(c: Command<Seq<u8>>) -> Seq<u8> {
    encode_tlvs_spec(command_tlvs(c))
}

/// The bytes of the frame of `c`: length, type, checksum, payload.
#[verifier::opaque]
pub open spec fn encode_frame_spec(c: Command<Seq<u8>>) -> Seq<u8> {
    be32_bytes(payload_spec(c).len()) + be16_bytes(command_type(c) as nat) + be32_bytes(
        checksum_of(payload_spec(c)),
    ) + payload_spec(c)
}

/// The bytes of the frames of `cs`, in order.
pub open spec fn encode_frames_spec(cs: Seq<Command<Seq<u8>>>) -> Seq<u8>
    decreases cs.len(),
{
    if cs.len() == 0 {
        Seq::empty()
    } else {
        encode_frame_spec(cs[0]) + encode_frames_spec(cs.subrange(1, cs.len() as int))
    }
}

/// The bytes of a stream of the commands `cs`: header, then their frames.
pub open spec fn encode_stream_spec(cs: Seq<Command<Seq<u8>>>) -> Seq<u8> {
    stream_magic() + be32_bytes(STREAM_VERSION as nat) + encode_frames_spec(cs)
}

pub proof fn lemma_tlv_round_trip(t: Tlv<Seq<u8>>, tail: Seq<u8>)
    requires
        tlv_wf(t),
    ensures
        parse_tlv_spec(encode_tlv_spec(t) + tail) == Ok::<_, crate::stream::StreamError>(
            (t, encode_tlv_spec(t).len()),
        ),
{
    let v = value_bytes(t.value);
    let e = encode_tlv_spec(t) + tail;
    lemma_be16_round_trip(t.tag as nat);
    lemma_be16_round_trip(v.len());
    assert(e.subrange(0, 2) =~= be16_bytes(t.tag as nat));
    assert(e.subrange(2, 4) =~= be16_bytes(v.len()));
    assert(e.subrange(4, 4 + v.len() as int) =~= v);
    match t.value {
        TlvValue::Number(n) => {
            lemma_be64_round_trip(n as nat);
        },
        TlvValue::Time(ts) => {
            lemma_be64_round_trip(ts.secs as nat);
            lemma_be32_round_trip(ts.nsecs as nat);
            assert(e.subrange(4, 12) =~= be64_bytes(ts.secs as nat));
            assert(e.subrange(12, 16) =~= be32_bytes(ts.nsecs as nat));
        },
        _ => {},
    }
}

pub proof fn lemma_tlvs_round_trip(ts: Seq<Tlv<Seq<u8>>>)
    requires
        tlvs_wf(ts),
    ensures
        parse_tlvs_spec(encode_tlvs_spec(ts)) == Ok::<_, crate::stream::StreamError>(ts),
    decreases ts.len(),
{
    if ts.len() == 0 {
        assert(encode_tlvs_spec(ts) =~= Seq::<u8>::empty());
        assert(ts =~= Seq::<Tlv<Seq<u8>>>::empty());
    } else {
        let first = encode_tlv_spec(ts[0]);
        let others = ts.subrange(1, ts.len() as int);
        assert(tlv_wf(ts[0]));
        assert(tlvs_wf(others)) by {
            assert forall|i: int| 0 <= i < others.len() implies #[trigger] tlv_wf(others[i]) by {
                assert(tlv_wf(ts[i + 1]));
            }
        }
        lemma_tlv_round_trip(ts[0], encode_tlvs_spec(others));
        lemma_tlvs_round_trip(others);
        let e = encode_tlvs_spec(ts);
        assert(e.subrange(first.len() as int, e.len() as int) =~= encode_tlvs_spec(others));
        assert(seq![ts[0]] + others =~= ts);
    }
}

pub proof fn lemma_encode_tlvs_len(ts: Seq<Tlv<Seq<u8>>>)
    requires
        tlvs_wf(ts),
    ensures
        encode_tlvs_spec(ts).len() <= ts.len() * 65539,
    decreases ts.len(),
{
    if ts.len() > 0 {
        let others = ts.subrange(1, ts.len() as int);
        assert(tlv_wf(ts[0]));
        assert(tlvs_wf(others)) by {
            assert forall|i: int| 0 <= i < others.len() implies #[trigger] tlv_wf(others[i]) by {
                assert(tlv_wf(ts[i + 1]));
            }
        }
        lemma_encode_tlvs_len(others);
    }
}

pub proof fn lemma_assemble_round_trip(c: Command<Seq<u8>>)
    requires
        command_wf(c),
    ensures
        assemble(command_type(c), command_tlvs(c)) == Ok::<_, crate::stream::StreamError>(c),
        command_tlvs(c).len() <= 7,
{
    let ts = command_tlvs(c);
    let layout = command_layout(command_type(c))->Some_0;
    assert(command_layout(command_type(c)) is Some);
    assert(ts.len() == layout.len());
    assert forall|i: int| 0 <= i < layout.len() implies #[trigger] tlv_fits(ts[i], layout[i]) by {
        assert(tlv_wf(ts[i]));
    }
    assert(tlvs_fit(ts, layout));
}

pub proof fn lemma_payload_round_trip(c: Command<Seq<u8>>)
    requires
        command_wf(c),
    ensures
        parse_payload_spec(command_type(c), payload_spec(c)) == Ok::<
            _,
            crate::stream::StreamError,
        >(c),
        payload_spec(c).len() <= 7 * 65539,
{
    lemma_assemble_round_trip(c);
    lemma_encode_tlvs_len(command_tlvs(c));
    lemma_tlvs_round_trip(command_tlvs(c));
}

#[verifier::rlimit(40)]
pub proof fn lemma_frame_round_trip(c: Command<Seq<u8>>, tail: Seq<u8>)
    requires
        command_wf(c),
    ensures
        parse_frame_spec(encode_frame_spec(c) + tail) == Ok::<_, crate::stream::StreamError>(
            (c, encode_frame_spec(c).len()),
        ),
{
    reveal(encode_frame_spec);
    let p = payload_spec(c);
    lemma_payload_round_trip(c);
    lemma_be32_round_trip(p.len());
    lemma_be16_round_trip(command_type(c) as nat);
    lemma_be32_round_trip(checksum_of(p));
    let e = encode_frame_spec(c) + tail;
    assert(e.subrange(0, 4) =~= be32_bytes(p.len()));
    assert(e.subrange(4, 6) =~= be16_bytes(command_type(c) as nat));
    assert(e.subrange(6, 10) =~= be32_bytes(checksum_of(p)));
    assert(e.subrange(10, 10 + p.len() as int) =~= p);
}

pub proof fn lemma_frames_round_trip(cs: Seq<Command<Seq<u8>>>)
    requires
        commands_wf(cs),
    ensures
        parse_frames_spec(encode_frames_spec(cs)) == Ok::<_, crate::stream::StreamError>(cs),
    decreases cs.len(),
{
    if cs.len() == 0 {
        assert(encode_frames_spec(cs) =~= Seq::<u8>::empty());
        assert(cs =~= Seq::<Command<Seq<u8>>>::empty());
    } else {
        let first = encode_frame_spec(cs[0]);
        let others = cs.subrange(1, cs.len() as int);
        assert(command_wf(cs[0]));
        assert(commands_wf(others)) by {
            assert forall|i: int| 0 <= i < others.len() implies #[trigger] command_wf(others[i]) by {
                assert(command_wf(cs[i + 1]));
            }
        }
        lemma_frame_round_trip(cs[0], encode_frames_spec(others));
        lemma_frames_round_trip(others);
        let e = encode_frames_spec(cs);
        assert(e.subrange(first.len() as int, e.len() as int) =~= encode_frames_spec(others));
        assert(seq![cs[0]] + others =~= cs);
    }
}

/// Decoding the encoding of well-formed commands gives back exactly those
/// commands, in order.
pub proof fn lemma_round_trip(cs: Seq<Command<Seq<u8>>>)
    requires
        commands_wf(cs),
    ensures
        decode_spec(encode_stream_spec(cs)) == Ok::<_, crate::stream::StreamError>(cs),
{
    let e = encode_stream_spec(cs);
    lemma_be32_round_trip(STREAM_VERSION as nat);
    assert(e.subrange(0, 13) =~= stream_magic());
    assert(e.subrange(HEADER_SIZE as int, e.len() as int) =~= encode_frames_spec(cs));
    lemma_frames_round_trip(cs);
}

/// The command type of `cmd`.
pub fn command_type_of(cmd: &Command<Vec<u8>>) -> (r: u16)
    ensures
        r == command_type(cmd@),
{
    match cmd {
        Command::Subvol(..) => CMD_SUBVOL,
        Command::Snapshot(..) => CMD_SNAPSHOT,
        Command::Mkfile(..) => CMD_MKFILE,
        Command::Mkdir(..) => CMD_MKDIR,
        Command::Mknod(..) => CMD_MKNOD,
        Command::Mkfifo(..) => CMD_MKFIFO,
        Command::Mksock(..) => CMD_MKSOCK,
        Command::Symlink(..) => CMD_SYMLINK,
        Command::Rename(..) => CMD_RENAME,
        Command::Link(..) => CMD_LINK,
        Command::Unlink(..) => CMD_UNLINK,
        Command::Rmdir(..) => CMD_RMDIR,
        Command::SetXattr(..) => CMD_SET_XATTR,
        Command::RemoveXattr(..) => CMD_REMOVE_XATTR,
        Command::Write(..) => CMD_WRITE,
        Command::Clone(..) => CMD_CLONE,
        Command::Truncate(..) => CMD_TRUNCATE,
        Command::Chmod(..) => CMD_CHMOD,
        Command::Chown(..) => CMD_CHOWN,
        Command::Utimes(..) => CMD_UTIMES,
        Command::End => CMD_END,
        Command::UpdateExtent(..) => CMD_UPDATE_EXTENT,
    }
}

/// The TLVs that carry the fields of `cmd`, in the order of its layout.
pub fn command_tlvs_of(cmd: &Command<Vec<u8>>) -> (r: Vec<Tlv<Vec<u8>>>)
    ensures
        tlvs_view(r@) == command_tlvs(cmd@),
{
    let r = match cmd {
        Command::Subvol(a, b, c) => vec![
                Tlv { tag: TLV_PATH, value: TlvValue::Bytes(copy_of(a.as_slice())) },
                Tlv { tag: TLV_UUID, value: TlvValue::Bytes(copy_of(b.as_slice())) },
                Tlv { tag: TLV_CLONE_CTRANSID, value: TlvValue::Number(*c) },
            ],
        Command::Snapshot(a, b, c, d, e) => vec![
                Tlv { tag: TLV_PATH, value: TlvValue::Bytes(copy_of(a.as_slice())) },
                Tlv { tag: TLV_UUID, value: TlvValue::Bytes(copy_of(b.as_slice())) },
                Tlv { tag: TLV_CLONE_CTRANSID, value: TlvValue::Number(*c) },
                Tlv { tag: TLV_UUID, value: TlvValue::Bytes(copy_of(d.as_slice())) },
                Tlv { tag: TLV_CLONE_CTRANSID, value: TlvValue::Number(*e) },
            ],
        Command::Mkfile(a) => vec![
                Tlv { tag: TLV_PATH, value: TlvValue::Bytes(copy_of(a.as_slice())) },
            ],
        Command::Mkdir(a) => vec![
                Tlv { tag: TLV_PATH, value: TlvValue::Bytes(copy_of(a.as_slice())) },
            ],
        Command::Mknod(a, b, c) => vec![
                Tlv { tag: TLV_PATH, value: TlvValue::Bytes(copy_of(a.as_slice())) },
                Tlv { tag: TLV_MODE, value: TlvValue::Number(*b) },
                Tlv { tag: TLV_RDEV, value: TlvValue::Number(*c) },
            ],
        Command::Mkfifo(a) => vec![
                Tlv { tag: TLV_PATH, value: TlvValue::Bytes(copy_of(a.as_slice())) },
            ],
        Command::Mksock(a) => vec![
                Tlv { tag: TLV_PATH, value: TlvValue::Bytes(copy_of(a.as_slice())) },
            ],
        Command::Symlink(a, b) => vec![
                Tlv { tag: TLV_PATH, value: TlvValue::Bytes(copy_of(a.as_slice())) },
                Tlv { tag: TLV_PATH_LINK, value: TlvValue::Bytes(copy_of(b.as_slice())) },
            ],
        Command::Rename(a, b) => vec![
                Tlv { tag: TLV_PATH, value: TlvValue::Bytes(copy_of(a.as_slice())) },
                Tlv { tag: TLV_PATH_TO, value: TlvValue::Bytes(copy_of(b.as_slice())) },
            ],
        Command::Link(a, b) => vec![
                Tlv { tag: TLV_PATH, value: TlvValue::Bytes(copy_of(a.as_slice())) },
                Tlv { tag: TLV_PATH_LINK, value: TlvValue::Bytes(copy_of(b.as_slice())) },
            ],
        Command::Unlink(a) => vec![
                Tlv { tag: TLV_PATH, value: TlvValue::Bytes(copy_of(a.as_slice())) },
            ],
        Command::Rmdir(a) => vec![
                Tlv { tag: TLV_PATH, value: TlvValue::Bytes(copy_of(a.as_slice())) },
            ],
        Command::SetXattr(a, b, c) => vec![
                Tlv { tag: TLV_PATH, value: TlvValue::Bytes(copy_of(a.as_slice())) },
                Tlv { tag: TLV_XATTR_NAME, value: TlvValue::Bytes(copy_of(b.as_slice())) },
                Tlv { tag: TLV_XATTR_DATA, value: TlvValue::Bytes(copy_of(c.as_slice())) },
            ],
        Command::RemoveXattr(a, b) => vec![
                Tlv { tag: TLV_PATH, value: TlvValue::Bytes(copy_of(a.as_slice())) },
                Tlv { tag: TLV_XATTR_NAME, value: TlvValue::Bytes(copy_of(b.as_slice())) },
            ],
        Command::Write(a, b, c) => vec![
                Tlv { tag: TLV_PATH, value: TlvValue::Bytes(copy_of(a.as_slice())) },
                Tlv { tag: TLV_OFFSET, value: TlvValue::Number(*b) },
                Tlv { tag: TLV_DATA, value: TlvValue::Bytes(copy_of(c.as_slice())) },
            ],
        Command::Clone(a, b, c, d, e, f, g) => vec![
                Tlv { tag: TLV_PATH, value: TlvValue::Bytes(copy_of(a.as_slice())) },
                Tlv { tag: TLV_OFFSET, value: TlvValue::Number(*b) },
                Tlv { tag: TLV_CLONE_LENGTH, value: TlvValue::Number(*c) },
                Tlv { tag: TLV_UUID, value: TlvValue::Bytes(copy_of(d.as_slice())) },
                Tlv { tag: TLV_CLONE_CTRANSID, value: TlvValue::Number(*e) },
                Tlv { tag: TLV_CLONE_PATH, value: TlvValue::Bytes(copy_of(f.as_slice())) },
                Tlv { tag: TLV_CLONE_OFFSET, value: TlvValue::Number(*g) },
            ],
        Command::Truncate(a, b) => vec![
                Tlv { tag: TLV_PATH, value: TlvValue::Bytes(copy_of(a.as_slice())) },
                Tlv { tag: TLV_SIZE, value: TlvValue::Number(*b) },
            ],
        Command::Chmod(a, b) => vec![
                Tlv { tag: TLV_PATH, value: TlvValue::Bytes(copy_of(a.as_slice())) },
                Tlv { tag: TLV_MODE, value: TlvValue::Number(*b) },
            ],
        Command::Chown(a, b, c) => vec![
                Tlv { tag: TLV_PATH, value: TlvValue::Bytes(copy_of(a.as_slice())) },
                Tlv { tag: TLV_UID, value: TlvValue::Number(*b) },
                Tlv { tag: TLV_GID, value: TlvValue::Number(*c) },
            ],
        Command::Utimes(a, b, c, d) => vec![
                Tlv { tag: TLV_PATH, value: TlvValue::Bytes(copy_of(a.as_slice())) },
                Tlv { tag: TLV_ATIME, value: TlvValue::Time(*b) },
                Tlv { tag: TLV_MTIME, value: TlvValue::Time(*c) },
                Tlv { tag: TLV_CTIME, value: TlvValue::Time(*d) },
            ],
        Command::End => Vec::new(),
        Command::UpdateExtent(a, b, c) => vec![
                Tlv { tag: TLV_PATH, value: TlvValue::Bytes(copy_of(a.as_slice())) },
                Tlv { tag: TLV_OFFSET, value: TlvValue::Number(*b) },
                Tlv { tag: TLV_SIZE, value: TlvValue::Number(*c) },
            ],
    };
    assert(tlvs_view(r@) =~= command_tlvs(cmd@));
    r
}

/// Whether `t` can be written (see `tlv_wf`).
pub fn tlv_is_encodable(t: &Tlv<Vec<u8>>) -> (r: bool)
    ensures
        r == tlv_wf(t@),
{
    if !crate::decode::tlv_has_tag(t, t.tag) {
        return false;
    }
    match &t.value {
        TlvValue::Bytes(b) => b.len() < 65536,
        _ => true,
    }
}

pub proof fn lemma_encode_tlvs_push(s: Seq<Tlv<Seq<u8>>>, t: Tlv<Seq<u8>>)
    ensures
        encode_tlvs_spec(s.push(t)) == encode_tlvs_spec(s) + encode_tlv_spec(t),
    decreases s.len(),
{
    if s.len() == 0 {
        assert(s.push(t).subrange(1, 1) =~= Seq::<Tlv<Seq<u8>>>::empty());
        assert(s.push(t)[0] == t);
        assert(encode_tlvs_spec(Seq::<Tlv<Seq<u8>>>::empty()) =~= Seq::<u8>::empty());
        assert(encode_tlvs_spec(s) =~= Seq::<u8>::empty());
        assert(encode_tlvs_spec(s.push(t)) =~= encode_tlv_spec(t));
    } else {
        let others = s.subrange(1, s.len() as int);
        assert(s.push(t).subrange(1, s.len() as int + 1) =~= others.push(t));
        lemma_encode_tlvs_push(others, t);
        assert(encode_tlvs_spec(s.push(t)) =~= encode_tlvs_spec(s) + encode_tlv_spec(t));
    }
}

pub proof fn lemma_encode_frames_push(s: Seq<Command<Seq<u8>>>, c: Command<Seq<u8>>)
    ensures
        encode_frames_spec(s.push(c)) == encode_frames_spec(s) + encode_frame_spec(c),
    decreases s.len(),
{
    if s.len() == 0 {
        assert(s.push(c).subrange(1, 1) =~= Seq::<Command<Seq<u8>>>::empty());
        assert(s.push(c)[0] == c);
        assert(encode_frames_spec(Seq::<Command<Seq<u8>>>::empty()) =~= Seq::<u8>::empty());
        assert(encode_frames_spec(s) =~= Seq::<u8>::empty());
        assert(encode_frames_spec(s.push(c)) =~= encode_frame_spec(c));
    } else {
        let others = s.subrange(1, s.len() as int);
        assert(s.push(c).subrange(1, s.len() as int + 1) =~= others.push(c));
        lemma_encode_frames_push(others, c);
        assert(encode_frames_spec(s.push(c)) =~= encode_frames_spec(s) + encode_frame_spec(c));
    }
}

/// Appends the bytes of one TLV.
pub fn encode_tlv(out: &mut Vec<u8>, t: &Tlv<Vec<u8>>)
    requires
        tlv_wf(t@),
    ensures
        final(out)@ == old(out)@ + encode_tlv_spec(t@),
{
    let ghost start = out@;
    push_be16(out, t.tag);
    match &t.value {
        TlvValue::Bytes(b) => {
            push_be16(out, b.len() as u16);
            push_bytes(out, b.as_slice());
        },
        TlvValue::Number(n) => {
            push_be16(out, 8);
            push_be64(out, *n);
        },
        TlvValue::Time(ts) => {
            push_be16(out, 12);
            push_be64(out, ts.secs);
            push_be32(out, ts.nsecs);
        },
        TlvValue::Marker => {
            push_be16(out, 0);
        },
    }
    assert(out@ =~= start + encode_tlv_spec(t@));
}

/// Appends the bytes of a run of TLVs.
pub fn encode_tlvs(out: &mut Vec<u8>, ts: &[Tlv<Vec<u8>>])
    requires
        tlvs_wf(tlvs_view(ts@)),
    ensures
        final(out)@ == old(out)@ + encode_tlvs_spec(tlvs_view(ts@)),
{
    let ghost start = out@;
    let ghost all = tlvs_view(ts@);
    let mut i: usize = 0;
    assert(all.subrange(0, 0) =~= Seq::<Tlv<Seq<u8>>>::empty());
    assert(out@ =~= start + encode_tlvs_spec(all.subrange(0, 0)));
    while i < ts.len()
        invariant
            i <= ts@.len(),
            all == tlvs_view(ts@),
            tlvs_wf(all),
            out@ == start + encode_tlvs_spec(all.subrange(0, i as int)),
        decreases ts@.len() - i,
    {
        assert(tlv_wf(all[i as int]));
        encode_tlv(out, &ts[i]);
        proof {
            assert(all.subrange(0, i + 1) =~= all.subrange(0, i as int).push(all[i as int]));
            lemma_encode_tlvs_push(all.subrange(0, i as int), all[i as int]);
        }
        i = i + 1;
        assert(out@ =~= start + encode_tlvs_spec(all.subrange(0, i as int)));
    }
    assert(all.subrange(0, i as int) =~= all);
}

/// Whether `cmd` can be written (see `command_wf`).
pub fn command_is_encodable(cmd: &Command<Vec<u8>>) -> (r: bool)
    ensures
        r == command_wf(cmd@),
{
    let ts = command_tlvs_of(cmd);
    let mut i: usize = 0;
    while i < ts.len()
        invariant
            i <= ts@.len(),
            tlvs_view(ts@) == command_tlvs(cmd@),
            forall|j: int| 0 <= j < i ==> #[trigger] tlv_wf(tlvs_view(ts@)[j]),
        decreases ts@.len() - i,
    {
        if !tlv_is_encodable(&ts[i]) {
            assert(!tlv_wf(tlvs_view(ts@)[i as int]));
            return false;
        }
        i = i + 1;
    }
    true
}

/// The payload of the frame of `cmd`.
pub fn encode_payload(cmd: &Command<Vec<u8>>) -> (r: Vec<u8>)
    requires
        command_wf(cmd@),
    ensures
        r@ == payload_spec(cmd@),
        r@.len() <= 7 * 65539,
{
    let ts = command_tlvs_of(cmd);
    let mut payload: Vec<u8> = Vec::new();
    encode_tlvs(&mut payload, ts.as_slice());
    assert(payload@ =~= payload_spec(cmd@));
    proof {
        lemma_payload_round_trip(cmd@);
    }
    payload
}

/// Appends the frame of `cmd`: length, type, checksum and payload.
pub fn encode_command(out: &mut Vec<u8>, cmd: &Command<Vec<u8>>)
    requires
        command_wf(cmd@),
    ensures
        final(out)@ == old(out)@ + encode_frame_spec(cmd@),
{
    let ghost start = out@;
    let payload = encode_payload(cmd);
    let sum = checksum(payload.as_slice(), 0, payload.len());
    assert(payload@.subrange(0, payload@.len() as int) =~= payload@);
    push_be32(out, payload.len() as u32);
    push_be16(out, command_type_of(cmd));
    push_be32(out, sum);
    push_bytes(out, payload.as_slice());
    proof {
        reveal(encode_frame_spec);
    }
    assert(out@ =~= start + encode_frame_spec(cmd@));
}

/// Encodes `cmds` as a stream: the header, then one frame per command.
/// Returns `None` when a command cannot be written (see `command_wf`).
pub fn encode(cmds: &[Command<Vec<u8>>]) -> (r: Option<Vec<u8>>)
    ensures
        r is Some <==> commands_wf(commands_view(cmds@)),
        r matches Some(v) ==> v@ == encode_stream_spec(commands_view(cmds@)),
{
    let ghost all = commands_view(cmds@);
    let mut k: usize = 0;
    while k < cmds.len()
        invariant
            k <= cmds@.len(),
            all == commands_view(cmds@),
            forall|j: int| 0 <= j < k ==> #[trigger] command_wf(all[j]),
        decreases cmds@.len() - k,
    {
        if !command_is_encodable(&cmds[k]) {
            assert(!command_wf(all[k as int]));
            return None;
        }
        k = k + 1;
    }
    let mut out: Vec<u8> = vec![
        0x62u8, 0x74, 0x72, 0x66, 0x73, 0x2d, 0x73, 0x74, 0x72, 0x65, 0x61, 0x6d, 0x00,
    ];
    assert(out@ =~= stream_magic());
    push_be32(&mut out, STREAM_VERSION);
    let ghost header = out@;
    let mut i: usize = 0;
    assert(all.subrange(0, 0) =~= Seq::<Command<Seq<u8>>>::empty());
    assert(out@ =~= header + encode_frames_spec(all.subrange(0, 0)));
    while i < cmds.len()
        invariant
            i <= cmds@.len(),
            all == commands_view(cmds@),
            commands_wf(all),
            header == stream_magic() + be32_bytes(STREAM_VERSION as nat),
            out@ == header + encode_frames_spec(all.subrange(0, i as int)),
        decreases cmds@.len() - i,
    {
        assert(command_wf(all[i as int]));
        encode_command(&mut out, &cmds[i]);
        proof {
            assert(all.subrange(0, i + 1) =~= all.subrange(0, i as int).push(all[i as int]));
            lemma_encode_frames_push(all.subrange(0, i as int), all[i as int]);
        }
        i = i + 1;
        assert(out@ =~= header + encode_frames_spec(all.subrange(0, i as int)));
    }
    assert(all.subrange(0, i as int) =~= all);
    Some(out)
}

} // verus!
