//! Decoding of the change-log stream, proved to agree with `decode_spec`.
use vstd::prelude::*;
use crate::stream::{
    assemble, bytes_of, command_result_view, commands_view, decode_spec, number_of,
    parse_frame_spec, parse_frames_spec, parse_payload_spec, parse_tlv_spec, parse_tlvs_spec,
    stream_magic, tag_kind, time_of, tlv_fits, tlvs_fit, tlvs_view, Command, StreamError, Timespec,
    Tlv, TlvKind, TlvValue, CMD_CHMOD, CMD_CHOWN, CMD_CLONE, CMD_END, CMD_LINK, CMD_MKDIR,
    CMD_MKFIFO, CMD_MKFILE, CMD_MKNOD, CMD_MKSOCK, CMD_REMOVE_XATTR, CMD_RENAME, CMD_RMDIR,
    CMD_SET_XATTR, CMD_SNAPSHOT, CMD_SUBVOL, CMD_SYMLINK, CMD_TRUNCATE, CMD_UNLINK,
    CMD_UPDATE_EXTENT, CMD_UTIMES, CMD_WRITE, FRAME_HEADER_SIZE, HEADER_SIZE, TLV_ATIME,
    TLV_CLONE_CTRANSID, TLV_CLONE_LENGTH, TLV_CLONE_OFFSET, TLV_CLONE_PATH, TLV_CLONE_UUID,
    TLV_CTIME, TLV_DATA, TLV_GID, TLV_INODE, TLV_MODE, TLV_MTIME, TLV_OFFSET, TLV_OTIME, TLV_PATH,
    TLV_PATH_LINK, TLV_PATH_TO, TLV_RDEV, TLV_SIZE, TLV_TRANSID, TLV_UID, TLV_UUID, TLV_XATTR_DATA,
    TLV_XATTR_NAME, UUID_SIZE,
};
use crate::wire::{checksum, read_be16, read_be32, read_be64};

verus! {

/// The bytes of `s` from `pos` on.
pub open spec fn rest(s: Seq<u8>, pos: int) -> Seq<u8> {
    s.subrange(pos, s.len() as int)
}

pub open spec fn tlv_result_view(r: Result<(Tlv<Vec<u8>>, usize), StreamError>) -> Result<
    (Tlv<Seq<u8>>, nat),
    StreamError,
> {
    match r {
        Ok((t, n)) => Ok((t@, n as nat)),
        Err(e) => Err(e),
    }
}

pub open spec fn frame_result_view(r: Result<(Command<Vec<u8>>, usize), StreamError>) -> Result<
    (Command<Seq<u8>>, nat),
    StreamError,
> {
    match r {
        Ok((c, n)) => Ok((c@, n as nat)),
        Err(e) => Err(e),
    }
}

/// `done` followed by what `r` holds, or the error of `r`.
pub open spec fn prepend<T>(done: Seq<T>, r: Result<Seq<T>, StreamError>) -> Result<
    Seq<T>,
    StreamError,
> {
    match r {
        Ok(ts) => Ok(done + ts),
        Err(e) => Err(e),
    }
}

/// Reads `length` bytes at `pos`.
pub fn parse_data(src: &[u8], pos: usize, length: u32) -> (r: Result<Vec<u8>, StreamError>)
    requires
        pos <= src@.len(),
    ensures
        pos + length <= src@.len() ==> (r matches Ok(v) && v@ == src@.subrange(
            pos as int,
            pos + length,
        )),
        pos + length > src@.len() ==> r == Err::<Vec<u8>, StreamError>(
            StreamError::UnexpectedLength(length),
        ),
{
    if src.len() - pos < length as usize {
        return Err(StreamError::UnexpectedLength(length));
    }
    let end = pos + length as usize;
    let mut data: Vec<u8> = Vec::new();
    let mut i: usize = pos;
    while i < end
        invariant
            pos <= i <= end <= src@.len(),
            data@ == src@.subrange(pos as int, i as int),
        decreases end - i,
    {
        data.push(src[i]);
        i = i + 1;
        assert(data@ =~= src@.subrange(pos as int, i as int));
    }
    Ok(data)
}

/// Reads a path of `length` bytes at `pos`.
pub fn parse_path(src: &[u8], pos: usize, length: u32) -> (r: Result<Vec<u8>, StreamError>)
    requires
        pos <= src@.len(),
    ensures
        pos + length <= src@.len() ==> (r matches Ok(v) && v@ == src@.subrange(
            pos as int,
            pos + length,
        )),
        pos + length > src@.len() ==> r == Err::<Vec<u8>, StreamError>(
            StreamError::UnexpectedLength(length),
        ),
{
    parse_data(src, pos, length)
}

/// Reads a sixteen-byte UUID at `pos`.
pub fn parse_uuid(src: &[u8], pos: usize) -> (r: Result<Vec<u8>, StreamError>)
    requires
        pos <= src@.len(),
    ensures
        pos + 16 <= src@.len() ==> (r matches Ok(v) && v@ == src@.subrange(pos as int, pos + 16)),
        pos + 16 > src@.len() ==> r == Err::<Vec<u8>, StreamError>(
            StreamError::UnexpectedLength(16),
        ),
{
    parse_data(src, pos, UUID_SIZE as u32)
}

/// Reads a time at `pos`: eight bytes of seconds, four of nanoseconds.
pub fn parse_timespec(src: &[u8], pos: usize) -> (r: Result<Timespec, StreamError>)
    requires
        pos <= src@.len(),
    ensures
        pos + 8 > src@.len() ==> r == Err::<Timespec, StreamError>(
            StreamError::NotEnoughBytesToParseU64,
        ),
        pos + 8 <= src@.len() < pos + 12 ==> r == Err::<Timespec, StreamError>(
            StreamError::NotEnoughBytesToParseU32,
        ),
        pos + 12 <= src@.len() ==> r == Ok::<Timespec, StreamError>(
            Timespec {
                secs: crate::wire::be64(src@.subrange(pos as int, pos + 8)) as u64,
                nsecs: crate::wire::be32(src@.subrange(pos + 8, pos + 12)) as u32,
            },
        ),
{
    if src.len() - pos < 8 {
        return Err(StreamError::NotEnoughBytesToParseU64);
    }
    let secs = read_be64(src, pos);
    if src.len() - pos < 12 {
        return Err(StreamError::NotEnoughBytesToParseU32);
    }
    let nsecs = read_be32(src, pos + 8);
    Ok(Timespec { secs, nsecs })
}

/// The shape of value that `tag` carries.
pub fn tlv_kind(tag: u16) -> (r: Option<TlvKind>)
    ensures
        r == tag_kind(tag),
{
    if tag == TLV_UUID || tag == TLV_CLONE_UUID {
        Some(TlvKind::Uuid)
    } else if tag == TLV_TRANSID || (TLV_SIZE <= tag && tag <= TLV_RDEV) || tag == TLV_OFFSET
        || tag == TLV_CLONE_CTRANSID || tag == TLV_CLONE_OFFSET || tag == TLV_CLONE_LENGTH {
        Some(TlvKind::Number)
    } else if tag == TLV_INODE {
        Some(TlvKind::Marker)
    } else if TLV_CTIME <= tag && tag <= TLV_OTIME {
        Some(TlvKind::Time)
    } else if (TLV_XATTR_NAME <= tag && tag <= TLV_PATH_LINK) || tag == TLV_DATA || tag
        == TLV_CLONE_PATH {
        Some(TlvKind::Bytes)
    } else {
        None
    }
}

/// Reads one TLV at `pos`; returns it with the number of bytes it took.
pub fn parse_tlv(src: &[u8], pos: usize) -> (r: Result<(Tlv<Vec<u8>>, usize), StreamError>)
    requires
        pos <= src@.len(),
    ensures
        tlv_result_view(r) == parse_tlv_spec(rest(src@, pos as int)),
{
    let ghost p = rest(src@, pos as int);
    if src.len() - pos < 4 {
        return Err(StreamError::NotEnoughBytesToParseU16);
    }
    let tag = read_be16(src, pos);
    let length = read_be16(src, pos + 2);
    assert(p.subrange(0, 2) =~= src@.subrange(pos as int, pos + 2));
    assert(p.subrange(2, 4) =~= src@.subrange(pos + 2, pos + 4));
    let body = pos + 4;
    match tlv_kind(tag) {
        None => Err(StreamError::InvalidTlvType(tag)),
        Some(TlvKind::Uuid) => {
            let b = parse_uuid(src, body)?;
            assert(p.subrange(4, 20) =~= src@.subrange(body as int, body + 16));
            Ok((Tlv { tag, value: TlvValue::Bytes(b) }, 20))
        },
        Some(TlvKind::Number) => {
            if src.len() - body < 8 {
                return Err(StreamError::NotEnoughBytesToParseU64);
            }
            let n = read_be64(src, body);
            assert(p.subrange(4, 12) =~= src@.subrange(body as int, body + 8));
            Ok((Tlv { tag, value: TlvValue::Number(n) }, 12))
        },
        Some(TlvKind::Time) => {
            let t = parse_timespec(src, body)?;
            assert(p.subrange(4, 12) =~= src@.subrange(body as int, body + 8));
            assert(p.subrange(12, 16) =~= src@.subrange(body + 8, body + 12));
            Ok((Tlv { tag, value: TlvValue::Time(t) }, 16))
        },
        Some(TlvKind::Marker) => Ok((Tlv { tag, value: TlvValue::Marker }, 4)),
        Some(TlvKind::Bytes) => {
            let is_path = (TLV_PATH <= tag && tag <= TLV_PATH_LINK) || tag == TLV_CLONE_PATH;
            let b = if is_path {
                parse_path(src, body, length as u32)?
            } else {
                parse_data(src, body, length as u32)?
            };
            assert(p.subrange(4, 4 + length as int) =~= src@.subrange(
                body as int,
                body + length as int,
            ));
            Ok((Tlv { tag, value: TlvValue::Bytes(b) }, 4 + length as usize))
        },
    }
}

pub proof fn lemma_parse_tlv_size(p: Seq<u8>)
    ensures
        parse_tlv_spec(p) matches Ok((_, n)) ==> 4 <= n <= p.len(),
{
}

/// Reads TLVs until `payload` is used up.
pub fn parse_tlvs(payload: &[u8]) -> (r: Result<Vec<Tlv<Vec<u8>>>, StreamError>)
    ensures
        match r {
            Ok(v) => parse_tlvs_spec(payload@) == Ok::<_, StreamError>(tlvs_view(v@)),
            Err(e) => parse_tlvs_spec(payload@) == Err::<Seq<Tlv<Seq<u8>>>, _>(e),
        },
{
    let mut tlvs: Vec<Tlv<Vec<u8>>> = Vec::new();
    let mut pos: usize = 0;
    assert(rest(payload@, 0) =~= payload@);
    while pos < payload.len()
        invariant
            pos <= payload@.len(),
            parse_tlvs_spec(payload@) == prepend(
                tlvs_view(tlvs@),
                parse_tlvs_spec(rest(payload@, pos as int)),
            ),
        decreases payload@.len() - pos,
    {
        let ghost p = rest(payload@, pos as int);
        let ghost before = tlvs_view(tlvs@);
        proof {
            lemma_parse_tlv_size(p);
        }
        let (t, n) = parse_tlv(payload, pos)?;
        assert(p.subrange(n as int, p.len() as int) =~= rest(payload@, pos + n));
        tlvs.push(t);
        pos = pos + n;
        assert(tlvs_view(tlvs@) =~= before.push(t@));
        assert(before + (seq![t@] + match parse_tlvs_spec(rest(payload@, pos as int)) {
            Ok(ts) => ts,
            Err(_) => Seq::empty(),
        }) =~= before.push(t@) + match parse_tlvs_spec(rest(payload@, pos as int)) {
            Ok(ts) => ts,
            Err(_) => Seq::empty(),
        });
    }
    assert(rest(payload@, pos as int) =~= Seq::<u8>::empty());
    assert(tlvs_view(tlvs@) + Seq::<Tlv<Seq<u8>>>::empty() =~= tlvs_view(tlvs@));
    Ok(tlvs)
}

/// Whether `t` has tag `tag` and a value of that tag's shape.
pub fn tlv_has_tag(t: &Tlv<Vec<u8>>, tag: u16) -> (r: bool)
    ensures
        r == tlv_fits(t@, tag),
{
    if t.tag != tag {
        return false;
    }
    match tlv_kind(tag) {
        None => false,
        Some(TlvKind::Uuid) => match &t.value {
            TlvValue::Bytes(b) => b.len() == UUID_SIZE,
            _ => false,
        },
        Some(TlvKind::Bytes) => match &t.value {
            TlvValue::Bytes(_) => true,
            _ => false,
        },
        Some(TlvKind::Number) => match &t.value {
            TlvValue::Number(_) => true,
            _ => false,
        },
        Some(TlvKind::Time) => match &t.value {
            TlvValue::Time(_) => true,
            _ => false,
        },
        Some(TlvKind::Marker) => match &t.value {
            TlvValue::Marker => true,
            _ => false,
        },
    }
}

/// Checks that `tlvs` has as many TLVs as `layout`, each with the tag that
/// `layout` gives at its position.
pub fn check_layout(tlvs: &[Tlv<Vec<u8>>], layout: &[u16]) -> (r: Result<(), StreamError>)
    ensures
        tlvs@.len() != layout@.len() ==> r == Err::<(), StreamError>(
            StreamError::WrongNumberOfTlvs(tlvs@.len() as usize, layout@.len() as usize),
        ),
        tlvs@.len() == layout@.len() && !tlvs_fit(tlvs_view(tlvs@), layout@) ==> r == Err::<
            (),
            StreamError,
        >(StreamError::UnexpectedTlv),
        tlvs_fit(tlvs_view(tlvs@), layout@) ==> r is Ok,
{
    if tlvs.len() != layout.len() {
        return Err(StreamError::WrongNumberOfTlvs(tlvs.len(), layout.len()));
    }
    let mut i: usize = 0;
    while i < layout.len()
        invariant
            tlvs@.len() == layout@.len(),
            i <= layout@.len(),
            forall|j: int| 0 <= j < i ==> #[trigger] tlv_fits(tlvs_view(tlvs@)[j], layout@[j]),
        decreases layout@.len() - i,
    {
        if !tlv_has_tag(&tlvs[i], layout[i]) {
            assert(!tlv_fits(tlvs_view(tlvs@)[i as int], layout@[i as int]));
            return Err(StreamError::UnexpectedTlv);
        }
        i = i + 1;
    }
    Ok(())
}

/// The bytes of the `i`-th TLV's value (empty if it holds no bytes).
fn bytes_at(tlvs: &[Tlv<Vec<u8>>], i: usize) -> (r: Vec<u8>)
    requires
        i < tlvs@.len(),
    ensures
        r@ == bytes_of(tlvs@[i as int]@),
{
    match &tlvs[i].value {
        TlvValue::Bytes(b) => {
            let c = b.clone();
            assert(c@ =~= b@);
            c
        },
        _ => Vec::new(),
    }
}

/// The number of the `i`-th TLV's value (zero if it holds no number).
fn number_at(tlvs: &[Tlv<Vec<u8>>], i: usize) -> (r: u64)
    requires
        i < tlvs@.len(),
    ensures
        r == number_of(tlvs@[i as int]@),
{
    match &tlvs[i].value {
        TlvValue::Number(n) => *n,
        _ => 0,
    }
}

/// The time of the `i`-th TLV's value (zero if it holds no time).
fn time_at(tlvs: &[Tlv<Vec<u8>>], i: usize) -> (r: Timespec)
    requires
        i < tlvs@.len(),
    ensures
        r == time_of(tlvs@[i as int]@),
{
    match &tlvs[i].value {
        TlvValue::Time(t) => *t,
        _ => Timespec { secs: 0, nsecs: 0 },
    }
}

/// Assembles a subvolume's start: path, UUID, transaction id.
pub fn parse_subvol_command(tlvs: &[Tlv<Vec<u8>>]) -> (r: Result<Command<Vec<u8>>, StreamError>)
    ensures
        command_result_view(r) == assemble(CMD_SUBVOL, tlvs_view(tlvs@)),
{
    let layout: [u16; 3] = [TLV_PATH, TLV_UUID, TLV_CLONE_CTRANSID];
    assert(layout@ =~= seq![TLV_PATH, TLV_UUID, TLV_CLONE_CTRANSID]);
    check_layout(tlvs, &layout)?;
    Ok(Command::Subvol(bytes_at(tlvs, 0), bytes_at(tlvs, 1), number_at(tlvs, 2)))
}

/// Assembles a snapshot's start: path, UUID, transaction id, parent UUID, parent transaction id.
pub fn parse_snapshot_command(tlvs: &[Tlv<Vec<u8>>]) -> (r: Result<Command<Vec<u8>>, StreamError>)
    ensures
        command_result_view(r) == assemble(CMD_SNAPSHOT, tlvs_view(tlvs@)),
{
    let layout: [u16; 5] = [TLV_PATH, TLV_UUID, TLV_CLONE_CTRANSID, TLV_UUID, TLV_CLONE_CTRANSID];
    assert(layout@ =~= seq![TLV_PATH, TLV_UUID, TLV_CLONE_CTRANSID, TLV_UUID, TLV_CLONE_CTRANSID]);
    check_layout(tlvs, &layout)?;
    Ok(Command::Snapshot(bytes_at(tlvs, 0), bytes_at(tlvs, 1), number_at(tlvs, 2), bytes_at(tlvs, 3), number_at(tlvs, 4)))
}

/// Assembles the creation of a regular file.
pub fn parse_mkfile_command(tlvs: &[Tlv<Vec<u8>>]) -> (r: Result<Command<Vec<u8>>, StreamError>)
    ensures
        command_result_view(r) == assemble(CMD_MKFILE, tlvs_view(tlvs@)),
{
    let layout: [u16; 1] = [TLV_PATH];
    assert(layout@ =~= seq![TLV_PATH]);
    check_layout(tlvs, &layout)?;
    Ok(Command::Mkfile(bytes_at(tlvs, 0)))
}

/// Assembles the creation of a directory.
pub fn parse_mkdir_command(tlvs: &[Tlv<Vec<u8>>]) -> (r: Result<Command<Vec<u8>>, StreamError>)
    ensures
        command_result_view(r) == assemble(CMD_MKDIR, tlvs_view(tlvs@)),
{
    let layout: [u16; 1] = [TLV_PATH];
    assert(layout@ =~= seq![TLV_PATH]);
    check_layout(tlvs, &layout)?;
    Ok(Command::Mkdir(bytes_at(tlvs, 0)))
}

/// Assembles the creation of a device node: path, mode, device.
pub fn parse_mknod_command(tlvs: &[Tlv<Vec<u8>>]) -> (r: Result<Command<Vec<u8>>, StreamError>)
    ensures
        command_result_view(r) == assemble(CMD_MKNOD, tlvs_view(tlvs@)),
{
    let layout: [u16; 3] = [TLV_PATH, TLV_MODE, TLV_RDEV];
    assert(layout@ =~= seq![TLV_PATH, TLV_MODE, TLV_RDEV]);
    check_layout(tlvs, &layout)?;
    Ok(Command::Mknod(bytes_at(tlvs, 0), number_at(tlvs, 1), number_at(tlvs, 2)))
}

/// Assembles the creation of a named pipe.
pub fn parse_mkfifo_command(tlvs: &[Tlv<Vec<u8>>]) -> (r: Result<Command<Vec<u8>>, StreamError>)
    ensures
        command_result_view(r) == assemble(CMD_MKFIFO, tlvs_view(tlvs@)),
{
    let layout: [u16; 1] = [TLV_PATH];
    assert(layout@ =~= seq![TLV_PATH]);
    check_layout(tlvs, &layout)?;
    Ok(Command::Mkfifo(bytes_at(tlvs, 0)))
}

/// Assembles the creation of a socket.
pub fn parse_mksock_command(tlvs: &[Tlv<Vec<u8>>]) -> (r: Result<Command<Vec<u8>>, StreamError>)
    ensures
        command_result_view(r) == assemble(CMD_MKSOCK, tlvs_view(tlvs@)),
{
    let layout: [u16; 1] = [TLV_PATH];
    assert(layout@ =~= seq![TLV_PATH]);
    check_layout(tlvs, &layout)?;
    Ok(Command::Mksock(bytes_at(tlvs, 0)))
}

/// Assembles the creation of a symbolic link: path, target.
pub fn parse_symlink_command(tlvs: &[Tlv<Vec<u8>>]) -> (r: Result<Command<Vec<u8>>, StreamError>)
    ensures
        command_result_view(r) == assemble(CMD_SYMLINK, tlvs_view(tlvs@)),
{
    let layout: [u16; 2] = [TLV_PATH, TLV_PATH_LINK];
    assert(layout@ =~= seq![TLV_PATH, TLV_PATH_LINK]);
    check_layout(tlvs, &layout)?;
    Ok(Command::Symlink(bytes_at(tlvs, 0), bytes_at(tlvs, 1)))
}

/// Assembles a rename: path, new path.
pub fn parse_rename_command(tlvs: &[Tlv<Vec<u8>>]) -> (r: Result<Command<Vec<u8>>, StreamError>)
    ensures
        command_result_view(r) == assemble(CMD_RENAME, tlvs_view(tlvs@)),
{
    let layout: [u16; 2] = [TLV_PATH, TLV_PATH_TO];
    assert(layout@ =~= seq![TLV_PATH, TLV_PATH_TO]);
    check_layout(tlvs, &layout)?;
    Ok(Command::Rename(bytes_at(tlvs, 0), bytes_at(tlvs, 1)))
}

/// Assembles the creation of a hard link: path, target.
pub fn parse_link_command(tlvs: &[Tlv<Vec<u8>>]) -> (r: Result<Command<Vec<u8>>, StreamError>)
    ensures
        command_result_view(r) == assemble(CMD_LINK, tlvs_view(tlvs@)),
{
    let layout: [u16; 2] = [TLV_PATH, TLV_PATH_LINK];
    assert(layout@ =~= seq![TLV_PATH, TLV_PATH_LINK]);
    check_layout(tlvs, &layout)?;
    Ok(Command::Link(bytes_at(tlvs, 0), bytes_at(tlvs, 1)))
}

/// Assembles the removal of a file.
pub fn parse_unlink_command(tlvs: &[Tlv<Vec<u8>>]) -> (r: Result<Command<Vec<u8>>, StreamError>)
    ensures
        command_result_view(r) == assemble(CMD_UNLINK, tlvs_view(tlvs@)),
{
    let layout: [u16; 1] = [TLV_PATH];
    assert(layout@ =~= seq![TLV_PATH]);
    check_layout(tlvs, &layout)?;
    Ok(Command::Unlink(bytes_at(tlvs, 0)))
}

/// Assembles the removal of a directory.
pub fn parse_rmdir_command(tlvs: &[Tlv<Vec<u8>>]) -> (r: Result<Command<Vec<u8>>, StreamError>)
    ensures
        command_result_view(r) == assemble(CMD_RMDIR, tlvs_view(tlvs@)),
{
    let layout: [u16; 1] = [TLV_PATH];
    assert(layout@ =~= seq![TLV_PATH]);
    check_layout(tlvs, &layout)?;
    Ok(Command::Rmdir(bytes_at(tlvs, 0)))
}

/// Assembles the setting of an extended attribute: path, name, data.
pub fn parse_set_xattr_command(tlvs: &[Tlv<Vec<u8>>]) -> (r: Result<Command<Vec<u8>>, StreamError>)
    ensures
        command_result_view(r) == assemble(CMD_SET_XATTR, tlvs_view(tlvs@)),
{
    let layout: [u16; 3] = [TLV_PATH, TLV_XATTR_NAME, TLV_XATTR_DATA];
    assert(layout@ =~= seq![TLV_PATH, TLV_XATTR_NAME, TLV_XATTR_DATA]);
    check_layout(tlvs, &layout)?;
    Ok(Command::SetXattr(bytes_at(tlvs, 0), bytes_at(tlvs, 1), bytes_at(tlvs, 2)))
}

/// Assembles the removal of an extended attribute: path, name.
pub fn parse_rm_xattr_command(tlvs: &[Tlv<Vec<u8>>]) -> (r: Result<Command<Vec<u8>>, StreamError>)
    ensures
        command_result_view(r) == assemble(CMD_REMOVE_XATTR, tlvs_view(tlvs@)),
{
    let layout: [u16; 2] = [TLV_PATH, TLV_XATTR_NAME];
    assert(layout@ =~= seq![TLV_PATH, TLV_XATTR_NAME]);
    check_layout(tlvs, &layout)?;
    Ok(Command::RemoveXattr(bytes_at(tlvs, 0), bytes_at(tlvs, 1)))
}

/// Assembles a write: path, offset, data.
pub fn parse_write_command(tlvs: &[Tlv<Vec<u8>>]) -> (r: Result<Command<Vec<u8>>, StreamError>)
    ensures
        command_result_view(r) == assemble(CMD_WRITE, tlvs_view(tlvs@)),
{
    let layout: [u16; 3] = [TLV_PATH, TLV_OFFSET, TLV_DATA];
    assert(layout@ =~= seq![TLV_PATH, TLV_OFFSET, TLV_DATA]);
    check_layout(tlvs, &layout)?;
    Ok(Command::Write(bytes_at(tlvs, 0), number_at(tlvs, 1), bytes_at(tlvs, 2)))
}

/// Assembles a range clone: path, offset, length, source UUID, source transaction id, source path, source offset.
pub fn parse_clone_command(tlvs: &[Tlv<Vec<u8>>]) -> (r: Result<Command<Vec<u8>>, StreamError>)
    ensures
        command_result_view(r) == assemble(CMD_CLONE, tlvs_view(tlvs@)),
{
    let layout: [u16; 7] = [TLV_PATH, TLV_OFFSET, TLV_CLONE_LENGTH, TLV_UUID, TLV_CLONE_CTRANSID, TLV_CLONE_PATH, TLV_CLONE_OFFSET];
    assert(layout@ =~= seq![TLV_PATH, TLV_OFFSET, TLV_CLONE_LENGTH, TLV_UUID, TLV_CLONE_CTRANSID, TLV_CLONE_PATH, TLV_CLONE_OFFSET]);
    check_layout(tlvs, &layout)?;
    Ok(Command::Clone(bytes_at(tlvs, 0), number_at(tlvs, 1), number_at(tlvs, 2), bytes_at(tlvs, 3), number_at(tlvs, 4), bytes_at(tlvs, 5), number_at(tlvs, 6)))
}

/// Assembles a truncation: path, size.
pub fn parse_truncate_command(tlvs: &[Tlv<Vec<u8>>]) -> (r: Result<Command<Vec<u8>>, StreamError>)
    ensures
        command_result_view(r) == assemble(CMD_TRUNCATE, tlvs_view(tlvs@)),
{
    let layout: [u16; 2] = [TLV_PATH, TLV_SIZE];
    assert(layout@ =~= seq![TLV_PATH, TLV_SIZE]);
    check_layout(tlvs, &layout)?;
    Ok(Command::Truncate(bytes_at(tlvs, 0), number_at(tlvs, 1)))
}

/// Assembles a mode change: path, mode.
pub fn parse_chmod_command(tlvs: &[Tlv<Vec<u8>>]) -> (r: Result<Command<Vec<u8>>, StreamError>)
    ensures
        command_result_view(r) == assemble(CMD_CHMOD, tlvs_view(tlvs@)),
{
    let layout: [u16; 2] = [TLV_PATH, TLV_MODE];
    assert(layout@ =~= seq![TLV_PATH, TLV_MODE]);
    check_layout(tlvs, &layout)?;
    Ok(Command::Chmod(bytes_at(tlvs, 0), number_at(tlvs, 1)))
}

/// Assembles an owner change: path, uid, gid.
pub fn parse_chown_command(tlvs: &[Tlv<Vec<u8>>]) -> (r: Result<Command<Vec<u8>>, StreamError>)
    ensures
        command_result_view(r) == assemble(CMD_CHOWN, tlvs_view(tlvs@)),
{
    let layout: [u16; 3] = [TLV_PATH, TLV_UID, TLV_GID];
    assert(layout@ =~= seq![TLV_PATH, TLV_UID, TLV_GID]);
    check_layout(tlvs, &layout)?;
    Ok(Command::Chown(bytes_at(tlvs, 0), number_at(tlvs, 1), number_at(tlvs, 2)))
}

/// Assembles a time change: path, atime, mtime, ctime.
pub fn parse_utimes_command(tlvs: &[Tlv<Vec<u8>>]) -> (r: Result<Command<Vec<u8>>, StreamError>)
    ensures
        command_result_view(r) == assemble(CMD_UTIMES, tlvs_view(tlvs@)),
{
    let layout: [u16; 4] = [TLV_PATH, TLV_ATIME, TLV_MTIME, TLV_CTIME];
    assert(layout@ =~= seq![TLV_PATH, TLV_ATIME, TLV_MTIME, TLV_CTIME]);
    check_layout(tlvs, &layout)?;
    Ok(Command::Utimes(bytes_at(tlvs, 0), time_at(tlvs, 1), time_at(tlvs, 2), time_at(tlvs, 3)))
}

/// Assembles an extent update: path, offset, size.
pub fn parse_extent_command(tlvs: &[Tlv<Vec<u8>>]) -> (r: Result<Command<Vec<u8>>, StreamError>)
    ensures
        command_result_view(r) == assemble(CMD_UPDATE_EXTENT, tlvs_view(tlvs@)),
{
    let layout: [u16; 3] = [TLV_PATH, TLV_OFFSET, TLV_SIZE];
    assert(layout@ =~= seq![TLV_PATH, TLV_OFFSET, TLV_SIZE]);
    check_layout(tlvs, &layout)?;
    Ok(Command::UpdateExtent(bytes_at(tlvs, 0), number_at(tlvs, 1), number_at(tlvs, 2)))
}

/// Interprets the payload of a frame of type `type_number`.
pub fn parse_btrfs_type(type_number: u16, data: &[u8]) -> (r: Result<Command<Vec<u8>>, StreamError>)
    ensures
        command_result_view(r) == parse_payload_spec(type_number, data@),
{
    let tlvs = parse_tlvs(data)?;
    let t = tlvs.as_slice();
    match type_number {
        CMD_SUBVOL => parse_subvol_command(t),
        CMD_SNAPSHOT => parse_snapshot_command(t),
        CMD_MKFILE => parse_mkfile_command(t),
        CMD_MKDIR => parse_mkdir_command(t),
        CMD_MKNOD => parse_mknod_command(t),
        CMD_MKFIFO => parse_mkfifo_command(t),
        CMD_MKSOCK => parse_mksock_command(t),
        CMD_SYMLINK => parse_symlink_command(t),
        CMD_RENAME => parse_rename_command(t),
        CMD_LINK => parse_link_command(t),
        CMD_UNLINK => parse_unlink_command(t),
        CMD_RMDIR => parse_rmdir_command(t),
        CMD_SET_XATTR => parse_set_xattr_command(t),
        CMD_REMOVE_XATTR => parse_rm_xattr_command(t),
        CMD_WRITE => parse_write_command(t),
        CMD_CLONE => parse_clone_command(t),
        CMD_TRUNCATE => parse_truncate_command(t),
        CMD_CHMOD => parse_chmod_command(t),
        CMD_CHOWN => parse_chown_command(t),
        CMD_UTIMES => parse_utimes_command(t),
        CMD_UPDATE_EXTENT => parse_extent_command(t),
        CMD_END => {
            let layout: [u16; 0] = [];
            assert(layout@ =~= Seq::<u16>::empty());
            check_layout(t, &layout)?;
            Ok(Command::End)
        },
        _ => Err(StreamError::InvalidCommandType(type_number)),
    }
}

/// Reads one frame at `pos`: checks its checksum and interprets its
/// payload. Returns the command with the number of bytes the frame took.
pub fn parse_btrfs_command(src: &[u8], pos: usize) -> (r: Result<(Command<Vec<u8>>, usize), StreamError>)
    requires
        pos <= src@.len(),
    ensures
        frame_result_view(r) == parse_frame_spec(rest(src@, pos as int)),
{
    let ghost s = rest(src@, pos as int);
    let avail = src.len() - pos;
    if avail < 4 {
        return Err(StreamError::NotEnoughBytesToParseU32);
    }
    let length = read_be32(src, pos);
    assert(s.subrange(0, 4) =~= src@.subrange(pos as int, pos + 4));
    if avail < 6 {
        return Err(StreamError::NotEnoughBytesToParseU16);
    }
    let type_number = read_be16(src, pos + 4);
    assert(s.subrange(4, 6) =~= src@.subrange(pos + 4, pos + 6));
    if avail < FRAME_HEADER_SIZE {
        return Err(StreamError::NotEnoughBytesToParseU32);
    }
    let declared = read_be32(src, pos + 6);
    assert(s.subrange(6, 10) =~= src@.subrange(pos + 6, pos + 10));
    let start = pos + FRAME_HEADER_SIZE;
    let data = parse_data(src, start, length)?;
    let end = start + length as usize;
    assert(s.subrange(10, 10 + length as int) =~= src@.subrange(start as int, end as int));
    let sum = checksum(src, start, end);
    if sum != declared {
        return Err(StreamError::InvalidChecksum(declared, sum));
    }
    let command = parse_btrfs_type(type_number, data.as_slice())?;
    Ok((command, FRAME_HEADER_SIZE + length as usize))
}

/// Checks the stream header: the magic string, then a version. Returns the
/// version, which nothing else depends on.
pub fn parse_btrfs_header(src: &[u8]) -> (r: Result<u32, StreamError>)
    ensures
        src@.len() < 13 || src@.subrange(0, 13) != stream_magic() ==> r == Err::<u32, StreamError>(
            StreamError::InvalidMagicNumber,
        ),
        src@.len() >= 13 && src@.subrange(0, 13) == stream_magic() && src@.len()
            < HEADER_SIZE ==> r == Err::<u32, StreamError>(StreamError::NotEnoughBytesToParseU32),
        src@.len() >= HEADER_SIZE && src@.subrange(0, 13) == stream_magic() ==> r == Ok::<
            u32,
            StreamError,
        >(crate::wire::be32(src@.subrange(13, 17)) as u32),
{
    let magic: [u8; 13] = [
        0x62, 0x74, 0x72, 0x66, 0x73, 0x2d, 0x73, 0x74, 0x72, 0x65, 0x61, 0x6d, 0x00,
    ];
    assert(magic@ =~= stream_magic());
    if src.len() < 13 {
        return Err(StreamError::InvalidMagicNumber);
    }
    let mut i: usize = 0;
    while i < 13
        invariant
            13 <= src@.len(),
            i <= 13,
            magic@ == stream_magic(),
            forall|j: int| 0 <= j < i ==> src@[j] == magic@[j],
        decreases 13 - i,
    {
        if src[i] != magic[i] {
            assert(src@.subrange(0, 13)[i as int] != stream_magic()[i as int]);
            return Err(StreamError::InvalidMagicNumber);
        }
        i = i + 1;
    }
    assert(src@.subrange(0, 13) =~= stream_magic());
    if src.len() < HEADER_SIZE {
        return Err(StreamError::NotEnoughBytesToParseU32);
    }
    Ok(read_be32(src, 13))
}

/// Decodes a whole stream into its commands, in order. Frames are read up
/// to the end of the bytes, past any `End` command.
pub fn decode(src: &[u8]) -> (r: Result<Vec<Command<Vec<u8>>>, StreamError>)
    ensures
        match r {
            Ok(v) => decode_spec(src@) == Ok::<_, StreamError>(commands_view(v@)),
            Err(e) => decode_spec(src@) == Err::<Seq<Command<Seq<u8>>>, _>(e),
        },
{
    parse_btrfs_header(src)?;
    let mut commands: Vec<Command<Vec<u8>>> = Vec::new();
    let mut pos: usize = HEADER_SIZE;
    while pos < src.len()
        invariant
            HEADER_SIZE <= pos <= src@.len(),
            src@.subrange(0, 13) == stream_magic(),
            decode_spec(src@) == prepend(
                commands_view(commands@),
                parse_frames_spec(rest(src@, pos as int)),
            ),
        decreases src@.len() - pos,
    {
        let ghost s = rest(src@, pos as int);
        let ghost before = commands_view(commands@);
        let (c, n) = parse_btrfs_command(src, pos)?;
        assert(s.subrange(n as int, s.len() as int) =~= rest(src@, pos + n));
        commands.push(c);
        pos = pos + n;
        assert(commands_view(commands@) =~= before.push(c@));
        assert(before + (seq![c@] + match parse_frames_spec(rest(src@, pos as int)) {
            Ok(cs) => cs,
            Err(_) => Seq::empty(),
        }) =~= before.push(c@) + match parse_frames_spec(rest(src@, pos as int)) {
            Ok(cs) => cs,
            Err(_) => Seq::empty(),
        });
    }
    assert(rest(src@, pos as int) =~= Seq::<u8>::empty());
    assert(commands_view(commands@) + Seq::<Command<Seq<u8>>>::empty() =~= commands_view(
        commands@,
    ));
    Ok(commands)
}

} // verus!
