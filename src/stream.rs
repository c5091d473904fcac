//! The subvolume change-log stream: its records and what decoding means.
//!
//! A stream is a 13-byte magic string, a 4-byte version and a run of frames.
//! A frame is `{u32 length, u16 command type, u32 checksum, payload}`, all
//! integers big-endian; its payload is a run of TLVs `{u16 tag, u16 length,
//! value}`. Each command type expects a fixed ordered list of TLV tags.
use vstd::prelude::*;
use crate::wire::{be16, be32, be64, checksum_of};

verus! {

pub const TLV_UUID: u16 = 1;
pub const TLV_TRANSID: u16 = 2;
pub const TLV_INODE: u16 = 3;
pub const TLV_SIZE: u16 = 4;
pub const TLV_MODE: u16 = 5;
pub const TLV_UID: u16 = 6;
pub const TLV_GID: u16 = 7;
pub const TLV_RDEV: u16 = 8;
pub const TLV_CTIME: u16 = 9;
pub const TLV_MTIME: u16 = 10;
pub const TLV_ATIME: u16 = 11;
pub const TLV_OTIME: u16 = 12;
pub const TLV_XATTR_NAME: u16 = 13;
pub const TLV_XATTR_DATA: u16 = 14;
pub const TLV_PATH: u16 = 15;
pub const TLV_PATH_TO: u16 = 16;
pub const TLV_PATH_LINK: u16 = 17;
pub const TLV_OFFSET: u16 = 18;
pub const TLV_DATA: u16 = 19;
pub const TLV_CLONE_UUID: u16 = 20;
pub const TLV_CLONE_CTRANSID: u16 = 21;
pub const TLV_CLONE_PATH: u16 = 22;
pub const TLV_CLONE_OFFSET: u16 = 23;
pub const TLV_CLONE_LENGTH: u16 = 24;

pub const CMD_SUBVOL: u16 = 1;
pub const CMD_SNAPSHOT: u16 = 2;
pub const CMD_MKFILE: u16 = 3;
pub const CMD_MKDIR: u16 = 4;
pub const CMD_MKNOD: u16 = 5;
pub const CMD_MKFIFO: u16 = 6;
pub const CMD_MKSOCK: u16 = 7;
pub const CMD_SYMLINK: u16 = 8;
pub const CMD_RENAME: u16 = 9;
pub const CMD_LINK: u16 = 10;
pub const CMD_UNLINK: u16 = 11;
pub const CMD_RMDIR: u16 = 12;
pub const CMD_SET_XATTR: u16 = 13;
pub const CMD_REMOVE_XATTR: u16 = 14;
pub const CMD_WRITE: u16 = 15;
pub const CMD_CLONE: u16 = 16;
pub const CMD_TRUNCATE: u16 = 17;
pub const CMD_CHMOD: u16 = 18;
pub const CMD_CHOWN: u16 = 19;
pub const CMD_UTIMES: u16 = 20;
pub const CMD_END: u16 = 21;
pub const CMD_UPDATE_EXTENT: u16 = 22;

/// Number of bytes in a subvolume UUID.
pub const UUID_SIZE: usize = 16;

/// Length of the stream header: magic string and version.
pub const HEADER_SIZE: usize = 17;

/// Length of a frame header: length, command type and checksum.
pub const FRAME_HEADER_SIZE: usize = 10;

/// A point in time: seconds and nanoseconds.
#[derive(Clone, Copy, Debug, PartialEq, Eq)]
pub struct Timespec {
    pub secs: u64,
    pub nsecs: u32,
}

/// The shape of the value that a TLV tag carries.
#[derive(Clone, Copy, Debug, PartialEq, Eq)]
pub enum TlvKind {
    /// Sixteen bytes.
    Uuid,
    /// A big-endian `u64`.
    Number,
    /// A big-endian `u64` of seconds and a big-endian `u32` of nanoseconds.
    Time,
    /// No value at all.
    Marker,
    /// As many bytes as the TLV's length says.
    Bytes,
}

/// The value of a TLV; `B` is `Vec<u8>` in executable code and `Seq<u8>`
/// in specifications.
#[derive(Clone, Debug, PartialEq, Eq)]
pub enum TlvValue<B> {
    Bytes(B),
    Number(u64),
    Time(Timespec),
    Marker,
}

/// One type-length-value record of a frame's payload.
#[derive(Clone, Debug, PartialEq, Eq)]
pub struct Tlv<B> {
    pub tag: u16,
    pub value: TlvValue<B>,
}

/// One filesystem mutation of the stream. Paths, names, data and UUIDs are
/// byte strings of type `B`: `Vec<u8>` in executable code, `Seq<u8>` in
/// specifications.
#[derive(Clone, Debug, PartialEq, Eq)]
pub enum Command<B> {
    /// path, uuid, ctransid
    Subvol(B, B, u64),
    /// path, uuid, ctransid, clone uuid, clone ctransid
    Snapshot(B, B, u64, B, u64),
    Mkfile(B),
    Mkdir(B),
    /// path, mode, rdev
    Mknod(B, u64, u64),
    Mkfifo(B),
    Mksock(B),
    /// path, link target
    Symlink(B, B),
    /// path, new path
    Rename(B, B),
    /// path, link target
    Link(B, B),
    Unlink(B),
    Rmdir(B),
    /// path, attribute name, attribute data
    SetXattr(B, B, B),
    /// path, attribute name
    RemoveXattr(B, B),
    /// path, offset, data
    Write(B, u64, B),
    /// path, offset, length, clone uuid, clone ctransid, clone path, clone offset
    Clone(B, u64, u64, B, u64, B, u64),
    /// path, size
    Truncate(B, u64),
    /// path, mode
    Chmod(B, u64),
    /// path, uid, gid
    Chown(B, u64, u64),
    /// path, atime, mtime, ctime
    Utimes(B, Timespec, Timespec, Timespec),
    End,
    /// path, offset, size
    UpdateExtent(B, u64, u64),
}

/// Why a stream could not be decoded.
#[derive(Clone, Copy, Debug, PartialEq, Eq)]
pub enum StreamError {
    /// The declared checksum, then the checksum of the payload.
    InvalidChecksum(u32, u32),
    InvalidCommandType(u16),
    InvalidMagicNumber,
    InvalidTlvType(u16),
    NotEnoughBytesToParseU64,
    NotEnoughBytesToParseU32,
    NotEnoughBytesToParseU16,
    UnexpectedLength(u32),
    /// The number of TLVs found, then the number expected.
    WrongNumberOfTlvs(usize, usize),
    UnexpectedTlv,
}

impl View for TlvValue<Vec<u8>> {
    type V = TlvValue<Seq<u8>>;

    open spec fn view(&self) -> TlvValue<Seq<u8>> {
        match self {
            TlvValue::Bytes(b) => TlvValue::Bytes(b@),
            TlvValue::Number(n) => TlvValue::Number(*n),
            TlvValue::Time(t) => TlvValue::Time(*t),
            TlvValue::Marker => TlvValue::Marker,
        }
    }
}

impl View for Tlv<Vec<u8>> {
    type V = Tlv<Seq<u8>>;

    open spec fn view(&self) -> Tlv<Seq<u8>> {
        Tlv { tag: self.tag, value: self.value@ }
    }
}

impl View for Command<Vec<u8>> {
    type V = Command<Seq<u8>>;

    open spec fn view(&self) -> Command<Seq<u8>> {
        match self {
            Command::Subvol(p, u, t) => Command::Subvol(p@, u@, *t),
            Command::Snapshot(p, u, t, cu, ct) => Command::Snapshot(p@, u@, *t, cu@, *ct),
            Command::Mkfile(p) => Command::Mkfile(p@),
            Command::Mkdir(p) => Command::Mkdir(p@),
            Command::Mknod(p, m, r) => Command::Mknod(p@, *m, *r),
            Command::Mkfifo(p) => Command::Mkfifo(p@),
            Command::Mksock(p) => Command::Mksock(p@),
            Command::Symlink(p, l) => Command::Symlink(p@, l@),
            Command::Rename(p, t) => Command::Rename(p@, t@),
            Command::Link(p, l) => Command::Link(p@, l@),
            Command::Unlink(p) => Command::Unlink(p@),
            Command::Rmdir(p) => Command::Rmdir(p@),
            Command::SetXattr(p, n, d) => Command::SetXattr(p@, n@, d@),
            Command::RemoveXattr(p, n) => Command::RemoveXattr(p@, n@),
            Command::Write(p, o, d) => Command::Write(p@, *o, d@),
            Command::Clone(p, o, l, cu, ct, cp, co) => Command::Clone(
                p@,
                *o,
                *l,
                cu@,
                *ct,
                cp@,
                *co,
            ),
            Command::Truncate(p, s) => Command::Truncate(p@, *s),
            Command::Chmod(p, m) => Command::Chmod(p@, *m),
            Command::Chown(p, u, g) => Command::Chown(p@, *u, *g),
            Command::Utimes(p, a, m, c) => Command::Utimes(p@, *a, *m, *c),
            Command::End => Command::End,
            Command::UpdateExtent(p, o, s) => Command::UpdateExtent(p@, *o, *s),
        }
    }
}

pub open spec fn tlvs_view(ts: Seq<Tlv<Vec<u8>>>) -> Seq<Tlv<Seq<u8>>> {
    ts.map_values(|t: Tlv<Vec<u8>>| t@)
}

pub open spec fn commands_view(cs: Seq<Command<Vec<u8>>>) -> Seq<Command<Seq<u8>>> {
    cs.map_values(|c: Command<Vec<u8>>| c@)
}

pub open spec fn command_result_view(r: Result<Command<Vec<u8>>, StreamError>) -> Result<
    Command<Seq<u8>>,
    StreamError,
> {
    match r {
        Ok(c) => Ok(c@),
        Err(e) => Err(e),
    }
}

/// The shape of value that `tag` carries, or `None` for an unknown tag.
pub open spec fn tag_kind(tag: u16) -> Option<TlvKind> {
    if tag == TLV_UUID || tag == TLV_CLONE_UUID {
        Some(TlvKind::Uuid)
    } else if tag == TLV_TRANSID || (TLV_SIZE <= tag <= TLV_RDEV) || tag == TLV_OFFSET || tag
        == TLV_CLONE_CTRANSID || tag == TLV_CLONE_OFFSET || tag == TLV_CLONE_LENGTH {
        Some(TlvKind::Number)
    } else if tag == TLV_INODE {
        Some(TlvKind::Marker)
    } else if TLV_CTIME <= tag <= TLV_OTIME {
        Some(TlvKind::Time)
    } else if (TLV_XATTR_NAME <= tag <= TLV_PATH_LINK) || tag == TLV_DATA || tag
        == TLV_CLONE_PATH {
        Some(TlvKind::Bytes)
    } else {
        None
    }
}

/// Whether `v` has the shape of `kind`.
pub open spec fn value_fits(v: TlvValue<Seq<u8>>, kind: TlvKind) -> bool {
    match (kind, v) {
        (TlvKind::Uuid, TlvValue::Bytes(b)) => b.len() == UUID_SIZE,
        (TlvKind::Bytes, TlvValue::Bytes(_)) => true,
        (TlvKind::Number, TlvValue::Number(_)) => true,
        (TlvKind::Time, TlvValue::Time(_)) => true,
        (TlvKind::Marker, TlvValue::Marker) => true,
        _ => false,
    }
}

/// Whether `t` is a TLV with tag `tag` and a value of that tag's shape.
pub open spec fn tlv_fits(t: Tlv<Seq<u8>>, tag: u16) -> bool {
    &&& t.tag == tag
    &&& tag_kind(tag) matches Some(kind)
    &&& value_fits(t.value, kind)
}

/// The ordered TLV tags that a command type expects, or `None` for an
/// unknown command type.
pub open spec fn command_layout(ty: u16) -> Option<Seq<u16>> {
    if ty == CMD_SUBVOL {
        Some(seq![TLV_PATH, TLV_UUID, TLV_CLONE_CTRANSID])
    } else if ty == CMD_SNAPSHOT {
        Some(seq![TLV_PATH, TLV_UUID, TLV_CLONE_CTRANSID, TLV_UUID, TLV_CLONE_CTRANSID])
    } else if ty == CMD_MKFILE || ty == CMD_MKDIR || ty == CMD_MKFIFO || ty == CMD_MKSOCK || ty
        == CMD_UNLINK || ty == CMD_RMDIR {
        Some(seq![TLV_PATH])
    } else if ty == CMD_MKNOD {
        Some(seq![TLV_PATH, TLV_MODE, TLV_RDEV])
    } else if ty == CMD_SYMLINK || ty == CMD_LINK {
        Some(seq![TLV_PATH, TLV_PATH_LINK])
    } else if ty == CMD_RENAME {
        Some(seq![TLV_PATH, TLV_PATH_TO])
    } else if ty == CMD_SET_XATTR {
        Some(seq![TLV_PATH, TLV_XATTR_NAME, TLV_XATTR_DATA])
    } else if ty == CMD_REMOVE_XATTR {
        Some(seq![TLV_PATH, TLV_XATTR_NAME])
    } else if ty == CMD_WRITE {
        Some(seq![TLV_PATH, TLV_OFFSET, TLV_DATA])
    } else if ty == CMD_CLONE {
        Some(
            seq![
                TLV_PATH,
                TLV_OFFSET,
                TLV_CLONE_LENGTH,
                TLV_UUID,
                TLV_CLONE_CTRANSID,
                TLV_CLONE_PATH,
                TLV_CLONE_OFFSET,
            ],
        )
    } else if ty == CMD_TRUNCATE {
        Some(seq![TLV_PATH, TLV_SIZE])
    } else if ty == CMD_CHMOD {
        Some(seq![TLV_PATH, TLV_MODE])
    } else if ty == CMD_CHOWN {
        Some(seq![TLV_PATH, TLV_UID, TLV_GID])
    } else if ty == CMD_UTIMES {
        Some(seq![TLV_PATH, TLV_ATIME, TLV_MTIME, TLV_CTIME])
    } else if ty == CMD_END {
        Some(seq![])
    } else if ty == CMD_UPDATE_EXTENT {
        Some(seq![TLV_PATH, TLV_OFFSET, TLV_SIZE])
    } else {
        None
    }
}

/// Whether each TLV has the tag that the layout expects at its position.
pub open spec fn tlvs_fit(tlvs: Seq<Tlv<Seq<u8>>>, layout: Seq<u16>) -> bool {
    &&& tlvs.len() == layout.len()
    &&& forall|i: int| 0 <= i < layout.len() ==> #[trigger] tlv_fits(tlvs[i], layout[i])
}

pub open spec fn bytes_of(t: Tlv<Seq<u8>>) -> Seq<u8> {
    match t.value {
        TlvValue::Bytes(b) => b,
        _ => Seq::empty(),
    }
}

pub open spec fn number_of(t: Tlv<Seq<u8>>) -> u64 {
    match t.value {
        TlvValue::Number(n) => n,
        _ => 0,
    }
}

pub open spec fn time_of(t: Tlv<Seq<u8>>) -> Timespec {
    match t.value {
        TlvValue::Time(ts) => ts,
        _ => Timespec { secs: 0, nsecs: 0 },
    }
}

/// The command of type `ty` built from TLVs that fit its layout.
pub open spec fn build_command(ty: u16, t: Seq<Tlv<Seq<u8>>>) -> Command<Seq<u8>> {
    if ty == CMD_SUBVOL {
        Command::Subvol(bytes_of(t[0]), bytes_of(t[1]), number_of(t[2]))
    } else if ty == CMD_SNAPSHOT {
        Command::Snapshot(
            bytes_of(t[0]),
            bytes_of(t[1]),
            number_of(t[2]),
            bytes_of(t[3]),
            number_of(t[4]),
        )
    } else if ty == CMD_MKFILE {
        Command::Mkfile(bytes_of(t[0]))
    } else if ty == CMD_MKDIR {
        Command::Mkdir(bytes_of(t[0]))
    } else if ty == CMD_MKNOD {
        Command::Mknod(bytes_of(t[0]), number_of(t[1]), number_of(t[2]))
    } else if ty == CMD_MKFIFO {
        Command::Mkfifo(bytes_of(t[0]))
    } else if ty == CMD_MKSOCK {
        Command::Mksock(bytes_of(t[0]))
    } else if ty == CMD_SYMLINK {
        Command::Symlink(bytes_of(t[0]), bytes_of(t[1]))
    } else if ty == CMD_RENAME {
        Command::Rename(bytes_of(t[0]), bytes_of(t[1]))
    } else if ty == CMD_LINK {
        Command::Link(bytes_of(t[0]), bytes_of(t[1]))
    } else if ty == CMD_UNLINK {
        Command::Unlink(bytes_of(t[0]))
    } else if ty == CMD_RMDIR {
        Command::Rmdir(bytes_of(t[0]))
    } else if ty == CMD_SET_XATTR {
        Command::SetXattr(bytes_of(t[0]), bytes_of(t[1]), bytes_of(t[2]))
    } else if ty == CMD_REMOVE_XATTR {
        Command::RemoveXattr(bytes_of(t[0]), bytes_of(t[1]))
    } else if ty == CMD_WRITE {
        Command::Write(bytes_of(t[0]), number_of(t[1]), bytes_of(t[2]))
    } else if ty == CMD_CLONE {
        Command::Clone(
            bytes_of(t[0]),
            number_of(t[1]),
            number_of(t[2]),
            bytes_of(t[3]),
            number_of(t[4]),
            bytes_of(t[5]),
            number_of(t[6]),
        )
    } else if ty == CMD_TRUNCATE {
        Command::Truncate(bytes_of(t[0]), number_of(t[1]))
    } else if ty == CMD_CHMOD {
        Command::Chmod(bytes_of(t[0]), number_of(t[1]))
    } else if ty == CMD_CHOWN {
        Command::Chown(bytes_of(t[0]), number_of(t[1]), number_of(t[2]))
    } else if ty == CMD_UTIMES {
        Command::Utimes(bytes_of(t[0]), time_of(t[1]), time_of(t[2]), time_of(t[3]))
    } else if ty == CMD_END {
        Command::End
    } else {
        Command::UpdateExtent(bytes_of(t[0]), number_of(t[1]), number_of(t[2]))
    }
}

/// Assembling a command of type `ty` from the TLVs of its payload: the
/// number of TLVs must match the type's layout, then each TLV's tag.
pub open spec fn assemble(ty: u16, tlvs: Seq<Tlv<Seq<u8>>>) -> Result<Command<Seq<u8>>, StreamError> {
    match command_layout(ty) {
        None => Err(StreamError::InvalidCommandType(ty)),
        Some(layout) => if tlvs.len() != layout.len() {
            Err(StreamError::WrongNumberOfTlvs(tlvs.len() as usize, layout.len() as usize))
        } else if !tlvs_fit(tlvs, layout) {
            Err(StreamError::UnexpectedTlv)
        } else {
            Ok(build_command(ty, tlvs))
        },
    }
}

/// Reading one TLV at the start of `p`: the TLV and the number of bytes it
/// takes. Fixed-size values take their size whatever the length field says;
/// a marker takes none.
pub open spec fn parse_tlv_spec(p: Seq<u8>) -> Result<(Tlv<Seq<u8>>, nat), StreamError> {
    if p.len() < 4 {
        Err(StreamError::NotEnoughBytesToParseU16)
    } else {
        let tag = be16(p.subrange(0, 2)) as u16;
        let len = be16(p.subrange(2, 4));
        let rest = p.len() - 4;
        match tag_kind(tag) {
            None => Err(StreamError::InvalidTlvType(tag)),
            Some(TlvKind::Uuid) => if rest < 16 {
                Err(StreamError::UnexpectedLength(16))
            } else {
                Ok((Tlv { tag, value: TlvValue::Bytes(p.subrange(4, 20)) }, 20))
            },
            Some(TlvKind::Number) => if rest < 8 {
                Err(StreamError::NotEnoughBytesToParseU64)
            } else {
                Ok((Tlv { tag, value: TlvValue::Number(be64(p.subrange(4, 12)) as u64) }, 12))
            },
            Some(TlvKind::Time) => if rest < 8 {
                Err(StreamError::NotEnoughBytesToParseU64)
            } else if rest < 12 {
                Err(StreamError::NotEnoughBytesToParseU32)
            } else {
                Ok(
                    (
                        Tlv {
                            tag,
                            value: TlvValue::Time(
                                Timespec {
                                    secs: be64(p.subrange(4, 12)) as u64,
                                    nsecs: be32(p.subrange(12, 16)) as u32,
                                },
                            ),
                        },
                        16,
                    ),
                )
            },
            Some(TlvKind::Marker) => Ok((Tlv { tag, value: TlvValue::Marker }, 4)),
            Some(TlvKind::Bytes) => if rest < len {
                Err(StreamError::UnexpectedLength(len as u32))
            } else {
                Ok((Tlv { tag, value: TlvValue::Bytes(p.subrange(4, 4 + len as int)) }, 4 + len))
            },
        }
    }
}

/// Reading TLVs until the payload `p` is used up.
pub open spec fn parse_tlvs_spec(p: Seq<u8>) -> Result<Seq<Tlv<Seq<u8>>>, StreamError>
    decreases p.len(),
{
    if p.len() == 0 {
        Ok(Seq::empty())
    } else {
        match parse_tlv_spec(p) {
            Err(e) => Err(e),
            Ok((t, n)) => if 0 < n <= p.len() {
                match parse_tlvs_spec(p.subrange(n as int, p.len() as int)) {
                    Err(e) => Err(e),
                    Ok(ts) => Ok(seq![t] + ts),
                }
            } else {
                Err(StreamError::UnexpectedLength(n as u32))
            },
        }
    }
}

/// Interpreting the payload of a frame of type `ty`.
pub open spec fn parse_payload_spec(ty: u16, payload: Seq<u8>) -> Result<Command<Seq<u8>>, StreamError> {
    match parse_tlvs_spec(payload) {
        Err(e) => Err(e),
        Ok(tlvs) => assemble(ty, tlvs),
    }
}

/// Reading one frame at the start of `s`: the command and the number of
/// bytes the frame takes.
pub open spec fn parse_frame_spec(s: Seq<u8>) -> Result<(Command<Seq<u8>>, nat), StreamError> {
    if s.len() < 4 {
        Err(StreamError::NotEnoughBytesToParseU32)
    } else if s.len() < 6 {
        Err(StreamError::NotEnoughBytesToParseU16)
    } else if s.len() < 10 {
        Err(StreamError::NotEnoughBytesToParseU32)
    } else {
        let length = be32(s.subrange(0, 4));
        let ty = be16(s.subrange(4, 6)) as u16;
        let declared = be32(s.subrange(6, 10));
        if s.len() - 10 < length {
            Err(StreamError::UnexpectedLength(length as u32))
        } else {
            let payload = s.subrange(10, 10 + length as int);
            if checksum_of(payload) != declared {
                Err(StreamError::InvalidChecksum(declared as u32, checksum_of(payload) as u32))
            } else {
                match parse_payload_spec(ty, payload) {
                    Err(e) => Err(e),
                    Ok(c) => Ok((c, 10 + length)),
                }
            }
        }
    }
}

/// Reading frames until the bytes `s` are used up.
pub open spec fn parse_frames_spec(s: Seq<u8>) -> Result<Seq<Command<Seq<u8>>>, StreamError>
    decreases s.len(),
{
    if s.len() == 0 {
        Ok(Seq::empty())
    } else {
        match parse_frame_spec(s) {
            Err(e) => Err(e),
            Ok((c, n)) => if 0 < n <= s.len() {
                match parse_frames_spec(s.subrange(n as int, s.len() as int)) {
                    Err(e) => Err(e),
                    Ok(cs) => Ok(seq![c] + cs),
                }
            } else {
                Err(StreamError::UnexpectedLength(n as u32))
            },
        }
    }
}

/// The magic string `btrfs-stream` followed by a NUL byte.
pub open spec fn stream_magic() -> Seq<u8> {
    seq![0x62u8, 0x74, 0x72, 0x66, 0x73, 0x2d, 0x73, 0x74, 0x72, 0x65, 0x61, 0x6d, 0x00]
}

/// Decoding a whole stream: the header, then every frame up to the end.
pub open spec fn decode_spec(s: Seq<u8>) -> Result<Seq<Command<Seq<u8>>>, StreamError> {
    if s.len() < 13 || s.subrange(0, 13) != stream_magic() {
        Err(StreamError::InvalidMagicNumber)
    } else if s.len() < HEADER_SIZE {
        Err(StreamError::NotEnoughBytesToParseU32)
    } else {
        parse_frames_spec(s.subrange(HEADER_SIZE as int, s.len() as int))
    }
}

} // verus!
