use ruthless::decode::{decode, parse_btrfs_header, parse_mkfile_command, parse_write_command};
use ruthless::encode::{command_is_encodable, encode};
use ruthless::stream::{Command, StreamError, Timespec, Tlv, TlvValue};

const MAGIC: &[u8] = b"btrfs-stream\0";

fn header() -> Vec<u8> {
    let mut v = MAGIC.to_vec();
    v.extend_from_slice(&1u32.to_be_bytes());
    v
}

fn tlv(tag: u16, value: &[u8]) -> Vec<u8> {
    let mut v = tag.to_be_bytes().to_vec();
    v.extend_from_slice(&(value.len() as u16).to_be_bytes());
    v.extend_from_slice(value);
    v
}

fn frame(ty: u16, payload: &[u8]) -> Vec<u8> {
    let sum = payload.iter().fold(0u32, |a, b| a.wrapping_add(*b as u32));
    let mut v = (payload.len() as u32).to_be_bytes().to_vec();
    v.extend_from_slice(&ty.to_be_bytes());
    v.extend_from_slice(&sum.to_be_bytes());
    v.extend_from_slice(payload);
    v
}

fn mkfile_stream() -> Vec<u8> {
    let mut s = header();
    s.extend(frame(3, &tlv(15, b"/hello")));
    s
}

#[test]
fn decodes_single_mkfile_frame() {
    let commands = decode(&mkfile_stream()).unwrap();
    assert_eq!(commands, vec![Command::Mkfile(b"/hello".to_vec())]);
}

#[test]
fn header_gives_version() {
    assert_eq!(parse_btrfs_header(&mkfile_stream()), Ok(1));
}

#[test]
fn corrupted_magic_fails_before_any_frame() {
    for i in 0..13 {
        let mut s = mkfile_stream();
        s[i] ^= 0x01;
        assert_eq!(decode(&s), Err(StreamError::InvalidMagicNumber));
    }
    let mut junk = b"btrfs-streaX\0".to_vec();
    junk.extend_from_slice(&[0xff; 40]);
    assert_eq!(decode(&junk), Err(StreamError::InvalidMagicNumber));
    assert_eq!(decode(b"btrfs"), Err(StreamError::InvalidMagicNumber));
}

#[test]
fn truncated_header_fails() {
    assert_eq!(decode(b"btrfs-stream\0\0\0"), Err(StreamError::NotEnoughBytesToParseU32));
}

#[test]
fn header_only_stream_is_empty() {
    assert_eq!(decode(&header()), Ok(vec![]));
}

#[test]
fn mutated_payload_byte_fails_checksum() {
    let good = mkfile_stream();
    let payload_start = 17 + 10;
    for i in payload_start..good.len() {
        let mut s = good.clone();
        s[i] = s[i].wrapping_add(1);
        let declared: u32 = tlv(15, b"/hello").iter().map(|b| *b as u32).sum();
        let actual = declared + 1;
        assert_eq!(decode(&s), Err(StreamError::InvalidChecksum(declared, actual)));
    }
}

#[test]
fn wrong_declared_checksum_fails() {
    let mut s = mkfile_stream();
    s[17 + 6 + 3] ^= 0x10;
    let actual: u32 = tlv(15, b"/hello").iter().map(|b| *b as u32).sum();
    assert_eq!(decode(&s), Err(StreamError::InvalidChecksum(actual ^ 0x10, actual)));
}

#[test]
fn checksum_wraps_at_32_bits() {
    let data = vec![0xffu8; 300];
    let mut payload = tlv(15, b"/f");
    payload.extend(tlv(18, &7u64.to_be_bytes()));
    payload.extend(tlv(19, &data));
    let mut s = header();
    s.extend(frame(15, &payload));
    let commands = decode(&s).unwrap();
    assert_eq!(commands, vec![Command::Write(b"/f".to_vec(), 7, data)]);
}

#[test]
fn too_many_tlvs_fails_arity() {
    let mut payload = tlv(15, b"/a");
    payload.extend(tlv(15, b"/b"));
    let mut s = header();
    s.extend(frame(3, &payload));
    assert_eq!(decode(&s), Err(StreamError::WrongNumberOfTlvs(2, 1)));
}

#[test]
fn too_few_tlvs_fails_arity() {
    let mut s = header();
    s.extend(frame(15, &tlv(15, b"/a")));
    assert_eq!(decode(&s), Err(StreamError::WrongNumberOfTlvs(1, 3)));
}

#[test]
fn end_takes_no_tlvs() {
    let mut s = header();
    s.extend(frame(21, &tlv(15, b"/a")));
    assert_eq!(decode(&s), Err(StreamError::WrongNumberOfTlvs(1, 0)));
}

#[test]
fn wrong_kind_at_position_fails() {
    let mut payload = tlv(15, b"/f");
    payload.extend(tlv(4, &7u64.to_be_bytes()));
    payload.extend(tlv(19, b"data"));
    let mut s = header();
    s.extend(frame(15, &payload));
    assert_eq!(decode(&s), Err(StreamError::UnexpectedTlv));
}

#[test]
fn assemblers_check_layout() {
    let path = Tlv { tag: 15, value: TlvValue::Bytes(b"/x".to_vec()) };
    let offset = Tlv { tag: 18, value: TlvValue::Number(3) };
    let data = Tlv { tag: 19, value: TlvValue::Bytes(b"abc".to_vec()) };
    assert_eq!(
        parse_write_command(&[path.clone(), offset.clone(), data.clone()]),
        Ok(Command::Write(b"/x".to_vec(), 3, b"abc".to_vec()))
    );
    assert_eq!(
        parse_write_command(&[path.clone(), data.clone(), offset.clone()]),
        Err(StreamError::UnexpectedTlv)
    );
    assert_eq!(parse_mkfile_command(&[]), Err(StreamError::WrongNumberOfTlvs(0, 1)));
    let shaped_wrong = Tlv { tag: 15, value: TlvValue::Number(1) };
    assert_eq!(parse_mkfile_command(&[shaped_wrong]), Err(StreamError::UnexpectedTlv));
}

#[test]
fn unknown_command_type_fails() {
    let mut s = header();
    s.extend(frame(99, &tlv(15, b"/a")));
    assert_eq!(decode(&s), Err(StreamError::InvalidCommandType(99)));
}

#[test]
fn unknown_tlv_tag_fails() {
    let mut s = header();
    s.extend(frame(3, &tlv(25, b"/a")));
    assert_eq!(decode(&s), Err(StreamError::InvalidTlvType(25)));
}

#[test]
fn truncated_frame_header_fails() {
    let mut s = header();
    s.extend_from_slice(&[0, 0, 0]);
    assert_eq!(decode(&s), Err(StreamError::NotEnoughBytesToParseU32));
    let mut s = header();
    s.extend_from_slice(&[0, 0, 0, 0, 0]);
    assert_eq!(decode(&s), Err(StreamError::NotEnoughBytesToParseU16));
    let mut s = header();
    s.extend_from_slice(&[0, 0, 0, 0, 0, 3, 0]);
    assert_eq!(decode(&s), Err(StreamError::NotEnoughBytesToParseU32));
}

#[test]
fn truncated_payload_fails() {
    let mut s = mkfile_stream();
    s.pop();
    assert_eq!(decode(&s), Err(StreamError::UnexpectedLength(10)));
}

#[test]
fn truncated_tlvs_fail() {
    let mut s = header();
    s.extend(frame(3, &[0, 15, 0]));
    assert_eq!(decode(&s), Err(StreamError::NotEnoughBytesToParseU16));
    let mut s = header();
    s.extend(frame(3, &tlv(15, b"/abc")[..6]));
    assert_eq!(decode(&s), Err(StreamError::UnexpectedLength(4)));
    let mut s = header();
    s.extend(frame(17, &tlv(4, &[1, 2, 3])));
    assert_eq!(decode(&s), Err(StreamError::NotEnoughBytesToParseU64));
    let mut s = header();
    s.extend(frame(20, &tlv(9, &[0; 10])));
    assert_eq!(decode(&s), Err(StreamError::NotEnoughBytesToParseU32));
    let mut s = header();
    s.extend(frame(1, &tlv(1, &[0; 5])));
    assert_eq!(decode(&s), Err(StreamError::UnexpectedLength(16)));
}

#[test]
fn numbers_are_big_endian() {
    let mut payload = tlv(15, b"/n");
    payload.extend(tlv(5, &0x0102030405060708u64.to_be_bytes()));
    payload.extend(tlv(8, &[0, 0, 0, 0, 0, 0, 1, 0]));
    let mut s = header();
    s.extend(frame(5, &payload));
    assert_eq!(
        decode(&s),
        Ok(vec![Command::Mknod(b"/n".to_vec(), 0x0102030405060708, 256)])
    );
}

#[test]
fn times_are_seconds_then_nanoseconds() {
    let mut t = 5u64.to_be_bytes().to_vec();
    t.extend_from_slice(&7u32.to_be_bytes());
    let mut payload = tlv(15, b"/t");
    payload.extend(tlv(11, &t));
    payload.extend(tlv(10, &t));
    payload.extend(tlv(9, &t));
    let mut s = header();
    s.extend(frame(20, &payload));
    let ts = Timespec { secs: 5, nsecs: 7 };
    assert_eq!(decode(&s), Ok(vec![Command::Utimes(b"/t".to_vec(), ts, ts, ts)]));
}

fn sample_commands() -> Vec<Command<Vec<u8>>> {
    let uuid = (0u8..16).collect::<Vec<u8>>();
    let parent = (16u8..32).collect::<Vec<u8>>();
    let t = Timespec { secs: 1_600_000_000, nsecs: 999 };
    vec![
        Command::Snapshot(b"snap".to_vec(), uuid.clone(), 9, parent.clone(), 8),
        Command::Mkdir(b"etc".to_vec()),
        Command::Mkfile(b"etc/hosts".to_vec()),
        Command::Write(b"etc/hosts".to_vec(), 0, b"127.0.0.1 localhost\n".to_vec()),
        Command::Chmod(b"etc/hosts".to_vec(), 0o644),
        Command::Chown(b"etc/hosts".to_vec(), 0, 0),
        Command::Utimes(b"etc/hosts".to_vec(), t, t, t),
        Command::Symlink(b"etc/link".to_vec(), b"hosts".to_vec()),
        Command::Link(b"etc/hard".to_vec(), b"etc/hosts".to_vec()),
        Command::Rename(b"etc/hard".to_vec(), b"etc/hard2".to_vec()),
        Command::SetXattr(b"etc".to_vec(), b"user.k".to_vec(), b"v".to_vec()),
        Command::RemoveXattr(b"etc".to_vec(), b"user.k".to_vec()),
        Command::Truncate(b"etc/hosts".to_vec(), 4),
        Command::Clone(b"a".to_vec(), 1, 2, uuid.clone(), 3, b"b".to_vec(), 4),
        Command::UpdateExtent(b"a".to_vec(), 5, 6),
        Command::Mknod(b"dev/null".to_vec(), 0o20666, 259),
        Command::Mkfifo(b"fifo".to_vec()),
        Command::Mksock(b"sock".to_vec()),
        Command::Unlink(b"fifo".to_vec()),
        Command::Rmdir(b"tmp".to_vec()),
        Command::End,
        Command::Subvol(b"base".to_vec(), parent, 1),
        Command::End,
    ]
}

#[test]
fn round_trip_of_every_command_kind() {
    let commands = sample_commands();
    let bytes = encode(&commands).unwrap();
    assert_eq!(&bytes[..13], MAGIC);
    assert_eq!(decode(&bytes), Ok(commands));
}

#[test]
fn round_trip_of_nothing() {
    let bytes = encode(&[]).unwrap();
    assert_eq!(bytes, header());
    assert_eq!(decode(&bytes), Ok(vec![]));
}

#[test]
fn encoding_matches_hand_written_frame() {
    let bytes = encode(&[Command::Mkfile(b"/hello".to_vec())]).unwrap();
    assert_eq!(bytes, mkfile_stream());
}

#[test]
fn decoding_continues_past_end() {
    let mut s = mkfile_stream();
    s.extend(frame(21, &[]));
    s.extend(frame(4, &tlv(15, b"/d")));
    s.extend(frame(21, &[]));
    assert_eq!(
        decode(&s),
        Ok(vec![
            Command::Mkfile(b"/hello".to_vec()),
            Command::End,
            Command::Mkdir(b"/d".to_vec()),
            Command::End,
        ])
    );
}

#[test]
fn unencodable_commands_are_refused() {
    let long = vec![b'x'; 65536];
    assert!(!command_is_encodable(&Command::Mkfile(long.clone())));
    assert!(command_is_encodable(&Command::Mkfile(vec![b'x'; 65535])));
    assert!(!command_is_encodable(&Command::Subvol(b"s".to_vec(), vec![1, 2], 0)));
    assert_eq!(encode(&[Command::End, Command::Mkfile(long)]), None);
}
