use ruthless::digest::{hex_lower, layer_id};
use ruthless::import::{
    build_layer_stack, extract_latest_content, image_name_from_tarball, import_from_layer_stack,
    layer_name, recover_from_eexist, ImportError, ImportStep, LayerRecord, RepositoryEntry,
    StoreError,
};
use ruthless::layers::{
    create_steps_queues, entry_kind_of, path_to_file_name_str, plan_layer, whiteout_target_of,
    EntryKind, LayerStep,
};
use ruthless::lineage::{
    get_btrfs_subvolume_stack, BtrfsSubvolInfo, BtrfsTimespec, BtrfsVolArgs, LineageError,
};
use ruthless::replay::{is_subvolume, layer_parents, process_command, process_subvolume, ReplayAction};
use ruthless::stream::{Command, Timespec};

fn paths(ps: &[&str]) -> Vec<Vec<u8>> {
    ps.iter().map(|p| p.as_bytes().to_vec()).collect()
}

#[test]
fn entry_kinds_follow_whiteout_naming() {
    assert_eq!(entry_kind_of(b"a/b/.wh..wh..opq"), EntryKind::OpaqueWhiteout);
    assert_eq!(entry_kind_of(b".wh..wh..opq"), EntryKind::OpaqueWhiteout);
    assert_eq!(entry_kind_of(b"a/.wh.foo"), EntryKind::Whiteout);
    assert_eq!(entry_kind_of(b".wh.bin"), EntryKind::Whiteout);
    assert_eq!(entry_kind_of(b".wh..wh.x/file"), EntryKind::Modification);
    assert_eq!(entry_kind_of(b"bin/"), EntryKind::Modification);
    assert_eq!(entry_kind_of(b"a/wh.foo"), EntryKind::Modification);
    assert_eq!(path_to_file_name_str(b"usr/lib/libc.so"), b"libc.so".to_vec());
    assert_eq!(whiteout_target_of(b"a/b/.wh.foo"), b"a/b/foo".to_vec());
    assert_eq!(whiteout_target_of(b".wh.bin"), b"bin".to_vec());
}

#[test]
fn queues_keep_archive_order() {
    let ps = paths(&["x", "d/.wh.a", "d/.wh..wh..opq", "y", "d/.wh.b", "e/.wh..wh..opq"]);
    let (opaque, whiteouts, modifications) = create_steps_queues(&ps);
    assert_eq!(
        opaque,
        vec![LayerStep::ClearDirectory(b"d/".to_vec()), LayerStep::ClearDirectory(b"e/".to_vec())]
    );
    assert_eq!(
        whiteouts,
        vec![LayerStep::Remove(b"d/a".to_vec()), LayerStep::Remove(b"d/b".to_vec())]
    );
    assert_eq!(modifications, vec![LayerStep::Unpack(0), LayerStep::Unpack(3)]);
}

#[test]
fn opaque_whiteouts_come_before_modifications() {
    let ps = paths(&["d/a", "d/b", "d/c", "d/.wh..wh..opq"]);
    assert_eq!(
        plan_layer(&ps),
        vec![
            LayerStep::ClearDirectory(b"d/".to_vec()),
            LayerStep::Unpack(0),
            LayerStep::Unpack(1),
            LayerStep::Unpack(2),
        ]
    );
}

#[test]
fn whiteout_plan_removes_only_its_target() {
    let ps = paths(&["keep", ".wh.foo"]);
    assert_eq!(plan_layer(&ps), vec![LayerStep::Remove(b"foo".to_vec()), LayerStep::Unpack(0)]);
}

fn info(name: &str, uuid: u8, parent: u8) -> BtrfsSubvolInfo {
    BtrfsSubvolInfo {
        treeid: 256 + uuid as u64,
        name: name.as_bytes().to_vec(),
        parent_id: 0,
        dirid: 256,
        generation: 1,
        flags: 0,
        uuid: vec![uuid; 16],
        parent_uuid: vec![parent; 16],
        received_uuid: vec![0; 16],
        ctransid: 0,
        otransid: 0,
        stransid: 0,
        rtransid: 0,
        ctime: BtrfsTimespec::default(),
        otime: BtrfsTimespec::default(),
        stime: BtrfsTimespec::default(),
        rtime: BtrfsTimespec::default(),
    }
}

#[test]
fn base_lineage_has_one_record() {
    let infos = vec![info("other", 9, 0), info("base", 1, 0)];
    assert_eq!(get_btrfs_subvolume_stack(&infos, b"base"), Ok(vec![1]));
}

#[test]
fn three_layer_lineage_is_base_first() {
    let infos = vec![info("top", 3, 2), info("base", 1, 0), info("mid", 2, 1)];
    assert_eq!(get_btrfs_subvolume_stack(&infos, b"top"), Ok(vec![1, 2, 0]));
}

#[test]
fn lineage_errors() {
    let infos = vec![info("a", 1, 2), info("b", 2, 1), info("c", 3, 7)];
    assert_eq!(get_btrfs_subvolume_stack(&infos, b"a"), Err(LineageError::Cycle));
    assert_eq!(get_btrfs_subvolume_stack(&infos, b"c"), Ok(vec![2]));
    assert_eq!(get_btrfs_subvolume_stack(&infos, b"z"), Err(LineageError::NotFound));
}

#[test]
fn vol_args_pad_name() {
    let args = BtrfsVolArgs::new(-1, b"img");
    assert_eq!(args.fd, -1);
    assert_eq!(args.name.len(), 4088);
    assert_eq!(&args.name[..4], b"img\0");
    assert!(args.name[3..].iter().all(|b| *b == 0));
    let long = vec![b'x'; 5000];
    assert_eq!(BtrfsVolArgs::new(0, &long).name, vec![b'x'; 4088]);
}

#[test]
fn image_name_is_file_name_up_to_dot() {
    assert_eq!(image_name_from_tarball(b"/tmp/alpine.tar.gz"), Ok(b"alpine".to_vec()));
    assert_eq!(image_name_from_tarball(b"busybox"), Ok(b"busybox".to_vec()));
    assert_eq!(image_name_from_tarball(b"/tmp/"), Err(ImportError::NoFileName));
}

#[test]
fn repositories_lookup() {
    let repos = vec![
        RepositoryEntry { name: b"alpine".to_vec(), latest: b"l1".to_vec() },
        RepositoryEntry { name: b"debian".to_vec(), latest: b"l9".to_vec() },
    ];
    assert_eq!(extract_latest_content(&repos, b"debian"), Ok(b"l9".to_vec()));
    assert_eq!(
        extract_latest_content(&repos, b"ubuntu"),
        Err(ImportError::RepositoryFileIncomplete(
            b"ubuntu".to_vec(),
            vec![b"alpine".to_vec(), b"debian".to_vec()]
        ))
    );
}

fn record(id: &str, parent: Option<&str>) -> LayerRecord {
    LayerRecord { id: id.as_bytes().to_vec(), parent: parent.map(|p| p.as_bytes().to_vec()) }
}

#[test]
fn layer_stack_is_base_first() {
    let layers = vec![record("c", Some("b")), record("a", None), record("b", Some("a"))];
    assert_eq!(
        build_layer_stack(&layers, b"c"),
        Ok(vec![b"a".to_vec(), b"b".to_vec(), b"c".to_vec()])
    );
    assert_eq!(build_layer_stack(&layers, b"a"), Ok(vec![b"a".to_vec()]));
}

#[test]
fn layer_stack_errors() {
    let layers = vec![record("c", Some("x"))];
    assert_eq!(build_layer_stack(&layers, b"c"), Err(ImportError::MissingLayer(b"x".to_vec())));
    let looped = vec![record("a", Some("b")), record("b", Some("a"))];
    assert_eq!(build_layer_stack(&looped, b"a"), Err(ImportError::LayerCycle));
}

#[test]
fn two_layer_import_plan() {
    let repos = vec![RepositoryEntry { name: b"img".to_vec(), latest: b"child".to_vec() }];
    let layers = vec![record("child", Some("base")), record("base", None)];
    let latest = extract_latest_content(&repos, b"img").unwrap();
    let stack = build_layer_stack(&layers, &latest).unwrap();
    assert_eq!(stack, vec![b"base".to_vec(), b"child".to_vec()]);
    let steps = import_from_layer_stack(b"img", &stack).unwrap();
    assert_eq!(
        steps,
        vec![
            ImportStep::CreateSubvolume { name: b"base".to_vec(), layer: b"base".to_vec() },
            ImportStep::Snapshot {
                name: b"img".to_vec(),
                parent: b"base".to_vec(),
                layer: b"child".to_vec(),
            },
        ]
    );
    let child_plan = plan_layer(&paths(&[".wh.bin"]));
    assert_eq!(child_plan, vec![LayerStep::Remove(b"bin".to_vec())]);
}

#[test]
fn single_layer_import_uses_image_name() {
    let steps = import_from_layer_stack(b"img", &[b"only".to_vec()]).unwrap();
    assert_eq!(
        steps,
        vec![ImportStep::CreateSubvolume { name: b"img".to_vec(), layer: b"only".to_vec() }]
    );
    assert_eq!(import_from_layer_stack(b"img", &[]), Err(ImportError::NoLayers));
    assert_eq!(layer_name(b"img", b"l1", 0), b"img".to_vec());
    assert_eq!(layer_name(b"img", b"l1", 2), b"l1".to_vec());
}

#[test]
fn already_exists_is_swallowed() {
    assert_eq!(recover_from_eexist(Err(StoreError::AlreadyExists)), Ok(()));
    assert_eq!(recover_from_eexist(Err(StoreError::NotFound)), Err(StoreError::NotFound));
    assert_eq!(recover_from_eexist(Err(StoreError::Other(5))), Err(StoreError::Other(5)));
    assert_eq!(recover_from_eexist(Ok(())), Ok(()));
}

#[test]
fn replay_actions() {
    let t = Timespec { secs: 1, nsecs: 2 };
    let u = Timespec { secs: 3, nsecs: 4 };
    assert_eq!(
        process_command(&Command::Mkfile(b"f".to_vec())),
        Some(ReplayAction::CreateFile(b"f".to_vec(), 0o600))
    );
    assert_eq!(
        process_command(&Command::Write(b"f".to_vec(), 8, b"xy".to_vec())),
        Some(ReplayAction::WriteAt(b"f".to_vec(), 8, b"xy".to_vec()))
    );
    assert_eq!(
        process_command(&Command::Utimes(b"f".to_vec(), t, u, t)),
        Some(ReplayAction::SetTimes(b"f".to_vec(), t, u))
    );
    assert_eq!(
        process_command(&Command::Clone(b"a".to_vec(), 1, 2, vec![0; 16], 3, b"b".to_vec(), 4)),
        None
    );
    assert_eq!(process_command(&Command::UpdateExtent(b"a".to_vec(), 1, 2)), None);
    assert_eq!(process_command(&Command::End), None);
    assert!(is_subvolume(&Command::Subvol(b"s".to_vec(), vec![0; 16], 1)));
    assert!(!is_subvolume(&Command::End));
}

#[test]
fn replay_of_snapshot_transcript_copies_parent_first() {
    let cmds = vec![
        Command::Snapshot(b"s".to_vec(), vec![1; 16], 1, vec![2; 16], 1),
        Command::Mkdir(b"d".to_vec()),
        Command::End,
    ];
    assert_eq!(
        process_subvolume(&cmds),
        vec![ReplayAction::CopyParent, ReplayAction::CreateDir(b"d".to_vec(), 0o700)]
    );
    let base = vec![Command::Subvol(b"s".to_vec(), vec![1; 16], 1), Command::Mkfile(b"f".to_vec())];
    assert_eq!(process_subvolume(&base), vec![ReplayAction::CreateFile(b"f".to_vec(), 0o600)]);
}

#[test]
fn export_parents_chain() {
    let ids = vec![b"a".to_vec(), b"b".to_vec(), b"c".to_vec()];
    assert_eq!(layer_parents(&ids), vec![None, Some(b"a".to_vec()), Some(b"b".to_vec())]);
}

#[test]
fn layer_id_is_hex_sha256() {
    assert_eq!(
        layer_id(b""),
        b"e3b0c44298fc1c149afbf4c8996fb92427ae41e4649b934ca495991b7852b855".to_vec()
    );
    assert_eq!(
        layer_id(b"abc"),
        b"ba7816bf8f01cfea414140de5dae2223b00361a396177a9cb410ff61f20015ad".to_vec()
    );
    assert_eq!(hex_lower(&[0x00, 0x9f, 0xff]), b"009fff".to_vec());
}
