use ruthless::args::{
    parse_arguments, parse_cgroup_option, parse_container_subcommand, parse_help, parse_i64,
    parse_image_subcommand, parse_logs, parse_run_subcommand, parse_usize, ArgumentParsingError,
    CgroupOption, CliCommand,
};
use ruthless::cgroup::{
    cgroup_setting, container_of_cgroup, find_cgroups_path, get_ruthless_cgroup_path,
    lib_path_is_mounted, parse_pids, split_bytes, CgroupFactory,
};
use ruthless::lineage::BtrfsSubvolInfo;

fn words(ws: &[&str]) -> Vec<Vec<u8>> {
    ws.iter().map(|w| w.as_bytes().to_vec()).collect()
}

#[test]
fn numbers_parse_like_from_str() {
    assert_eq!(parse_usize(b"42"), Some(42));
    assert_eq!(parse_usize(b"+7"), Some(7));
    assert_eq!(parse_usize(b""), None);
    assert_eq!(parse_usize(b"+"), None);
    assert_eq!(parse_usize(b"-1"), None);
    assert_eq!(parse_usize(b"1x"), None);
    assert_eq!(parse_usize(b"18446744073709551615"), Some(usize::MAX));
    assert_eq!(parse_usize(b"18446744073709551616"), None);
    assert_eq!(parse_i64(b"-20"), Some(-20));
    assert_eq!(parse_i64(b"+19"), Some(19));
    assert_eq!(parse_i64(b"-9223372036854775808"), Some(i64::MIN));
    assert_eq!(parse_i64(b"9223372036854775808"), None);
    assert_eq!(parse_i64(b"-"), None);
}

#[test]
fn cgroup_options_parse() {
    let mut opts = Vec::new();
    assert_eq!(parse_cgroup_option(b"--cpu-weight=100", &mut opts), Ok(()));
    assert_eq!(parse_cgroup_option(b"--cpu-weight-nice=-5", &mut opts), Ok(()));
    assert_eq!(parse_cgroup_option(b"--cpu-max=max,100000", &mut opts), Ok(()));
    assert_eq!(parse_cgroup_option(b"--io-max=8:0 rbps=1", &mut opts), Ok(()));
    assert_eq!(parse_cgroup_option(b"--pids-max=64", &mut opts), Ok(()));
    assert_eq!(
        opts,
        vec![
            CgroupOption::CpuWeight(100),
            CgroupOption::CpuWeightNice(-5),
            CgroupOption::CpuMax(b"max".to_vec(), 100000),
            CgroupOption::IoMax(b"8:0 rbps=1".to_vec()),
            CgroupOption::PidsMax(64),
        ]
    );
    assert_eq!(
        parse_cgroup_option(b"--memory-low=lots", &mut opts),
        Err(ArgumentParsingError::CantParseNumber(b"--memory-low=lots".to_vec()))
    );
    assert_eq!(
        parse_cgroup_option(b"--cpu-max=max", &mut opts),
        Err(ArgumentParsingError::CantParseNumber(b"--cpu-max=max".to_vec()))
    );
    assert_eq!(
        parse_cgroup_option(b"--bogus=1", &mut opts),
        Err(ArgumentParsingError::InvalidArgument(b"--bogus=1".to_vec()))
    );
    assert_eq!(opts.len(), 5);
}

#[test]
fn run_arguments() {
    let cmd = parse_run_subcommand(&words(&[
        "-d", "--name=web", "--memory-min=1024", "alpine", "/bin/sh", "-c", "-d",
    ]));
    assert_eq!(
        cmd,
        Ok(CliCommand::Run {
            command: words(&["/bin/sh", "-c", "-d"]),
            detach: true,
            image: b"alpine".to_vec(),
            name: Some(b"web".to_vec()),
            resource_options: vec![CgroupOption::MemoryMin(1024)],
        })
    );
    let cmd = parse_run_subcommand(&words(&["-n", "db", "img"]));
    assert_eq!(
        cmd,
        Ok(CliCommand::Run {
            command: vec![],
            detach: false,
            image: b"img".to_vec(),
            name: Some(b"db".to_vec()),
            resource_options: vec![],
        })
    );
    assert_eq!(parse_run_subcommand(&words(&["-d"])), Err(ArgumentParsingError::MissingImage));
    assert_eq!(
        parse_run_subcommand(&words(&["-n"])),
        Err(ArgumentParsingError::MissingContainerName)
    );
    assert_eq!(
        parse_run_subcommand(&words(&["--oops"])),
        Err(ArgumentParsingError::InvalidArgument(b"--oops".to_vec()))
    );
}

#[test]
fn subcommands() {
    assert_eq!(parse_container_subcommand(&words(&["list"])), Ok(CliCommand::ListContainers));
    assert_eq!(
        parse_container_subcommand(&words(&["delete", "c1"])),
        Ok(CliCommand::DeleteContainer(b"c1".to_vec()))
    );
    assert_eq!(
        parse_container_subcommand(&words(&["delete"])),
        Err(ArgumentParsingError::MissingContainerName)
    );
    assert_eq!(
        parse_container_subcommand(&words(&[])),
        Err(ArgumentParsingError::NoContainerSubCommand)
    );
    assert_eq!(
        parse_container_subcommand(&words(&["stop"])),
        Err(ArgumentParsingError::InvalidImageSubCommand(b"stop".to_vec()))
    );
    assert_eq!(parse_image_subcommand(&words(&["list"])), Ok(CliCommand::ListImages));
    assert_eq!(
        parse_image_subcommand(&words(&["delete"])),
        Err(ArgumentParsingError::MissingImageToDelete)
    );
    assert_eq!(parse_image_subcommand(&words(&[])), Err(ArgumentParsingError::NoImageSubCommand));
    assert_eq!(parse_logs(&words(&["c1"])), Ok(CliCommand::Logs(b"c1".to_vec())));
    assert_eq!(parse_logs(&words(&[])), Err(ArgumentParsingError::MissingContainerName));
    assert_eq!(parse_help(&words(&[])), Ok(CliCommand::Help(None)));
    assert_eq!(
        parse_help(&words(&["image", "list"])),
        Ok(CliCommand::Help(Some(b"image list".to_vec())))
    );
    assert_eq!(
        parse_help(&words(&["image", "nope"])),
        Err(ArgumentParsingError::UnexpectedCommand(b"image nope".to_vec()))
    );
}

#[test]
fn whole_command_lines() {
    assert_eq!(parse_arguments(&[]), Err(ArgumentParsingError::NotEnoughArguments));
    assert_eq!(
        parse_arguments(&words(&["export", "img", "/tmp/img.tar"])),
        Ok(CliCommand::Export(b"img".to_vec(), b"/tmp/img.tar".to_vec()))
    );
    assert_eq!(parse_arguments(&words(&["export"])), Err(ArgumentParsingError::MissingImage));
    assert_eq!(
        parse_arguments(&words(&["export", "img"])),
        Err(ArgumentParsingError::MissingTarballLocation)
    );
    assert_eq!(
        parse_arguments(&words(&["import", "a.tar"])),
        Ok(CliCommand::Import(b"a.tar".to_vec()))
    );
    assert_eq!(
        parse_arguments(&words(&["import"])),
        Err(ArgumentParsingError::MissingTarballLocation)
    );
    assert_eq!(parse_arguments(&words(&["image", "list"])), Ok(CliCommand::ListImages));
    assert_eq!(
        parse_arguments(&words(&["frobnicate"])),
        Err(ArgumentParsingError::UnexpectedCommand(b"frobnicate".to_vec()))
    );
    assert!(matches!(parse_arguments(&words(&["run", "img", "ls"])), Ok(CliCommand::Run { .. })));
}

#[test]
fn cgroup_mount_point() {
    let mounts = b"sysfs /sys sysfs rw 0 0\ncgroup2 /sys/fs/cgroup cgroup2 rw 0 0\n";
    assert_eq!(find_cgroups_path(mounts), Some(b"/sys/fs/cgroup".to_vec()));
    assert_eq!(find_cgroups_path(b"proc /proc proc rw 0 0\n"), None);
    assert_eq!(find_cgroups_path(b"cgroup2"), None);
    assert_eq!(
        split_bytes(b"a,,b", b','),
        vec![b"a".to_vec(), b"".to_vec(), b"b".to_vec()]
    );
}

#[test]
fn cgroup_paths_and_settings() {
    assert_eq!(
        get_ruthless_cgroup_path(b"/sys/fs/cgroup", 1000),
        b"/sys/fs/cgroup/user.slice/user-1000.slice/user@1000.service/ruthless".to_vec()
    );
    assert_eq!(
        get_ruthless_cgroup_path(b"/cg/", 0),
        b"/cg/user.slice/user-0.slice/user@0.service/ruthless".to_vec()
    );
    let factory = CgroupFactory::new(
        b"web".to_vec(),
        vec![CgroupOption::CpuMax(b"max".to_vec(), 100000), CgroupOption::CpuWeightNice(-3)],
    );
    let plan = factory.build();
    assert_eq!(plan.parent, b"web-core".to_vec());
    assert_eq!(plan.path, b"web-core/web-processes".to_vec());
    assert_eq!(
        plan.settings,
        vec![
            (b"cpu.max".to_vec(), b"max 100000".to_vec()),
            (b"cpu.weight.nice".to_vec(), b"-3".to_vec()),
        ]
    );
    assert_eq!(
        cgroup_setting(&CgroupOption::MemoryOomGroup(1)),
        (b"memory.oom.group".to_vec(), b"1".to_vec())
    );
    assert_eq!(container_of_cgroup(b"web-core"), b"web".to_vec());
    assert_eq!(container_of_cgroup(b"misc"), b"misc".to_vec());
}

#[test]
fn repository_mount_check() {
    let mounts = b"/dev/sda1 /home/u/.local/lib/ruthless/images btrfs rw 0 0\n";
    assert!(lib_path_is_mounted(mounts, b"/home/u/.local/lib/ruthless/images"));
    assert!(!lib_path_is_mounted(mounts, b"/home/u/.local/lib/ruthless"));
    assert!(!lib_path_is_mounted(b"", b"/x"));
}

#[test]
fn pids_parse() {
    assert_eq!(parse_pids(b"12\n345\n"), Some(vec![12, 345]));
    assert_eq!(parse_pids(b"7"), Some(vec![7]));
    assert_eq!(parse_pids(b"7\nx\n"), None);
    assert_eq!(parse_pids(b"3000000000\n"), None);
}

#[test]
fn default_subvolume_record_is_zero() {
    let info = BtrfsSubvolInfo::default();
    assert_eq!(info.uuid, vec![0; 16]);
    assert_eq!(info.parent_uuid, vec![0; 16]);
    assert!(info.name.is_empty());
    assert_eq!(info.generation, 0);
}
