//! Replaying a decoded transcript into a staging directory: what each
//! command asks the filesystem to do, and how exported layers chain.
use vstd::prelude::*;
use crate::wire::copy_of;
use crate::stream::{Command, Timespec};

verus! {

/// Mode of the files, pipes and sockets that a replay creates.
pub const CREATED_FILE_MODE: u32 = 0o600;

/// Mode of the directories that a replay creates.
pub const CREATED_DIR_MODE: u32 = 0o700;

/// One filesystem operation of a replay, on paths relative to the staging
/// directory. `B` is `Vec<u8>` in executable code and `Seq<u8>` in
/// specifications.
#[derive(Clone, Debug, PartialEq, Eq)]
pub enum ReplayAction<B> {
    /// Copy the parent subvolume's current content into the staging
    /// directory.
    CopyParent,
    /// path, mode
    CreateFile(B, u32),
    /// path, mode
    CreateDir(B, u32),
    /// path, mode, device
    CreateNode(B, u64, u64),
    /// path, mode
    CreateFifo(B, u32),
    /// path, mode
    CreateSocket(B, u32),
    /// path of the link, its target
    Symlink(B, B),
    /// from, to
    Rename(B, B),
    /// path of the new link, existing path
    Link(B, B),
    Unlink(B),
    RemoveDir(B),
    /// path, name, data
    SetXattr(B, B, B),
    /// path, name
    RemoveXattr(B, B),
    /// path, offset, data
    WriteAt(B, u64, B),
    /// path, size
    Truncate(B, u64),
    /// path, mode
    Chmod(B, u64),
    /// path, uid, gid
    Chown(B, u64, u64),
    /// path, access time, modification time
    SetTimes(B, Timespec, Timespec),
}

impl View for ReplayAction<Vec<u8>> {
    type V = ReplayAction<Seq<u8>>;

    open spec fn view(&self) -> ReplayAction<Seq<u8>> {
        match self {
            ReplayAction::CopyParent => ReplayAction::CopyParent,
            ReplayAction::CreateFile(p, m) => ReplayAction::CreateFile(p@, *m),
            ReplayAction::CreateDir(p, m) => ReplayAction::CreateDir(p@, *m),
            ReplayAction::CreateNode(p, m, d) => ReplayAction::CreateNode(p@, *m, *d),
            ReplayAction::CreateFifo(p, m) => ReplayAction::CreateFifo(p@, *m),
            ReplayAction::CreateSocket(p, m) => ReplayAction::CreateSocket(p@, *m),
            ReplayAction::Symlink(p, t) => ReplayAction::Symlink(p@, t@),
            ReplayAction::Rename(f, t) => ReplayAction::Rename(f@, t@),
            ReplayAction::Link(p, t) => ReplayAction::Link(p@, t@),
            ReplayAction::Unlink(p) => ReplayAction::Unlink(p@),
            ReplayAction::RemoveDir(p) => ReplayAction::RemoveDir(p@),
            ReplayAction::SetXattr(p, n, d) => ReplayAction::SetXattr(p@, n@, d@),
            ReplayAction::RemoveXattr(p, n) => ReplayAction::RemoveXattr(p@, n@),
            ReplayAction::WriteAt(p, o, d) => ReplayAction::WriteAt(p@, *o, d@),
            ReplayAction::Truncate(p, s) => ReplayAction::Truncate(p@, *s),
            ReplayAction::Chmod(p, m) => ReplayAction::Chmod(p@, *m),
            ReplayAction::Chown(p, u, g) => ReplayAction::Chown(p@, *u, *g),
            ReplayAction::SetTimes(p, a, m) => ReplayAction::SetTimes(p@, *a, *m),
        }
    }
}

pub open spec fn actions_view(s: Seq<ReplayAction<Vec<u8>>>) -> Seq<ReplayAction<Seq<u8>>> {
    s.map_values(|a: ReplayAction<Vec<u8>>| a@)
}

/// What replaying `c` does. Clone and extent updates share data that a
/// write already brought; they, `Subvol` and `End` do nothing here.
pub open spec fn replay_action(c: Command<Seq<u8>>) -> Option<ReplayAction<Seq<u8>>> {
    match c {
        Command::Snapshot(..) => Some(ReplayAction::CopyParent),
        Command::Mkfile(p) => Some(ReplayAction::CreateFile(p, CREATED_FILE_MODE)),
        Command::Mkdir(p) => Some(ReplayAction::CreateDir(p, CREATED_DIR_MODE)),
        Command::Mknod(p, m, d) => Some(ReplayAction::CreateNode(p, m, d)),
        Command::Mkfifo(p) => Some(ReplayAction::CreateFifo(p, CREATED_FILE_MODE)),
        Command::Mksock(p) => Some(ReplayAction::CreateSocket(p, CREATED_FILE_MODE)),
        Command::Symlink(p, t) => Some(ReplayAction::Symlink(p, t)),
        Command::Rename(f, t) => Some(ReplayAction::Rename(f, t)),
        Command::Link(p, t) => Some(ReplayAction::Link(p, t)),
        Command::Unlink(p) => Some(ReplayAction::Unlink(p)),
        Command::Rmdir(p) => Some(ReplayAction::RemoveDir(p)),
        Command::SetXattr(p, n, d) => Some(ReplayAction::SetXattr(p, n, d)),
        Command::RemoveXattr(p, n) => Some(ReplayAction::RemoveXattr(p, n)),
        Command::Write(p, o, d) => Some(ReplayAction::WriteAt(p, o, d)),
        Command::Truncate(p, s) => Some(ReplayAction::Truncate(p, s)),
        Command::Chmod(p, m) => Some(ReplayAction::Chmod(p, m)),
        Command::Chown(p, u, g) => Some(ReplayAction::Chown(p, u, g)),
        Command::Utimes(p, a, m, _) => Some(ReplayAction::SetTimes(p, a, m)),
        Command::Subvol(..) | Command::Clone(..) | Command::UpdateExtent(..) | Command::End => None,
    }
}

/// The actions of replaying the first `n` commands, in order.
pub open spec fn replay_plan_spec(cs: Seq<Command<Seq<u8>>>, n: int) -> Seq<ReplayAction<Seq<u8>>>
    decreases n,
{
    if n <= 0 {
        Seq::empty()
    } else {
        replay_plan_spec(cs, n - 1) + match replay_action(cs[n - 1]) {
            Some(a) => seq![a],
            None => Seq::empty(),
        }
    }
}

/// What replaying `c` does, if anything.
pub fn process_command(c: &Command<Vec<u8>>) -> (r: Option<ReplayAction<Vec<u8>>>)
    ensures
        match r {
            Some(a) => replay_action(c@) == Some(a@),
            None => replay_action(c@) is None,
        },
{
    match c {
        Command::Snapshot(..) => Some(ReplayAction::CopyParent),
        Command::Mkfile(p) => Some(ReplayAction::CreateFile(copy_of(p.as_slice()), CREATED_FILE_MODE)),
        Command::Mkdir(p) => Some(ReplayAction::CreateDir(copy_of(p.as_slice()), CREATED_DIR_MODE)),
        Command::Mknod(p, m, d) => Some(ReplayAction::CreateNode(copy_of(p.as_slice()), *m, *d)),
        Command::Mkfifo(p) => Some(ReplayAction::CreateFifo(copy_of(p.as_slice()), CREATED_FILE_MODE)),
        Command::Mksock(p) => Some(
            ReplayAction::CreateSocket(copy_of(p.as_slice()), CREATED_FILE_MODE),
        ),
        Command::Symlink(p, t) => Some(
            ReplayAction::Symlink(copy_of(p.as_slice()), copy_of(t.as_slice())),
        ),
        Command::Rename(f, t) => Some(
            ReplayAction::Rename(copy_of(f.as_slice()), copy_of(t.as_slice())),
        ),
        Command::Link(p, t) => Some(ReplayAction::Link(copy_of(p.as_slice()), copy_of(t.as_slice()))),
        Command::Unlink(p) => Some(ReplayAction::Unlink(copy_of(p.as_slice()))),
        Command::Rmdir(p) => Some(ReplayAction::RemoveDir(copy_of(p.as_slice()))),
        Command::SetXattr(p, n, d) => Some(
            ReplayAction::SetXattr(
                copy_of(p.as_slice()),
                copy_of(n.as_slice()),
                copy_of(d.as_slice()),
            ),
        ),
        Command::RemoveXattr(p, n) => Some(
            ReplayAction::RemoveXattr(copy_of(p.as_slice()), copy_of(n.as_slice())),
        ),
        Command::Write(p, o, d) => Some(
            ReplayAction::WriteAt(copy_of(p.as_slice()), *o, copy_of(d.as_slice())),
        ),
        Command::Truncate(p, s) => Some(ReplayAction::Truncate(copy_of(p.as_slice()), *s)),
        Command::Chmod(p, m) => Some(ReplayAction::Chmod(copy_of(p.as_slice()), *m)),
        Command::Chown(p, u, g) => Some(ReplayAction::Chown(copy_of(p.as_slice()), *u, *g)),
        Command::Utimes(p, a, m, _) => Some(ReplayAction::SetTimes(copy_of(p.as_slice()), *a, *m)),
        Command::Subvol(..) | Command::Clone(..) | Command::UpdateExtent(..) | Command::End => None,
    }
}

/// Whether `c` starts a base subvolume's transcript.
pub fn is_subvolume(c: &Command<Vec<u8>>) -> (r: bool)
    ensures
        r == (c@ is Subvol),
{
    match c {
        Command::Subvol(..) => true,
        _ => false,
    }
}

/// The actions of replaying `cmds`, in order. A transcript led by a
/// snapshot starts by copying the parent's content; one led by a subvolume
/// starts from an empty directory.
pub fn process_subvolume(cmds: &[Command<Vec<u8>>]) -> (r: Vec<ReplayAction<Vec<u8>>>)
    ensures
        actions_view(r@) == replay_plan_spec(cmds@.map_values(|c: Command<Vec<u8>>| c@), cmds@.len() as int),
{
    let ghost cs = cmds@.map_values(|c: Command<Vec<u8>>| c@);
    let mut actions: Vec<ReplayAction<Vec<u8>>> = Vec::new();
    let mut i: usize = 0;
    assert(actions_view(actions@) =~= Seq::<ReplayAction<Seq<u8>>>::empty());
    while i < cmds.len()
        invariant
            i <= cmds@.len(),
            cs == cmds@.map_values(|c: Command<Vec<u8>>| c@),
            actions_view(actions@) == replay_plan_spec(cs, i as int),
        decreases cmds@.len() - i,
    {
        let ghost before = actions_view(actions@);
        match process_command(&cmds[i]) {
            Some(a) => {
                actions.push(a);
                assert(actions_view(actions@) =~= before.push(a@));
            },
            None => {},
        }
        i = i + 1;
        assert(actions_view(actions@) =~= replay_plan_spec(cs, i as int));
    }
    actions
}

/// The parent of each exported layer, base first: none for the base, the
/// previous layer's id for every other.
pub fn layer_parents(ids: &[Vec<u8>]) -> (r: Vec<Option<Vec<u8>>>)
    ensures
        r@.len() == ids@.len(),
        forall|i: int|
            0 <= i < ids@.len() ==> (#[trigger] r@[i] matches Some(p) ==> i > 0 && p@ == ids@[i
                - 1]@),
        forall|i: int| 0 <= i < ids@.len() ==> (#[trigger] r@[i] is None <==> i == 0),
{
    let mut parents: Vec<Option<Vec<u8>>> = Vec::new();
    let mut i: usize = 0;
    while i < ids.len()
        invariant
            i <= ids@.len(),
            parents@.len() == i,
            forall|j: int|
                0 <= j < i ==> (#[trigger] parents@[j] matches Some(p) ==> j > 0 && p@ == ids@[j
                    - 1]@),
            forall|j: int| 0 <= j < i ==> (#[trigger] parents@[j] is None <==> j == 0),
        decreases ids@.len() - i,
    {
        if i == 0 {
            parents.push(None);
        } else {
            parents.push(Some(copy_of(ids[i - 1].as_slice())));
        }
        i = i + 1;
    }
    parents
}

} // verus!
