//! Sending files to a remote computer, and receiving them.

use crate::call::Step;
use crate::error::{Error, ErrorView, IoError, SshCode, SshError};
use crate::process::{channel_view, Process, ProcessInner};
use vstd::prelude::*;

verus! {

/// The permissions of the directories that are made on a remote computer.
pub const DIR_MODE: i32 = 0o775;

/// The number by which SFTP reports that there is no such file.
pub const NO_SUCH_FILE: i32 = 2;

/// What a transfer asks of the system.
#[derive(Debug)]
pub enum TransferCall {
    /// Make the session blocking, and start SFTP on it.
    Sftp,
    /// Look at this remote file or directory.
    StatRemote(String),
    /// Make this remote directory, with these permissions.
    Mkdir(String, i32),
    /// Look at the local file.
    StatLocal,
    /// Read the local file.
    ReadLocal,
    /// Create the remote file.
    CreateRemote,
    /// Write this to the remote file.
    WriteRemote(Vec<u8>),
    /// Set the permissions and the modification time of the remote file.
    SetStat {
        /// The permissions, if they are known.
        perm: Option<u32>,
        /// The modification time, in seconds.
        mtime: u64,
    },
    /// Make this local directory and all that lead to it.
    MakeLocalDirs(String),
    /// Open the remote file.
    OpenRemote,
    /// Read the remote file to its end, with memory for this many bytes to start with.
    ReadRemote(usize),
    /// Write this to the local file.
    WriteLocal(Vec<u8>),
}

/// The mathematical value of a [`TransferCall`].
pub enum TransferCallView {
    /// See [`TransferCall::Sftp`].
    Sftp,
    /// See [`TransferCall::StatRemote`].
    StatRemote(Seq<char>),
    /// See [`TransferCall::Mkdir`].
    Mkdir(Seq<char>, i32),
    /// See [`TransferCall::StatLocal`].
    StatLocal,
    /// See [`TransferCall::ReadLocal`].
    ReadLocal,
    /// See [`TransferCall::CreateRemote`].
    CreateRemote,
    /// See [`TransferCall::WriteRemote`].
    WriteRemote(Seq<u8>),
    /// See [`TransferCall::SetStat`].
    SetStat {
        /// The permissions, if they are known.
        perm: Option<u32>,
        /// The modification time, in seconds.
        mtime: u64,
    },
    /// See [`TransferCall::MakeLocalDirs`].
    MakeLocalDirs(Seq<char>),
    /// See [`TransferCall::OpenRemote`].
    OpenRemote,
    /// See [`TransferCall::ReadRemote`].
    ReadRemote(usize),
    /// See [`TransferCall::WriteLocal`].
    WriteLocal(Seq<u8>),
}

impl View for TransferCall {
    type V = TransferCallView;

    open spec fn view(&self) -> TransferCallView {
        match *self {
            TransferCall::Sftp => TransferCallView::Sftp,
            TransferCall::StatRemote(path) => TransferCallView::StatRemote(path@),
            TransferCall::Mkdir(dir, mode) => TransferCallView::Mkdir(dir@, mode),
            TransferCall::StatLocal => TransferCallView::StatLocal,
            TransferCall::ReadLocal => TransferCallView::ReadLocal,
            TransferCall::CreateRemote => TransferCallView::CreateRemote,
            TransferCall::WriteRemote(data) => TransferCallView::WriteRemote(data@),
            TransferCall::SetStat { perm, mtime } => TransferCallView::SetStat { perm, mtime },
            TransferCall::MakeLocalDirs(dir) => TransferCallView::MakeLocalDirs(dir@),
            TransferCall::OpenRemote => TransferCallView::OpenRemote,
            TransferCall::ReadRemote(len) => TransferCallView::ReadRemote(len),
            TransferCall::WriteLocal(data) => TransferCallView::WriteLocal(data@),
        }
    }
}

/// What the system answers to a transfer.
#[derive(Debug)]
pub enum TransferReply {
    /// Done.
    Done,
    /// What is known of a remote file or directory.
    RemoteStat {
        /// Its type and permissions.
        perm: Option<u32>,
        /// Its modification time, in seconds.
        mtime: Option<u64>,
        /// Its size, in bytes.
        size: Option<u64>,
    },
    /// What is known of the local file.
    LocalStat {
        /// Its type and permissions, where the system has them.
        perm: Option<u32>,
        /// Its modification time, in seconds.
        modified: u64,
    },
    /// The contents of a file.
    Data(Vec<u8>),
    /// A file failed.
    Failed(IoError),
    /// The SSH session or its SFTP subsystem failed.
    SshFailed(SshError),
}

/// How far a transfer has come, when it waits in a state `S`.
pub type TransferStep<S> = Step<TransferCallView, S, Result<(), ErrorView>>;

/// Whether a failure says that there is no such file.
pub open spec fn no_such_file(error: SshError) -> bool {
    error.code == SshCode::SFTP(NO_SUCH_FILE)
}

/// Whether a failure says that there is no such file.
fn is_no_such_file(error: &SshError) -> (missing: bool)
    ensures
        missing == no_such_file(*error),
{
    match error.code {
        SshCode::SFTP(code) => code == NO_SUCH_FILE,
        SshCode::Session(_) => false,
    }
}

/// The directory that a path lies in, or `None` for a path that lies in none.
pub uninterp spec fn parent_of(path: Seq<char>) -> Option<Seq<char>>;

/// The mathematical value of an optional path.
pub open spec fn path_view(path: Option<String>) -> Option<Seq<char>> {
    match path {
        Some(path) => Some(path@),
        None => None,
    }
}

/// `std::path::Path::parent` of the standard library on a POSIX system, of the path that the text
/// spells: the path without its final component, which makes it shorter, if it has one. It depends
/// on the text alone, and is a part of it, so it is text again. How a path falls into components is
/// left open.
#[verifier::external_body]
fn path_parent(path: &str) -> (parent: Option<String>)
    ensures
        path_view(parent) == parent_of(path@),
        parent matches Some(dir) ==> dir@.len() < path@.len(),
{
    match std::path::Path::new(path).parent() {
        Some(dir) => Some(dir.to_string_lossy().into_owned()),
        None => None,
    }
}

/// Whether these permissions are those of a directory.
pub open spec fn directory(perm: Option<u32>) -> bool {
    perm matches Some(bits) && bits & 0o170000 == 0o040000
}

/// `ssh2::FileStat::is_dir`: whether the type bits of the permissions are those of a directory.
/// Without permissions it is none.
#[verifier::external_body]
fn is_dir(perm: Option<u32>) -> (dir: bool)
    ensures
        dir == directory(perm),
{
    let stat = ssh2::FileStat { size: None, uid: None, gid: None, perm, atime: None, mtime: None };
    stat.is_dir()
}

/// Making a remote directory and all that lead to it, waiting for a reply.
#[derive(Debug)]
pub struct MakeDirs {
    /// The directory that is looked for, or, when `making`, that is being made.
    pub dir: String,
    /// The directories that are still to be made, the last one first.
    pub pending: Vec<String>,
    /// A directory is being made, because the ones above it are there.
    pub making: bool,
    /// The permissions that directories are made with.
    pub mode: i32,
}

/// The mathematical value of a [`MakeDirs`].
pub struct MakeDirsView {
    /// The directory that is looked for, or, when `making`, that is being made.
    pub dir: Seq<char>,
    /// The directories that are still to be made, the last one first.
    pub pending: Seq<Seq<char>>,
    /// A directory is being made, because the ones above it are there.
    pub making: bool,
    /// The permissions that directories are made with.
    pub mode: i32,
}

impl View for MakeDirs {
    type V = MakeDirsView;

    open spec fn view(&self) -> MakeDirsView {
        MakeDirsView {
            dir: self.dir@,
            pending: self.pending@.map_values(|dir: String| dir@),
            making: self.making,
            mode: self.mode,
        }
    }
}

impl MakeDirsView {
    /// How many calls are left, at most.
    pub open spec fn calls_left(self) -> nat {
        if self.making {
            self.pending.len()
        } else {
            2 * self.dir.len() + self.pending.len() + 1
        }
    }
}

/// How far making directories has come.
pub type MakeDirsStep = TransferStep<MakeDirsView>;

/// The mathematical value of a step of making directories.
pub open spec fn make_dirs_view(step: Step<TransferCall, MakeDirs, Result<(), Error>>) -> MakeDirsStep {
    match step {
        Step::Call(call, state) => Step::Call(call@, state@),
        Step::Return(outcome) => Step::Return(channel_view(outcome)),
    }
}

/// Whether `reply` can be the answer that is waited for.
pub open spec fn make_dirs_accepts(state: MakeDirsView, reply: TransferReply) -> bool {
    if state.making {
        reply is Done || reply is SshFailed
    } else {
        reply is RemoteStat || reply is SshFailed
    }
}

/// Look for a directory, with these still to be made behind it.
pub open spec fn make_dirs_look(
    dir: Seq<char>,
    pending: Seq<Seq<char>>,
    mode: i32,
) -> MakeDirsStep {
    Step::Call(
        TransferCallView::StatRemote(dir),
        MakeDirsView { dir, pending, making: false, mode },
    )
}

/// Make the next directory of those that are still to be made, if any is left.
pub open spec fn make_dirs_make(pending: Seq<Seq<char>>, mode: i32) -> MakeDirsStep {
    if pending.len() == 0 {
        Step::Return(Ok(()))
    } else {
        Step::Call(
            TransferCallView::Mkdir(pending.last(), mode),
            MakeDirsView {
                dir: pending.last(),
                pending: pending.drop_last(),
                making: true,
                mode,
            },
        )
    }
}

/// What follows when a directory is not there, given the directory that it lies in: that one is
/// made first. A directory that lies in none is taken to be there.
pub open spec fn make_dirs_missing(state: MakeDirsView, parent: Option<Seq<char>>) -> MakeDirsStep {
    match parent {
        Some(parent) => make_dirs_look(parent, state.pending.push(state.dir), state.mode),
        None => make_dirs_make(state.pending, state.mode),
    }
}

/// The next step of making directories, after a reply.
pub open spec fn make_dirs_next(state: MakeDirsView, reply: TransferReply) -> MakeDirsStep {
    match reply {
        TransferReply::SshFailed(error) => if !state.making && no_such_file(error) {
            make_dirs_missing(state, parent_of(state.dir))
        } else {
            Step::Return(Err(ErrorView::Ssh(error)))
        },
        _ => make_dirs_make(state.pending, state.mode),
    }
}

impl MakeDirs {
    /// Make the next directory of those that are still to be made, if any is left.
    fn make(pending: Vec<String>, mode: i32) -> (step: Step<
        TransferCall,
        MakeDirs,
        Result<(), Error>,
    >)
        ensures
            make_dirs_view(step) == make_dirs_make(pending@.map_values(|dir: String| dir@), mode),
    {
        let mut pending = pending;
        let ghost before = pending@.map_values(|dir: String| dir@);
        match pending.pop() {
            Some(dir) => {
                assert(pending@.map_values(|dir: String| dir@) =~= before.drop_last());
                Step::Call(
                    TransferCall::Mkdir(dir.clone(), mode),
                    MakeDirs { dir, pending, making: true, mode },
                )
            },
            None => Step::Return(Ok(())),
        }
    }

    /// Go on where the directory is not there, given the directory that it lies in.
    pub fn missing(self, parent: Option<String>) -> (step: Step<
        TransferCall,
        MakeDirs,
        Result<(), Error>,
    >)
        ensures
            make_dirs_view(step) == make_dirs_missing(self@, path_view(parent)),
    {
        let MakeDirs { dir, pending, mode, .. } = self;
        let ghost before = pending@.map_values(|dir: String| dir@);
        match parent {
            Some(parent) => {
                let mut pending = pending;
                // First ensure that the parent directory exists
                let ghost made = dir@;
                pending.push(dir);
                assert(pending@.map_values(|dir: String| dir@) =~= before.push(made));
                Step::Call(
                    TransferCall::StatRemote(parent.clone()),
                    MakeDirs { dir: parent, pending, making: false, mode },
                )
            },
            None => MakeDirs::make(pending, mode),
        }
    }

    /// Go on making directories. This comes to an end, because a directory that is looked for has
    /// a shorter path than the one that lies in it.
    pub fn resume(self, reply: TransferReply) -> (step: Step<
        TransferCall,
        MakeDirs,
        Result<(), Error>,
    >)
        requires
            make_dirs_accepts(self@, reply),
        ensures
            make_dirs_view(step) == make_dirs_next(self@, reply),
            step matches Step::Call(_, next) ==> next@.calls_left() < self@.calls_left(),
    {
        match reply {
            TransferReply::SshFailed(error) => {
                if !self.making && is_no_such_file(&error) {
                    let parent = path_parent(self.dir.as_str());
                    self.missing(parent)
                } else {
                    Step::Return(Err(Error::Ssh(error)))
                }
            },
            _ => MakeDirs::make(self.pending, self.mode),
        }
    }
}

/// Ensure that a remote directory and all that lead to it exist.
pub fn remote_create_dir_all(dir: String, mode: i32) -> (step: Step<
    TransferCall,
    MakeDirs,
    Result<(), Error>,
>)
    ensures
        make_dirs_view(step) == make_dirs_look(dir@, Seq::empty(), mode),
{
    let pending: Vec<String> = Vec::new();
    assert(pending@.map_values(|dir: String| dir@) =~= Seq::<Seq<char>>::empty());
    // Check if the directory already exists
    Step::Call(
        TransferCall::StatRemote(dir.clone()),
        MakeDirs { dir, pending, making: false, mode },
    )
}

/// Sending a file, waiting for a reply.
#[derive(Debug)]
pub struct SendFile {
    /// The path of the file, which is the same on both computers.
    pub path: String,
    /// What is waited for.
    pub phase: SendFilePhase,
}

/// What sending a file waits for.
#[derive(Debug)]
pub enum SendFilePhase {
    /// SFTP is started.
    Sftp,
    /// The remote file is looked at.
    StatRemote,
    /// The remote file is not there, and the directory that it lies in is made.
    MakeDirs(MakeDirs),
    /// The local file is looked at. This is the modification time of the remote one.
    StatLocal(Option<u64>),
    /// The local file is read. It has these permissions and this modification time.
    ReadLocal(Option<u32>, u64),
    /// The remote file is created. This is what goes into it.
    Create(Vec<u8>, Option<u32>, u64),
    /// The remote file is written.
    Write(Option<u32>, u64),
    /// Its permissions and its modification time are set.
    SetStat,
}

/// The mathematical value of a [`SendFile`].
pub struct SendFileView {
    /// The path of the file, which is the same on both computers.
    pub path: Seq<char>,
    /// What is waited for.
    pub phase: SendFilePhaseView,
}

/// The mathematical value of a [`SendFilePhase`].
pub enum SendFilePhaseView {
    /// See [`SendFilePhase::Sftp`].
    Sftp,
    /// See [`SendFilePhase::StatRemote`].
    StatRemote,
    /// See [`SendFilePhase::MakeDirs`].
    MakeDirs(MakeDirsView),
    /// See [`SendFilePhase::StatLocal`].
    StatLocal(Option<u64>),
    /// See [`SendFilePhase::ReadLocal`].
    ReadLocal(Option<u32>, u64),
    /// See [`SendFilePhase::Create`].
    Create(Seq<u8>, Option<u32>, u64),
    /// See [`SendFilePhase::Write`].
    Write(Option<u32>, u64),
    /// See [`SendFilePhase::SetStat`].
    SetStat,
}

impl View for SendFilePhase {
    type V = SendFilePhaseView;

    open spec fn view(&self) -> SendFilePhaseView {
        match *self {
            SendFilePhase::Sftp => SendFilePhaseView::Sftp,
            SendFilePhase::StatRemote => SendFilePhaseView::StatRemote,
            SendFilePhase::MakeDirs(state) => SendFilePhaseView::MakeDirs(state@),
            SendFilePhase::StatLocal(remote) => SendFilePhaseView::StatLocal(remote),
            SendFilePhase::ReadLocal(perm, mtime) => SendFilePhaseView::ReadLocal(perm, mtime),
            SendFilePhase::Create(data, perm, mtime) => {
                SendFilePhaseView::Create(data@, perm, mtime)
            },
            SendFilePhase::Write(perm, mtime) => SendFilePhaseView::Write(perm, mtime),
            SendFilePhase::SetStat => SendFilePhaseView::SetStat,
        }
    }
}

impl View for SendFile {
    type V = SendFileView;

    open spec fn view(&self) -> SendFileView {
        SendFileView { path: self.path@, phase: self.phase@ }
    }
}

/// How far sending a file has come.
pub type SendFileStep = TransferStep<SendFileView>;

/// The mathematical value of a step of sending a file.
pub open spec fn send_file_view(
    step: Step<TransferCall, SendFile, Result<(), Error>>,
) -> SendFileStep {
    match step {
        Step::Call(call, state) => Step::Call(call@, state@),
        Step::Return(outcome) => Step::Return(channel_view(outcome)),
    }
}

/// Whether `reply` can be the answer that is waited for.
pub open spec fn send_file_accepts(state: SendFileView, reply: TransferReply) -> bool {
    match state.phase {
        SendFilePhaseView::Sftp | SendFilePhaseView::Create(..) | SendFilePhaseView::SetStat => {
            reply is Done || reply is SshFailed
        },
        SendFilePhaseView::StatRemote => reply is RemoteStat || reply is SshFailed,
        SendFilePhaseView::MakeDirs(state) => make_dirs_accepts(state, reply),
        SendFilePhaseView::StatLocal(_) => reply is LocalStat || reply is Failed,
        SendFilePhaseView::ReadLocal(..) => reply is Data || reply is Failed,
        SendFilePhaseView::Write(..) => reply is Done || reply is Failed,
    }
}

/// Make a call about the file at `path`, and wait in this phase.
pub open spec fn send_file_call(
    path: Seq<char>,
    call: TransferCallView,
    phase: SendFilePhaseView,
) -> SendFileStep {
    Step::Call(call, SendFileView { path, phase })
}

/// How making directories carries sending a file on.
pub open spec fn send_file_dirs(path: Seq<char>, step: MakeDirsStep) -> SendFileStep {
    match step {
        Step::Call(call, state) => send_file_call(path, call, SendFilePhaseView::MakeDirs(state)),
        Step::Return(Ok(())) => send_file_call(
            path,
            TransferCallView::StatLocal,
            SendFilePhaseView::StatLocal(None),
        ),
        Step::Return(Err(error)) => Step::Return(Err(error)),
    }
}

/// What follows when the remote file is not there, given the directory that it lies in.
pub open spec fn send_file_missing(path: Seq<char>, parent: Option<Seq<char>>) -> SendFileStep {
    match parent {
        Some(dir) => send_file_dirs(path, make_dirs_look(dir, Seq::empty(), DIR_MODE)),
        None => send_file_call(
            path,
            TransferCallView::StatLocal,
            SendFilePhaseView::StatLocal(None),
        ),
    }
}

/// The next step of sending a file, after a reply.
///
/// A remote file whose modification time is that of the local one is up to date, and nothing is
/// sent. Otherwise the file is copied, with its permissions and its modification time.
pub open spec fn send_file_next(state: SendFileView, reply: TransferReply) -> SendFileStep {
    let path = state.path;
    match (state.phase, reply) {
        (SendFilePhaseView::MakeDirs(dirs), _) => send_file_dirs(path, make_dirs_next(dirs, reply)),
        (SendFilePhaseView::StatRemote, TransferReply::SshFailed(error)) => {
            if no_such_file(error) {
                send_file_missing(path, parent_of(path))
            } else {
                Step::Return(Err(ErrorView::Ssh(error)))
            }
        },
        (_, TransferReply::Failed(error)) => Step::Return(Err(ErrorView::Io(error))),
        (_, TransferReply::SshFailed(error)) => Step::Return(Err(ErrorView::Ssh(error))),
        (SendFilePhaseView::Sftp, _) => send_file_call(
            path,
            TransferCallView::StatRemote(path),
            SendFilePhaseView::StatRemote,
        ),
        (SendFilePhaseView::StatRemote, TransferReply::RemoteStat { mtime, .. }) => send_file_call(
            path,
            TransferCallView::StatLocal,
            SendFilePhaseView::StatLocal(mtime),
        ),
        (SendFilePhaseView::StatLocal(remote), TransferReply::LocalStat { perm, modified: mtime }) => {
            if remote == Some(mtime) {
                Step::Return(Ok(()))
            } else {
                send_file_call(
                    path,
                    TransferCallView::ReadLocal,
                    SendFilePhaseView::ReadLocal(perm, mtime),
                )
            }
        },
        (SendFilePhaseView::ReadLocal(perm, mtime), TransferReply::Data(data)) => send_file_call(
            path,
            TransferCallView::CreateRemote,
            SendFilePhaseView::Create(data@, perm, mtime),
        ),
        (SendFilePhaseView::Create(data, perm, mtime), _) => send_file_call(
            path,
            TransferCallView::WriteRemote(data),
            SendFilePhaseView::Write(perm, mtime),
        ),
        (SendFilePhaseView::Write(perm, mtime), _) => send_file_call(
            path,
            TransferCallView::SetStat { perm, mtime },
            SendFilePhaseView::SetStat,
        ),
        _ => Step::Return(Ok(())),
    }
}

/// The first step of sending a file.
pub open spec fn send_file_start(path: Seq<char>) -> SendFileStep {
    send_file_call(path, TransferCallView::Sftp, SendFilePhaseView::Sftp)
}

impl SendFile {
    /// Start to send the file at `path` to a remote computer.
    pub fn start(path: String) -> (step: Step<TransferCall, SendFile, Result<(), Error>>)
        ensures
            send_file_view(step) == send_file_start(path@),
    {
        Step::Call(TransferCall::Sftp, SendFile { path, phase: SendFilePhase::Sftp })
    }

    /// Carry sending a file on after a step of making directories.
    fn after_dirs(path: String, step: Step<TransferCall, MakeDirs, Result<(), Error>>) -> (next:
        Step<TransferCall, SendFile, Result<(), Error>>)
        ensures
            send_file_view(next) == send_file_dirs(path@, make_dirs_view(step)),
    {
        match step {
            Step::Call(call, state) => {
                Step::Call(call, SendFile { path, phase: SendFilePhase::MakeDirs(state) })
            },
            Step::Return(Ok(())) => {
                Step::Call(
                    TransferCall::StatLocal,
                    SendFile { path, phase: SendFilePhase::StatLocal(None) },
                )
            },
            Step::Return(Err(error)) => Step::Return(Err(error)),
        }
    }

    /// Go on where the remote file is not there, given the directory that it lies in.
    pub fn missing(path: String, parent: Option<String>) -> (step: Step<
        TransferCall,
        SendFile,
        Result<(), Error>,
    >)
        ensures
            send_file_view(step) == send_file_missing(path@, path_view(parent)),
    {
        match parent {
            // Ensure that the parent directory exists.
            Some(dir) => SendFile::after_dirs(path, remote_create_dir_all(dir, DIR_MODE)),
            None => {
                Step::Call(
                    TransferCall::StatLocal,
                    SendFile { path, phase: SendFilePhase::StatLocal(None) },
                )
            },
        }
    }

    /// Go on sending the file.
    pub fn resume(self, reply: TransferReply) -> (step: Step<
        TransferCall,
        SendFile,
        Result<(), Error>,
    >)
        requires
            send_file_accepts(self@, reply),
        ensures
            send_file_view(step) == send_file_next(self@, reply),
    {
        let SendFile { path, phase } = self;
        match (phase, reply) {
            (SendFilePhase::MakeDirs(dirs), reply) => SendFile::after_dirs(path, dirs.resume(reply)),
            (SendFilePhase::StatRemote, TransferReply::SshFailed(error)) => {
                if is_no_such_file(&error) {
                    let parent = path_parent(path.as_str());
                    SendFile::missing(path, parent)
                } else {
                    Step::Return(Err(Error::Ssh(error)))
                }
            },
            (_, TransferReply::Failed(error)) => Step::Return(Err(Error::Io(error))),
            (_, TransferReply::SshFailed(error)) => Step::Return(Err(Error::Ssh(error))),
            (SendFilePhase::Sftp, _) => {
                Step::Call(
                    TransferCall::StatRemote(path.clone()),
                    SendFile { path, phase: SendFilePhase::StatRemote },
                )
            },
            (SendFilePhase::StatRemote, TransferReply::RemoteStat { mtime, .. }) => {
                Step::Call(
                    TransferCall::StatLocal,
                    SendFile { path, phase: SendFilePhase::StatLocal(mtime) },
                )
            },
            (SendFilePhase::StatLocal(remote), TransferReply::LocalStat { perm, modified: mtime }) => {
                // Check if the file is already up-to-date on the remote.
                if let Some(remote) = remote {
                    if remote == mtime {
                        return Step::Return(Ok(()));
                    }
                }
                Step::Call(
                    TransferCall::ReadLocal,
                    SendFile { path, phase: SendFilePhase::ReadLocal(perm, mtime) },
                )
            },
            // Copy the file to the remote computer.
            (SendFilePhase::ReadLocal(perm, mtime), TransferReply::Data(data)) => {
                Step::Call(
                    TransferCall::CreateRemote,
                    SendFile { path, phase: SendFilePhase::Create(data, perm, mtime) },
                )
            },
            (SendFilePhase::Create(data, perm, mtime), _) => {
                Step::Call(
                    TransferCall::WriteRemote(data),
                    SendFile { path, phase: SendFilePhase::Write(perm, mtime) },
                )
            },
            // Set the permission bits on the remote.
            (SendFilePhase::Write(perm, mtime), _) => {
                Step::Call(
                    TransferCall::SetStat { perm, mtime },
                    SendFile { path, phase: SendFilePhase::SetStat },
                )
            },
            _ => Step::Return(Ok(())),
        }
    }
}

/// Receiving a file, waiting for a reply.
#[derive(Debug)]
pub struct RecvFile {
    /// The path of the file, which is the same on both computers.
    pub path: String,
    /// What is waited for.
    pub phase: RecvFilePhase,
}

/// What receiving a file waits for.
#[derive(Clone, Copy, Debug)]
pub enum RecvFilePhase {
    /// The local directory that the file lies in is made.
    MakeLocalDirs,
    /// SFTP is started.
    Sftp,
    /// The remote file is looked at.
    StatRemote,
    /// The remote file is opened. This is its size.
    Open(Option<u64>),
    /// The remote file is read.
    Read,
    /// The local file is written.
    Write,
}

/// The mathematical value of a [`RecvFile`].
pub struct RecvFileView {
    /// The path of the file, which is the same on both computers.
    pub path: Seq<char>,
    /// What is waited for.
    pub phase: RecvFilePhase,
}

impl View for RecvFile {
    type V = RecvFileView;

    open spec fn view(&self) -> RecvFileView {
        RecvFileView { path: self.path@, phase: self.phase }
    }
}

/// How far receiving a file has come.
pub type RecvFileStep = TransferStep<RecvFileView>;

/// The mathematical value of a step of receiving a file.
pub open spec fn recv_file_view(
    step: Step<TransferCall, RecvFile, Result<(), Error>>,
) -> RecvFileStep {
    match step {
        Step::Call(call, state) => Step::Call(call@, state@),
        Step::Return(outcome) => Step::Return(channel_view(outcome)),
    }
}

/// Whether `reply` can be the answer that is waited for. A directory cannot be received.
pub open spec fn recv_file_accepts(state: RecvFileView, reply: TransferReply) -> bool {
    match state.phase {
        RecvFilePhase::MakeLocalDirs | RecvFilePhase::Write => reply is Done || reply is Failed,
        RecvFilePhase::Sftp | RecvFilePhase::Open(_) => reply is Done || reply is SshFailed,
        RecvFilePhase::StatRemote => match reply {
            TransferReply::RemoteStat { perm, .. } => !directory(perm),
            TransferReply::SshFailed(_) => true,
            _ => false,
        },
        RecvFilePhase::Read => reply is Data || reply is Failed,
    }
}

/// Make a call about the file at `path`, and wait in this phase.
pub open spec fn recv_file_call(
    path: Seq<char>,
    call: TransferCallView,
    phase: RecvFilePhase,
) -> RecvFileStep {
    Step::Call(call, RecvFileView { path, phase })
}

/// The first step of receiving a file, given the directory that it lies in: that one is made
/// on this computer.
pub open spec fn recv_file_start(path: Seq<char>, parent: Option<Seq<char>>) -> RecvFileStep {
    match parent {
        Some(dir) => recv_file_call(
            path,
            TransferCallView::MakeLocalDirs(dir),
            RecvFilePhase::MakeLocalDirs,
        ),
        None => recv_file_call(path, TransferCallView::Sftp, RecvFilePhase::Sftp),
    }
}

/// The memory to start with for a file of this size.
pub open spec fn reserved(size: Option<u64>) -> usize {
    match size {
        Some(bytes) => bytes as usize,
        None => 0,
    }
}

/// The next step of receiving a file, after a reply: what is read of the remote file is written
/// to the local one.
pub open spec fn recv_file_next(state: RecvFileView, reply: TransferReply) -> RecvFileStep {
    let path = state.path;
    match (state.phase, reply) {
        (_, TransferReply::Failed(error)) => Step::Return(Err(ErrorView::Io(error))),
        (_, TransferReply::SshFailed(error)) => Step::Return(Err(ErrorView::Ssh(error))),
        (RecvFilePhase::MakeLocalDirs, _) => recv_file_call(
            path,
            TransferCallView::Sftp,
            RecvFilePhase::Sftp,
        ),
        (RecvFilePhase::Sftp, _) => recv_file_call(
            path,
            TransferCallView::StatRemote(path),
            RecvFilePhase::StatRemote,
        ),
        (RecvFilePhase::StatRemote, TransferReply::RemoteStat { size, .. }) => recv_file_call(
            path,
            TransferCallView::OpenRemote,
            RecvFilePhase::Open(size),
        ),
        (RecvFilePhase::Open(size), _) => recv_file_call(
            path,
            TransferCallView::ReadRemote(reserved(size)),
            RecvFilePhase::Read,
        ),
        (RecvFilePhase::Read, TransferReply::Data(data)) => recv_file_call(
            path,
            TransferCallView::WriteLocal(data@),
            RecvFilePhase::Write,
        ),
        _ => Step::Return(Ok(())),
    }
}

impl RecvFile {
    /// Start to receive the file at `path`, given the directory that it lies in.
    pub fn start_in(path: String, parent: Option<String>) -> (step: Step<
        TransferCall,
        RecvFile,
        Result<(), Error>,
    >)
        ensures
            recv_file_view(step) == recv_file_start(path@, path_view(parent)),
    {
        match parent {
            // Create the local parent directory if it doesn't already exist
            Some(dir) => {
                Step::Call(
                    TransferCall::MakeLocalDirs(dir),
                    RecvFile { path, phase: RecvFilePhase::MakeLocalDirs },
                )
            },
            None => Step::Call(TransferCall::Sftp, RecvFile { path, phase: RecvFilePhase::Sftp }),
        }
    }

    /// Start to receive the file at `path` from a remote computer.
    pub fn start(path: String) -> (step: Step<TransferCall, RecvFile, Result<(), Error>>)
        ensures
            recv_file_view(step) == recv_file_start(path@, parent_of(path@)),
    {
        let parent = path_parent(path.as_str());
        RecvFile::start_in(path, parent)
    }

    /// Whether `reply` can be the answer that is waited for. A directory cannot be received.
    pub fn accepts(&self, reply: &TransferReply) -> (fits: bool)
        ensures
            fits == recv_file_accepts(self@, *reply),
    {
        match self.phase {
            RecvFilePhase::MakeLocalDirs | RecvFilePhase::Write => {
                matches!(reply, TransferReply::Done | TransferReply::Failed(_))
            },
            RecvFilePhase::Sftp | RecvFilePhase::Open(_) => {
                matches!(reply, TransferReply::Done | TransferReply::SshFailed(_))
            },
            RecvFilePhase::StatRemote => match reply {
                TransferReply::RemoteStat { perm, .. } => !is_dir(*perm),
                TransferReply::SshFailed(_) => true,
                _ => false,
            },
            RecvFilePhase::Read => {
                matches!(reply, TransferReply::Data(_) | TransferReply::Failed(_))
            },
        }
    }

    /// Go on receiving the file.
    pub fn resume(self, reply: TransferReply) -> (step: Step<
        TransferCall,
        RecvFile,
        Result<(), Error>,
    >)
        requires
            recv_file_accepts(self@, reply),
        ensures
            recv_file_view(step) == recv_file_next(self@, reply),
    {
        let RecvFile { path, phase } = self;
        match (phase, reply) {
            (_, TransferReply::Failed(error)) => Step::Return(Err(Error::Io(error))),
            (_, TransferReply::SshFailed(error)) => Step::Return(Err(Error::Ssh(error))),
            (RecvFilePhase::MakeLocalDirs, _) => {
                Step::Call(TransferCall::Sftp, RecvFile { path, phase: RecvFilePhase::Sftp })
            },
            (RecvFilePhase::Sftp, _) => {
                Step::Call(
                    TransferCall::StatRemote(path.clone()),
                    RecvFile { path, phase: RecvFilePhase::StatRemote },
                )
            },
            // Open and retrieve the file from the remote
            (RecvFilePhase::StatRemote, TransferReply::RemoteStat { size, .. }) => {
                Step::Call(
                    TransferCall::OpenRemote,
                    RecvFile { path, phase: RecvFilePhase::Open(size) },
                )
            },
            (RecvFilePhase::Open(size), _) => {
                let reserve: usize = match size {
                    Some(bytes) => bytes as usize,
                    None => 0,
                };
                Step::Call(
                    TransferCall::ReadRemote(reserve),
                    RecvFile { path, phase: RecvFilePhase::Read },
                )
            },
            (RecvFilePhase::Read, TransferReply::Data(data)) => {
                Step::Call(
                    TransferCall::WriteLocal(data),
                    RecvFile { path, phase: RecvFilePhase::Write },
                )
            },
            _ => Step::Return(Ok(())),
        }
    }
}

impl MakeDirs {
    /// Whether `reply` can be the answer that is waited for.
    pub fn accepts(&self, reply: &TransferReply) -> (fits: bool)
        ensures
            fits == make_dirs_accepts(self@, *reply),
    {
        if self.making {
            matches!(reply, TransferReply::Done | TransferReply::SshFailed(_))
        } else {
            matches!(reply, TransferReply::RemoteStat { .. } | TransferReply::SshFailed(_))
        }
    }
}

impl SendFile {
    /// Whether `reply` can be the answer that is waited for.
    pub fn accepts(&self, reply: &TransferReply) -> (fits: bool)
        ensures
            fits == send_file_accepts(self@, *reply),
    {
        match &self.phase {
            SendFilePhase::Sftp | SendFilePhase::Create(..) | SendFilePhase::SetStat => {
                matches!(reply, TransferReply::Done | TransferReply::SshFailed(_))
            },
            SendFilePhase::StatRemote => {
                matches!(reply, TransferReply::RemoteStat { .. } | TransferReply::SshFailed(_))
            },
            SendFilePhase::MakeDirs(state) => state.accepts(reply),
            SendFilePhase::StatLocal(_) => {
                matches!(reply, TransferReply::LocalStat { .. } | TransferReply::Failed(_))
            },
            SendFilePhase::ReadLocal(..) => {
                matches!(reply, TransferReply::Data(_) | TransferReply::Failed(_))
            },
            SendFilePhase::Write(..) => {
                matches!(reply, TransferReply::Done | TransferReply::Failed(_))
            },
        }
    }
}

/// The outcome of a transfer to or from a process that is a local one: nothing is to be done.
pub open spec fn nothing_to_do<S>() -> TransferStep<S> {
    Step::Return(Ok(()))
}

impl Process {
    /// Send the file at `path` to the computer that this process runs on, over its session.
    ///
    /// Nothing is to be done for a local process.
    pub fn send_file(&self, path: String) -> (step: Step<TransferCall, SendFile, Result<(), Error>>)
        ensures
            send_file_view(step) == (match self@.inner {
                ProcessInner::Local { .. } => nothing_to_do(),
                ProcessInner::Remote => send_file_start(path@),
            }),
            self.inner is Local ==> (step matches Step::Return(outcome) && outcome is Ok),
            self.inner is Remote ==> (step matches Step::Call(call, state) && call
                is Sftp && state.path@ == path@),
    {
        match self.inner {
            ProcessInner::Local { .. } => Step::Return(Ok(())),
            ProcessInner::Remote => SendFile::start(path),
        }
    }

    /// Receive the file at `path` from the computer that this process runs on, over its session.
    ///
    /// Nothing is to be done for a local process.
    pub fn recv_file(&self, path: String) -> (step: Step<TransferCall, RecvFile, Result<(), Error>>)
        ensures
            recv_file_view(step) == (match self@.inner {
                ProcessInner::Local { .. } => nothing_to_do(),
                ProcessInner::Remote => recv_file_start(path@, parent_of(path@)),
            }),
            self.inner is Local ==> (step matches Step::Return(outcome) && outcome is Ok),
            self.inner is Remote ==> (step matches Step::Call(_, state) && state.path@ == path@),
    {
        match self.inner {
            ProcessInner::Local { .. } => Step::Return(Ok(())),
            ProcessInner::Remote => RecvFile::start(path),
        }
    }
}

} // verus!
