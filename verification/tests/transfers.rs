//! Transferring files.

use process_anywhere::call::{Reply, Step};
use process_anywhere::computer::{Address, Computer, ConnectCall, Connecting};
use process_anywhere::connection::{FileCall, FileReply, RecvFrom, SendTo};
use process_anywhere::error::{Error, ErrorKind, IoError, SshCode, SshError};
use process_anywhere::process::{Process, ProcessInner};
use process_anywhere::transfer::{
    remote_create_dir_all, MakeDirs, RecvFile, RecvFilePhase, SendFile, SendFilePhase,
    TransferCall, TransferReply,
};
use std::collections::{HashMap, VecDeque};
use std::sync::Arc;

const FILE_TYPE: u32 = 0o100000;
const DIR_TYPE: u32 = 0o040000;

fn ssh_failure(code: SshCode) -> SshError {
    SshError { code, report: Some(6) }
}

fn missing() -> TransferReply {
    TransferReply::SshFailed(ssh_failure(SshCode::SFTP(2)))
}

fn failure() -> IoError {
    IoError { kind: ErrorKind::Other, report: Some(5) }
}

#[derive(Clone)]
struct File {
    data: Vec<u8>,
    perm: u32,
    mtime: u64,
}

/// The files of two computers, and what was done to them.
#[derive(Default)]
struct Disks {
    local: HashMap<String, File>,
    remote: HashMap<String, File>,
    remote_dirs: Vec<String>,
    local_dirs: Vec<String>,
    made: Vec<(String, i32)>,
    reserved: Option<usize>,
}

impl Disks {
    fn perform(&mut self, path: &str, call: TransferCall) -> TransferReply {
        match call {
            TransferCall::Sftp => TransferReply::Done,
            TransferCall::StatRemote(path) => {
                if let Some(file) = self.remote.get(&path) {
                    TransferReply::RemoteStat {
                        perm: Some(file.perm),
                        mtime: Some(file.mtime),
                        size: Some(file.data.len() as u64),
                    }
                } else if self.remote_dirs.contains(&path) {
                    TransferReply::RemoteStat { perm: Some(DIR_TYPE | 0o775), mtime: None, size: None }
                } else {
                    missing()
                }
            }
            TransferCall::Mkdir(dir, mode) => {
                self.made.push((dir.clone(), mode));
                self.remote_dirs.push(dir);
                TransferReply::Done
            }
            TransferCall::StatLocal => match self.local.get(path) {
                Some(file) => {
                    TransferReply::LocalStat { perm: Some(file.perm), modified: file.mtime }
                }
                None => TransferReply::Failed(failure()),
            },
            TransferCall::ReadLocal => TransferReply::Data(self.local[path].data.clone()),
            TransferCall::CreateRemote => {
                self.remote.insert(path.to_string(), File { data: vec![], perm: 0, mtime: 0 });
                TransferReply::Done
            }
            TransferCall::WriteRemote(data) => {
                self.remote.get_mut(path).unwrap().data = data;
                TransferReply::Done
            }
            TransferCall::SetStat { perm, mtime } => {
                let file = self.remote.get_mut(path).unwrap();
                file.perm = perm.unwrap();
                file.mtime = mtime;
                TransferReply::Done
            }
            TransferCall::MakeLocalDirs(dir) => {
                self.local_dirs.push(dir);
                TransferReply::Done
            }
            TransferCall::OpenRemote => {
                if self.remote.contains_key(path) {
                    TransferReply::Done
                } else {
                    missing()
                }
            }
            TransferCall::ReadRemote(reserve) => {
                self.reserved = Some(reserve);
                TransferReply::Data(self.remote[path].data.clone())
            }
            TransferCall::WriteLocal(data) => {
                let file = File { data, perm: FILE_TYPE | 0o644, mtime: 99 };
                self.local.insert(path.to_string(), file);
                TransferReply::Done
            }
        }
    }

    fn send(&mut self, path: &str) -> Result<(), Error> {
        let mut step = SendFile::start(path.to_string());
        loop {
            step = match step {
                Step::Return(outcome) => return outcome,
                Step::Call(call, state) => {
                    let reply = self.perform(path, call);
                    assert!(state.accepts(&reply));
                    state.resume(reply)
                }
            };
        }
    }

    fn receive(&mut self, path: &str) -> Result<(), Error> {
        let mut step = RecvFile::start(path.to_string());
        loop {
            step = match step {
                Step::Return(outcome) => return outcome,
                Step::Call(call, state) => {
                    let reply = self.perform(path, call);
                    assert!(state.accepts(&reply));
                    state.resume(reply)
                }
            };
        }
    }
}

fn file(text: &str, mtime: u64) -> File {
    File { data: text.as_bytes().to_vec(), perm: FILE_TYPE | 0o640, mtime }
}

/// Send a file to another file system, and get it back.
#[test]
fn file_there_and_back() {
    let path = "/tmp/process_anywhere_file_roundtrip/test_file";
    let mut disks = Disks { remote_dirs: vec!["/".to_string()], ..Disks::default() };
    disks.local.insert(path.to_string(), file("Hello roundtrip!", 1234));
    disks.send(path).unwrap();
    assert_eq!(disks.remote[path].data, b"Hello roundtrip!");
    assert_eq!(disks.remote[path].perm, FILE_TYPE | 0o640);
    assert_eq!(disks.remote[path].mtime, 1234);
    assert_eq!(
        disks.made,
        [
            ("/tmp".to_string(), 0o775),
            ("/tmp/process_anywhere_file_roundtrip".to_string(), 0o775),
        ]
    );
    // Sending it again finds it up to date
    disks.made.clear();
    disks.remote.get_mut(path).unwrap().data.push(b'?');
    disks.send(path).unwrap();
    assert_eq!(disks.remote[path].data, b"Hello roundtrip!?");
    assert!(disks.made.is_empty());
    disks.remote.get_mut(path).unwrap().data.pop();
    disks.local.clear();
    disks.receive(path).unwrap();
    assert_eq!(disks.local[path].data, b"Hello roundtrip!");
    assert_eq!(disks.local_dirs, ["/tmp/process_anywhere_file_roundtrip"]);
    assert_eq!(disks.reserved, Some(16));
}

#[test]
fn file_that_is_up_to_date() {
    let mut disks = Disks::default();
    disks.local.insert("/f".to_string(), file("new", 7));
    disks.remote.insert("/f".to_string(), file("old", 7));
    disks.send("/f").unwrap();
    assert_eq!(disks.remote["/f"].data, b"old");
    // Another time stamp, earlier or later, is not up to date
    disks.remote.get_mut("/f").unwrap().mtime = 8;
    disks.send("/f").unwrap();
    assert_eq!(disks.remote["/f"].data, b"new");
    assert_eq!(disks.remote["/f"].mtime, 7);
    assert!(disks.made.is_empty());
}

#[test]
fn file_without_a_directory() {
    let mut disks = Disks::default();
    disks.local.insert("f".to_string(), file("x", 7));
    // A relative path lies in the directory with the empty path, which lies in none
    disks.send("f").unwrap();
    assert_eq!(disks.remote["f"].data, b"x");
    assert!(disks.made.is_empty());
    disks.receive("f").unwrap();
    assert_eq!(disks.local_dirs, [""]);
}

#[test]
fn sending_fails() {
    let mut disks = Disks::default();
    assert!(matches!(disks.send("/f"), Err(Error::Io(error)) if error == failure()));
    // Starting SFTP, and looking at the remote file
    let denied = ssh_failure(SshCode::SFTP(3));
    for phase in [SendFilePhase::Sftp, SendFilePhase::StatRemote, SendFilePhase::SetStat] {
        let state = SendFile { path: "/f".to_string(), phase };
        let reply = TransferReply::SshFailed(denied);
        assert!(state.accepts(&reply));
        let step = state.resume(reply);
        assert!(matches!(step, Step::Return(Err(Error::Ssh(error))) if error == denied));
    }
    // Reading the local file
    let state = SendFile { path: "/f".to_string(), phase: SendFilePhase::ReadLocal(None, 1) };
    assert!(!state.accepts(&TransferReply::Done));
    let step = state.resume(TransferReply::Failed(failure()));
    assert!(matches!(step, Step::Return(Err(Error::Io(error))) if error == failure()));
}

#[test]
fn session_number_two_is_no_missing_file() {
    let error = ssh_failure(SshCode::Session(2));
    let state = SendFile { path: "/d/f".to_string(), phase: SendFilePhase::StatRemote };
    let step = state.resume(TransferReply::SshFailed(error));
    assert!(matches!(step, Step::Return(Err(Error::Ssh(other))) if other == error));
}

#[test]
fn receiving_fails() {
    let mut disks = Disks::default();
    let outcome = disks.receive("/f");
    assert!(matches!(outcome, Err(Error::Ssh(error)) if error.code == SshCode::SFTP(2)));
    assert!(disks.local.is_empty());
}

#[test]
fn directory_cannot_be_received() {
    let state = RecvFile { path: "/d".to_string(), phase: RecvFilePhase::StatRemote };
    let stat = |perm| TransferReply::RemoteStat { perm, mtime: None, size: None };
    assert!(!state.accepts(&stat(Some(DIR_TYPE | 0o755))));
    assert!(state.accepts(&stat(Some(FILE_TYPE | 0o755))));
    // A block device shares a bit with a directory
    assert!(state.accepts(&stat(Some(0o060000))));
    assert!(state.accepts(&stat(None)));
}

#[test]
fn given_directory_is_used() {
    let Step::Call(call, _) = RecvFile::start_in("f".to_string(), Some("d".to_string())) else {
        panic!("the directory is not made");
    };
    assert!(matches!(call, TransferCall::MakeLocalDirs(dir) if dir == "d"));
    let Step::Call(call, _) = RecvFile::start_in("f".to_string(), None) else {
        panic!("SFTP is not started");
    };
    assert!(matches!(call, TransferCall::Sftp));
    let Step::Call(call, _) = SendFile::missing("f".to_string(), None) else {
        panic!("the local file is not looked at");
    };
    assert!(matches!(call, TransferCall::StatLocal));
}

/// The calls that making a directory makes.
fn make_dirs(target: &str, there: &[&str]) -> (Vec<String>, Result<(), Error>) {
    let mut calls = vec![];
    let mut step = remote_create_dir_all(target.to_string(), 0o700);
    loop {
        step = match step {
            Step::Return(outcome) => return (calls, outcome),
            Step::Call(call, state) => {
                let reply = match call {
                    TransferCall::StatRemote(dir) => {
                        let found = there.contains(&dir.as_str());
                        calls.push(format!("stat {dir}"));
                        if found {
                            TransferReply::RemoteStat {
                                perm: Some(DIR_TYPE),
                                mtime: None,
                                size: None,
                            }
                        } else {
                            missing()
                        }
                    }
                    TransferCall::Mkdir(dir, mode) => {
                        assert_eq!(mode, 0o700);
                        calls.push(format!("mkdir {dir}"));
                        TransferReply::Done
                    }
                    _ => panic!("this is no business of making directories"),
                };
                assert!(state.accepts(&reply));
                state.resume(reply)
            }
        };
    }
}

#[test]
fn directories_are_made_from_the_top_down() {
    let (calls, outcome) = make_dirs("/a/b/c", &["/", "/a"]);
    assert_eq!(calls, ["stat /a/b/c", "stat /a/b", "stat /a", "mkdir /a/b", "mkdir /a/b/c"]);
    assert!(outcome.is_ok());
    // One that is there
    assert_eq!(make_dirs("/a", &["/a"]).0, ["stat /a"]);
    // The root is taken to be there
    assert_eq!(make_dirs("/a", &[]).0, ["stat /a", "stat /", "mkdir /a"]);
    assert_eq!(make_dirs("a/b", &[]).0, ["stat a/b", "stat a", "stat ", "mkdir a", "mkdir a/b"]);
}

#[test]
fn making_directories_fails() {
    let denied = ssh_failure(SshCode::SFTP(3));
    let state = |making| MakeDirs {
        dir: "/a/b".to_string(),
        pending: vec!["/a/b/c".to_string()],
        making,
        mode: 0o775,
    };
    let step = state(false).resume(TransferReply::SshFailed(denied));
    assert!(matches!(step, Step::Return(Err(Error::Ssh(error))) if error == denied));
    // A directory that cannot be made is no missing one
    let step = state(true).resume(missing());
    assert!(matches!(step, Step::Return(Err(Error::Ssh(_)))));
    assert!(!state(true).accepts(&TransferReply::RemoteStat { perm: None, mtime: None, size: None }));
    // The given directory decides
    let Step::Call(call, next) = state(false).missing(Some("/a".to_string())) else {
        panic!("the directory above is not looked for");
    };
    assert!(matches!(call, TransferCall::StatRemote(dir) if dir == "/a"));
    assert_eq!(next.pending, ["/a/b/c", "/a/b"]);
    let Step::Call(call, next) = state(false).missing(None) else {
        panic!("no directory is made");
    };
    assert!(matches!(call, TransferCall::Mkdir(dir, 0o775) if dir == "/a/b/c"));
    assert!(next.pending.is_empty());
}

fn remote_computer() -> Computer {
    Computer::Remote {
        host: String::new(),
        addr: Address { ip: "192.0.2.1".to_string(), text: "192.0.2.1:22".to_string() },
        user: "me".to_string(),
        auth: String::new(),
        key: String::new(),
    }
}

#[test]
fn computer_connects_for_a_transfer() {
    let computer = remote_computer();
    let mut disks = Disks { remote_dirs: vec!["/".to_string()], ..Disks::default() };
    disks.local.insert("/f".to_string(), file("data", 7));
    let mut connecting = 0;
    let mut step = computer.send_file("/f".to_string());
    loop {
        step = match step {
            Step::Return(outcome) => {
                outcome.unwrap();
                break;
            }
            Step::Call(call, state) => {
                let reply = match call {
                    FileCall::Connect(_) => {
                        connecting += 1;
                        FileReply::Connect(Reply::Done)
                    }
                    FileCall::Transfer(call) => FileReply::Transfer(disks.perform("/f", call)),
                };
                assert!(state.accepts(&reply));
                state.resume(reply)
            }
        };
    }
    assert_eq!(connecting, 3);
    assert_eq!(disks.remote["/f"].data, b"data");
    disks.local.clear();
    let mut step = computer.recv_file("/f".to_string());
    loop {
        step = match step {
            Step::Return(outcome) => {
                outcome.unwrap();
                break;
            }
            Step::Call(call, state) => {
                let reply = match call {
                    FileCall::Connect(_) => FileReply::Connect(Reply::Done),
                    FileCall::Transfer(call) => FileReply::Transfer(disks.perform("/f", call)),
                };
                assert!(state.accepts(&reply));
                state.resume(reply)
            }
        };
    }
    assert_eq!(disks.local["/f"].data, b"data");
}

#[test]
fn connection_of_a_transfer_fails() {
    let computer = remote_computer();
    let Step::Call(FileCall::Connect(ConnectCall::Tcp(address)), state) =
        computer.send_file("/f".to_string())
    else {
        panic!("no connection is made");
    };
    assert_eq!(address.text, "192.0.2.1:22");
    let step = state.resume(FileReply::Connect(Reply::Failed(failure())));
    assert!(matches!(step, Step::Return(Err(Error::Io(error))) if error == failure()));
    let waiting = RecvFrom::Connect {
        computer: &computer,
        path: "/f".to_string(),
        state: Connecting::Tcp,
    };
    assert!(!waiting.accepts(&FileReply::Connect(Reply::Failed(failure()))));
    assert!(waiting.accepts(&FileReply::Connect(Reply::Done)));
    let waiting = SendTo::Transfer(SendFile { path: "/f".to_string(), phase: SendFilePhase::Sftp });
    assert!(!waiting.accepts(&FileReply::Connect(Reply::Done)));
    assert!(waiting.accepts(&FileReply::Transfer(TransferReply::Done)));
}

#[test]
fn local_transfers_have_nothing_to_do() {
    assert!(matches!(Computer::Local.send_file("/f".to_string()), Step::Return(Ok(()))));
    assert!(matches!(Computer::Local.recv_file("/f".to_string()), Step::Return(Ok(()))));
    let process = |inner| Process {
        computer: Arc::new(Computer::Local),
        stdout_buffer: VecDeque::new(),
        stderr_buffer: VecDeque::new(),
        inner,
    };
    let local = process(ProcessInner::Local { stdin: true, stdout: true, stderr: true });
    assert!(matches!(local.send_file("/f".to_string()), Step::Return(Ok(()))));
    assert!(matches!(local.recv_file("/f".to_string()), Step::Return(Ok(()))));
    // A remote process has its session
    let remote = process(ProcessInner::Remote);
    let step = remote.send_file("/f".to_string());
    assert!(matches!(step, Step::Call(TransferCall::Sftp, _)));
    let step = remote.recv_file("/d/f".to_string());
    assert!(matches!(step, Step::Call(TransferCall::MakeLocalDirs(dir), _) if dir == "/d"));
}
