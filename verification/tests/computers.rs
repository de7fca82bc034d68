//! Computers, connections and commands.

use process_anywhere::call::{Reply, Step};
use process_anywhere::computer::{scrub, show_fields, Address, Computer, ConnectCall, Connecting};
use process_anywhere::error::{Error, ErrorKind, IoError, SshCode, SshError};
use process_anywhere::launch::{LaunchCall, LaunchPhase};
use process_anywhere::process::{Process, ProcessInner};
use process_anywhere::shell::assemble;
use std::sync::Arc;

fn address(ip: &str, text: &str) -> Address {
    Address { ip: ip.to_string(), text: text.to_string() }
}

fn computer(host: &str, auth: &str, key: &str) -> Computer {
    Computer::Remote {
        host: host.to_string(),
        addr: address("127.0.0.1", "127.0.0.1:1234"),
        user: "unit_test".to_string(),
        auth: auth.to_string(),
        key: key.to_string(),
    }
}

fn failure() -> IoError {
    IoError { kind: ErrorKind::Other, report: Some(9) }
}

fn ssh_failure() -> SshError {
    SshError { code: SshCode::Session(-18), report: Some(8) }
}

fn words(command: &[&str]) -> Vec<String> {
    command.iter().map(|word| word.to_string()).collect()
}

/// Test how computers are shown.
#[test]
fn passwords_hidden() {
    let comp1 = Computer::Local;
    let comp2 = computer("", "Z", "");

    let debug = format!("{}\n{}", comp1.debug(false), comp2.debug(false));
    assert!(debug.contains("unit_test"));
    assert!(!debug.contains("Z"));
}

#[test]
fn computers_as_they_are_shown() {
    assert_eq!(Computer::Local.debug(false), "Local");
    assert_eq!(
        computer("a\"b", "secret", "/home/me/key").debug(false),
        "Remote { host: \"a\\\"b\", addr: 127.0.0.1:1234, user: \"unit_test\", auth: [hidden], \
         key: \"/home/me/key\" }"
    );
    assert_eq!(
        computer("", "", "").debug(true),
        "Remote {\n    host: \"\",\n    addr: 127.0.0.1:1234,\n    user: \"unit_test\",\n    \
         auth: \"\",\n    key: \"\",\n}"
    );
    assert_eq!(computer("h", "one", "k").debug(true), computer("h", "other", "k").debug(true));
    assert_eq!(
        show_fields("H", "A", "U", "x", "K", false),
        "Remote { host: H, addr: A, user: U, auth: [hidden], key: K }"
    );
}

#[test]
fn hostnames() {
    assert_eq!(Computer::new_local().host(), "localhost");
    assert_eq!(computer("example.org:22", "", "").host(), "example.org:22");
    assert_eq!(computer("", "", "").host(), "127.0.0.1");
}

#[test]
fn first_address_is_used() {
    let resolved = vec![address("192.0.2.1", "192.0.2.1:22"), address("192.0.2.2", "192.0.2.2:22")];
    let computer = Computer::new_remote(
        "example.org:22".to_string(),
        "me".to_string(),
        "/key".to_string(),
        Ok(resolved),
    );
    match &*computer.unwrap() {
        Computer::Remote { host, addr, user, auth, key } => {
            assert_eq!(host, "example.org:22");
            assert_eq!(addr.text, "192.0.2.1:22");
            assert_eq!(addr.ip, "192.0.2.1");
            assert_eq!(user, "me");
            assert_eq!(auth, "");
            assert_eq!(key, "/key");
        }
        Computer::Local => panic!("not a remote computer"),
    }
    let outcome = Computer::new_remote(String::new(), String::new(), String::new(), Err(failure()));
    assert!(matches!(outcome, Err(Error::Io(error)) if error == failure()));
}

#[test]
fn password_is_deleted() {
    let mut remote = computer("h", "secret", "k");
    let copy = remote.clone();
    let freed = remote.delete_auth();
    assert!(freed.len() >= 6);
    assert_eq!(freed.len(), freed.capacity());
    assert!(freed.iter().all(|byte| *byte == 0));
    // There is nothing left to delete
    assert!(remote.delete_auth().is_empty());
    match remote {
        Computer::Remote { host, auth, key, .. } => {
            assert_eq!(auth, "");
            assert_eq!(auth.capacity(), 0);
            assert_eq!(host, "h");
            assert_eq!(key, "k");
        }
        Computer::Local => panic!("not a remote computer"),
    }
    assert!(matches!(copy, Computer::Remote { auth, .. } if auth == "secret"));
    let mut local = Computer::Local;
    assert!(local.delete_auth().is_empty());
    assert!(matches!(local, Computer::Local));
}

#[test]
fn memory_is_scrubbed_to_its_capacity() {
    let mut bytes = Vec::with_capacity(40);
    bytes.extend(b"secret");
    let (memory, capacity) = (bytes.as_ptr(), bytes.capacity());
    scrub(&mut bytes, capacity);
    assert_eq!(bytes, vec![0; capacity]);
    // It is the same memory
    assert_eq!(bytes.as_ptr(), memory);
    let mut empty = vec![];
    scrub(&mut empty, 0);
    assert!(empty.is_empty());
}

/// The calls that connecting makes when all goes well.
fn connect(computer: &Computer) -> Vec<String> {
    let mut calls = vec![];
    let mut step = computer.connect();
    loop {
        step = match step {
            Step::Return(outcome) => {
                outcome.unwrap();
                return calls;
            }
            Step::Call(call, state) => {
                calls.push(match call {
                    ConnectCall::Tcp(address) => format!("tcp {}", address.text),
                    ConnectCall::Session => "session".to_string(),
                    ConnectCall::Handshake => "handshake".to_string(),
                    ConnectCall::PublicKey { user, key } => format!("key {user} {key}"),
                    ConnectCall::Password { user, auth } => format!("password {user} {auth}"),
                });
                assert!(state.accepts(&Reply::Done));
                computer.resume_connect(state, Reply::Done)
            }
        };
    }
}

#[test]
fn connecting() {
    let start = ["tcp 127.0.0.1:1234", "session", "handshake"];
    assert_eq!(connect(&computer("", "", "")), start);
    let calls = connect(&computer("", "pw", ""));
    assert_eq!(calls[..3], start);
    assert_eq!(calls[3..], ["password unit_test pw"]);
    let calls = connect(&computer("", "pw", "/key"));
    assert_eq!(calls[3..], ["key unit_test /key"]);
}

#[test]
fn connecting_fails() {
    let computer = computer("", "", "");
    let step = computer.resume_connect(Connecting::Tcp, Reply::Failed(failure()));
    assert!(matches!(step, Step::Return(Err(Error::Io(error))) if error == failure()));
    for state in [Connecting::Session, Connecting::Handshake, Connecting::Login] {
        assert!(state.accepts(&Reply::SshFailed(ssh_failure())));
        assert!(!state.accepts(&Reply::Failed(failure())));
        let step = computer.resume_connect(state, Reply::SshFailed(ssh_failure()));
        assert!(matches!(step, Step::Return(Err(Error::Ssh(error))) if error == ssh_failure()));
    }
    assert!(!Connecting::Tcp.accepts(&Reply::SshFailed(ssh_failure())));
}

#[test]
fn command_lines() {
    assert_eq!(assemble(&words(&["cat", "-"])), "cat -");
    assert_eq!(assemble(&words(&["echo", ""])), "echo ''");
    assert_eq!(assemble(&words(&["echo", "-e", "one\ntwo"])), "echo -e 'one\ntwo'");
    assert_eq!(assemble(&words(&["a b", "it's", "wow!"])), "'a b' 'it'\\''s' 'wow'\\!''");
    assert_eq!(assemble(&words(&["A-Za-z0-9_=/,.+", "$HOME"])), "A-Za-z0-9_=/,.+ '$HOME'");
    assert_eq!(assemble(&words(&["\u{e9}"])), "'\u{e9}'");
    assert_ne!(assemble(&words(&["a b"])), assemble(&words(&["a", "b"])));
}

#[test]
fn launching_a_local_process() {
    let local = Computer::new_local();
    let command = words(&["echo", "-e", "a b"]);
    let Step::Call(call, launch) = Process::new(&local, &command) else {
        panic!("the program is not started");
    };
    assert!(matches!(call, LaunchCall::Spawn { program, args }
        if program == "echo" && args == ["-e", "a b"]));
    assert!(launch.phase.accepts(&Reply::Done));
    let Step::Call(call, launch) = Process::resume_new(launch, Reply::Done) else {
        panic!("the standard error output is not made non-blocking");
    };
    assert!(matches!(call, LaunchCall::StderrNonblocking));
    assert!(!launch.phase.accepts(&Reply::Failed(failure())));
    let Step::Return(process) = Process::resume_new(launch, Reply::Done) else {
        panic!("there is nothing left to do");
    };
    let process = process.unwrap();
    assert_eq!(process.inner, ProcessInner::Local { stdin: true, stdout: true, stderr: true });
    assert!(process.stdout_buffer.is_empty());
    assert!(process.stderr_buffer.is_empty());
    assert!(Arc::ptr_eq(process.computer(), &local));
}

#[test]
fn launching_a_remote_process() {
    let remote = Arc::new(computer("", "", "/key"));
    let command = words(&["printf", "%s\n", "it's"]);
    let mut phases = vec![];
    let mut line = None;
    let mut step = remote.exec(&command);
    let process = loop {
        step = match step {
            Step::Return(process) => break process.unwrap(),
            Step::Call(call, launch) => {
                phases.push(launch.phase);
                if let LaunchCall::Exec(text) = call {
                    line = Some(text);
                }
                Process::resume_new(launch, Reply::Done)
            }
        };
    };
    assert_eq!(
        phases,
        [
            LaunchPhase::Connect(Connecting::Tcp),
            LaunchPhase::Connect(Connecting::Session),
            LaunchPhase::Connect(Connecting::Handshake),
            LaunchPhase::Connect(Connecting::Login),
            LaunchPhase::Channel,
            LaunchPhase::Exec,
        ]
    );
    assert_eq!(line.unwrap(), "printf '%s\n' 'it'\\''s'");
    assert_eq!(process.inner, ProcessInner::Remote);
    assert!(Arc::ptr_eq(process.computer(), &remote));
}

#[test]
fn launching_fails() {
    let local = Computer::new_local();
    let command = words(&["no such program"]);
    let Step::Call(_, launch) = local.exec(&command) else {
        panic!("the program is not started");
    };
    let step = Process::resume_new(launch, Reply::Failed(failure()));
    assert!(matches!(step, Step::Return(Err(Error::Io(error))) if error == failure()));
    let remote = Arc::new(computer("", "", ""));
    let Step::Call(_, mut launch) = remote.exec(&command) else {
        panic!("no connection is made");
    };
    launch.phase = LaunchPhase::Channel;
    assert!(launch.phase.accepts(&Reply::SshFailed(ssh_failure())));
    let step = Process::resume_new(launch, Reply::SshFailed(ssh_failure()));
    assert!(matches!(step, Step::Return(Err(Error::Ssh(error))) if error == ssh_failure()));
}
