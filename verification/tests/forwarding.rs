//! Forwarding standard error outputs.

use process_anywhere::computer::Computer;
use process_anywhere::error::{ErrorKind, IoError};
use process_anywhere::forwarder::{ForwardCall, ForwardReply, Forwarder, Source};
use process_anywhere::process::{Process, ProcessInner};
use std::collections::VecDeque;

fn failed(kind: ErrorKind) -> ForwardReply {
    ForwardReply::Failed(IoError { kind, report: None })
}

/// What forwarding asks after each of these replies.
fn ask(forwarder: &mut Forwarder, replies: Vec<ForwardReply>) -> Vec<String> {
    let mut asked = vec![];
    for reply in replies {
        assert!(forwarder.accepts(&reply));
        asked.push(match forwarder.resume_main(reply) {
            None => "end".to_string(),
            Some(ForwardCall::Receive) => "receive".to_string(),
            Some(ForwardCall::Yield) => "yield".to_string(),
            Some(ForwardCall::Session { id, blocking: false }) => format!("enter {id}"),
            Some(ForwardCall::Session { id, blocking: true }) => format!("leave {id}"),
            Some(ForwardCall::Read(id)) => format!("read {id}"),
            Some(ForwardCall::Write(data)) => format!("write {}", String::from_utf8(data).unwrap()),
            Some(ForwardCall::Drop(id)) => format!("drop {id}"),
        });
    }
    asked
}

fn local(id: u64) -> ForwardReply {
    ForwardReply::Message(Source { id, remote: false })
}

fn remote(id: u64) -> ForwardReply {
    ForwardReply::Message(Source { id, remote: true })
}

fn data(text: &str) -> ForwardReply {
    ForwardReply::Data(text.as_bytes().to_vec())
}

#[test]
fn idle_forwarder_lets_others_run() {
    let mut forwarder = Forwarder::new();
    assert!(matches!(forwarder.main(), Some(ForwardCall::Receive)));
    let asked = ask(
        &mut forwarder,
        vec![ForwardReply::Empty, ForwardReply::Done, ForwardReply::Disconnected],
    );
    assert_eq!(asked, ["yield", "receive", "end"]);
}

#[test]
fn source_is_exhausted_before_the_next() {
    let mut forwarder = Forwarder::new();
    assert_eq!(
        ask(&mut forwarder, vec![local(1), failed(ErrorKind::WouldBlock)]),
        ["read 1", "receive"]
    );
    let asked = ask(
        &mut forwarder,
        vec![
            remote(2),
            data("a"),
            ForwardReply::Done,
            data("b"),
            ForwardReply::Done,
            failed(ErrorKind::WouldBlock),
            ForwardReply::Done,
            data("c"),
            ForwardReply::Done,
            failed(ErrorKind::WouldBlock),
            ForwardReply::Done,
        ],
    );
    assert_eq!(
        asked,
        [
            "read 1", "write a", "read 1", "write b", "read 1", "enter 2", "read 2", "write c",
            "read 2", "leave 2", "receive",
        ]
    );
}

#[test]
fn closed_sources_are_dropped() {
    let mut forwarder = Forwarder::new();
    for id in 0..4 {
        let mut replies = vec![local(id)];
        replies.extend((0..=id).map(|_| failed(ErrorKind::WouldBlock)));
        ask(&mut forwarder, replies);
    }
    // The first ends, the third fails
    let asked = ask(
        &mut forwarder,
        vec![
            ForwardReply::Empty,
            data(""),
            failed(ErrorKind::WouldBlock),
            failed(ErrorKind::Other),
            failed(ErrorKind::WouldBlock),
            ForwardReply::Done,
            ForwardReply::Done,
        ],
    );
    assert_eq!(asked, ["read 0", "read 1", "read 2", "read 3", "drop 2", "drop 0", "receive"]);
    // The others remain, in other places
    let asked = ask(
        &mut forwarder,
        vec![ForwardReply::Empty, failed(ErrorKind::WouldBlock), failed(ErrorKind::WouldBlock)],
    );
    assert_eq!(asked, ["read 3", "read 1", "receive"]);
}

#[test]
fn closed_remote_source_leaves_its_session() {
    let mut forwarder = Forwarder::new();
    let asked = ask(
        &mut forwarder,
        vec![
            remote(5),
            ForwardReply::Done,
            failed(ErrorKind::BrokenPipe),
            ForwardReply::Done,
            ForwardReply::Done,
        ],
    );
    assert_eq!(asked, ["enter 5", "read 5", "leave 5", "drop 5", "receive"]);
}

#[test]
fn standard_error_is_handed_over() {
    let process = |inner| Process {
        computer: Computer::new_local(),
        stdout_buffer: VecDeque::new(),
        stderr_buffer: VecDeque::from(b"read before".to_vec()),
        inner,
    };
    let mut child = process(ProcessInner::Local { stdin: true, stdout: false, stderr: true });
    assert_eq!(Forwarder::forward_stderr(&mut child, 7), Source { id: 7, remote: false });
    assert_eq!(child.inner, ProcessInner::Local { stdin: true, stdout: false, stderr: false });
    assert_eq!(child.stderr_buffer.len(), 11);
    let mut other = process(ProcessInner::Remote);
    assert_eq!(Forwarder::forward_stderr(&mut other, 8), Source { id: 8, remote: true });
    assert_eq!(other.inner, ProcessInner::Remote);
}

#[test]
fn answers_that_do_not_fit() {
    let mut forwarder = Forwarder::new();
    assert!(!forwarder.accepts(&ForwardReply::Done));
    ask(&mut forwarder, vec![local(1)]);
    assert!(!forwarder.accepts(&ForwardReply::Empty));
    assert!(!forwarder.accepts(&ForwardReply::Data(vec![0; 8193])));
    assert!(forwarder.accepts(&ForwardReply::Data(vec![0; 8192])));
}
