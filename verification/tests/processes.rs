//! Processes, call by call.

use process_anywhere::call::{Call, Part, Reply, Step, Stream};
use process_anywhere::computer::{Address, Computer};
use process_anywhere::error::{Error, ErrorKind, IoError, SshCode, SshError};
use process_anywhere::process::{Process, ProcessInner};
use std::collections::VecDeque;
use std::sync::Arc;

fn failure(kind: ErrorKind) -> IoError {
    IoError { kind, report: Some(3) }
}

fn failed(kind: ErrorKind) -> Reply {
    Reply::Failed(failure(kind))
}

fn ssh_failure() -> SshError {
    SshError { code: SshCode::Session(-7), report: Some(4) }
}

fn process(inner: ProcessInner, stdout: &[u8], stderr: &[u8]) -> Process {
    let computer = match inner {
        ProcessInner::Local { .. } => Computer::new_local(),
        ProcessInner::Remote => Arc::new(Computer::Remote {
            host: "example.org".to_string(),
            addr: Address { ip: "192.0.2.1".to_string(), text: "192.0.2.1:22".to_string() },
            user: "me".to_string(),
            auth: String::new(),
            key: String::new(),
        }),
    };
    Process {
        computer,
        stdout_buffer: stdout.iter().copied().collect(),
        stderr_buffer: stderr.iter().copied().collect(),
        inner,
    }
}

fn local(stdout: &[u8]) -> Process {
    process(ProcessInner::Local { stdin: true, stdout: true, stderr: true }, stdout, b"")
}

fn closed(stdout: &[u8]) -> Process {
    process(ProcessInner::Local { stdin: false, stdout: false, stderr: true }, stdout, b"")
}

fn remote(stdout: &[u8]) -> Process {
    process(ProcessInner::Remote, stdout, b"")
}

fn bytes(buffer: &VecDeque<u8>) -> Vec<u8> {
    buffer.iter().copied().collect()
}

/// Run an operation with these replies, and return the calls that it made and its outcome.
fn run<S, T>(
    first: Step<Call, S, T>,
    mut resume: impl FnMut(S, Reply) -> Step<Call, S, T>,
    replies: Vec<Reply>,
) -> (Vec<Call>, T) {
    let mut calls = vec![];
    let mut replies = replies.into_iter();
    let mut step = first;
    loop {
        step = match step {
            Step::Return(outcome) => {
                assert!(replies.next().is_none(), "the operation is over too soon");
                return (calls, outcome);
            }
            Step::Call(call, state) => {
                let reply = replies.next().expect("the operation goes on");
                assert!(call.accepts(&reply));
                calls.push(call);
                resume(state, reply)
            }
        };
    }
}

fn recv_line(process: &mut Process, replies: Vec<Reply>) -> (Vec<Call>, Result<Option<String>, Error>) {
    let first = process.recv_line();
    run(first, |state, reply| process.resume_recv_line(state, reply), replies)
}

fn error_line(process: &mut Process, replies: Vec<Reply>) -> (Vec<Call>, Result<Option<String>, Error>) {
    let first = process.error_line();
    run(first, |state, reply| process.resume_error_line(state, reply), replies)
}

fn recv_bytes(
    process: &mut Process,
    len: usize,
    replies: Vec<Reply>,
) -> (Vec<Call>, Result<Option<Vec<u8>>, Error>) {
    let first = process.recv_bytes(len);
    run(first, |state, reply| process.resume_recv_bytes(state, reply), replies)
}

fn error_bytes(process: &mut Process, replies: Vec<Reply>) -> (Vec<Call>, Result<Vec<u8>, Error>) {
    let first = process.error_bytes();
    run(first, |state, reply| process.resume_error_bytes(state, reply), replies)
}

fn block_line(process: &mut Process, replies: Vec<Reply>) -> (Vec<Call>, Result<String, Error>) {
    let first = process.block_line();
    run(first, |state, reply| process.resume_block_line(state, reply), replies)
}

fn block_bytes(
    process: &mut Process,
    len: usize,
    replies: Vec<Reply>,
) -> (Vec<Call>, Result<Vec<u8>, Error>) {
    let first = process.block_bytes(len);
    run(first, |state, reply| process.resume_block_bytes(state, reply), replies)
}

fn is_alive(process: &mut Process, replies: Vec<Reply>) -> (Vec<Call>, Result<bool, Error>) {
    let first = process.is_alive();
    run(first, |state, reply| process.resume_is_alive(state, reply), replies)
}

fn close_stdio(process: &mut Process, replies: Vec<Reply>) -> (Vec<Call>, Result<(), Error>) {
    let first = process.close_stdio();
    run(first, |state, reply| process.resume_close_stdio(state, reply), replies)
}

fn wait(process: &mut Process, replies: Vec<Reply>) -> (Vec<Call>, Result<bool, Error>) {
    let first = process.wait();
    run(first, |state, reply| process.resume_wait(state, reply), replies)
}

const READ_OUT: Call = Call::Read { stream: Stream::Stdout, room: 8192 };
const READ_ERR: Call = Call::Read { stream: Stream::Stderr, room: 8192 };
const ENTER_OUT: Call = Call::Descriptor { stream: Stream::Stdout, blocking: false };
const LEAVE_OUT: Call = Call::Descriptor { stream: Stream::Stdout, blocking: true };
const ENTER: Call = Call::Session { blocking: false };
const LEAVE: Call = Call::Session { blocking: true };

#[test]
fn buffered_line_takes_no_call() {
    let mut process = local(b"ready\nrest");
    let (calls, line) = recv_line(&mut process, vec![]);
    assert!(calls.is_empty());
    assert_eq!(line.unwrap().unwrap(), "ready");
    assert_eq!(bytes(&process.stdout_buffer), b"rest");
}

#[test]
fn channel_is_left_blocking() {
    let mut process = local(b"be");
    let replies = vec![
        Reply::Done,
        Reply::Data(b"fore\nafter".to_vec()),
        failed(ErrorKind::WouldBlock),
        Reply::Done,
    ];
    let (calls, line) = recv_line(&mut process, replies);
    assert_eq!(calls, [ENTER_OUT, READ_OUT, READ_OUT, LEAVE_OUT]);
    assert_eq!(line.unwrap().unwrap(), "before");
    assert_eq!(bytes(&process.stdout_buffer), b"after");
    // A failure too
    let replies = vec![Reply::Done, failed(ErrorKind::Other), Reply::Done];
    let (calls, line) = recv_line(&mut process, replies);
    assert_eq!(calls, [ENTER_OUT, READ_OUT, LEAVE_OUT]);
    assert!(matches!(line, Err(Error::Io(error)) if error == failure(ErrorKind::Other)));
    assert_eq!(bytes(&process.stdout_buffer), b"after");
}

#[test]
fn failure_takes_no_data_away() {
    // What came is returned first, and the failure shows on the next read
    for kind in [ErrorKind::Other, ErrorKind::BrokenPipe, ErrorKind::UnexpectedEof] {
        let mut process = remote(b"be");
        let replies =
            vec![Reply::Done, Reply::Data(b"fore\na".to_vec()), failed(kind), Reply::Done];
        let (calls, line) = recv_line(&mut process, replies);
        assert_eq!(calls, [ENTER, READ_OUT, READ_OUT, LEAVE]);
        assert_eq!(line.unwrap().unwrap(), "before");
        assert_eq!(bytes(&process.stdout_buffer), b"a");
    }
    // So it is behind a read that was filled, and without a line
    let mut process = local(b"");
    let replies =
        vec![Reply::Done, Reply::Data(vec![b'x'; 8192]), failed(ErrorKind::Other), Reply::Done];
    assert!(recv_line(&mut process, replies).1.unwrap().is_none());
    assert_eq!(process.stdout_buffer.len(), 8192);
    let replies = vec![Reply::Done, failed(ErrorKind::Other), Reply::Done];
    let (_, line) = recv_line(&mut process, replies);
    assert!(matches!(line, Err(Error::Io(error)) if error == failure(ErrorKind::Other)));
    assert_eq!(process.stdout_buffer.len(), 8192);
    // The start of a line is not taken for the whole of it
    let mut process = local(b"start ");
    let replies = vec![
        Reply::Done,
        Reply::Data(b"end".to_vec()),
        failed(ErrorKind::BrokenPipe),
        Reply::Done,
    ];
    assert!(recv_line(&mut process, replies).1.unwrap().is_none());
    let replies = vec![Reply::Done, failed(ErrorKind::BrokenPipe), Reply::Done];
    assert_eq!(recv_line(&mut process, replies).1.unwrap().unwrap(), "start end");
    // Bytes and the standard error output
    let mut process = remote(b"");
    let replies =
        || vec![Reply::Done, Reply::Data(b"ab".to_vec()), failed(ErrorKind::Other), Reply::Done];
    assert_eq!(recv_bytes(&mut process, 2, replies()).1.unwrap().unwrap(), b"ab");
    assert_eq!(error_bytes(&mut process, replies()).1.unwrap(), b"ab");
}

#[test]
fn session_is_left_blocking() {
    let mut process = remote(b"");
    let replies = vec![Reply::Done, failed(ErrorKind::WouldBlock), Reply::Done];
    let (calls, line) = recv_line(&mut process, replies);
    assert_eq!(calls, [ENTER, READ_OUT, LEAVE]);
    assert!(line.unwrap().is_none());
    let replies = vec![Reply::Done, Reply::Data(b"oops\n".to_vec()), Reply::Data(vec![]), Reply::Done];
    let (calls, line) = error_line(&mut process, replies);
    assert_eq!(calls, [ENTER, READ_ERR, READ_ERR, LEAVE]);
    assert_eq!(line.unwrap().unwrap(), "oops");
    assert_eq!(process.set_stdout_blocking(false), Some(ENTER));
    assert_eq!(process.set_stdout_blocking(true), Some(LEAVE));
}

#[test]
fn reads_go_on_while_data_comes() {
    let mut process = local(b"");
    let replies = vec![
        Reply::Done,
        Reply::Data(vec![b'x'; 8192]),
        Reply::Data(vec![b'y'; 5]),
        Reply::Data(vec![b'z'; 8192]),
        failed(ErrorKind::WouldBlock),
        Reply::Done,
    ];
    let (calls, line) = recv_line(&mut process, replies);
    assert_eq!(calls, [ENTER_OUT, READ_OUT, READ_OUT, READ_OUT, READ_OUT, LEAVE_OUT]);
    assert!(line.unwrap().is_none());
    assert_eq!(process.stdout_buffer.len(), 16389);
    assert_eq!(process.stdout_buffer[8191], b'x');
    assert_eq!(process.stdout_buffer[8192], b'y');
    assert_eq!(process.stdout_buffer[8197], b'z');
}

#[test]
fn end_of_file_ends_the_last_line() {
    let mut process = local(b"three");
    let replies = vec![Reply::Done, Reply::Data(vec![]), Reply::Done];
    assert_eq!(recv_line(&mut process, replies).1.unwrap().unwrap(), "three");
    let replies = vec![Reply::Done, Reply::Data(vec![]), Reply::Done];
    assert!(recv_line(&mut process, replies).1.unwrap_err().eof());
    // A channel that was closed
    let mut process = closed(b"three");
    assert_eq!(recv_line(&mut process, vec![]).1.unwrap().unwrap(), "three");
    assert!(recv_line(&mut process, vec![]).1.unwrap_err().eof());
    // The last line is not UTF-8
    let mut process = closed(b"\xff");
    assert!(matches!(recv_line(&mut process, vec![]).1, Err(Error::Utf8(data)) if data == [0xff]));
    assert!(process.stdout_buffer.is_empty());
}

#[test]
fn lines_are_received_alike() {
    let replies = || {
        vec![
            Reply::Done,
            Reply::Data(b"b\n".to_vec()),
            Reply::Data(b"c".to_vec()),
            failed(ErrorKind::WouldBlock),
            Reply::Done,
        ]
    };
    let (mut here, mut there) = (local(b"a"), remote(b"a"));
    let line = recv_line(&mut here, replies()).1.unwrap();
    assert_eq!(line.as_deref(), Some("ab"));
    assert_eq!(recv_line(&mut there, replies()).1.unwrap(), line);
    assert_eq!(here.stdout_buffer, there.stdout_buffer);
    let replies = || vec![Reply::Data(b"d\n".to_vec())];
    assert_eq!(block_line(&mut here, replies()).1.unwrap(), "cd");
    assert_eq!(block_line(&mut there, replies()).1.unwrap(), "cd");
}

#[test]
fn exact_number_of_bytes() {
    let mut process = local(b"abc");
    assert_eq!(recv_bytes(&mut process, 0, vec![]).1.unwrap().unwrap(), b"");
    assert_eq!(recv_bytes(&mut process, 2, vec![]).1.unwrap().unwrap(), b"ab");
    let replies =
        vec![Reply::Done, Reply::Data(b"d".to_vec()), failed(ErrorKind::WouldBlock), Reply::Done];
    let (calls, taken) = recv_bytes(&mut process, 3, replies);
    assert_eq!(calls, [ENTER_OUT, READ_OUT, READ_OUT, LEAVE_OUT]);
    assert!(taken.unwrap().is_none());
    assert_eq!(bytes(&process.stdout_buffer), b"cd");
    let replies =
        vec![Reply::Done, Reply::Data(b"ef".to_vec()), Reply::Data(vec![]), Reply::Done];
    assert_eq!(recv_bytes(&mut process, 3, replies).1.unwrap().unwrap(), b"cde");
    // A failure leaves the buffer
    let replies = vec![Reply::Done, Reply::Data(vec![]), Reply::Done];
    assert!(recv_bytes(&mut process, 2, replies).1.unwrap_err().eof());
    assert_eq!(bytes(&process.stdout_buffer), b"f");
}

#[test]
fn standard_error_is_collected() {
    let mut process = local(b"out");
    process.stderr_buffer.extend(b"be");
    let replies = vec![
        Reply::Data(b"hi".to_vec()),
        Reply::Data(b"nd".to_vec()),
        failed(ErrorKind::WouldBlock),
    ];
    let (calls, data) = error_bytes(&mut process, replies);
    assert_eq!(calls, [READ_ERR, READ_ERR, READ_ERR]);
    assert_eq!(data.unwrap(), b"behind");
    assert!(process.stderr_buffer.is_empty());
    assert_eq!(bytes(&process.stdout_buffer), b"out");
    let (_, data) = error_bytes(&mut process, vec![failed(ErrorKind::WouldBlock)]);
    assert!(data.unwrap().is_empty());
    // The end of file
    process.stderr_buffer.extend(b"last");
    assert_eq!(error_bytes(&mut process, vec![Reply::Data(vec![])]).1.unwrap(), b"last");
    assert!(error_bytes(&mut process, vec![Reply::Data(vec![])]).1.unwrap_err().eof());
    // A failure that is no end of file keeps what there is
    process.stderr_buffer.extend(b"kept");
    assert!(!error_bytes(&mut process, vec![failed(ErrorKind::Other)]).1.unwrap_err().eof());
    assert_eq!(bytes(&process.stderr_buffer), b"kept");
}

#[test]
fn forwarded_standard_error_has_nothing_to_offer() {
    let inner = ProcessInner::Local { stdin: true, stdout: true, stderr: false };
    let mut process = process(inner, b"", b"");
    assert!(error_line(&mut process, vec![]).1.unwrap().is_none());
    assert!(error_bytes(&mut process, vec![]).1.unwrap().is_empty());
}

#[test]
fn blocking_for_a_line() {
    let mut process = local(b"a");
    let replies = vec![
        failed(ErrorKind::WouldBlock),
        Reply::Done,
        Reply::Data(b"b".to_vec()),
        Reply::Data(b"c\nd".to_vec()),
    ];
    let (calls, line) = block_line(&mut process, replies);
    assert_eq!(calls, [READ_OUT, Call::Yield, READ_OUT, READ_OUT]);
    assert_eq!(line.unwrap(), "abc");
    assert_eq!(bytes(&process.stdout_buffer), b"d");
    // The end of file ends the last line
    assert_eq!(block_line(&mut process, vec![Reply::Data(vec![])]).1.unwrap(), "d");
    assert!(block_line(&mut process, vec![Reply::Data(vec![])]).1.unwrap_err().eof());
    process.stdout_buffer.extend(b"e");
    assert_eq!(block_line(&mut process, vec![failed(ErrorKind::BrokenPipe)]).1.unwrap(), "e");
    process.stdout_buffer.extend(b"f");
    assert_eq!(block_line(&mut process, vec![failed(ErrorKind::UnexpectedEof)]).1.unwrap(), "f");
    let (_, line) = block_line(&mut process, vec![failed(ErrorKind::UnexpectedEof)]);
    assert!(matches!(line, Err(Error::Io(error)) if error == failure(ErrorKind::UnexpectedEof)));
    // A failure
    let (_, line) = block_line(&mut process, vec![failed(ErrorKind::Other)]);
    assert!(matches!(line, Err(Error::Io(error)) if error == failure(ErrorKind::Other)));
    // A line that is not UTF-8
    let (_, line) = block_line(&mut process, vec![Reply::Data(b"\xff\n".to_vec())]);
    assert!(matches!(line, Err(Error::Utf8(data)) if data == [0xff]));
}

#[test]
fn blocking_for_a_line_of_a_closed_channel() {
    let mut process = closed(b"one\ntwo");
    assert_eq!(block_line(&mut process, vec![]).1.unwrap(), "one");
    assert_eq!(block_line(&mut process, vec![]).1.unwrap(), "two");
    assert!(block_line(&mut process, vec![]).1.unwrap_err().eof());
}

#[test]
fn blocking_for_bytes() {
    let mut process = remote(b"abc");
    assert_eq!(block_bytes(&mut process, 1, vec![]).1.unwrap(), b"a");
    let read = |room| Call::Read { stream: Stream::Stdout, room };
    let replies = vec![failed(ErrorKind::WouldBlock), Reply::Done, Reply::Data(b"de".to_vec())];
    let (calls, taken) = block_bytes(&mut process, 4, replies);
    assert_eq!(calls, [read(2), Call::Yield, read(2)]);
    assert_eq!(taken.unwrap(), b"bcde");
    assert!(process.stdout_buffer.is_empty());
    // The channel ends too soon
    let replies = vec![Reply::Data(b"f".to_vec()), Reply::Data(vec![])];
    match block_bytes(&mut process, 2, replies).1 {
        Err(Error::Io(error)) => assert_eq!(error, IoError::unexpected_eof()),
        _ => panic!("one byte is missing"),
    }
    let (_, taken) = block_bytes(&mut process, 1, vec![failed(ErrorKind::Other)]);
    assert!(matches!(taken, Err(Error::Io(error)) if error == failure(ErrorKind::Other)));
    assert!(block_bytes(&mut closed(b""), 1, vec![]).1.unwrap_err().eof());
}

#[test]
fn blocking_for_bytes_that_come_in_pieces() {
    let read = |room| Call::Read { stream: Stream::Stdout, room };
    let replies = vec![
        Reply::Data(b"ab".to_vec()),
        failed(ErrorKind::WouldBlock),
        Reply::Done,
        failed(ErrorKind::Interrupted),
        Reply::Data(b"cd".to_vec()),
    ];
    let mut process = remote(b"");
    let (calls, taken) = block_bytes(&mut process, 4, replies);
    assert_eq!(calls, [read(4), read(2), Call::Yield, read(2), read(2)]);
    assert_eq!(taken.unwrap(), b"abcd");
    assert!(process.stdout_buffer.is_empty());
}

/// What sending writes, the calls that it makes, and its outcome.
fn send(
    process: &Process,
    line: Option<&str>,
    message: &[u8],
    replies: Vec<Reply>,
) -> (Vec<u8>, Vec<Call>, Result<(), Error>) {
    let mut written = vec![];
    let mut calls = vec![];
    let mut replies = replies.into_iter();
    let mut step = match line {
        Some(line) => process.send_line(line),
        None => process.send_bytes(message),
    };
    loop {
        step = match step {
            Step::Return(outcome) => return (written, calls, outcome),
            Step::Call(call, state) => {
                // Without a reply of its own, a call succeeds in full
                let reply = replies.next().unwrap_or(match call {
                    Call::Write { left, .. } => Reply::Written(left),
                    _ => Reply::Done,
                });
                assert!(call.accepts(&reply));
                if let (Call::Write { left, .. }, Reply::Written(count)) = (call, &reply) {
                    assert_eq!(state.rest().len(), left);
                    written.extend(&state.rest()[..*count]);
                }
                calls.push(call);
                process.resume_send(state, reply)
            }
        };
    }
}

fn write_message(left: usize) -> Call {
    Call::Write { part: Part::Message, left }
}

const WRITE_NEWLINE: Call = Call::Write { part: Part::Newline, left: 1 };

#[test]
fn sending_a_line() {
    let (written, calls, outcome) = send(&local(b""), Some("hi \u{e9}"), b"", vec![]);
    assert_eq!(written, "hi \u{e9}\n".as_bytes());
    assert_eq!(calls, [write_message(5), WRITE_NEWLINE, Call::Flush]);
    assert!(outcome.is_ok());
    // A newline that is already there
    let (written, calls, _) = send(&local(b""), Some("a\nb\n"), b"", vec![]);
    assert_eq!(written, b"a\nb\n");
    assert_eq!(calls, [write_message(4), Call::Flush]);
    // The empty message
    let (written, calls, _) = send(&local(b""), Some(""), b"", vec![]);
    assert_eq!(written, b"\n");
    assert_eq!(calls, [WRITE_NEWLINE, Call::Flush]);
}

#[test]
fn sending_bytes() {
    let (written, calls, outcome) = send(&remote(b""), None, b"\x00\xff", vec![]);
    assert_eq!(written, b"\x00\xff");
    assert_eq!(calls, [write_message(2), Call::Flush]);
    assert!(outcome.is_ok());
    assert_eq!(send(&remote(b""), None, b"", vec![]).1, [Call::Flush]);
}

#[test]
fn each_byte_is_sent_once() {
    let replies = vec![
        Reply::Written(2),
        failed(ErrorKind::WouldBlock),
        Reply::Done,
        failed(ErrorKind::Interrupted),
        Reply::Written(1),
        Reply::Written(1),
        failed(ErrorKind::WouldBlock),
        Reply::Done,
        Reply::Written(1),
        failed(ErrorKind::WouldBlock),
        Reply::Done,
        Reply::Done,
    ];
    let (written, calls, outcome) = send(&remote(b""), Some("abcd"), b"", replies);
    assert_eq!(written, b"abcd\n");
    assert_eq!(
        calls,
        [
            write_message(4),
            write_message(2),
            Call::Yield,
            write_message(2),
            write_message(2),
            write_message(1),
            WRITE_NEWLINE,
            Call::Yield,
            WRITE_NEWLINE,
            Call::Flush,
            Call::Yield,
            Call::Flush,
        ]
    );
    assert!(outcome.is_ok());
    // A local pipe may take a message in pieces too
    let replies = vec![Reply::Written(3), failed(ErrorKind::Interrupted), Reply::Written(1)];
    let (written, calls, outcome) = send(&local(b""), Some("abcd"), b"", replies);
    assert_eq!(written, b"abcd\n");
    assert_eq!(calls.len(), 5);
    assert!(outcome.is_ok());
}

#[test]
fn channel_that_takes_nothing() {
    let (written, _, outcome) =
        send(&local(b""), Some("abcd"), b"", vec![Reply::Written(1), Reply::Written(0)]);
    assert_eq!(written, b"a");
    assert!(matches!(outcome, Err(Error::Io(error)) if error == IoError::write_zero()));
}

#[test]
fn only_remote_channels_are_tried_again() {
    let replies = || vec![failed(ErrorKind::WouldBlock), Reply::Done];
    let (written, calls, outcome) = send(&remote(b""), None, b"x", replies());
    assert_eq!(written, b"x");
    assert_eq!(calls, [write_message(1), Call::Yield, write_message(1), Call::Flush]);
    assert!(outcome.is_ok());
    let (_, calls, outcome) = send(&local(b""), None, b"x", replies());
    assert_eq!(calls, [write_message(1)]);
    assert!(matches!(outcome, Err(Error::Io(error)) if error == failure(ErrorKind::WouldBlock)));
    // Other failures are final everywhere
    let replies = vec![Reply::Written(1), failed(ErrorKind::Other)];
    assert!(send(&remote(b""), None, b"x", replies).2.is_err());
    // So is an interrupted flush
    let replies = vec![Reply::Written(1), failed(ErrorKind::Interrupted)];
    assert!(send(&remote(b""), None, b"x", replies).2.is_err());
}

#[test]
fn closed_input_is_a_broken_pipe() {
    let (_, calls, outcome) = send(&closed(b""), Some("x"), b"", vec![]);
    assert!(calls.is_empty());
    assert!(matches!(outcome, Err(Error::Io(error)) if error == IoError::broken_pipe()));
    assert!(closed(b"").stdin().is_err());
    assert!(closed(b"").stdout().is_err());
    assert!(local(b"").stdin().is_ok());
    assert!(local(b"").stdout().is_ok());
    assert_eq!(closed(b"").set_stdout_blocking(true), None);
}

#[test]
fn unread_messages_keep_a_process_alive() {
    let (calls, alive) = is_alive(&mut closed(b"x"), vec![]);
    assert!(calls.is_empty());
    assert!(alive.unwrap());
    let mut process = remote(b"");
    process.stderr_buffer.extend(b"x");
    assert!(is_alive(&mut process, vec![]).1.unwrap());
}

#[test]
fn final_messages_are_kept() {
    let mut process = local(b"");
    assert!(is_alive(&mut process, vec![Reply::Exited(None)]).1.unwrap());
    let replies = vec![
        Reply::Exited(Some(false)),
        Reply::Done,
        Reply::Data(b"out".to_vec()),
        Reply::Done,
        Reply::Data(b"err".to_vec()),
        Reply::Done,
    ];
    let (calls, alive) = is_alive(&mut process, replies);
    assert_eq!(
        calls,
        [
            Call::TryWait,
            LEAVE_OUT,
            Call::ReadToEnd { stream: Stream::Stdout },
            Call::Descriptor { stream: Stream::Stderr, blocking: true },
            Call::ReadToEnd { stream: Stream::Stderr },
            Call::DropPipes,
        ]
    );
    assert!(alive.unwrap());
    assert_eq!(bytes(&process.stdout_buffer), b"out");
    assert_eq!(bytes(&process.stderr_buffer), b"err");
    assert_eq!(process.inner, ProcessInner::Local { stdin: false, stdout: false, stderr: true });
    // They are collected, and the process is dead, and stays so
    assert_eq!(recv_line(&mut process, vec![]).1.unwrap().unwrap(), "out");
    assert_eq!(error_bytes(&mut process, vec![Reply::Data(vec![])]).1.unwrap(), b"err");
    for _ in 0..2 {
        let replies = vec![
            Reply::Exited(Some(false)),
            Reply::Done,
            Reply::Data(vec![]),
            Reply::Done,
        ];
        assert!(!is_alive(&mut process, replies).1.unwrap());
    }
}

#[test]
fn failures_while_checking() {
    let (_, alive) = is_alive(&mut local(b""), vec![failed(ErrorKind::Other)]);
    assert!(matches!(alive, Err(Error::Io(error)) if error == failure(ErrorKind::Other)));
    let mut process = local(b"");
    let replies = vec![Reply::Exited(Some(true)), Reply::Done, failed(ErrorKind::Other)];
    assert!(is_alive(&mut process, replies).1.is_err());
    assert!(process.stdout().is_ok());
}

#[test]
fn remote_process_lives_until_its_output_ends() {
    let (calls, alive) = is_alive(&mut remote(b""), vec![Reply::Flag(false)]);
    assert_eq!(calls, [Call::ChannelEof]);
    assert!(alive.unwrap());
    assert!(!is_alive(&mut remote(b""), vec![Reply::Flag(true)]).1.unwrap());
}

#[test]
fn closing() {
    let mut process = local(b"unread");
    let (calls, outcome) = close_stdio(&mut process, vec![Reply::Done]);
    assert_eq!(calls, [Call::DropPipes]);
    assert!(outcome.is_ok());
    assert_eq!(process.inner, ProcessInner::Local { stdin: false, stdout: false, stderr: true });
    assert_eq!(bytes(&process.stdout_buffer), b"unread");
    // A remote process, whose session somebody else needs non-blocking at first
    let mut process = remote(b"");
    let replies = vec![
        Reply::Count(1),
        Reply::Done,
        Reply::Done,
        Reply::Count(0),
        Reply::Done,
        Reply::Done,
    ];
    let (calls, outcome) = close_stdio(&mut process, replies);
    assert_eq!(
        calls,
        [
            Call::LockSession,
            Call::UnlockSession,
            Call::Yield,
            Call::LockSession,
            Call::SendEof,
            Call::UnlockSession,
        ]
    );
    assert!(outcome.is_ok());
    assert!(process.stdout().is_ok());
    // A failure lets the session go too
    let replies = vec![Reply::Count(0), Reply::SshFailed(ssh_failure()), Reply::Done];
    let (calls, outcome) = close_stdio(&mut process, replies);
    assert_eq!(calls, [Call::LockSession, Call::SendEof, Call::UnlockSession]);
    assert!(matches!(outcome, Err(Error::Ssh(error)) if error == ssh_failure()));
}

#[test]
fn waiting_for_a_local_process() {
    let (calls, clean) = wait(&mut local(b""), vec![Reply::Exited(Some(true))]);
    assert_eq!(calls, [Call::Wait]);
    assert!(clean.unwrap());
    assert!(!wait(&mut local(b""), vec![Reply::Exited(Some(false))]).1.unwrap());
    assert!(wait(&mut local(b""), vec![failed(ErrorKind::Other)]).1.is_err());
    // Its input is closed, and its outputs are not
    let mut process = local(b"");
    assert!(wait(&mut process, vec![Reply::Exited(Some(true))]).1.unwrap());
    assert_eq!(process.inner, ProcessInner::Local { stdin: false, stdout: true, stderr: true });
    assert!(send(&process, Some("x"), b"", vec![]).2.unwrap_err().eof());
}

#[test]
fn waiting_for_a_remote_process() {
    let done = || vec![Reply::Count(0), Reply::Done, Reply::Done, Reply::Done, Reply::Done];
    let mut replies = done();
    replies.extend([Reply::Flag(false), Reply::Status(0), Reply::Done]);
    let (calls, clean) = wait(&mut remote(b""), replies);
    assert_eq!(
        calls,
        [
            Call::LockSession,
            Call::SendEof,
            Call::WaitEof,
            Call::CloseChannel,
            Call::WaitClose,
            Call::ExitSignal,
            Call::ExitStatus,
            Call::UnlockSession,
        ]
    );
    assert!(clean.unwrap());
    // An exit status other than zero
    let mut replies = done();
    replies.extend([Reply::Flag(false), Reply::Status(3), Reply::Done]);
    assert!(!wait(&mut remote(b""), replies).1.unwrap());
    // A signal
    let mut replies = done();
    replies.extend([Reply::Flag(true), Reply::Done]);
    assert!(!wait(&mut remote(b""), replies).1.unwrap());
    // A failure lets the session go too
    for failing in 1..6 {
        let mut replies = done();
        replies.truncate(failing);
        replies.extend([Reply::SshFailed(ssh_failure()), Reply::Done]);
        let (calls, clean) = wait(&mut remote(b""), replies);
        assert_eq!(calls[calls.len() - 1], Call::UnlockSession);
        assert!(matches!(clean, Err(Error::Ssh(error)) if error == ssh_failure()));
    }
}

#[test]
fn replies_that_do_not_fit() {
    assert!(!READ_OUT.accepts(&Reply::Data(vec![0; 8193])));
    assert!(!READ_OUT.accepts(&Reply::Done));
    assert!(!write_message(2).accepts(&Reply::Written(3)));
    assert!(!write_message(2).accepts(&Reply::Done));
    assert!(!Call::Wait.accepts(&Reply::Exited(None)));
    assert!(!Call::LockSession.accepts(&Reply::Done));
    assert!(!Call::SendEof.accepts(&Reply::Failed(failure(ErrorKind::Other))));
    assert!(!Call::Flush.accepts(&Reply::SshFailed(ssh_failure())));
}
