//! Lines, bytes and errors.

use process_anywhere::error::{Error, ErrorKind, IoError, SshCode, SshError};
use process_anywhere::line::{
    append, ends_with_newline, into_bytes, into_text, read_line, take_all, take_bytes,
};
use process_anywhere::pipe::{
    blocking_loop, change_blocking_fd, new_buffer, read_nonblocking, Attempt, Progress, BUFFER_SIZE,
};
use process_anywhere::call::Reply;
use process_anywhere::session::{
    guard_session_blocking, set_session_blocking, set_session_nonblocking,
};
use std::collections::VecDeque;

fn buffer(bytes: &[u8]) -> VecDeque<u8> {
    bytes.iter().copied().collect()
}

fn failure(kind: ErrorKind) -> IoError {
    IoError { kind, report: Some(3) }
}

#[test]
fn line_is_split_off_without_its_newline() {
    let mut data = buffer(b"one\r\ntwo \nthree");
    assert_eq!(read_line(&mut data).unwrap().unwrap(), "one\r");
    assert_eq!(read_line(&mut data).unwrap().unwrap(), "two ");
    assert!(read_line(&mut data).unwrap().is_none());
    assert_eq!(into_bytes(data), b"three");
}

#[test]
fn empty_buffer_and_empty_line() {
    let mut data = buffer(b"");
    assert!(read_line(&mut data).unwrap().is_none());
    append(&mut data, b"\n\n".to_vec());
    assert_eq!(read_line(&mut data).unwrap().unwrap(), "");
    assert_eq!(read_line(&mut data).unwrap().unwrap(), "");
    assert!(read_line(&mut data).unwrap().is_none());
}

#[test]
fn bad_line_is_consumed() {
    let mut data = buffer(b"a\xff\nrest\n");
    match read_line(&mut data) {
        Err(Error::Utf8(bytes)) => assert_eq!(bytes, b"a\xff"),
        _ => panic!("not UTF-8"),
    }
    assert_eq!(read_line(&mut data).unwrap().unwrap(), "rest");
    assert!(data.is_empty());
}

#[test]
fn text_of_several_bytes_per_character() {
    let message = "caf\u{e9} \u{2713} \u{1f980}";
    assert_eq!(into_text(message.as_bytes().to_vec()).unwrap(), message);
    assert!(matches!(into_text(vec![0xc3]), Err(Error::Utf8(bytes)) if bytes == [0xc3]));
}

#[test]
fn line_complete_before_more_data_comes() {
    let mut whole = buffer(b"ab\ncd\n");
    let mut pieces = buffer(b"ab\n");
    assert_eq!(read_line(&mut whole).unwrap(), read_line(&mut pieces).unwrap());
    append(&mut pieces, b"cd\n".to_vec());
    assert_eq!(whole, pieces);
}

#[test]
fn bytes_are_taken_in_order() {
    let mut data = buffer(b"abcdef");
    assert_eq!(take_bytes(&mut data, 0), b"");
    assert_eq!(take_bytes(&mut data, 2), b"ab");
    assert_eq!(take_bytes(&mut data, 4), b"cdef");
    append(&mut data, b"gh".to_vec());
    assert_eq!(take_all(&mut data), b"gh");
    assert!(take_all(&mut data).is_empty());
}

#[test]
fn newline_at_the_end() {
    assert!(!ends_with_newline(""));
    assert!(!ends_with_newline("a"));
    assert!(!ends_with_newline("a\nb"));
    assert!(!ends_with_newline("a\r"));
    assert!(ends_with_newline("\n"));
    assert!(ends_with_newline("\u{1f980}\n"));
}

#[test]
fn end_of_file_errors() {
    assert!(Error::Io(failure(ErrorKind::BrokenPipe)).eof());
    assert!(Error::Io(failure(ErrorKind::UnexpectedEof)).eof());
    assert!(!Error::Io(failure(ErrorKind::WouldBlock)).eof());
    assert!(!Error::Io(failure(ErrorKind::Interrupted)).eof());
    assert!(!Error::Io(failure(ErrorKind::WriteZero)).eof());
    assert!(!Error::Io(failure(ErrorKind::Other)).eof());
    assert!(!Error::Ssh(SshError { code: SshCode::SFTP(2), report: None }).eof());
    assert!(!Error::Utf8(vec![0xff]).eof());
    assert_eq!(IoError::broken_pipe(), IoError { kind: ErrorKind::BrokenPipe, report: None });
}

#[test]
fn buffers_have_their_size() {
    assert_eq!(BUFFER_SIZE, 8192);
    assert_eq!(new_buffer(), vec![0u8; 8192]);
}

#[test]
fn descriptor_flags() {
    assert_eq!(change_blocking_fd(0o2, 0o4000, false), 0o4002);
    assert_eq!(change_blocking_fd(0o4002, 0o4000, false), 0o4002);
    assert_eq!(change_blocking_fd(0o4002, 0o4000, true), 0o2);
    assert_eq!(change_blocking_fd(0o2, 0o4000, true), 0o2);
}

#[test]
fn blocking_attempts() {
    assert!(matches!(blocking_loop::<u8>(Err(failure(ErrorKind::WouldBlock))), Attempt::Again));
    assert!(matches!(blocking_loop::<u8>(Ok(5)), Attempt::Settled(Ok(5))));
    match blocking_loop::<u8>(Err(failure(ErrorKind::Other))) {
        Attempt::Settled(Err(error)) => assert_eq!(error, failure(ErrorKind::Other)),
        _ => panic!("a failure is no reason to try again"),
    }
}

#[test]
fn all_available_data_is_read() {
    // The end of file before any data
    match read_nonblocking(vec![], Reply::Data(vec![])) {
        Progress::Complete(Err(error)) => assert!(error.eof()),
        _ => panic!("this is the end of file"),
    }
    // There may be more behind any data, whether it filled the read or not
    match read_nonblocking(vec![1], Reply::Data(vec![2, 3])) {
        Progress::More(data) => assert_eq!(data, [1, 2, 3]),
        _ => panic!("there may be more"),
    }
    match read_nonblocking(vec![1], Reply::Data(vec![2; 8192])) {
        Progress::More(data) => assert_eq!(data.len(), 8193),
        _ => panic!("there may be more"),
    }
    // The end of file behind data
    assert!(matches!(
        read_nonblocking(vec![1], Reply::Data(vec![])),
        Progress::Complete(Ok(data)) if data == [1]
    ));
    // Nothing right now
    assert!(matches!(
        read_nonblocking(vec![], Reply::Failed(failure(ErrorKind::WouldBlock))),
        Progress::Complete(Ok(data)) if data.is_empty()
    ));
    // A failure
    assert!(matches!(
        read_nonblocking(vec![1], Reply::Failed(failure(ErrorKind::Other))),
        Progress::Complete(Err(Error::Io(error))) if error == failure(ErrorKind::Other)
    ));
}

#[test]
fn short_reads_are_put_together() {
    let mut data = vec![];
    for chunk in [b"ab".to_vec(), b"cd".to_vec(), vec![]] {
        data = match read_nonblocking(data, Reply::Data(chunk)) {
            Progress::More(data) => data,
            Progress::Complete(outcome) => {
                assert_eq!(outcome.unwrap(), b"abcd");
                return;
            }
        };
    }
    panic!("the end of file ends the reading");
}

#[test]
fn session_blocks_while_nobody_needs_otherwise() {
    let mut count = 0u8;
    assert!(guard_session_blocking(count));
    assert_eq!(set_session_nonblocking(&mut count), Some(false));
    assert_eq!(set_session_nonblocking(&mut count), None);
    assert_eq!(count, 2);
    assert!(!guard_session_blocking(count));
    assert_eq!(set_session_blocking(&mut count), None);
    assert_eq!(set_session_blocking(&mut count), Some(true));
    assert_eq!(count, 0);
}
