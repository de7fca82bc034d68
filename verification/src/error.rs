//! Failures, as the logic of this library reads them.

use vstd::prelude::*;

verus! {

/// The kinds of input/output failure that the library tells apart.
#[derive(Clone, Copy, Debug, PartialEq, Eq, Structural)]
pub enum ErrorKind {
    /// The other end of the channel is closed.
    BrokenPipe,
    /// The channel ended before the data that was asked for.
    UnexpectedEof,
    /// A non-blocking channel has nothing to offer right now, or takes nothing.
    WouldBlock,
    /// The call was interrupted, and can be made again.
    Interrupted,
    /// The channel takes no more of what is written to it.
    WriteZero,
    /// Anything else.
    Other,
}

/// An input/output failure.
#[derive(Clone, Copy, Debug, PartialEq, Eq, Structural)]
pub struct IoError {
    /// What went wrong.
    pub kind: ErrorKind,
    /// The number under which the caller keeps the system's own report,
    /// or `None` for a failure that this library raised.
    pub report: Option<u64>,
}

/// Where an SSH failure comes from, with the number it has there.
#[derive(Clone, Copy, Debug, PartialEq, Eq, Structural)]
pub enum SshCode {
    /// A failure of the SSH session.
    Session(i32),
    /// A failure of the SFTP subsystem.
    SFTP(i32),
}

/// A failure of an SSH session or of its SFTP subsystem.
#[derive(Clone, Copy, Debug, PartialEq, Eq, Structural)]
pub struct SshError {
    /// What went wrong.
    pub code: SshCode,
    /// The number under which the caller keeps the full report.
    pub report: Option<u64>,
}

/// Everything that can go wrong with a process or a computer.
#[derive(Debug)]
pub enum Error {
    /// A channel, pipe or file failed.
    Io(IoError),
    /// The SSH connection failed.
    Ssh(SshError),
    /// These bytes were to be text, and are not UTF-8.
    Utf8(Vec<u8>),
}

/// The mathematical value of an [`Error`].
pub enum ErrorView {
    /// See [`Error::Io`].
    Io(IoError),
    /// See [`Error::Ssh`].
    Ssh(SshError),
    /// See [`Error::Utf8`].
    Utf8(Seq<u8>),
}

impl View for Error {
    type V = ErrorView;

    open spec fn view(&self) -> ErrorView {
        match *self {
            Error::Io(error) => ErrorView::Io(error),
            Error::Ssh(error) => ErrorView::Ssh(error),
            Error::Utf8(bytes) => ErrorView::Utf8(bytes@),
        }
    }
}

/// The broken pipe that the library itself reports at an end of file.
pub open spec fn broken_pipe() -> IoError {
    IoError { kind: ErrorKind::BrokenPipe, report: None }
}

/// What the library reports for a channel that ends before the bytes that were asked for.
pub open spec fn unexpected_eof() -> IoError {
    IoError { kind: ErrorKind::UnexpectedEof, report: None }
}

/// What the library reports for a channel that takes no more of a message.
pub open spec fn write_zero() -> IoError {
    IoError { kind: ErrorKind::WriteZero, report: None }
}

impl ErrorView {
    /// Whether the failure is an end of file: a broken pipe, or an end that came too soon.
    pub open spec fn eof(self) -> bool {
        match self {
            ErrorView::Io(error) => {
                error.kind == ErrorKind::BrokenPipe || error.kind == ErrorKind::UnexpectedEof
            },
            _ => false,
        }
    }
}

impl IoError {
    /// The broken pipe that the library reports at an end of file.
    pub fn broken_pipe() -> (error: IoError)
        ensures
            error == broken_pipe(),
            error.kind == ErrorKind::BrokenPipe,
            error.report is None,
    {
        IoError { kind: ErrorKind::BrokenPipe, report: None }
    }

    /// What the library reports for a channel that ends before the bytes that were asked for.
    pub fn unexpected_eof() -> (error: IoError)
        ensures
            error == unexpected_eof(),
            error.kind == ErrorKind::UnexpectedEof,
            error.report is None,
    {
        IoError { kind: ErrorKind::UnexpectedEof, report: None }
    }

    /// What the library reports for a channel that takes no more of a message.
    pub fn write_zero() -> (error: IoError)
        ensures
            error == write_zero(),
            error.kind == ErrorKind::WriteZero,
            error.report is None,
    {
        IoError { kind: ErrorKind::WriteZero, report: None }
    }
}

impl Error {
    /// Whether this failure is an end of file: a broken pipe, or an end that came too soon.
    pub fn eof(&self) -> (eof: bool)
        ensures
            eof == self@.eof(),
            eof <==> (*self matches Error::Io(error) && (error.kind == ErrorKind::BrokenPipe
                || error.kind == ErrorKind::UnexpectedEof)),
    {
        match self {
            Error::Io(error) => matches!(
                error.kind,
                ErrorKind::BrokenPipe | ErrorKind::UnexpectedEof
            ),
            _ => false,
        }
    }
}

} // verus!
