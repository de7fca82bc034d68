//! An active computer process.

use crate::call::{Call, Stream};
use crate::computer::Computer;
use crate::error::{broken_pipe, Error, ErrorView, IoError};
use std::collections::VecDeque;
use std::sync::Arc;
use vstd::prelude::*;

verus! {

/// Where a process runs, and which of its channels are in hand.
#[derive(Clone, Copy, Debug, PartialEq, Eq, Structural)]
pub enum ProcessInner {
    /// A child of this program.
    Local {
        /// The local end of its standard input is open.
        stdin: bool,
        /// The local end of its standard output is open.
        stdout: bool,
        /// The local end of its standard error output is open, and not forwarded.
        stderr: bool,
    },
    /// A process on another computer, reached over an SSH channel.
    Remote,
}

/// An active computer process.
///
/// This provides an API for interacting with computer processes, regardless of where the computer
/// is located.
///
/// ## Newlines
/// Lines are terminated by the newline character '\n'. Carriage return characters '\r' are
/// treated as regular text. The end-of-file is also considered a line termination, unless it
/// forms an empty line.
///
/// Methods that send lines ensure that a newline is present, and append the newline character
/// '\n' if necessary.
///
/// Methods that receive lines remove the newline character from the end of each line.
///
/// ## Blocking
///  * Writing to the process's stdin is always blocking, and also immediately flushes.
///  * Reading from the process's stdout can be either blocking or non-blocking.
///  * Reading from the process's stderr is always non-blocking.
pub struct Process {
    /// The computer that the process runs on.
    pub computer: Arc<Computer>,
    /// What has been read from the standard output, and not been collected.
    pub stdout_buffer: VecDeque<u8>,
    /// What has been read from the standard error output, and not been collected.
    pub stderr_buffer: VecDeque<u8>,
    /// Where the process runs.
    pub inner: ProcessInner,
}

/// The mathematical value of a [`Process`].
pub struct ProcessView {
    /// The computer that the process runs on.
    pub computer: Computer,
    /// The uncollected standard output.
    pub stdout: Seq<u8>,
    /// The uncollected standard error output.
    pub stderr: Seq<u8>,
    /// Where the process runs.
    pub inner: ProcessInner,
}

impl View for Process {
    type V = ProcessView;

    open spec fn view(&self) -> ProcessView {
        ProcessView {
            computer: *self.computer,
            stdout: self.stdout_buffer@,
            stderr: self.stderr_buffer@,
            inner: self.inner,
        }
    }
}

impl ProcessView {
    /// The uncollected data of a channel.
    pub open spec fn buffer(self, stream: Stream) -> Seq<u8> {
        match stream {
            Stream::Stdout => self.stdout,
            Stream::Stderr => self.stderr,
        }
    }

    /// The same process with other uncollected data of a channel.
    pub open spec fn with_buffer(self, stream: Stream, data: Seq<u8>) -> ProcessView {
        match stream {
            Stream::Stdout => ProcessView { stdout: data, ..self },
            Stream::Stderr => ProcessView { stderr: data, ..self },
        }
    }

    /// The same process with the local end of its input dropped.
    pub open spec fn without_stdin(self) -> ProcessView {
        ProcessView { inner: self.inner.without_stdin(), ..self }
    }

    /// The same process with the local ends of its input and output dropped.
    pub open spec fn without_pipes(self) -> ProcessView {
        ProcessView { inner: self.inner.without_pipes(), ..self }
    }
}

impl ProcessInner {
    /// Whether the standard input can be written: always so of a remote process.
    pub open spec fn has_stdin(self) -> bool {
        match self {
            ProcessInner::Local { stdin, .. } => stdin,
            ProcessInner::Remote => true,
        }
    }

    /// Whether the standard output can be read: always so of a remote process.
    pub open spec fn has_stdout(self) -> bool {
        match self {
            ProcessInner::Local { stdout, .. } => stdout,
            ProcessInner::Remote => true,
        }
    }

    /// The same with the local end of the input dropped.
    pub open spec fn without_stdin(self) -> ProcessInner {
        match self {
            ProcessInner::Local { stdout, stderr, .. } => {
                ProcessInner::Local { stdin: false, stdout, stderr }
            },
            ProcessInner::Remote => ProcessInner::Remote,
        }
    }

    /// The same with the local ends of input and output dropped.
    pub open spec fn without_pipes(self) -> ProcessInner {
        match self {
            ProcessInner::Local { stderr, .. } => {
                ProcessInner::Local { stdin: false, stdout: false, stderr }
            },
            ProcessInner::Remote => ProcessInner::Remote,
        }
    }

    /// The call that changes the blocking behaviour of a channel, if one is needed: the standard
    /// error output of a local process is always non-blocking, and a dropped pipe has none.
    pub open spec fn blocking_call(self, stream: Stream, blocking: bool) -> Option<Call> {
        match self {
            ProcessInner::Local { stdout, .. } => if stream == Stream::Stdout && stdout {
                Some(Call::Descriptor { stream, blocking })
            } else {
                None
            },
            ProcessInner::Remote => Some(Call::Session { blocking }),
        }
    }
}

/// The outcome of asking for a channel that is there, or is not.
pub open spec fn channel_view(outcome: Result<(), Error>) -> Result<(), ErrorView> {
    match outcome {
        Ok(()) => Ok(()),
        Err(error) => Err(error@),
    }
}

/// A channel that is there, or the broken pipe that is reported for one that is not.
pub open spec fn channel(present: bool) -> Result<(), ErrorView> {
    if present {
        Ok(())
    } else {
        Err(ErrorView::Io(broken_pipe()))
    }
}

impl Process {
    /// Get the computer that this process is running on.
    pub fn computer(&self) -> (computer: &Arc<Computer>)
        ensures
            **computer == self@.computer,
    {
        &self.computer
    }

    /// Whether the standard input can be written; a broken pipe where it has been closed.
    pub fn stdin(&self) -> (outcome: Result<(), Error>)
        ensures
            channel_view(outcome) == channel(self@.inner.has_stdin()),
            outcome is Err <==> (self.inner matches ProcessInner::Local { stdin, .. } && !stdin),
            outcome matches Err(error) ==> error == Error::Io(broken_pipe()),
    {
        match self.inner {
            ProcessInner::Local { stdin: false, .. } => Err(Error::Io(IoError::broken_pipe())),
            _ => Ok(()),
        }
    }

    /// Whether the standard output can be read; a broken pipe where it has been closed.
    pub fn stdout(&self) -> (outcome: Result<(), Error>)
        ensures
            channel_view(outcome) == channel(self@.inner.has_stdout()),
            outcome is Err <==> (self.inner matches ProcessInner::Local { stdout, .. } && !stdout),
            outcome matches Err(error) ==> error == Error::Io(broken_pipe()),
    {
        match self.inner {
            ProcessInner::Local { stdout: false, .. } => Err(Error::Io(IoError::broken_pipe())),
            _ => Ok(()),
        }
    }

    /// The call that makes the standard output blocking or non-blocking, if one is needed.
    ///
    /// Note: this affects all streams of a remote process.
    pub fn set_stdout_blocking(&self, blocking: bool) -> (call: Option<Call>)
        ensures
            call == self@.inner.blocking_call(Stream::Stdout, blocking),
            call == (match self.inner {
                ProcessInner::Local { stdout: true, .. } => Some(
                    Call::Descriptor { stream: Stream::Stdout, blocking },
                ),
                ProcessInner::Local { .. } => None,
                ProcessInner::Remote => Some(Call::Session { blocking }),
            }),
    {
        self.inner.set_blocking(Stream::Stdout, blocking)
    }
}

impl ProcessInner {
    /// The call that makes a channel blocking or non-blocking, if one is needed.
    pub(crate) fn set_blocking(&self, stream: Stream, blocking: bool) -> (call: Option<Call>)
        ensures
            call == self.blocking_call(stream, blocking),
    {
        match self {
            ProcessInner::Local { stdout, .. } => match stream {
                Stream::Stdout => if *stdout {
                    Some(Call::Descriptor { stream: Stream::Stdout, blocking })
                } else {
                    None
                },
                Stream::Stderr => None,
            },
            ProcessInner::Remote => Some(Call::Session { blocking }),
        }
    }
}

} // verus!
