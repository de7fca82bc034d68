//! What an operation on a process asks of the system, and what the system answers.
//!
//! The operations of this library never touch a pipe, a socket or a child process. Each of them
//! returns a [`Step`]: either its outcome, or a [`Call`] to make and the state in which to go on
//! with the [`Reply`].

use crate::error::{IoError, SshError};
use vstd::prelude::*;

verus! {

/// An output channel of a process.
#[derive(Clone, Copy, Debug, PartialEq, Eq, Structural)]
pub enum Stream {
    /// The standard output.
    Stdout,
    /// The standard error output.
    Stderr,
}

/// What is written to the standard input of a process.
#[derive(Clone, Copy, Debug, PartialEq, Eq, Structural)]
pub enum Part {
    /// The message that is being sent.
    Message,
    /// The newline behind it.
    Newline,
}

/// A request to the system.
#[derive(Clone, Copy, Debug, PartialEq, Eq, Structural)]
pub enum Call {
    /// Make the descriptor of a local pipe blocking or non-blocking.
    Descriptor {
        /// Which pipe.
        stream: Stream,
        /// The behaviour it is to have.
        blocking: bool,
    },
    /// Enter or leave the non-blocking behaviour of the SSH session.
    Session {
        /// `false` to enter, `true` to leave.
        blocking: bool,
    },
    /// Read once.
    Read {
        /// From where.
        stream: Stream,
        /// The most bytes to read.
        room: usize,
    },
    /// Read until the end of file.
    ReadToEnd {
        /// From where.
        stream: Stream,
    },
    /// Write once to the standard input.
    Write {
        /// What is being written.
        part: Part,
        /// How many bytes of it are left. They are its last ones.
        left: usize,
    },
    /// Flush the standard input.
    Flush,
    /// Let other threads run.
    Yield,
    /// Ask whether the local process has exited.
    TryWait,
    /// Drop the local end of the standard input, and wait until the local process has exited.
    Wait,
    /// Drop the local ends of the standard input and of the standard output.
    DropPipes,
    /// Lock the count of the parties that need a non-blocking session, and read it.
    LockSession,
    /// Unlock that count.
    UnlockSession,
    /// Tell the remote process that its input has ended.
    SendEof,
    /// Wait until the remote process has ended its output.
    WaitEof,
    /// Close the SSH channel.
    CloseChannel,
    /// Wait until the SSH channel is closed.
    WaitClose,
    /// Ask whether a signal killed the remote process.
    ExitSignal,
    /// Ask for the exit status of the remote process.
    ExitStatus,
    /// Ask whether the remote process has ended its output.
    ChannelEof,
}

/// What the system answers.
#[derive(Debug)]
pub enum Reply {
    /// Done.
    Done,
    /// The bytes that were read.
    Data(Vec<u8>),
    /// How many bytes were taken of those that were left to write.
    Written(usize),
    /// `None` while the local process runs, and then whether it succeeded.
    Exited(Option<bool>),
    /// The count of the parties that need a non-blocking session.
    Count(u8),
    /// Yes or no.
    Flag(bool),
    /// The exit status of the remote process.
    Status(i32),
    /// The channel, pipe or process failed.
    Failed(IoError),
    /// The SSH session failed.
    SshFailed(SshError),
}

impl Call {
    /// Whether `reply` can be the answer to this call.
    pub open spec fn accepted(self, reply: Reply) -> bool {
        match self {
            Call::Descriptor { .. }
            | Call::Session { .. }
            | Call::Yield
            | Call::DropPipes
            | Call::UnlockSession => reply is Done,
            Call::Read { room, .. } => match reply {
                Reply::Data(data) => data@.len() <= room,
                Reply::Failed(_) => true,
                _ => false,
            },
            Call::ReadToEnd { .. } => reply is Data || reply is Failed,
            Call::Write { left, .. } => match reply {
                Reply::Written(count) => count <= left,
                Reply::Failed(_) => true,
                _ => false,
            },
            Call::Flush => reply is Done || reply is Failed,
            Call::TryWait => reply is Exited || reply is Failed,
            Call::Wait => match reply {
                Reply::Exited(status) => status is Some,
                Reply::Failed(_) => true,
                _ => false,
            },
            Call::LockSession => reply is Count,
            Call::SendEof | Call::WaitEof | Call::CloseChannel | Call::WaitClose => {
                reply is Done || reply is SshFailed
            },
            Call::ExitSignal => reply is Flag || reply is SshFailed,
            Call::ExitStatus => reply is Status || reply is SshFailed,
            Call::ChannelEof => reply is Flag,
        }
    }

    /// Whether `reply` can be the answer to this call.
    pub fn accepts(&self, reply: &Reply) -> (fits: bool)
        ensures
            fits == self.accepted(*reply),
    {
        match self {
            Call::Descriptor { .. }
            | Call::Session { .. }
            | Call::Yield
            | Call::DropPipes
            | Call::UnlockSession => matches!(reply, Reply::Done),
            Call::Read { room, .. } => match reply {
                Reply::Data(data) => data.len() <= *room,
                Reply::Failed(_) => true,
                _ => false,
            },
            Call::ReadToEnd { .. } => matches!(reply, Reply::Data(_) | Reply::Failed(_)),
            Call::Write { left, .. } => match reply {
                Reply::Written(count) => *count <= *left,
                Reply::Failed(_) => true,
                _ => false,
            },
            Call::Flush => matches!(reply, Reply::Done | Reply::Failed(_)),
            Call::TryWait => matches!(reply, Reply::Exited(_) | Reply::Failed(_)),
            Call::Wait => match reply {
                Reply::Exited(status) => status.is_some(),
                Reply::Failed(_) => true,
                _ => false,
            },
            Call::LockSession => matches!(reply, Reply::Count(_)),
            Call::SendEof | Call::WaitEof | Call::CloseChannel | Call::WaitClose => {
                matches!(reply, Reply::Done | Reply::SshFailed(_))
            },
            Call::ExitSignal => matches!(reply, Reply::Flag(_) | Reply::SshFailed(_)),
            Call::ExitStatus => matches!(reply, Reply::Status(_) | Reply::SshFailed(_)),
            Call::ChannelEof => matches!(reply, Reply::Flag(_)),
        }
    }
}

/// How far an operation has come: `C` is what it asks for, `S` the state in which it waits, and
/// `T` its outcome.
#[derive(Debug)]
pub enum Step<C, S, T> {
    /// Make this call, and hand the reply back with the state.
    Call(C, S),
    /// The operation is over.
    Return(T),
}

} // verus!
