//! The end of a process: whether it is alive, closing its channels, and waiting for it.

use crate::call::{Call, Reply, Step, Stream};
use crate::error::{Error, ErrorView, SshError};
use crate::line::append;
use crate::process::{channel_view, Process, ProcessInner, ProcessView};
use crate::session::guard_session_blocking;
use vstd::prelude::*;

verus! {

/// An operation that finds out whether a process is alive, waiting for a reply.
#[derive(Clone, Copy, Debug, PartialEq, Eq, Structural)]
pub enum Checking {
    /// The local process is asked whether it has exited.
    Status,
    /// It has exited, and this channel is made blocking for the final messages.
    Blocking(Stream),
    /// The final messages of this channel are read.
    Draining(Stream),
    /// The local ends of the input and the output are dropped.
    Dropping,
    /// The remote process is asked whether it has ended its output.
    Remote,
}

/// The mathematical value of the outcome of a question.
pub open spec fn answer_view(outcome: Result<bool, Error>) -> Result<bool, ErrorView> {
    match outcome {
        Ok(answer) => Ok(answer),
        Err(error) => Err(error@),
    }
}

/// How far finding out whether a process is alive has come.
pub type CheckStep = Step<Call, Checking, Result<bool, ErrorView>>;

/// The mathematical value of a step of finding out whether a process is alive.
pub open spec fn check_view(step: Step<Call, Checking, Result<bool, Error>>) -> CheckStep {
    match step {
        Step::Call(call, state) => Step::Call(call, state),
        Step::Return(outcome) => Step::Return(answer_view(outcome)),
    }
}

impl Checking {
    /// The call whose reply this operation waits for.
    pub open spec fn as_call(self) -> Call {
        match self {
            Checking::Status => Call::TryWait,
            Checking::Blocking(stream) => Call::Descriptor { stream, blocking: true },
            Checking::Draining(stream) => Call::ReadToEnd { stream },
            Checking::Dropping => Call::DropPipes,
            Checking::Remote => Call::ChannelEof,
        }
    }

    /// This operation as it waits for a reply.
    pub open spec fn waiting(self) -> CheckStep {
        Step::Call(self.as_call(), self)
    }

    /// Wait for the reply to the call of this state.
    fn wait(self) -> (step: Step<Call, Checking, Result<bool, Error>>)
        ensures
            check_view(step) == self.waiting(),
    {
        let call = match self {
            Checking::Status => Call::TryWait,
            Checking::Blocking(stream) => Call::Descriptor { stream, blocking: true },
            Checking::Draining(stream) => Call::ReadToEnd { stream },
            Checking::Dropping => Call::DropPipes,
            Checking::Remote => Call::ChannelEof,
        };
        Step::Call(call, self)
    }
}

impl ProcessView {
    /// Whether messages have been read and not been collected.
    pub open spec fn unread(self) -> bool {
        self.stdout.len() > 0 || self.stderr.len() > 0
    }

    /// Which channel of an exited process is drained first.
    pub open spec fn drain_stdout(self) -> Checking {
        match self.inner {
            ProcessInner::Local { stdout: true, .. } => Checking::Blocking(Stream::Stdout),
            _ => self.drain_stderr(),
        }
    }

    /// What follows once the standard output of an exited process is drained.
    pub open spec fn drain_stderr(self) -> Checking {
        match self.inner {
            ProcessInner::Local { stderr: true, .. } => Checking::Blocking(Stream::Stderr),
            _ => Checking::Dropping,
        }
    }
}

/// The first step of finding out whether a process is alive: unread messages keep it alive.
pub open spec fn check_start(process: ProcessView) -> CheckStep {
    if process.unread() {
        Step::Return(Ok(true))
    } else {
        match process.inner {
            ProcessInner::Local { .. } => Checking::Status.waiting(),
            ProcessInner::Remote => Checking::Remote.waiting(),
        }
    }
}

/// The next step of finding out whether a process is alive, after a reply.
///
/// A local process is alive until it has exited. Then its channels are drained to the end and
/// dropped, and what they held keeps it alive.
pub open spec fn check_next(process: ProcessView, state: Checking, reply: Reply) -> (
    ProcessView,
    CheckStep,
) {
    match (state, reply) {
        (Checking::Status, Reply::Exited(None)) => (process, Step::Return(Ok(true))),
        (Checking::Status, Reply::Exited(Some(_))) => (process, process.drain_stdout().waiting()),
        (Checking::Blocking(stream), _) => (process, Checking::Draining(stream).waiting()),
        (Checking::Draining(stream), Reply::Data(data)) => {
            let drained = process.with_buffer(stream, process.buffer(stream) + data@);
            match stream {
                Stream::Stdout => (drained, drained.drain_stderr().waiting()),
                Stream::Stderr => (drained, Checking::Dropping.waiting()),
            }
        },
        (Checking::Dropping, _) => (
            process.without_pipes(),
            Step::Return(Ok(process.unread())),
        ),
        (Checking::Remote, Reply::Flag(ended)) => (process, Step::Return(Ok(!ended))),
        (_, Reply::Failed(error)) => (process, Step::Return(Err(ErrorView::Io(error)))),
        _ => (process, state.waiting()),
    }
}

impl Process {
    /// Whether messages have been read and not been collected.
    fn has_unread(&self) -> (unread: bool)
        ensures
            unread == self@.unread(),
    {
        self.stdout_buffer.len() > 0 || self.stderr_buffer.len() > 0
    }

    /// Record that the local ends of the input and the output are dropped.
    fn drop_pipes(&mut self)
        ensures
            final(self)@ == old(self)@.without_pipes(),
    {
        if let ProcessInner::Local { stderr, .. } = self.inner {
            self.inner = ProcessInner::Local { stdin: false, stdout: false, stderr };
        }
    }

    /// What follows once the standard output of an exited process is drained.
    fn after_stdout(&self) -> (state: Checking)
        ensures
            state == self@.drain_stderr(),
    {
        match self.inner {
            ProcessInner::Local { stderr: true, .. } => Checking::Blocking(Stream::Stderr),
            _ => Checking::Dropping,
        }
    }

    /// Is this process still running or does it have unread messages on stdout or stderr?
    pub fn is_alive(&self) -> (step: Step<Call, Checking, Result<bool, Error>>)
        ensures
            check_view(step) == check_start(self@),
    {
        // Check for buffered & uncollected data
        if self.has_unread() {
            return Step::Return(Ok(true));
        }
        match self.inner {
            ProcessInner::Local { .. } => Checking::Status.wait(),
            ProcessInner::Remote => Checking::Remote.wait(),
        }
    }

    /// Go on finding out whether this process is alive.
    pub fn resume_is_alive(&mut self, state: Checking, reply: Reply) -> (step: Step<
        Call,
        Checking,
        Result<bool, Error>,
    >)
        requires
            state.as_call().accepted(reply),
        ensures
            (final(self)@, check_view(step)) == check_next(old(self)@, state, reply),
    {
        match (state, reply) {
            // Check for normal exit status code
            (Checking::Status, Reply::Exited(None)) => Step::Return(Ok(true)),
            // Process has exited, block for final unread messages
            (Checking::Status, Reply::Exited(Some(_))) => match self.inner {
                ProcessInner::Local { stdout: true, .. } => {
                    Checking::Blocking(Stream::Stdout).wait()
                },
                _ => self.after_stdout().wait(),
            },
            (Checking::Blocking(stream), _) => Checking::Draining(stream).wait(),
            (Checking::Draining(Stream::Stdout), Reply::Data(data)) => {
                append(&mut self.stdout_buffer, data);
                self.after_stdout().wait()
            },
            (Checking::Draining(Stream::Stderr), Reply::Data(data)) => {
                append(&mut self.stderr_buffer, data);
                Checking::Dropping.wait()
            },
            // Process dead & channels EOF, drop them
            (Checking::Dropping, _) => {
                let unread = self.has_unread();
                self.drop_pipes();
                Step::Return(Ok(unread))
            },
            (Checking::Remote, Reply::Flag(ended)) => Step::Return(Ok(!ended)),
            (_, Reply::Failed(error)) => Step::Return(Err(Error::Io(error))),
            (state, _) => state.wait(),
        }
    }
}

/// Ensuring that a session is and remains in blocking mode, waiting for a reply.
#[derive(Clone, Copy, Debug, PartialEq, Eq, Structural)]
pub enum Guard {
    /// The count of the parties that need a non-blocking session is locked.
    Lock,
    /// There are such parties, so the count is unlocked.
    Unlock,
    /// They are let run.
    Yield,
}

impl Guard {
    /// The call whose reply is waited for.
    pub open spec fn as_call(self) -> Call {
        match self {
            Guard::Lock => Call::LockSession,
            Guard::Unlock => Call::UnlockSession,
            Guard::Yield => Call::Yield,
        }
    }

    /// What to wait for next, or `None` once the count is locked and nobody needs the session
    /// non-blocking.
    pub open spec fn next(self, reply: Reply) -> Option<Guard> {
        match (self, reply) {
            (Guard::Lock, Reply::Count(count)) => if count == 0 {
                None
            } else {
                Some(Guard::Unlock)
            },
            (Guard::Unlock, _) => Some(Guard::Yield),
            _ => Some(Guard::Lock),
        }
    }

    /// The call whose reply is waited for.
    fn call(self) -> (call: Call)
        ensures
            call == self.as_call(),
    {
        match self {
            Guard::Lock => Call::LockSession,
            Guard::Unlock => Call::UnlockSession,
            Guard::Yield => Call::Yield,
        }
    }

    /// What to wait for next.
    fn advance(self, reply: &Reply) -> (guard: Option<Guard>)
        ensures
            guard == self.next(*reply),
    {
        match (self, reply) {
            (Guard::Lock, Reply::Count(count)) => if guard_session_blocking(*count) {
                None
            } else {
                Some(Guard::Unlock)
            },
            (Guard::Unlock, _) => Some(Guard::Yield),
            _ => Some(Guard::Lock),
        }
    }
}

/// An operation that closes the channels of a process, waiting for a reply.
#[derive(Clone, Copy, Debug)]
pub enum Closing {
    /// The local ends of the input and the output are dropped.
    Pipes,
    /// The remote session is brought into blocking mode.
    Guard(Guard),
    /// The remote process is told that its input has ended.
    SendEof,
    /// The session is let go. This is what closing the channel gave.
    Release(Result<(), SshError>),
}

/// How far closing has come.
pub type CloseStep = Step<Call, Closing, Result<(), ErrorView>>;

/// The mathematical value of a step of closing.
pub open spec fn close_view(step: Step<Call, Closing, Result<(), Error>>) -> CloseStep {
    match step {
        Step::Call(call, state) => Step::Call(call, state),
        Step::Return(outcome) => Step::Return(channel_view(outcome)),
    }
}

impl Closing {
    /// The call whose reply this operation waits for.
    pub open spec fn as_call(self) -> Call {
        match self {
            Closing::Pipes => Call::DropPipes,
            Closing::Guard(guard) => guard.as_call(),
            Closing::SendEof => Call::SendEof,
            Closing::Release(_) => Call::UnlockSession,
        }
    }

    /// This operation as it waits for a reply.
    pub open spec fn waiting(self) -> CloseStep {
        Step::Call(self.as_call(), self)
    }

    /// Wait for the reply to the call of this state.
    fn wait(self) -> (step: Step<Call, Closing, Result<(), Error>>)
        ensures
            close_view(step) == self.waiting(),
    {
        let call = match self {
            Closing::Pipes => Call::DropPipes,
            Closing::Guard(guard) => guard.call(),
            Closing::SendEof => Call::SendEof,
            Closing::Release(_) => Call::UnlockSession,
        };
        Step::Call(call, self)
    }
}

/// The first step of closing: drop the local pipes, or bring the remote session into blocking
/// mode so that it can flush its buffers.
pub open spec fn close_start(inner: ProcessInner) -> CloseStep {
    match inner {
        ProcessInner::Local { .. } => Closing::Pipes.waiting(),
        ProcessInner::Remote => Closing::Guard(Guard::Lock).waiting(),
    }
}

/// The next step of closing, after a reply.
pub open spec fn close_next(process: ProcessView, state: Closing, reply: Reply) -> (
    ProcessView,
    CloseStep,
) {
    match state {
        Closing::Pipes => (process.without_pipes(), Step::Return(Ok(()))),
        Closing::Guard(guard) => (
            process,
            match guard.next(reply) {
                Some(guard) => Closing::Guard(guard).waiting(),
                None => Closing::SendEof.waiting(),
            },
        ),
        Closing::SendEof => (
            process,
            match reply {
                Reply::SshFailed(error) => Closing::Release(Err(error)).waiting(),
                _ => Closing::Release(Ok(())).waiting(),
            },
        ),
        Closing::Release(outcome) => (
            process,
            Step::Return(
                match outcome {
                    Ok(()) => Ok(()),
                    Err(error) => Err(ErrorView::Ssh(error)),
                },
            ),
        ),
    }
}

impl Process {
    /// Close the process's standard input and output channels.
    ///
    /// Note: remote processes only close stdin; they do not close stdout.
    pub fn close_stdio(&self) -> (step: Step<Call, Closing, Result<(), Error>>)
        ensures
            close_view(step) == close_start(self@.inner),
    {
        match self.inner {
            ProcessInner::Local { .. } => Closing::Pipes.wait(),
            // Block so that it can flush buffers
            ProcessInner::Remote => Closing::Guard(Guard::Lock).wait(),
        }
    }

    /// Go on closing.
    pub fn resume_close_stdio(&mut self, state: Closing, reply: Reply) -> (step: Step<
        Call,
        Closing,
        Result<(), Error>,
    >)
        requires
            state.as_call().accepted(reply),
        ensures
            (final(self)@, close_view(step)) == close_next(old(self)@, state, reply),
    {
        match state {
            Closing::Pipes => {
                self.drop_pipes();
                Step::Return(Ok(()))
            },
            Closing::Guard(guard) => match guard.advance(&reply) {
                Some(guard) => Closing::Guard(guard).wait(),
                None => Closing::SendEof.wait(),
            },
            Closing::SendEof => match reply {
                Reply::SshFailed(error) => Closing::Release(Err(error)).wait(),
                _ => Closing::Release(Ok(())).wait(),
            },
            Closing::Release(Ok(())) => Step::Return(Ok(())),
            Closing::Release(Err(error)) => Step::Return(Err(Error::Ssh(error))),
        }
    }
}

/// An operation that waits until a process terminates, waiting for a reply.
#[derive(Clone, Copy, Debug)]
pub enum Waiting {
    /// The local process is waited for, with its input dropped.
    Child,
    /// The remote session is brought into blocking mode.
    Guard(Guard),
    /// The remote process is told that its input has ended.
    SendEof,
    /// It is to end its output. This has to complete before the channel is closed.
    WaitEof,
    /// The channel is closed.
    Close,
    /// The other side is to close it too.
    WaitClose,
    /// A signal may have killed the remote process.
    Signal,
    /// The exit status of the remote process is asked for.
    Status,
    /// The session is let go. This is what waiting gave.
    Release(Result<bool, SshError>),
}

/// How far waiting has come.
pub type WaitStep = Step<Call, Waiting, Result<bool, ErrorView>>;

/// The mathematical value of a step of waiting.
pub open spec fn wait_view(step: Step<Call, Waiting, Result<bool, Error>>) -> WaitStep {
    match step {
        Step::Call(call, state) => Step::Call(call, state),
        Step::Return(outcome) => Step::Return(answer_view(outcome)),
    }
}

impl Waiting {
    /// The call whose reply this operation waits for.
    pub open spec fn as_call(self) -> Call {
        match self {
            Waiting::Child => Call::Wait,
            Waiting::Guard(guard) => guard.as_call(),
            Waiting::SendEof => Call::SendEof,
            Waiting::WaitEof => Call::WaitEof,
            Waiting::Close => Call::CloseChannel,
            Waiting::WaitClose => Call::WaitClose,
            Waiting::Signal => Call::ExitSignal,
            Waiting::Status => Call::ExitStatus,
            Waiting::Release(_) => Call::UnlockSession,
        }
    }

    /// This operation as it waits for a reply.
    pub open spec fn waiting(self) -> WaitStep {
        Step::Call(self.as_call(), self)
    }

    /// Wait for the reply to the call of this state.
    fn wait(self) -> (step: Step<Call, Waiting, Result<bool, Error>>)
        ensures
            wait_view(step) == self.waiting(),
    {
        let call = match self {
            Waiting::Child => Call::Wait,
            Waiting::Guard(guard) => guard.call(),
            Waiting::SendEof => Call::SendEof,
            Waiting::WaitEof => Call::WaitEof,
            Waiting::Close => Call::CloseChannel,
            Waiting::WaitClose => Call::WaitClose,
            Waiting::Signal => Call::ExitSignal,
            Waiting::Status => Call::ExitStatus,
            Waiting::Release(_) => Call::UnlockSession,
        };
        Step::Call(call, self)
    }
}

/// The first step of waiting for a process.
pub open spec fn wait_start(inner: ProcessInner) -> WaitStep {
    match inner {
        ProcessInner::Local { .. } => Waiting::Child.waiting(),
        ProcessInner::Remote => Waiting::Guard(Guard::Lock).waiting(),
    }
}

/// The next step of waiting for a process, after a reply.
///
/// A remote process ended cleanly where no signal killed it and its exit status is zero. Whatever
/// fails, the session is let go.
pub open spec fn wait_next(state: Waiting, reply: Reply) -> WaitStep {
    match (state, reply) {
        (Waiting::Child, Reply::Exited(Some(success))) => Step::Return(Ok(success)),
        (Waiting::Child, Reply::Failed(error)) => Step::Return(Err(ErrorView::Io(error))),
        (Waiting::Guard(guard), _) => match guard.next(reply) {
            Some(guard) => Waiting::Guard(guard).waiting(),
            None => Waiting::SendEof.waiting(),
        },
        (Waiting::Release(Ok(success)), _) => Step::Return(Ok(success)),
        (Waiting::Release(Err(error)), _) => Step::Return(Err(ErrorView::Ssh(error))),
        (_, Reply::SshFailed(error)) => Waiting::Release(Err(error)).waiting(),
        (Waiting::SendEof, _) => Waiting::WaitEof.waiting(),
        (Waiting::WaitEof, _) => Waiting::Close.waiting(),
        (Waiting::Close, _) => Waiting::WaitClose.waiting(),
        (Waiting::WaitClose, _) => Waiting::Signal.waiting(),
        (Waiting::Signal, Reply::Flag(killed)) => if killed {
            Waiting::Release(Ok(false)).waiting()
        } else {
            Waiting::Status.waiting()
        },
        (Waiting::Status, Reply::Status(status)) => Waiting::Release(Ok(status == 0)).waiting(),
        _ => state.waiting(),
    }
}

impl Process {
    /// **Block** until process terminates.
    ///
    /// Returns `true` if the process ended cleanly, or `false` if it was killed by a signal or if
    /// it exited with non-zero status code. Nothing can be sent to a local process any more.
    pub fn wait(&mut self) -> (step: Step<Call, Waiting, Result<bool, Error>>)
        ensures
            wait_view(step) == wait_start(old(self)@.inner),
            final(self)@ == old(self)@.without_stdin(),
            final(self).computer == old(self).computer,
            final(self).stdout_buffer == old(self).stdout_buffer,
            final(self).stderr_buffer == old(self).stderr_buffer,
            match (old(self).inner, final(self).inner) {
                (
                    ProcessInner::Local { stdout, stderr, .. },
                    ProcessInner::Local { stdin: i, stdout: o, stderr: e },
                ) => !i && o == stdout && e == stderr,
                (ProcessInner::Remote, ProcessInner::Remote) => true,
                _ => false,
            },
    {
        match self.inner {
            ProcessInner::Local { stdout, stderr, .. } => {
                // The system drops the input before it waits
                self.inner = ProcessInner::Local { stdin: false, stdout, stderr };
                Waiting::Child.wait()
            },
            ProcessInner::Remote => Waiting::Guard(Guard::Lock).wait(),
        }
    }

    /// Go on waiting for the process.
    pub fn resume_wait(&self, state: Waiting, reply: Reply) -> (step: Step<
        Call,
        Waiting,
        Result<bool, Error>,
    >)
        requires
            state.as_call().accepted(reply),
        ensures
            wait_view(step) == wait_next(state, reply),
    {
        match (state, reply) {
            (Waiting::Child, Reply::Exited(Some(success))) => Step::Return(Ok(success)),
            (Waiting::Child, Reply::Failed(error)) => Step::Return(Err(Error::Io(error))),
            (Waiting::Guard(guard), reply) => match guard.advance(&reply) {
                Some(guard) => Waiting::Guard(guard).wait(),
                None => Waiting::SendEof.wait(),
            },
            (Waiting::Release(Ok(success)), _) => Step::Return(Ok(success)),
            (Waiting::Release(Err(error)), _) => Step::Return(Err(Error::Ssh(error))),
            (_, Reply::SshFailed(error)) => Waiting::Release(Err(error)).wait(),
            (Waiting::SendEof, _) => Waiting::WaitEof.wait(),
            (Waiting::WaitEof, _) => Waiting::Close.wait(),
            (Waiting::Close, _) => Waiting::WaitClose.wait(),
            (Waiting::WaitClose, _) => Waiting::Signal.wait(),
            (Waiting::Signal, Reply::Flag(killed)) => if killed {
                Waiting::Release(Ok(false)).wait()
            } else {
                Waiting::Status.wait()
            },
            (Waiting::Status, Reply::Status(status)) => {
                Waiting::Release(Ok(status == 0)).wait()
            },
            (state, _) => state.wait(),
        }
    }
}

} // verus!
