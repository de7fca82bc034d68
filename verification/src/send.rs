//! Sending to the standard input of a process.

use crate::call::{Call, Part, Reply, Step};
use crate::error::{broken_pipe, write_zero, Error, ErrorKind, ErrorView, IoError};
use crate::line::{ends_line, ends_with_newline, NEWLINE};
use crate::pipe::{blocking_loop, Attempt};
use crate::process::{channel_view, Process, ProcessInner};
use vstd::prelude::*;
use vstd::slice::slice_subrange;
use vstd::utf8::encode_utf8;

verus! {

/// What an operation that sends a message is doing.
#[derive(Clone, Copy, Debug, PartialEq, Eq, Structural)]
pub enum SendPhase {
    /// Writing the message.
    Message,
    /// Writing the newline behind it.
    Newline,
    /// Flushing.
    Flush,
}

/// An operation that sends a message, waiting for a reply.
#[derive(Debug)]
pub struct Sending<'a> {
    /// The message.
    pub message: &'a [u8],
    /// A newline goes behind the message.
    pub newline: bool,
    /// What the operation is doing.
    pub phase: SendPhase,
    /// How many bytes have been taken of what is being written.
    pub sent: usize,
    /// The channel was not ready, and other threads are let run.
    pub paused: bool,
}

/// The mathematical value of a [`Sending`].
pub struct SendingView {
    /// The message.
    pub message: Seq<u8>,
    /// A newline goes behind the message.
    pub newline: bool,
    /// What the operation is doing.
    pub phase: SendPhase,
    /// How many bytes have been taken of what is being written.
    pub sent: usize,
    /// The channel was not ready, and other threads are let run.
    pub paused: bool,
}

impl<'a> View for Sending<'a> {
    type V = SendingView;

    open spec fn view(&self) -> SendingView {
        SendingView {
            message: self.message@,
            newline: self.newline,
            phase: self.phase,
            sent: self.sent,
            paused: self.paused,
        }
    }
}

/// How far sending has come.
pub type SendStep = Step<Call, SendingView, Result<(), ErrorView>>;

/// The mathematical value of a step of sending.
pub open spec fn send_view<'a>(step: Step<Call, Sending<'a>, Result<(), Error>>) -> SendStep {
    match step {
        Step::Call(call, state) => Step::Call(call, state@),
        Step::Return(outcome) => Step::Return(channel_view(outcome)),
    }
}

impl SendingView {
    /// The bytes of what is being written.
    pub open spec fn part(self) -> Seq<u8> {
        match self.phase {
            SendPhase::Message => self.message,
            SendPhase::Newline => seq![NEWLINE],
            SendPhase::Flush => Seq::empty(),
        }
    }

    /// As long as something is being written, some of it is left.
    pub open spec fn valid(self) -> bool {
        &&& self.message.len() <= usize::MAX
        &&& match self.phase {
            SendPhase::Flush => self.sent == 0,
            _ => self.sent < self.part().len(),
        }
    }

    /// The bytes that are left of what is being written.
    pub open spec fn rest(self) -> Seq<u8> {
        self.part().skip(self.sent as int)
    }

    /// The call whose reply this operation waits for.
    pub open spec fn call(self) -> Call {
        let left = (self.part().len() - self.sent) as usize;
        if self.paused {
            Call::Yield
        } else {
            match self.phase {
                SendPhase::Message => Call::Write { part: Part::Message, left },
                SendPhase::Newline => Call::Write { part: Part::Newline, left },
                SendPhase::Flush => Call::Flush,
            }
        }
    }

    /// This operation as it waits for a reply.
    pub open spec fn waiting(self) -> SendStep {
        Step::Call(self.call(), self)
    }

    /// This operation once the message is written: the newline follows where one is needed, and
    /// then the flush.
    pub open spec fn after_message(self) -> SendingView {
        let phase = if self.newline {
            SendPhase::Newline
        } else {
            SendPhase::Flush
        };
        SendingView { phase, sent: 0, ..self }
    }

    /// This operation once so many more bytes have been taken.
    pub open spec fn advance(self, count: usize) -> SendingView {
        if self.sent + count < self.part().len() {
            SendingView { sent: (self.sent + count) as usize, ..self }
        } else if self.phase == SendPhase::Message {
            self.after_message()
        } else {
            SendingView { phase: SendPhase::Flush, sent: 0, ..self }
        }
    }
}

/// The first step of sending: write the message, unless the standard input has been closed. An
/// empty message takes no write.
pub open spec fn send_start(inner: ProcessInner, message: Seq<u8>, newline: bool) -> SendStep {
    let start = SendingView {
        message,
        newline,
        phase: SendPhase::Message,
        sent: 0,
        paused: false,
    };
    if !inner.has_stdin() {
        Step::Return(Err(ErrorView::Io(broken_pipe())))
    } else if message.len() > 0 {
        start.waiting()
    } else {
        start.after_message().waiting()
    }
}

/// The next step of sending, after a reply: write what is left of the message, then the newline
/// where one is needed, then flush.
///
/// A write that was interrupted is made again. A remote channel that is not ready is tried again
/// later, with what is left. A channel that takes nothing is a failure.
pub open spec fn send_next(inner: ProcessInner, state: SendingView, reply: Reply) -> SendStep {
    if state.paused {
        (SendingView { paused: false, ..state }).waiting()
    } else {
        match reply {
            Reply::Failed(error) => if inner is Remote && error.kind == ErrorKind::WouldBlock {
                (SendingView { paused: true, ..state }).waiting()
            } else if state.phase != SendPhase::Flush && error.kind == ErrorKind::Interrupted {
                state.waiting()
            } else {
                Step::Return(Err(ErrorView::Io(error)))
            },
            Reply::Written(count) => if count == 0 {
                Step::Return(Err(ErrorView::Io(write_zero())))
            } else {
                state.advance(count).waiting()
            },
            _ => Step::Return(Ok(())),
        }
    }
}

impl<'a> Sending<'a> {
    /// The bytes that are left of what is being written.
    pub fn rest(&self) -> (bytes: &'a [u8])
        requires
            self@.valid(),
        ensures
            bytes@ == self@.rest(),
    {
        match self.phase {
            SendPhase::Message => slice_subrange(self.message, self.sent, self.message.len()),
            SendPhase::Newline => {
                let newline: &'a [u8] = &[NEWLINE];
                assert(newline@ =~= seq![NEWLINE]);
                assert(seq![NEWLINE].skip(0) =~= seq![NEWLINE]);
                newline
            },
            SendPhase::Flush => slice_subrange(self.message, 0, 0),
        }
    }

    /// Wait for the reply to the call of this state.
    fn wait(self) -> (step: Step<Call, Sending<'a>, Result<(), Error>>)
        requires
            self@.valid(),
        ensures
            send_view(step) == self@.waiting(),
    {
        let call = if self.paused {
            Call::Yield
        } else {
            match self.phase {
                SendPhase::Message => {
                    Call::Write { part: Part::Message, left: self.message.len() - self.sent }
                },
                SendPhase::Newline => Call::Write { part: Part::Newline, left: 1 },
                SendPhase::Flush => Call::Flush,
            }
        };
        Step::Call(call, self)
    }

    /// This operation once the message is written.
    fn end_message(self) -> (next: Sending<'a>)
        ensures
            next@ == self@.after_message(),
    {
        let phase = if self.newline {
            SendPhase::Newline
        } else {
            SendPhase::Flush
        };
        Sending { phase, sent: 0, ..self }
    }
}

/// Whether a step that waits does so in a valid state.
pub open spec fn send_valid(step: SendStep) -> bool {
    step matches Step::Call(_, state) ==> state.valid()
}

impl Process {
    /// Start to write to the standard input.
    fn start_send<'a>(&self, message: &'a [u8], newline: bool) -> (step: Step<
        Call,
        Sending<'a>,
        Result<(), Error>,
    >)
        ensures
            send_view(step) == send_start(self@.inner, message@, newline),
            send_valid(send_view(step)),
    {
        if let Err(error) = self.stdin() {
            return Step::Return(Err(error));
        }
        let start = Sending {
            message,
            newline,
            phase: SendPhase::Message,
            sent: 0,
            paused: false,
        };
        if message.len() > 0 {
            start.wait()
        } else {
            start.end_message().wait()
        }
    }

    /// Write to and flush the process's standard input channel.
    /// This appends a newline (if not already present).
    ///
    /// **Blocks** until this operation is completed.
    pub fn send_line<'a>(&self, message: &'a str) -> (step: Step<
        Call,
        Sending<'a>,
        Result<(), Error>,
    >)
        ensures
            send_view(step) == send_start(
                self@.inner,
                encode_utf8(message@),
                !ends_line(message@),
            ),
            step matches Step::Call(_, state) ==> {
                &&& state.message@ == encode_utf8(message@)
                &&& state.newline <==> !(message@.len() > 0 && message@.last() == '\n')
            },
            send_valid(send_view(step)),
    {
        self.start_send(message.as_bytes(), !ends_with_newline(message))
    }

    /// Write to and flush the process's standard input channel.
    ///
    /// **Blocks** until this operation is completed.
    pub fn send_bytes<'a>(&self, message: &'a [u8]) -> (step: Step<
        Call,
        Sending<'a>,
        Result<(), Error>,
    >)
        ensures
            send_view(step) == send_start(self@.inner, message@, false),
            step matches Step::Call(_, state) ==> state.message@ == message@ && !state.newline,
            send_valid(send_view(step)),
    {
        self.start_send(message, false)
    }

    /// Go on sending.
    pub fn resume_send<'a>(&self, state: Sending<'a>, reply: Reply) -> (step: Step<
        Call,
        Sending<'a>,
        Result<(), Error>,
    >)
        requires
            state@.valid(),
            state@.call().accepted(reply),
        ensures
            send_view(step) == send_next(self@.inner, state@, reply),
            send_valid(send_view(step)),
    {
        if state.paused {
            return Sending { paused: false, ..state }.wait();
        }
        let outcome: Result<usize, IoError> = match reply {
            Reply::Failed(error) => Err(error),
            Reply::Written(count) => Ok(count),
            _ => {
                return Step::Return(Ok(()));
            },
        };
        let settled: Result<usize, IoError> = match self.inner {
            ProcessInner::Local { .. } => outcome,
            ProcessInner::Remote => match blocking_loop(outcome) {
                Attempt::Again => {
                    return Sending { paused: true, ..state }.wait();
                },
                Attempt::Settled(settled) => settled,
            },
        };
        match settled {
            Err(error) => {
                if state.phase != SendPhase::Flush && error.kind == ErrorKind::Interrupted {
                    state.wait()
                } else {
                    Step::Return(Err(Error::Io(error)))
                }
            },
            Ok(count) => {
                if count == 0 {
                    return Step::Return(Err(Error::Io(IoError::write_zero())));
                }
                match state.phase {
                    SendPhase::Message => {
                        if count < state.message.len() - state.sent {
                            Sending { sent: state.sent + count, ..state }.wait()
                        } else {
                            state.end_message().wait()
                        }
                    },
                    _ => Sending { phase: SendPhase::Flush, sent: 0, ..state }.wait(),
                }
            },
        }
    }
}

} // verus!
