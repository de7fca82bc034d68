//! File transfers over a connection of their own.

use crate::call::{Reply, Step};
use crate::computer::{connect_view, Computer, ConnectCall, ConnectStep, Connecting};
use crate::error::{Error, ErrorView};
use crate::process::channel_view;
use crate::transfer::{
    parent_of, recv_file_accepts, recv_file_next, recv_file_start, recv_file_view,
    send_file_accepts, send_file_next, send_file_start, send_file_view, RecvFile, RecvFileStep,
    RecvFileView, SendFile, SendFileStep, SendFileView, TransferCall, TransferCallView,
    TransferReply,
};
use vstd::prelude::*;

verus! {

/// What a transfer over a connection of its own asks of the system.
pub enum FileCall<'a> {
    /// Establish the connection.
    Connect(ConnectCall<'a>),
    /// Transfer the file over it.
    Transfer(TransferCall),
}

/// The mathematical value of a [`FileCall`].
pub enum FileCallView<'a> {
    /// See [`FileCall::Connect`].
    Connect(ConnectCall<'a>),
    /// See [`FileCall::Transfer`].
    Transfer(TransferCallView),
}

impl<'a> View for FileCall<'a> {
    type V = FileCallView<'a>;

    open spec fn view(&self) -> FileCallView<'a> {
        match *self {
            FileCall::Connect(call) => FileCallView::Connect(call),
            FileCall::Transfer(call) => FileCallView::Transfer(call@),
        }
    }
}

/// What the system answers to a transfer over a connection of its own.
#[derive(Debug)]
pub enum FileReply {
    /// The answer to a [`FileCall::Connect`].
    Connect(Reply),
    /// The answer to a [`FileCall::Transfer`].
    Transfer(TransferReply),
}

/// Sending a file to a computer, waiting for a reply.
pub enum SendTo<'a> {
    /// The connection is established.
    Connect {
        /// The computer.
        computer: &'a Computer,
        /// The path of the file.
        path: String,
        /// What is waited for.
        state: Connecting,
    },
    /// The file is sent over the connection.
    Transfer(SendFile),
}

/// The mathematical value of a [`SendTo`].
pub enum SendToView<'a> {
    /// See [`SendTo::Connect`].
    Connect {
        /// The computer.
        computer: &'a Computer,
        /// The path of the file.
        path: Seq<char>,
        /// What is waited for.
        state: Connecting,
    },
    /// See [`SendTo::Transfer`].
    Transfer(SendFileView),
}

impl<'a> View for SendTo<'a> {
    type V = SendToView<'a>;

    open spec fn view(&self) -> SendToView<'a> {
        match *self {
            SendTo::Connect { computer, path, state } => {
                SendToView::Connect { computer, path: path@, state }
            },
            SendTo::Transfer(state) => SendToView::Transfer(state@),
        }
    }
}

/// How far sending a file to a computer has come.
pub type SendToStep<'a> = Step<FileCallView<'a>, SendToView<'a>, Result<(), ErrorView>>;

/// The mathematical value of a step of sending a file to a computer.
pub open spec fn send_to_view<'a>(
    step: Step<FileCall<'a>, SendTo<'a>, Result<(), Error>>,
) -> SendToStep<'a> {
    match step {
        Step::Call(call, state) => Step::Call(call@, state@),
        Step::Return(outcome) => Step::Return(channel_view(outcome)),
    }
}

/// Whether `reply` can be the answer that is waited for.
pub open spec fn send_to_accepts<'a>(state: SendToView<'a>, reply: FileReply) -> bool {
    match (state, reply) {
        (SendToView::Connect { computer, state, .. }, FileReply::Connect(reply)) => {
            computer is Remote && state.accepted(reply)
        },
        (SendToView::Transfer(state), FileReply::Transfer(reply)) => send_file_accepts(
            state,
            reply,
        ),
        _ => false,
    }
}

/// How a step of sending the file over the connection carries sending on.
pub open spec fn send_to_transfer<'a>(step: SendFileStep) -> SendToStep<'a> {
    match step {
        Step::Call(call, state) => Step::Call(
            FileCallView::Transfer(call),
            SendToView::Transfer(state),
        ),
        Step::Return(outcome) => Step::Return(outcome),
    }
}

/// How a step of establishing the connection carries sending on: once it is there, the file is
/// sent over it, and where it fails, sending fails.
pub open spec fn send_to_connect<'a>(
    computer: &'a Computer,
    path: Seq<char>,
    step: ConnectStep<'a>,
) -> SendToStep<'a> {
    match step {
        Step::Call(call, state) => Step::Call(
            FileCallView::Connect(call),
            SendToView::Connect { computer, path, state },
        ),
        Step::Return(Ok(())) => send_to_transfer(send_file_start(path)),
        Step::Return(Err(error)) => Step::Return(Err(error)),
    }
}

/// The first step of sending a file to a computer. For the local one nothing is to be done.
pub open spec fn send_to_start<'a>(computer: &'a Computer, path: Seq<char>) -> SendToStep<'a> {
    match computer {
        Computer::Local => Step::Return(Ok(())),
        Computer::Remote { .. } => send_to_connect(computer, path, computer.connect_start()),
    }
}

/// The next step of sending a file to a computer, after a reply.
pub open spec fn send_to_next<'a>(state: SendToView<'a>, reply: FileReply) -> SendToStep<'a> {
    match (state, reply) {
        (SendToView::Connect { computer, path, state }, FileReply::Connect(reply)) => {
            send_to_connect(computer, path, computer.connect_next(state, reply))
        },
        (SendToView::Transfer(state), FileReply::Transfer(reply)) => send_to_transfer(
            send_file_next(state, reply),
        ),
        _ => Step::Return(Ok(())),
    }
}

impl<'a> SendTo<'a> {
    /// Carry sending on after a step of sending the file over the connection.
    fn transfer(step: Step<TransferCall, SendFile, Result<(), Error>>) -> (next: Step<
        FileCall<'a>,
        SendTo<'a>,
        Result<(), Error>,
    >)
        ensures
            send_to_view(next) == send_to_transfer::<'a>(send_file_view(step)),
    {
        match step {
            Step::Call(call, state) => {
                Step::Call(FileCall::Transfer(call), SendTo::Transfer(state))
            },
            Step::Return(outcome) => Step::Return(outcome),
        }
    }

    /// Carry sending on after a step of establishing the connection.
    fn connect(
        computer: &'a Computer,
        path: String,
        step: Step<ConnectCall<'a>, Connecting, Result<(), Error>>,
    ) -> (next: Step<FileCall<'a>, SendTo<'a>, Result<(), Error>>)
        ensures
            send_to_view(next) == send_to_connect(computer, path@, connect_view(step)),
    {
        match step {
            Step::Call(call, state) => {
                Step::Call(FileCall::Connect(call), SendTo::Connect { computer, path, state })
            },
            Step::Return(Ok(())) => SendTo::transfer(SendFile::start(path)),
            Step::Return(Err(error)) => Step::Return(Err(error)),
        }
    }

    /// Whether `reply` can be the answer that is waited for.
    pub fn accepts(&self, reply: &FileReply) -> (fits: bool)
        ensures
            fits == send_to_accepts(self@, *reply),
    {
        match (self, reply) {
            (SendTo::Connect { computer, state, .. }, FileReply::Connect(reply)) => {
                matches!(computer, Computer::Remote { .. }) && state.accepts(reply)
            },
            (SendTo::Transfer(state), FileReply::Transfer(reply)) => state.accepts(reply),
            _ => false,
        }
    }

    /// Go on sending the file.
    pub fn resume(self, reply: FileReply) -> (step: Step<
        FileCall<'a>,
        SendTo<'a>,
        Result<(), Error>,
    >)
        requires
            send_to_accepts(self@, reply),
        ensures
            send_to_view(step) == send_to_next(self@, reply),
    {
        match (self, reply) {
            (SendTo::Connect { computer, path, state }, FileReply::Connect(reply)) => {
                SendTo::connect(computer, path, computer.resume_connect(state, reply))
            },
            (SendTo::Transfer(state), FileReply::Transfer(reply)) => {
                SendTo::transfer(state.resume(reply))
            },
            _ => Step::Return(Ok(())),
        }
    }
}

/// Receiving a file from a computer, waiting for a reply.
pub enum RecvFrom<'a> {
    /// The connection is established.
    Connect {
        /// The computer.
        computer: &'a Computer,
        /// The path of the file.
        path: String,
        /// What is waited for.
        state: Connecting,
    },
    /// The file is received over the connection.
    Transfer(RecvFile),
}

/// The mathematical value of a [`RecvFrom`].
pub enum RecvFromView<'a> {
    /// See [`RecvFrom::Connect`].
    Connect {
        /// The computer.
        computer: &'a Computer,
        /// The path of the file.
        path: Seq<char>,
        /// What is waited for.
        state: Connecting,
    },
    /// See [`RecvFrom::Transfer`].
    Transfer(RecvFileView),
}

impl<'a> View for RecvFrom<'a> {
    type V = RecvFromView<'a>;

    open spec fn view(&self) -> RecvFromView<'a> {
        match *self {
            RecvFrom::Connect { computer, path, state } => {
                RecvFromView::Connect { computer, path: path@, state }
            },
            RecvFrom::Transfer(state) => RecvFromView::Transfer(state@),
        }
    }
}

/// How far receiving a file from a computer has come.
pub type RecvFromStep<'a> = Step<FileCallView<'a>, RecvFromView<'a>, Result<(), ErrorView>>;

/// The mathematical value of a step of receiving a file from a computer.
pub open spec fn recv_from_view<'a>(
    step: Step<FileCall<'a>, RecvFrom<'a>, Result<(), Error>>,
) -> RecvFromStep<'a> {
    match step {
        Step::Call(call, state) => Step::Call(call@, state@),
        Step::Return(outcome) => Step::Return(channel_view(outcome)),
    }
}

/// Whether `reply` can be the answer that is waited for. The connection has to succeed, and a
/// directory cannot be received.
pub open spec fn recv_from_accepts<'a>(state: RecvFromView<'a>, reply: FileReply) -> bool {
    match (state, reply) {
        (RecvFromView::Connect { computer, .. }, FileReply::Connect(reply)) => {
            computer is Remote && reply is Done
        },
        (RecvFromView::Transfer(state), FileReply::Transfer(reply)) => recv_file_accepts(
            state,
            reply,
        ),
        _ => false,
    }
}

/// How a step of receiving the file over the connection carries receiving on.
pub open spec fn recv_from_transfer<'a>(step: RecvFileStep) -> RecvFromStep<'a> {
    match step {
        Step::Call(call, state) => Step::Call(
            FileCallView::Transfer(call),
            RecvFromView::Transfer(state),
        ),
        Step::Return(outcome) => Step::Return(outcome),
    }
}

/// How a step of establishing the connection carries receiving on: once it is there, the file is
/// received over it.
pub open spec fn recv_from_connect<'a>(
    computer: &'a Computer,
    path: Seq<char>,
    step: ConnectStep<'a>,
) -> RecvFromStep<'a> {
    match step {
        Step::Call(call, state) => Step::Call(
            FileCallView::Connect(call),
            RecvFromView::Connect { computer, path, state },
        ),
        Step::Return(Ok(())) => recv_from_transfer(recv_file_start(path, parent_of(path))),
        Step::Return(Err(error)) => Step::Return(Err(error)),
    }
}

/// The first step of receiving a file from a computer. For the local one nothing is to be done.
pub open spec fn recv_from_start<'a>(computer: &'a Computer, path: Seq<char>) -> RecvFromStep<'a> {
    match computer {
        Computer::Local => Step::Return(Ok(())),
        Computer::Remote { .. } => recv_from_connect(computer, path, computer.connect_start()),
    }
}

/// The next step of receiving a file from a computer, after a reply.
pub open spec fn recv_from_next<'a>(state: RecvFromView<'a>, reply: FileReply) -> RecvFromStep<'a> {
    match (state, reply) {
        (RecvFromView::Connect { computer, path, state }, FileReply::Connect(reply)) => {
            recv_from_connect(computer, path, computer.connect_next(state, reply))
        },
        (RecvFromView::Transfer(state), FileReply::Transfer(reply)) => recv_from_transfer(
            recv_file_next(state, reply),
        ),
        _ => Step::Return(Ok(())),
    }
}

impl<'a> RecvFrom<'a> {
    /// Carry receiving on after a step of receiving the file over the connection.
    fn transfer(step: Step<TransferCall, RecvFile, Result<(), Error>>) -> (next: Step<
        FileCall<'a>,
        RecvFrom<'a>,
        Result<(), Error>,
    >)
        ensures
            recv_from_view(next) == recv_from_transfer::<'a>(recv_file_view(step)),
    {
        match step {
            Step::Call(call, state) => {
                Step::Call(FileCall::Transfer(call), RecvFrom::Transfer(state))
            },
            Step::Return(outcome) => Step::Return(outcome),
        }
    }

    /// Carry receiving on after a step of establishing the connection.
    fn connect(
        computer: &'a Computer,
        path: String,
        step: Step<ConnectCall<'a>, Connecting, Result<(), Error>>,
    ) -> (next: Step<FileCall<'a>, RecvFrom<'a>, Result<(), Error>>)
        ensures
            recv_from_view(next) == recv_from_connect(computer, path@, connect_view(step)),
    {
        match step {
            Step::Call(call, state) => {
                Step::Call(FileCall::Connect(call), RecvFrom::Connect { computer, path, state })
            },
            Step::Return(Ok(())) => RecvFrom::transfer(RecvFile::start(path)),
            Step::Return(Err(error)) => Step::Return(Err(error)),
        }
    }

    /// Whether `reply` can be the answer that is waited for. The connection has to succeed, and a
    /// directory cannot be received.
    pub fn accepts(&self, reply: &FileReply) -> (fits: bool)
        ensures
            fits == recv_from_accepts(self@, *reply),
    {
        match (self, reply) {
            (RecvFrom::Connect { computer, .. }, FileReply::Connect(reply)) => {
                matches!(computer, Computer::Remote { .. }) && matches!(reply, Reply::Done)
            },
            (RecvFrom::Transfer(state), FileReply::Transfer(reply)) => state.accepts(reply),
            _ => false,
        }
    }

    /// Go on receiving the file.
    pub fn resume(self, reply: FileReply) -> (step: Step<
        FileCall<'a>,
        RecvFrom<'a>,
        Result<(), Error>,
    >)
        requires
            recv_from_accepts(self@, reply),
        ensures
            recv_from_view(step) == recv_from_next(self@, reply),
    {
        match (self, reply) {
            (RecvFrom::Connect { computer, path, state }, FileReply::Connect(reply)) => {
                RecvFrom::connect(computer, path, computer.resume_connect(state, reply))
            },
            (RecvFrom::Transfer(state), FileReply::Transfer(reply)) => {
                RecvFrom::transfer(state.resume(reply))
            },
            _ => Step::Return(Ok(())),
        }
    }
}

impl Computer {
    /// Send the file at `path` to this computer.
    ///
    /// Nothing is to be done for the local computer.
    pub fn send_file<'a>(&'a self, path: String) -> (step: Step<
        FileCall<'a>,
        SendTo<'a>,
        Result<(), Error>,
    >)
        ensures
            send_to_view(step) == send_to_start(self, path@),
    {
        match self {
            Computer::Local => Step::Return(Ok(())),
            Computer::Remote { .. } => SendTo::connect(self, path, self.connect()),
        }
    }

    /// Receive the file at `path` from this computer.
    ///
    /// Nothing is to be done for the local computer.
    pub fn recv_file<'a>(&'a self, path: String) -> (step: Step<
        FileCall<'a>,
        RecvFrom<'a>,
        Result<(), Error>,
    >)
        ensures
            recv_from_view(step) == recv_from_start(self, path@),
    {
        match self {
            Computer::Local => Step::Return(Ok(())),
            Computer::Remote { .. } => RecvFrom::connect(self, path, self.connect()),
        }
    }
}

} // verus!
