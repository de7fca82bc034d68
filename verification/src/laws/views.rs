//! Laws of views: what the contracts speak of is what the functions take and return.

use crate::block::{block_bytes_view, block_line_view, BlockBytes, BlockLine};
use crate::call::{Call, Step};
use crate::computer::{connect_view, ConnectCall, Connecting};
use crate::connection::{
    recv_from_view, send_to_view, FileCall, FileCallView, RecvFrom, SendTo,
};
use crate::error::{Error, ErrorView};
use crate::forwarder::{forward_view, ForwardCall, ForwardCallView};
use crate::launch::{launch_view, Launch, LaunchCall, LaunchCallView};
use crate::life::{
    answer_view, check_view, close_view, wait_view, Checking, Closing, Waiting,
};
use crate::line::{bytes_view, line_view, text_view};
use crate::process::{channel_view, Process};
use crate::receive::{
    bytes_step_view, fill_view, line_step_view, some_bytes_view, Fill, RecvBytes,
};
use crate::send::{send_view, Sending};
use crate::shell::words_of;
use crate::transfer::{
    make_dirs_view, path_view, recv_file_view, send_file_view, MakeDirs, RecvFile, SendFile,
    TransferCall, TransferCallView,
};
use vstd::prelude::*;

verus! {

/// An error is seen as the kind of failure that it is, with its report or its bytes.
pub proof fn law_errors_are_seen_as_they_are(error: Error)
    ensures
        match error@ {
            ErrorView::Io(failure) => error == Error::Io(failure),
            ErrorView::Ssh(failure) => error == Error::Ssh(failure),
            ErrorView::Utf8(bytes) => error matches Error::Utf8(given) && given@ == bytes,
        },
{
}

/// A process is seen with what its buffers hold, where it runs, and which channels it has.
pub proof fn law_processes_are_seen_as_they_are(process: Process)
    ensures
        process@.computer == *process.computer,
        process@.stdout == process.stdout_buffer@,
        process@.stderr == process.stderr_buffer@,
        process@.inner == process.inner,
{
}

/// Success is seen as success with the same value, and a failure as that failure.
pub proof fn law_outcomes_are_seen_as_they_are(
    done: Result<(), Error>,
    answer: Result<bool, Error>,
    text: Result<String, Error>,
    line: Result<Option<String>, Error>,
    bytes: Result<Vec<u8>, Error>,
    some: Result<Option<Vec<u8>>, Error>,
)
    ensures
        match (done, channel_view(done)) {
            (Ok(()), Ok(())) => true,
            (Err(error), Err(seen)) => seen == error@,
            _ => false,
        },
        match (answer, answer_view(answer)) {
            (Ok(given), Ok(seen)) => seen == given,
            (Err(error), Err(seen)) => seen == error@,
            _ => false,
        },
        match (text, text_view(text)) {
            (Ok(given), Ok(seen)) => seen == given@,
            (Err(error), Err(seen)) => seen == error@,
            _ => false,
        },
        match (line, line_view(line)) {
            (Ok(Some(given)), Ok(Some(seen))) => seen == given@,
            (Ok(None), Ok(None)) => true,
            (Err(error), Err(seen)) => seen == error@,
            _ => false,
        },
        match (bytes, bytes_view(bytes)) {
            (Ok(given), Ok(seen)) => seen == given@,
            (Err(error), Err(seen)) => seen == error@,
            _ => false,
        },
        match (some, some_bytes_view(some)) {
            (Ok(Some(given)), Ok(Some(seen))) => seen == given@,
            (Ok(None), Ok(None)) => true,
            (Err(error), Err(seen)) => seen == error@,
            _ => false,
        },
{
}

/// A step that asks for something is seen to ask for that, and one that is over is seen to be over
/// with its outcome: of finding out whether a process is alive, of closing it and of waiting for it.
pub proof fn law_steps_of_the_end_are_seen_as_they_are(
    check: Step<Call, Checking, Result<bool, Error>>,
    close: Step<Call, Closing, Result<(), Error>>,
    wait: Step<Call, Waiting, Result<bool, Error>>,
)
    ensures
        match (check, check_view(check)) {
            (Step::Call(call, state), Step::Call(seen, held)) => seen == call && held == state,
            (Step::Return(outcome), Step::Return(seen)) => seen == answer_view(outcome),
            _ => false,
        },
        match (close, close_view(close)) {
            (Step::Call(call, state), Step::Call(seen, held)) => seen == call && held == state,
            (Step::Return(outcome), Step::Return(seen)) => seen == channel_view(outcome),
            _ => false,
        },
        match (wait, wait_view(wait)) {
            (Step::Call(call, state), Step::Call(seen, held)) => seen == call && held == state,
            (Step::Return(outcome), Step::Return(seen)) => seen == answer_view(outcome),
            _ => false,
        },
{
}

/// A step that asks for something is seen to ask for that, and one that is over is seen to be over
/// with its outcome: of sending and of receiving without blocking.
pub proof fn law_steps_of_channels_are_seen_as_they_are<'a>(
    send: Step<Call, Sending<'a>, Result<(), Error>>,
    fill: Step<Call, Fill, Result<Vec<u8>, Error>>,
    line: Step<Call, Fill, Result<Option<String>, Error>>,
    bytes: Step<Call, RecvBytes, Result<Option<Vec<u8>>, Error>>,
)
    ensures
        match (send, send_view(send)) {
            (Step::Call(call, _), Step::Call(seen, _)) => seen == call,
            (Step::Return(outcome), Step::Return(seen)) => seen == channel_view(outcome),
            _ => false,
        },
        match (fill, fill_view(fill)) {
            (Step::Call(call, _), Step::Call(seen, _)) => seen == call,
            (Step::Return(outcome), Step::Return(seen)) => seen == bytes_view(outcome),
            _ => false,
        },
        match (line, line_step_view(line)) {
            (Step::Call(call, _), Step::Call(seen, _)) => seen == call,
            (Step::Return(outcome), Step::Return(seen)) => seen == line_view(outcome),
            _ => false,
        },
        match (bytes, bytes_step_view(bytes)) {
            (Step::Call(call, state), Step::Call(seen, (count, _))) => {
                seen == call && count == state.bytes
            },
            (Step::Return(outcome), Step::Return(seen)) => seen == some_bytes_view(outcome),
            _ => false,
        },
{
}

/// A step that asks for something is seen to ask for that, and one that is over is seen to be over
/// with its outcome: of receiving with blocking.
pub proof fn law_steps_of_blocking_are_seen_as_they_are(
    line: Step<Call, BlockLine, Result<String, Error>>,
    bytes: Step<Call, BlockBytes, Result<Vec<u8>, Error>>,
)
    ensures
        match (line, block_line_view(line)) {
            (Step::Call(call, _), Step::Call(seen, _)) => seen == call,
            (Step::Return(outcome), Step::Return(seen)) => seen == text_view(outcome),
            _ => false,
        },
        match (bytes, block_bytes_view(bytes)) {
            (Step::Call(call, _), Step::Call(seen, _)) => seen == call,
            (Step::Return(outcome), Step::Return(seen)) => seen == bytes_view(outcome),
            _ => false,
        },
{
}

/// A step that asks for something is seen to ask for that, and one that is over is seen to be over
/// with its outcome: of connecting and of spawning.
pub proof fn law_steps_of_spawning_are_seen_as_they_are<'a>(
    connect: Step<ConnectCall<'a>, Connecting, Result<(), Error>>,
    launch: Step<LaunchCall<'a>, Launch<'a>, Result<Box<Process>, Error>>,
)
    ensures
        match (connect, connect_view(connect)) {
            (Step::Call(call, state), Step::Call(seen, held)) => seen == call && held == state,
            (Step::Return(outcome), Step::Return(seen)) => seen == channel_view(outcome),
            _ => false,
        },
        match (launch, launch_view(launch)) {
            (Step::Call(call, state), Step::Call(seen, phase)) => {
                &&& phase == state.phase
                &&& match (call, seen) {
                    (
                        LaunchCall::Spawn { program, args },
                        LaunchCallView::Spawn { program: p, args: a },
                    ) => {
                        &&& p == program@
                        &&& a.len() == args@.len()
                        &&& forall|i: int| 0 <= i < a.len() ==> #[trigger] a[i] == args@[i]@
                    },
                    (LaunchCall::StderrNonblocking, LaunchCallView::StderrNonblocking) => true,
                    (LaunchCall::Connect(asked), LaunchCallView::Connect(s)) => s == asked,
                    (LaunchCall::Channel, LaunchCallView::Channel) => true,
                    (LaunchCall::Exec(line), LaunchCallView::Exec(s)) => s == line@,
                    _ => false,
                }
            },
            (Step::Return(Ok(process)), Step::Return(Ok(seen))) => seen == process@,
            (Step::Return(Err(error)), Step::Return(Err(seen))) => seen == error@,
            _ => false,
        },
{
}

/// The words of a command are its strings, in order.
pub proof fn law_words_are_the_strings(strings: Seq<String>)
    ensures
        words_of(strings).len() == strings.len(),
        forall|i: int|
            0 <= i < strings.len() ==> #[trigger] words_of(strings)[i] == strings[i]@,
{
}

/// What forwarding asks for is seen as it is, with its source and its data.
pub proof fn law_forwarding_is_seen_as_it_is(call: Option<ForwardCall>)
    ensures
        match (call, forward_view(call)) {
            (None, None) => true,
            (Some(ForwardCall::Receive), Some(ForwardCallView::Receive)) => true,
            (Some(ForwardCall::Yield), Some(ForwardCallView::Yield)) => true,
            (
                Some(ForwardCall::Session { id, blocking }),
                Some(ForwardCallView::Session { id: of, blocking: asked }),
            ) => of == id && asked == blocking,
            (Some(ForwardCall::Read(id)), Some(ForwardCallView::Read(of))) => of == id,
            (Some(ForwardCall::Write(data)), Some(ForwardCallView::Write(seen))) => seen == data@,
            (Some(ForwardCall::Drop(id)), Some(ForwardCallView::Drop(of))) => of == id,
            _ => false,
        },
{
}

/// What a transfer asks for is seen as it is, with its path and its data.
pub proof fn law_transfer_calls_are_seen_as_they_are(call: TransferCall)
    ensures
        match (call, call@) {
            (TransferCall::Sftp, TransferCallView::Sftp) => true,
            (TransferCall::StatRemote(path), TransferCallView::StatRemote(seen)) => seen == path@,
            (TransferCall::Mkdir(dir, mode), TransferCallView::Mkdir(seen, asked)) => {
                seen == dir@ && asked == mode
            },
            (TransferCall::StatLocal, TransferCallView::StatLocal) => true,
            (TransferCall::ReadLocal, TransferCallView::ReadLocal) => true,
            (TransferCall::CreateRemote, TransferCallView::CreateRemote) => true,
            (TransferCall::WriteRemote(data), TransferCallView::WriteRemote(seen)) => seen == data@,
            (
                TransferCall::SetStat { perm, mtime },
                TransferCallView::SetStat { perm: p, mtime: m },
            ) => p == perm && m == mtime,
            (TransferCall::MakeLocalDirs(dir), TransferCallView::MakeLocalDirs(seen)) => {
                seen == dir@
            },
            (TransferCall::OpenRemote, TransferCallView::OpenRemote) => true,
            (TransferCall::ReadRemote(len), TransferCallView::ReadRemote(seen)) => seen == len,
            (TransferCall::WriteLocal(data), TransferCallView::WriteLocal(seen)) => seen == data@,
            _ => false,
        },
{
}

/// A step that asks for something is seen to ask for that, and one that is over is seen to be over
/// with its outcome: of transfers over a session.
pub proof fn law_steps_of_transfers_are_seen_as_they_are(
    dirs: Step<TransferCall, MakeDirs, Result<(), Error>>,
    send: Step<TransferCall, SendFile, Result<(), Error>>,
    recv: Step<TransferCall, RecvFile, Result<(), Error>>,
    path: Option<String>,
)
    ensures
        match (dirs, make_dirs_view(dirs)) {
            (Step::Call(call, _), Step::Call(seen, _)) => seen == call@,
            (Step::Return(outcome), Step::Return(seen)) => seen == channel_view(outcome),
            _ => false,
        },
        match (send, send_file_view(send)) {
            (Step::Call(call, _), Step::Call(seen, _)) => seen == call@,
            (Step::Return(outcome), Step::Return(seen)) => seen == channel_view(outcome),
            _ => false,
        },
        match (recv, recv_file_view(recv)) {
            (Step::Call(call, _), Step::Call(seen, _)) => seen == call@,
            (Step::Return(outcome), Step::Return(seen)) => seen == channel_view(outcome),
            _ => false,
        },
        match (path, path_view(path)) {
            (Some(given), Some(seen)) => seen == given@,
            (None, None) => true,
            _ => false,
        },
{
}

/// A step that asks for something is seen to ask for that, and one that is over is seen to be over
/// with its outcome: of transfers over a connection of their own.
pub proof fn law_steps_of_connections_are_seen_as_they_are<'a>(
    send: Step<FileCall<'a>, SendTo<'a>, Result<(), Error>>,
    recv: Step<FileCall<'a>, RecvFrom<'a>, Result<(), Error>>,
)
    ensures
        match (send, send_to_view(send)) {
            (Step::Call(call, _), Step::Call(seen, _)) => match (call, seen) {
                (FileCall::Connect(asked), FileCallView::Connect(s)) => s == asked,
                (FileCall::Transfer(asked), FileCallView::Transfer(s)) => s == asked@,
                _ => false,
            },
            (Step::Return(outcome), Step::Return(seen)) => seen == channel_view(outcome),
            _ => false,
        },
        match (recv, recv_from_view(recv)) {
            (Step::Call(call, _), Step::Call(seen, _)) => match (call, seen) {
                (FileCall::Connect(asked), FileCallView::Connect(s)) => s == asked,
                (FileCall::Transfer(asked), FileCallView::Transfer(s)) => s == asked@,
                _ => false,
            },
            (Step::Return(outcome), Step::Return(seen)) => seen == channel_view(outcome),
            _ => false,
        },
{
}

} // verus!
