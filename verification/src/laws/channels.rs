//! Laws of the channels of a process, and of the replies that calls can have.

use crate::call::{Call, Reply, Stream};
use crate::process::{ProcessInner, ProcessView};
use vstd::prelude::*;

verus! {

/// The two outputs are kept apart: other data for one of them leaves the other, the computer and the
/// channels as they are.
pub proof fn law_outputs_are_kept_apart(process: ProcessView, data: Seq<u8>)
    ensures
        process.buffer(Stream::Stdout) == process.stdout,
        process.buffer(Stream::Stderr) == process.stderr,
        process.with_buffer(Stream::Stdout, data).stdout == data,
        process.with_buffer(Stream::Stdout, data).stderr == process.stderr,
        process.with_buffer(Stream::Stderr, data).stderr == data,
        process.with_buffer(Stream::Stderr, data).stdout == process.stdout,
        forall|stream: Stream|
            #![trigger process.with_buffer(stream, data)]
            {
                let changed = process.with_buffer(stream, data);
                changed.computer == process.computer && changed.inner == process.inner
            },
{
}

/// A message is unread exactly while one of the outputs holds data.
pub proof fn law_unread_is_data_that_is_held(process: ProcessView)
    ensures
        !process.unread() <==> process.stdout.len() + process.stderr.len() == 0,
{
}

/// Dropping the input, dropping both pipes and handing the error output over each close their
/// channels of a local process, and no others. They do nothing to a remote process, and nothing to
/// what has been read.
pub proof fn law_dropping_closes_only_its_channels(process: ProcessView)
    ensures
        ({
            let (waited, closed, forwarded) = (
                process.without_stdin(),
                process.without_pipes(),
                process.forwarded(),
            );
            match process.inner {
                ProcessInner::Remote => {
                    waited == process && closed == process && forwarded == process
                },
                ProcessInner::Local { stdin, stdout, stderr } => {
                    &&& waited.inner == (ProcessInner::Local { stdin: false, stdout, stderr })
                    &&& closed.inner == (ProcessInner::Local {
                        stdin: false,
                        stdout: false,
                        stderr,
                    })
                    &&& forwarded.inner == (ProcessInner::Local { stdin, stdout, stderr: false })
                },
            }
        }),
        forall|other: ProcessView|
            #![trigger other.computer]
            other == process.without_stdin() || other == process.without_pipes() || other
                == process.forwarded() ==> {
                &&& other.computer == process.computer
                &&& other.stdout == process.stdout
                &&& other.stderr == process.stderr
            },
{
}

/// A channel is missing exactly where its pipe of a local process has been dropped.
pub proof fn law_missing_channels_are_dropped_pipes(inner: ProcessInner)
    ensures
        !inner.has_stdin() <==> (inner matches ProcessInner::Local { stdin, .. } && !stdin),
        !inner.has_stdout() <==> (inner matches ProcessInner::Local { stdout, .. } && !stdout),
{
}

/// Which call changes the blocking behaviour of an output: for a remote process it is the session,
/// whichever output it is, and for a local one it is the pipe of the standard output. The standard
/// error output of a local process and a dropped pipe need none.
pub proof fn law_what_makes_an_output_blocking(
    inner: ProcessInner,
    stream: Stream,
    blocking: bool,
)
    ensures
        match inner.blocking_call(stream, blocking) {
            Some(Call::Session { blocking: asked }) => inner is Remote && asked == blocking,
            Some(Call::Descriptor { stream: of, blocking: asked }) => {
                &&& inner matches ProcessInner::Local { stdout, .. } && stdout
                &&& stream is Stdout && of is Stdout
                &&& asked == blocking
            },
            Some(_) => false,
            None => {
                &&& inner is Local
                &&& stream is Stdout ==> (inner matches ProcessInner::Local { stdout, .. }
                    && !stdout)
            },
        },
{
}

/// Which calls a reply can answer. Reads and writes give at most what was asked for, and a process
/// that was waited for has exited.
pub proof fn law_which_calls_a_reply_answers(call: Call, reply: Reply)
    ensures
        call.accepted(reply) <==> match reply {
            Reply::Done => match call {
                Call::Descriptor { .. }
                | Call::Session { .. }
                | Call::Yield
                | Call::DropPipes
                | Call::UnlockSession
                | Call::Flush
                | Call::SendEof
                | Call::WaitEof
                | Call::CloseChannel
                | Call::WaitClose => true,
                _ => false,
            },
            Reply::Data(data) => match call {
                Call::Read { room, .. } => data@.len() <= room,
                _ => call is ReadToEnd,
            },
            Reply::Written(count) => call matches Call::Write { left, .. } && count <= left,
            Reply::Exited(status) => call is TryWait || call is Wait && status is Some,
            Reply::Count(_) => call is LockSession,
            Reply::Flag(_) => call is ExitSignal || call is ChannelEof,
            Reply::Status(_) => call is ExitStatus,
            Reply::Failed(_) => match call {
                Call::Read { .. }
                | Call::ReadToEnd { .. }
                | Call::Write { .. }
                | Call::Flush
                | Call::TryWait
                | Call::Wait => true,
                _ => false,
            },
            Reply::SshFailed(_) => match call {
                Call::SendEof
                | Call::WaitEof
                | Call::CloseChannel
                | Call::WaitClose
                | Call::ExitSignal
                | Call::ExitStatus => true,
                _ => false,
            },
        },
{
}

} // verus!
