//! Receiving with blocking: lines and bytes from the standard output of a process.

use crate::call::{Call, Reply, Step, Stream};
use crate::error::{broken_pipe, unexpected_eof, Error, ErrorKind, ErrorView, IoError};
use crate::line::{
    after_line, append, bytes_view, into_bytes, into_text, line_bytes, read_line,
    take_all, take_bytes, text, text_view, NEWLINE,
};
use crate::pipe::{blocking_loop, Attempt, BUFFER_SIZE};
use crate::process::{Process, ProcessView};
use crate::receive::read_call;
use std::collections::VecDeque;
use vstd::prelude::*;

verus! {

/// An operation that receives a line and blocks until it has come, waiting for a reply.
#[derive(Debug)]
pub struct BlockLine {
    /// What has been read so far.
    pub buffer: VecDeque<u8>,
    /// The channel was not ready, and other threads are let run.
    pub paused: bool,
}

/// The mathematical value of a [`BlockLine`].
pub struct BlockLineView {
    /// What has been read so far.
    pub buffer: Seq<u8>,
    /// The channel was not ready, and other threads are let run.
    pub paused: bool,
}

impl View for BlockLine {
    type V = BlockLineView;

    open spec fn view(&self) -> BlockLineView {
        BlockLineView { buffer: self.buffer@, paused: self.paused }
    }
}

/// How far receiving a line has come.
pub type BlockLineStep = Step<Call, BlockLineView, Result<Seq<char>, ErrorView>>;

/// The mathematical value of a step of receiving a line.
pub open spec fn block_line_view(
    step: Step<Call, BlockLine, Result<String, Error>>,
) -> BlockLineStep {
    match step {
        Step::Call(call, state) => Step::Call(call, state@),
        Step::Return(outcome) => Step::Return(text_view(outcome)),
    }
}

/// Whether `reply` can be the answer that the operation waits for.
pub open spec fn block_line_accepts(state: BlockLineView, reply: Reply) -> bool {
    if state.paused {
        reply is Done
    } else {
        read_call(Stream::Stdout).accepted(reply)
    }
}

/// Read once more, with this data so far.
pub open spec fn read_on(buffer: Seq<u8>) -> BlockLineStep {
    Step::Call(read_call(Stream::Stdout), BlockLineView { buffer, paused: false })
}

/// What the end of file makes of the data so far: all of it is the last line, unless there is none.
pub open spec fn last_line(buffer: Seq<u8>, error: IoError) -> Result<Seq<char>, ErrorView> {
    if buffer.len() == 0 {
        Err(ErrorView::Io(error))
    } else {
        text(buffer)
    }
}

/// The first step of receiving a line: one that has been read before is returned at once.
/// Otherwise the operation takes what the buffer holds, and reads. A standard output that has been
/// closed is at its end of file.
pub open spec fn block_line_start(process: ProcessView) -> (ProcessView, BlockLineStep) {
    let buffer = process.stdout;
    let taken = process.with_buffer(Stream::Stdout, Seq::empty());
    if buffer.contains(NEWLINE) {
        (
            process.with_buffer(Stream::Stdout, after_line(buffer)),
            Step::Return(text(line_bytes(buffer))),
        )
    } else if !process.inner.has_stdout() {
        (taken, Step::Return(last_line(buffer, broken_pipe())))
    } else {
        (taken, read_on(buffer))
    }
}

/// The next step of receiving a line, after a reply.
///
/// New data goes behind the data so far, and once a newline has come the line is returned and the
/// rest goes back to the process. A read that gives nothing and a failure that says so are the end
/// of file.
pub open spec fn block_line_next(process: ProcessView, state: BlockLineView, reply: Reply) -> (
    ProcessView,
    BlockLineStep,
) {
    let buffer = state.buffer;
    if state.paused {
        (process, read_on(buffer))
    } else {
        match reply {
            Reply::Data(chunk) => {
                let data = buffer + chunk@;
                if chunk@.len() == 0 {
                    (process, Step::Return(last_line(buffer, broken_pipe())))
                } else if data.contains(NEWLINE) {
                    match text(line_bytes(data)) {
                        Ok(line) => (
                            process.with_buffer(Stream::Stdout, after_line(data)),
                            Step::Return(Ok(line)),
                        ),
                        Err(error) => (process, Step::Return(Err(error))),
                    }
                } else {
                    (process, read_on(data))
                }
            },
            Reply::Failed(error) => if error.kind == ErrorKind::WouldBlock {
                (process, Step::Call(Call::Yield, BlockLineView { buffer, paused: true }))
            } else if ErrorView::Io(error).eof() {
                (process, Step::Return(last_line(buffer, error)))
            } else {
                (process, Step::Return(Err(ErrorView::Io(error))))
            },
            _ => (process, read_on(buffer)),
        }
    }
}

/// An operation that receives an exact number of bytes and blocks until they have come, waiting
/// for a reply.
#[derive(Debug)]
pub struct BlockBytes {
    /// What has been read so far.
    pub head: Vec<u8>,
    /// How many bytes are missing.
    pub missing: usize,
    /// The channel was not ready, and other threads are let run.
    pub paused: bool,
}

/// The mathematical value of a [`BlockBytes`].
pub struct BlockBytesView {
    /// What has been read so far.
    pub head: Seq<u8>,
    /// How many bytes are missing.
    pub missing: usize,
    /// The channel was not ready, and other threads are let run.
    pub paused: bool,
}

impl View for BlockBytes {
    type V = BlockBytesView;

    open spec fn view(&self) -> BlockBytesView {
        BlockBytesView { head: self.head@, missing: self.missing, paused: self.paused }
    }
}

/// How far receiving bytes has come.
pub type BlockBytesStep = Step<Call, BlockBytesView, Result<Seq<u8>, ErrorView>>;

/// The mathematical value of a step of receiving bytes.
pub open spec fn block_bytes_view(
    step: Step<Call, BlockBytes, Result<Vec<u8>, Error>>,
) -> BlockBytesStep {
    match step {
        Step::Call(call, state) => Step::Call(call, state@),
        Step::Return(outcome) => Step::Return(bytes_view(outcome)),
    }
}

/// The call that reads what is missing.
pub open spec fn missing_call(missing: usize) -> Call {
    Call::Read { stream: Stream::Stdout, room: missing }
}

/// Whether `reply` can be the answer that the operation waits for.
pub open spec fn block_bytes_accepts(state: BlockBytesView, reply: Reply) -> bool {
    if state.paused {
        reply is Done
    } else {
        missing_call(state.missing).accepted(reply)
    }
}

/// Read what is missing, with these bytes so far.
pub open spec fn read_missing(head: Seq<u8>, missing: usize) -> BlockBytesStep {
    Step::Call(missing_call(missing), BlockBytesView { head, missing, paused: false })
}

/// The first step of receiving bytes: what has been read before is returned at once if it
/// suffices. Otherwise the operation takes it, and reads what is missing.
pub open spec fn block_bytes_start(process: ProcessView, bytes: usize) -> (
    ProcessView,
    BlockBytesStep,
) {
    let head = process.stdout;
    let taken = process.with_buffer(Stream::Stdout, Seq::empty());
    if head.len() >= bytes {
        (
            process.with_buffer(Stream::Stdout, head.skip(bytes as int)),
            Step::Return(Ok(head.take(bytes as int))),
        )
    } else if !process.inner.has_stdout() {
        (taken, Step::Return(Err(ErrorView::Io(broken_pipe()))))
    } else {
        (taken, read_missing(head, (bytes - head.len()) as usize))
    }
}

/// The next step of receiving bytes, after a reply.
///
/// New data goes behind the data so far, until nothing is missing. An end of file comes too soon.
/// A read that was interrupted or would block is made again, and changes nothing.
pub open spec fn block_bytes_next(state: BlockBytesView, reply: Reply) -> BlockBytesStep {
    let head = state.head;
    let missing = state.missing;
    if state.paused {
        read_missing(head, missing)
    } else {
        match reply {
            Reply::Data(chunk) => if chunk@.len() == 0 {
                Step::Return(Err(ErrorView::Io(unexpected_eof())))
            } else if chunk@.len() < missing {
                read_missing(head + chunk@, (missing - chunk@.len()) as usize)
            } else {
                Step::Return(Ok(head + chunk@))
            },
            Reply::Failed(error) => if error.kind == ErrorKind::WouldBlock {
                Step::Call(Call::Yield, BlockBytesView { head, missing, paused: true })
            } else if error.kind == ErrorKind::Interrupted {
                read_missing(head, missing)
            } else {
                Step::Return(Err(ErrorView::Io(error)))
            },
            _ => read_missing(head, missing),
        }
    }
}

impl Process {
    /// Read one line from the process's standard output channel.
    /// Then this removes the trailing newline.
    ///
    /// **Blocks** until this operation is completed.
    pub fn block_line(&mut self) -> (step: Step<Call, BlockLine, Result<String, Error>>)
        ensures
            (final(self)@, block_line_view(step)) == block_line_start(old(self)@),
    {
        // First check the buffer
        match read_line(&mut self.stdout_buffer) {
            Ok(None) => {},
            Ok(Some(line)) => {
                return Step::Return(Ok(line));
            },
            Err(error) => {
                return Step::Return(Err(error));
            },
        }
        // Take and use the entire current buffer
        let mut buffer = VecDeque::new();
        std::mem::swap(&mut self.stdout_buffer, &mut buffer);
        match self.stdout() {
            Ok(()) => {
                Step::Call(
                    Call::Read { stream: Stream::Stdout, room: BUFFER_SIZE },
                    BlockLine { buffer, paused: false },
                )
            },
            Err(error) => Step::Return(
                // A closed channel is at its end of file, return all remaining data
                if buffer.len() == 0 {
                    Err(error)
                } else {
                    into_text(into_bytes(buffer))
                },
            ),
        }
    }

    /// Go on receiving a line, with blocking.
    pub fn resume_block_line(&mut self, state: BlockLine, reply: Reply) -> (step: Step<
        Call,
        BlockLine,
        Result<String, Error>,
    >)
        requires
            block_line_accepts(state@, reply),
        ensures
            (final(self)@, block_line_view(step)) == block_line_next(old(self)@, state@, reply),
    {
        let read = Call::Read { stream: Stream::Stdout, room: BUFFER_SIZE };
        let mut buffer = state.buffer;
        if state.paused {
            return Step::Call(read, BlockLine { buffer, paused: false });
        }
        let outcome: Result<Vec<u8>, IoError> = match reply {
            Reply::Data(chunk) => Ok(chunk),
            Reply::Failed(error) => Err(error),
            _ => {
                return Step::Call(read, BlockLine { buffer, paused: false });
            },
        };
        match blocking_loop(outcome) {
            Attempt::Again => Step::Call(Call::Yield, BlockLine { buffer, paused: true }),
            Attempt::Settled(Ok(chunk)) => {
                // Check for end of file, return all remaining data
                if chunk.len() == 0 {
                    if buffer.len() == 0 {
                        return Step::Return(Err(Error::Io(IoError::broken_pipe())));
                    } else {
                        return Step::Return(into_text(into_bytes(buffer)));
                    }
                }
                append(&mut buffer, chunk);
                // Check for newline
                match read_line(&mut buffer) {
                    Ok(Some(line)) => {
                        self.stdout_buffer = buffer;  // Save remaining data in buffer
                        Step::Return(Ok(line))
                    },
                    Ok(None) => Step::Call(read, BlockLine { buffer, paused: false }),
                    Err(error) => Step::Return(Err(error)),
                }
            },
            Attempt::Settled(Err(error)) => {
                let error = Error::Io(error);
                // Check for end of file, return all remaining data
                if error.eof() && buffer.len() > 0 {
                    Step::Return(into_text(into_bytes(buffer)))
                } else {
                    Step::Return(Err(error))
                }
            },
        }
    }

    /// Read an exact number of bytes from the process's standard output channel.
    ///
    /// **Blocks** until this operation is completed.
    pub fn block_bytes(&mut self, bytes: usize) -> (step: Step<
        Call,
        BlockBytes,
        Result<Vec<u8>, Error>,
    >)
        ensures
            (final(self)@, block_bytes_view(step)) == block_bytes_start(old(self)@, bytes),
    {
        // First check the local buffer.
        let len: usize = self.stdout_buffer.len();
        if len >= bytes {
            return Step::Return(Ok(take_bytes(&mut self.stdout_buffer, bytes)));
        }
        // Take what there is, and read the rest
        let head = take_all(&mut self.stdout_buffer);
        let missing: usize = bytes - len;
        match self.stdout() {
            Ok(()) => {
                Step::Call(
                    Call::Read { stream: Stream::Stdout, room: missing },
                    BlockBytes { head, missing, paused: false },
                )
            },
            Err(error) => Step::Return(Err(error)),
        }
    }

    /// Go on receiving an exact number of bytes, with blocking.
    pub fn resume_block_bytes(&self, state: BlockBytes, reply: Reply) -> (step: Step<
        Call,
        BlockBytes,
        Result<Vec<u8>, Error>,
    >)
        requires
            block_bytes_accepts(state@, reply),
        ensures
            block_bytes_view(step) == block_bytes_next(state@, reply),
    {
        let BlockBytes { head, missing, paused } = state;
        let read = Call::Read { stream: Stream::Stdout, room: missing };
        if paused {
            return Step::Call(read, BlockBytes { head, missing, paused: false });
        }
        let outcome: Result<Vec<u8>, IoError> = match reply {
            Reply::Data(chunk) => Ok(chunk),
            Reply::Failed(error) => Err(error),
            _ => {
                return Step::Call(read, BlockBytes { head, missing, paused: false });
            },
        };
        match blocking_loop(outcome) {
            Attempt::Again => Step::Call(Call::Yield, BlockBytes { head, missing, paused: true }),
            Attempt::Settled(Ok(chunk)) => {
                let len: usize = chunk.len();
                if len == 0 {
                    return Step::Return(Err(Error::Io(IoError::unexpected_eof())));
                }
                let mut head = head;
                let mut chunk = chunk;
                head.append(&mut chunk);
                if len < missing {
                    let missing: usize = missing - len;
                    Step::Call(
                        Call::Read { stream: Stream::Stdout, room: missing },
                        BlockBytes { head, missing, paused: false },
                    )
                } else {
                    Step::Return(Ok(head))
                }
            },
            Attempt::Settled(Err(error)) => if error.kind == ErrorKind::Interrupted {
                Step::Call(read, BlockBytes { head, missing, paused: false })
            } else {
                Step::Return(Err(Error::Io(error)))
            },
        }
    }
}

} // verus!
