//! Receiving without blocking: lines and bytes from the output channels of a process.
//!
//! Each operation first looks at what has been read before. Only where that does not do, it reads
//! everything that its channel has to offer.

use crate::call::{Call, Reply, Step, Stream};
use crate::error::{broken_pipe, Error, ErrorView};
use crate::line::{
    after_line, append, bytes_view, first_line, into_text, line_view, read_line, some_text,
    take_all, take_bytes, NEWLINE,
};
use crate::pipe::{read_more, read_nonblocking, Progress, ProgressView, BUFFER_SIZE};
use crate::process::{Process, ProcessInner, ProcessView};
use std::collections::VecDeque;
use vstd::prelude::*;

verus! {

/// An operation that reads everything a channel has to offer, waiting for a reply.
#[derive(Debug)]
pub struct Fill {
    /// The channel.
    pub stream: Stream,
    /// What it waits for.
    pub phase: FillPhase,
}

/// What a [`Fill`] waits for.
#[derive(Debug)]
pub enum FillPhase {
    /// The channel is being made non-blocking.
    Enter,
    /// The channel is being read. This is what has come so far.
    Reading(Vec<u8>),
    /// The channel is being made blocking again. This is what reading it gave.
    Leave(Result<Vec<u8>, Error>),
}

/// The mathematical value of a [`Fill`].
pub struct FillView {
    /// The channel.
    pub stream: Stream,
    /// What it waits for.
    pub phase: FillPhaseView,
}

/// The mathematical value of a [`FillPhase`].
pub enum FillPhaseView {
    /// See [`FillPhase::Enter`].
    Enter,
    /// See [`FillPhase::Reading`].
    Reading(Seq<u8>),
    /// See [`FillPhase::Leave`].
    Leave(Result<Seq<u8>, ErrorView>),
}

impl View for Fill {
    type V = FillView;

    open spec fn view(&self) -> FillView {
        FillView {
            stream: self.stream,
            phase: match self.phase {
                FillPhase::Enter => FillPhaseView::Enter,
                FillPhase::Reading(data) => FillPhaseView::Reading(data@),
                FillPhase::Leave(outcome) => FillPhaseView::Leave(bytes_view(outcome)),
            },
        }
    }
}

/// How far reading everything has come.
pub type FillStep = Step<Call, FillView, Result<Seq<u8>, ErrorView>>;

/// The call that reads a channel once.
pub open spec fn read_call(stream: Stream) -> Call {
    Call::Read { stream, room: BUFFER_SIZE }
}

/// Whether `reply` can be the answer that `fill` waits for.
pub open spec fn fill_accepts(fill: FillView, reply: Reply) -> bool {
    match fill.phase {
        FillPhaseView::Reading(_) => read_call(fill.stream).accepted(reply),
        _ => reply is Done,
    }
}

/// The first step of reading everything that a channel has to offer.
///
/// A closed standard output is a broken pipe. A standard error output that is forwarded has
/// nothing to offer. Any other channel is made non-blocking where need be, and read.
pub open spec fn fill_start(inner: ProcessInner, stream: Stream) -> FillStep {
    match inner {
        ProcessInner::Local { stdout: false, .. } if stream == Stream::Stdout => {
            Step::Return(Err(ErrorView::Io(broken_pipe())))
        },
        ProcessInner::Local { stderr: false, .. } if stream == Stream::Stderr => {
            Step::Return(Ok(Seq::empty()))
        },
        _ => match inner.blocking_call(stream, false) {
            Some(call) => Step::Call(call, FillView { stream, phase: FillPhaseView::Enter }),
            None => Step::Call(
                read_call(stream),
                FillView { stream, phase: FillPhaseView::Reading(Seq::empty()) },
            ),
        },
    }
}

/// How reading everything goes on after one more reply, when `data` has been read: as [`read_more`]
/// says. But where data has come, a failure does not take it away. The data is what reading gives,
/// and the failure is left for the next time.
pub open spec fn read_kept(data: Seq<u8>, reply: Reply) -> ProgressView {
    if data.len() > 0 && reply is Failed {
        ProgressView::Complete(Ok(data))
    } else {
        read_more(data, reply)
    }
}

/// The next step of reading everything, after a reply: read on as [`read_kept`] says, and make
/// the channel blocking again whatever came of it.
pub open spec fn fill_next(inner: ProcessInner, fill: FillView, reply: Reply) -> FillStep {
    let stream = fill.stream;
    match fill.phase {
        FillPhaseView::Enter => Step::Call(
            read_call(stream),
            FillView { stream, phase: FillPhaseView::Reading(Seq::empty()) },
        ),
        FillPhaseView::Reading(data) => match read_kept(data, reply) {
            ProgressView::More(data) => Step::Call(
                read_call(stream),
                FillView { stream, phase: FillPhaseView::Reading(data) },
            ),
            ProgressView::Complete(outcome) => match inner.blocking_call(stream, true) {
                Some(call) => Step::Call(
                    call,
                    FillView { stream, phase: FillPhaseView::Leave(outcome) },
                ),
                None => Step::Return(outcome),
            },
        },
        FillPhaseView::Leave(outcome) => Step::Return(outcome),
    }
}

/// The mathematical value of a step of reading everything.
pub open spec fn fill_view(step: Step<Call, Fill, Result<Vec<u8>, Error>>) -> FillStep {
    match step {
        Step::Call(call, fill) => Step::Call(call, fill@),
        Step::Return(outcome) => Step::Return(bytes_view(outcome)),
    }
}

/// Take one more reply to a read, and keep the data that has come where it is a failure.
fn read_keeping(data: Vec<u8>, reply: Reply) -> (progress: Progress)
    requires
        match reply {
            Reply::Data(chunk) => chunk@.len() <= BUFFER_SIZE,
            Reply::Failed(_) => true,
            _ => false,
        },
    ensures
        progress@ == read_kept(data@, reply),
{
    if data.len() > 0 && matches!(reply, Reply::Failed(_)) {
        Progress::Complete(Ok(data))
    } else {
        read_nonblocking(data, reply)
    }
}

impl Process {
    /// Start to read everything that the standard output has to offer.
    ///
    /// Manages blocking/non-blocking behavior.
    pub fn read_stdout_nonblocking(&self) -> (step: Step<Call, Fill, Result<Vec<u8>, Error>>)
        ensures
            fill_view(step) == fill_start(self@.inner, Stream::Stdout),
    {
        if let Err(error) = self.stdout() {
            return Step::Return(Err(error));
        }
        self.enter(Stream::Stdout)
    }

    /// Start to read everything that the standard error output has to offer.
    pub fn read_stderr_nonblocking(&self) -> (step: Step<Call, Fill, Result<Vec<u8>, Error>>)
        ensures
            fill_view(step) == fill_start(self@.inner, Stream::Stderr),
    {
        match self.inner {
            // The standard error output was forwarded.
            ProcessInner::Local { stderr: false, .. } => Step::Return(Ok(Vec::new())),
            _ => self.enter(Stream::Stderr),
        }
    }

    /// Make a channel that is in hand non-blocking, or read it where it is so already.
    fn enter(&self, stream: Stream) -> (step: Step<Call, Fill, Result<Vec<u8>, Error>>)
        requires
            fill_start(self@.inner, stream) is Call,
        ensures
            fill_view(step) == fill_start(self@.inner, stream),
    {
        match self.inner.set_blocking(stream, false) {
            Some(call) => Step::Call(call, Fill { stream, phase: FillPhase::Enter }),
            None => {
                Step::Call(
                    Call::Read { stream, room: BUFFER_SIZE },
                    Fill { stream, phase: FillPhase::Reading(Vec::new()) },
                )
            },
        }
    }

    /// Go on reading everything that a channel has to offer.
    pub fn resume_fill(&self, fill: Fill, reply: Reply) -> (step: Step<
        Call,
        Fill,
        Result<Vec<u8>, Error>,
    >)
        requires
            fill_accepts(fill@, reply),
        ensures
            fill_view(step) == fill_next(self@.inner, fill@, reply),
    {
        let stream = fill.stream;
        let read = Call::Read { stream, room: BUFFER_SIZE };
        match fill.phase {
            FillPhase::Enter => {
                Step::Call(read, Fill { stream, phase: FillPhase::Reading(Vec::new()) })
            },
            FillPhase::Reading(data) => match read_keeping(data, reply) {
                Progress::More(data) => {
                    Step::Call(read, Fill { stream, phase: FillPhase::Reading(data) })
                },
                Progress::Complete(outcome) => match self.inner.set_blocking(stream, true) {
                    Some(call) => {
                        Step::Call(call, Fill { stream, phase: FillPhase::Leave(outcome) })
                    },
                    None => Step::Return(outcome),
                },
            },
            FillPhase::Leave(outcome) => Step::Return(outcome),
        }
    }
}

/// How far receiving a line has come.
pub type LineStep = Step<Call, FillView, Result<Option<Seq<char>>, ErrorView>>;

/// What receiving a line makes of the data that reading everything gave.
///
/// The data goes behind what the buffer holds, and the first line is split off. At the end of file
/// all that the buffer holds is the last line, unless it holds nothing.
pub open spec fn line_end(
    process: ProcessView,
    stream: Stream,
    outcome: Result<Seq<u8>, ErrorView>,
) -> (ProcessView, Result<Option<Seq<char>>, ErrorView>) {
    let buffer = process.buffer(stream);
    match outcome {
        Ok(data) => (
            process.with_buffer(stream, after_line(buffer + data)),
            first_line(buffer + data),
        ),
        Err(error) => if error.eof() && buffer.len() > 0 {
            (process.with_buffer(stream, Seq::empty()), some_text(buffer))
        } else {
            (process, Err(error))
        },
    }
}

/// How a step of reading everything carries receiving a line on.
pub open spec fn line_step(process: ProcessView, stream: Stream, step: FillStep) -> (
    ProcessView,
    LineStep,
) {
    match step {
        Step::Call(call, fill) => (process, Step::Call(call, fill)),
        Step::Return(outcome) => {
            let (end, line) = line_end(process, stream, outcome);
            (end, Step::Return(line))
        },
    }
}

/// The first step of receiving a line: a line that has been read before is returned at once.
pub open spec fn line_start(process: ProcessView, stream: Stream) -> (ProcessView, LineStep) {
    let buffer = process.buffer(stream);
    if buffer.contains(NEWLINE) {
        (process.with_buffer(stream, after_line(buffer)), Step::Return(first_line(buffer)))
    } else {
        line_step(process, stream, fill_start(process.inner, stream))
    }
}

/// The next step of receiving a line, after a reply.
pub open spec fn line_next(process: ProcessView, fill: FillView, reply: Reply) -> (
    ProcessView,
    LineStep,
) {
    line_step(process, fill.stream, fill_next(process.inner, fill, reply))
}

/// The mathematical value of a step of receiving a line.
pub open spec fn line_step_view(
    step: Step<Call, Fill, Result<Option<String>, Error>>,
) -> LineStep {
    match step {
        Step::Call(call, fill) => Step::Call(call, fill@),
        Step::Return(outcome) => Step::Return(line_view(outcome)),
    }
}

/// Put what reading everything gave behind what the buffer holds, and take the first line.
fn end_line(buffer: &mut VecDeque<u8>, outcome: Result<Vec<u8>, Error>) -> (line: Result<
    Option<String>,
    Error,
>)
    ensures
        forall|process: ProcessView, stream: Stream|
            process.buffer(stream) == old(buffer)@ ==> #[trigger] line_end(
                process,
                stream,
                bytes_view(outcome),
            ) == (process.with_buffer(stream, final(buffer)@), line_view(line)),
{
    match outcome {
        Ok(data) => {
            append(buffer, data);
            read_line(buffer)
        },
        Err(error) => {
            // If EOF then return all remaining data in buffer
            if error.eof() && buffer.len() > 0 {
                let line = into_text(take_all(buffer))?;
                Ok(Some(line))
            } else {
                Err(error)
            }
        },
    }
}

impl Process {
    /// Read zero or one lines from the process's standard output channel.
    /// Then this removes the trailing newline.
    ///
    /// **Non-blocking:** returns `None` if a line is not yet available.
    pub fn recv_line(&mut self) -> (step: Step<Call, Fill, Result<Option<String>, Error>>)
        ensures
            (final(self)@, line_step_view(step)) == line_start(old(self)@, Stream::Stdout),
    {
        // First check the buffer
        match read_line(&mut self.stdout_buffer) {
            Ok(None) => {},
            outcome => {
                return Step::Return(outcome);
            },
        }
        // Get another batch of data and check for newline again
        match self.read_stdout_nonblocking() {
            Step::Call(call, fill) => Step::Call(call, fill),
            Step::Return(outcome) => Step::Return(end_line(&mut self.stdout_buffer, outcome)),
        }
    }

    /// Go on receiving a line from the standard output.
    pub fn resume_recv_line(&mut self, fill: Fill, reply: Reply) -> (step: Step<
        Call,
        Fill,
        Result<Option<String>, Error>,
    >)
        requires
            fill.stream == Stream::Stdout,
            fill_accepts(fill@, reply),
        ensures
            (final(self)@, line_step_view(step)) == line_next(old(self)@, fill@, reply),
    {
        match self.resume_fill(fill, reply) {
            Step::Call(call, fill) => Step::Call(call, fill),
            Step::Return(outcome) => Step::Return(end_line(&mut self.stdout_buffer, outcome)),
        }
    }

    /// Read one line from the process's standard error channel.
    /// Then this removes the trailing newline.
    ///
    /// **Non-blocking:** returns `None` if the next line is not yet available.
    pub fn error_line(&mut self) -> (step: Step<Call, Fill, Result<Option<String>, Error>>)
        ensures
            (final(self)@, line_step_view(step)) == line_start(old(self)@, Stream::Stderr),
    {
        // First check the local buffer.
        match read_line(&mut self.stderr_buffer) {
            Ok(None) => {},
            outcome => {
                return Step::Return(outcome);
            },
        }
        match self.read_stderr_nonblocking() {
            Step::Call(call, fill) => Step::Call(call, fill),
            Step::Return(outcome) => Step::Return(end_line(&mut self.stderr_buffer, outcome)),
        }
    }

    /// Go on receiving a line from the standard error output.
    pub fn resume_error_line(&mut self, fill: Fill, reply: Reply) -> (step: Step<
        Call,
        Fill,
        Result<Option<String>, Error>,
    >)
        requires
            fill.stream == Stream::Stderr,
            fill_accepts(fill@, reply),
        ensures
            (final(self)@, line_step_view(step)) == line_next(old(self)@, fill@, reply),
    {
        match self.resume_fill(fill, reply) {
            Step::Call(call, fill) => Step::Call(call, fill),
            Step::Return(outcome) => Step::Return(end_line(&mut self.stderr_buffer, outcome)),
        }
    }
}

/// An operation that receives an exact number of bytes, waiting for a reply.
#[derive(Debug)]
pub struct RecvBytes {
    /// How many bytes are wanted.
    pub bytes: usize,
    /// The reading that it waits for.
    pub fill: Fill,
}

/// The mathematical value of the outcome of receiving an exact number of bytes.
pub open spec fn some_bytes_view(outcome: Result<Option<Vec<u8>>, Error>) -> Result<
    Option<Seq<u8>>,
    ErrorView,
> {
    match outcome {
        Ok(Some(bytes)) => Ok(Some(bytes@)),
        Ok(None) => Ok(None),
        Err(error) => Err(error@),
    }
}

/// How far receiving bytes has come.
pub type BytesStep = Step<Call, (usize, FillView), Result<Option<Seq<u8>>, ErrorView>>;

/// The mathematical value of a step of receiving an exact number of bytes.
pub open spec fn bytes_step_view(
    step: Step<Call, RecvBytes, Result<Option<Vec<u8>>, Error>>,
) -> BytesStep {
    match step {
        Step::Call(call, state) => Step::Call(call, (state.bytes, state.fill@)),
        Step::Return(outcome) => Step::Return(some_bytes_view(outcome)),
    }
}

/// The first `bytes` bytes of the standard output, if so many have been read.
pub open spec fn split_bytes(process: ProcessView, bytes: usize) -> (
    ProcessView,
    Option<Seq<u8>>,
) {
    if process.stdout.len() >= bytes {
        (
            process.with_buffer(Stream::Stdout, process.stdout.skip(bytes as int)),
            Some(process.stdout.take(bytes as int)),
        )
    } else {
        (process, None)
    }
}

/// How a step of reading everything carries receiving bytes on: the data goes behind what the
/// buffer holds, and the bytes are split off if so many are there. A failure leaves the buffer.
pub open spec fn bytes_step(process: ProcessView, bytes: usize, step: FillStep) -> (
    ProcessView,
    BytesStep,
) {
    match step {
        Step::Call(call, fill) => (process, Step::Call(call, (bytes, fill))),
        Step::Return(Ok(data)) => {
            let (end, taken) = split_bytes(
                process.with_buffer(Stream::Stdout, process.stdout + data),
                bytes,
            );
            (end, Step::Return(Ok(taken)))
        },
        Step::Return(Err(error)) => (process, Step::Return(Err(error))),
    }
}

/// The first step of receiving bytes: bytes that have been read before are returned at once.
pub open spec fn bytes_start(process: ProcessView, bytes: usize) -> (ProcessView, BytesStep) {
    let (end, taken) = split_bytes(process, bytes);
    if taken is Some {
        (end, Step::Return(Ok(taken)))
    } else {
        bytes_step(process, bytes, fill_start(process.inner, Stream::Stdout))
    }
}

/// The next step of receiving bytes, after a reply.
pub open spec fn bytes_next(
    process: ProcessView,
    bytes: usize,
    fill: FillView,
    reply: Reply,
) -> (ProcessView, BytesStep) {
    bytes_step(process, bytes, fill_next(process.inner, fill, reply))
}

/// How far collecting the standard error output has come.
pub type CollectStep = Step<Call, FillView, Result<Seq<u8>, ErrorView>>;

/// How a step of reading everything carries collecting the standard error output on: all that the
/// buffer holds and the data behind it is returned. At the end of file it is what the buffer
/// holds, unless it holds nothing.
pub open spec fn collect_step(process: ProcessView, step: FillStep) -> (ProcessView, CollectStep) {
    let empty = process.with_buffer(Stream::Stderr, Seq::empty());
    match step {
        Step::Call(call, fill) => (process, Step::Call(call, fill)),
        Step::Return(Ok(data)) => (empty, Step::Return(Ok(process.stderr + data))),
        Step::Return(Err(error)) => if error.eof() && process.stderr.len() > 0 {
            (empty, Step::Return(Ok(process.stderr)))
        } else {
            (process, Step::Return(Err(error)))
        },
    }
}

impl Process {
    /// Take the first `bytes` bytes that have been read, if there are so many.
    fn split_stdout(&mut self, bytes: usize) -> (taken: Option<Vec<u8>>)
        ensures
            final(self)@ == split_bytes(old(self)@, bytes).0,
            match taken {
                Some(taken) => split_bytes(old(self)@, bytes).1 == Some(taken@),
                None => split_bytes(old(self)@, bytes).1 is None,
            },
    {
        if self.stdout_buffer.len() >= bytes {
            Some(take_bytes(&mut self.stdout_buffer, bytes))
        } else {
            None
        }
    }

    /// Carry receiving bytes on after a step of reading everything.
    fn end_bytes(&mut self, bytes: usize, step: Step<Call, Fill, Result<Vec<u8>, Error>>) -> (next:
        Step<Call, RecvBytes, Result<Option<Vec<u8>>, Error>>)
        ensures
            (final(self)@, bytes_step_view(next)) == bytes_step(
                old(self)@,
                bytes,
                fill_view(step),
            ),
    {
        match step {
            Step::Call(call, fill) => Step::Call(call, RecvBytes { bytes, fill }),
            Step::Return(Ok(data)) => {
                append(&mut self.stdout_buffer, data);
                // Check if enough data is now available
                Step::Return(Ok(self.split_stdout(bytes)))
            },
            Step::Return(Err(error)) => Step::Return(Err(error)),
        }
    }

    /// Read an exact number of bytes from the process's standard output channel.
    ///
    /// **Non-blocking:** returns `None` if the data is not yet available.
    pub fn recv_bytes(&mut self, bytes: usize) -> (step: Step<
        Call,
        RecvBytes,
        Result<Option<Vec<u8>>, Error>,
    >)
        ensures
            (final(self)@, bytes_step_view(step)) == bytes_start(old(self)@, bytes),
    {
        // First check the buffer
        if let Some(taken) = self.split_stdout(bytes) {
            return Step::Return(Ok(Some(taken)));
        }
        // Read stdout non-blocking
        let step = self.read_stdout_nonblocking();
        self.end_bytes(bytes, step)
    }

    /// Go on receiving an exact number of bytes.
    pub fn resume_recv_bytes(&mut self, state: RecvBytes, reply: Reply) -> (step: Step<
        Call,
        RecvBytes,
        Result<Option<Vec<u8>>, Error>,
    >)
        requires
            state.fill.stream == Stream::Stdout,
            fill_accepts(state.fill@, reply),
        ensures
            (final(self)@, bytes_step_view(step)) == bytes_next(
                old(self)@,
                state.bytes,
                state.fill@,
                reply,
            ),
    {
        let step = self.resume_fill(state.fill, reply);
        self.end_bytes(state.bytes, step)
    }

    /// Carry collecting the standard error output on after a step of reading everything.
    fn end_collect(&mut self, step: Step<Call, Fill, Result<Vec<u8>, Error>>) -> (next: Step<
        Call,
        Fill,
        Result<Vec<u8>, Error>,
    >)
        ensures
            (final(self)@, fill_view(next)) == collect_step(old(self)@, fill_view(step)),
    {
        match step {
            Step::Call(call, fill) => Step::Call(call, fill),
            Step::Return(Ok(data)) => {
                append(&mut self.stderr_buffer, data);
                Step::Return(Ok(take_all(&mut self.stderr_buffer)))
            },
            Step::Return(Err(error)) => {
                if error.eof() && self.stderr_buffer.len() > 0 {
                    Step::Return(Ok(take_all(&mut self.stderr_buffer)))
                } else {
                    Step::Return(Err(error))
                }
            },
        }
    }

    /// Read all available bytes from the process's standard error channel.
    ///
    /// **Non-blocking:** returns an empty vector if nothing is available.
    pub fn error_bytes(&mut self) -> (step: Step<Call, Fill, Result<Vec<u8>, Error>>)
        ensures
            (final(self)@, fill_view(step)) == collect_step(
                old(self)@,
                fill_start(old(self)@.inner, Stream::Stderr),
            ),
    {
        let step = self.read_stderr_nonblocking();
        self.end_collect(step)
    }

    /// Go on collecting the standard error output.
    pub fn resume_error_bytes(&mut self, fill: Fill, reply: Reply) -> (step: Step<
        Call,
        Fill,
        Result<Vec<u8>, Error>,
    >)
        requires
            fill.stream == Stream::Stderr,
            fill_accepts(fill@, reply),
        ensures
            (final(self)@, fill_view(step)) == collect_step(
                old(self)@,
                fill_next(old(self)@.inner, fill@, reply),
            ),
    {
        let step = self.resume_fill(fill, reply);
        self.end_collect(step)
    }
}

} // verus!
