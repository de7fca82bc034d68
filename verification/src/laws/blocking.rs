//! Laws of receiving with blocking: no data is lost, and readiness does not matter.

use crate::block::{
    block_bytes_accepts, block_bytes_next, block_bytes_start, block_line_accepts, block_line_next,
    block_line_start, read_missing, BlockBytesStep, BlockBytesView, BlockLineStep,
};
use crate::call::{Call, Reply, Step, Stream};
use crate::error::{ErrorKind, ErrorView, IoError};
use crate::laws::lines::law_line_and_rest_are_the_data;
use crate::laws::receiving::{chunks, is_end_of_file};
use crate::line::{line_bytes, text, NEWLINE};
use crate::process::{ProcessInner, ProcessView};
use vstd::prelude::*;
use vstd::utf8::{decode_utf8_encode_utf8, encode_utf8, valid_utf8};

verus! {

/// Where receiving a line stands after these replies.
pub open spec fn block_line_run(process: ProcessView, replies: Seq<Reply>) -> (
    ProcessView,
    BlockLineStep,
)
    decreases replies.len(),
{
    if replies.len() == 0 {
        block_line_start(process)
    } else {
        match block_line_run(process, replies.drop_last()) {
            (before, Step::Call(_, state)) => block_line_next(before, state, replies.last()),
            done => done,
        }
    }
}

/// Whether each of these replies answers the call that is made when it comes.
pub open spec fn block_line_answers(process: ProcessView, replies: Seq<Reply>) -> bool
    decreases replies.len(),
{
    replies.len() > 0 ==> {
        &&& block_line_answers(process, replies.drop_last())
        &&& match block_line_run(process, replies.drop_last()) {
            (_, Step::Call(_, state)) => block_line_accepts(state, replies.last()),
            _ => false,
        }
    }
}

/// While a line is being received, all data is at hand, and the process holds none.
proof fn lemma_block_line_run(process: ProcessView, replies: Seq<Reply>)
    requires
        block_line_answers(process, replies),
    ensures
        block_line_run(process, replies) matches (end, Step::Call(_, state)) ==> {
            &&& end == process.with_buffer(Stream::Stdout, Seq::empty())
            &&& state.buffer == process.stdout + chunks(replies)
            &&& !state.buffer.contains(NEWLINE)
        },
    decreases replies.len(),
{
    if replies.len() == 0 {
        assert(process.stdout + chunks(replies) =~= process.stdout);
    } else {
        let before = replies.drop_last();
        lemma_block_line_run(process, before);
        assert(chunks(before) + Seq::<u8>::empty() =~= chunks(before));
        match replies.last() {
            Reply::Data(chunk) => {
                assert(process.stdout + chunks(before) + chunk@ =~= process.stdout + chunks(
                    replies,
                ));
            },
            _ => {},
        }
    }
}

/// A line that is received with blocking is, with its newline and what is kept for later, in order
/// what had been read before and what came. At the end of file the last line may come without a
/// newline, and nothing remains. The standard error output is never touched.
pub proof fn law_blocking_for_a_line_loses_nothing(process: ProcessView, replies: Seq<Reply>)
    requires
        block_line_answers(process, replies),
    ensures
        ({
            let data = process.stdout + chunks(replies);
            let (end, step) = block_line_run(process, replies);
            &&& end == process.with_buffer(Stream::Stdout, end.stdout)
            &&& step matches Step::Return(Ok(line)) ==> {
                ||| encode_utf8(line).push(NEWLINE) + end.stdout == data
                ||| encode_utf8(line) == data && end.stdout == Seq::<u8>::empty() && data.len() > 0
            }
        }),
{
    let data = process.stdout + chunks(replies);
    if replies.len() == 0 {
        assert(data =~= process.stdout);
        if data.contains(NEWLINE) {
            law_line_and_rest_are_the_data(data);
            if valid_utf8(line_bytes(data)) {
                decode_utf8_encode_utf8(line_bytes(data));
            }
        } else if valid_utf8(data) {
            decode_utf8_encode_utf8(data);
        }
    } else {
        let before = replies.drop_last();
        lemma_block_line_run(process, before);
        match block_line_run(process, before) {
            (held, Step::Call(_, state)) => {
                match replies.last() {
                    Reply::Data(chunk) => {
                        assert(state.buffer + chunk@ =~= data);
                    },
                    _ => {
                        assert(state.buffer =~= data);
                    },
                }
                if data.contains(NEWLINE) {
                    law_line_and_rest_are_the_data(data);
                    if valid_utf8(line_bytes(data)) {
                        decode_utf8_encode_utf8(line_bytes(data));
                    }
                }
                if valid_utf8(data) {
                    decode_utf8_encode_utf8(data);
                }
                if valid_utf8(state.buffer) {
                    decode_utf8_encode_utf8(state.buffer);
                }
            },
            _ => {},
        }
    }
}

/// It does not matter where a process runs: the same data gives the same line, whether it comes
/// from a pipe of this computer or over an SSH channel.
pub proof fn law_blocking_lines_are_received_alike(
    process: ProcessView,
    inner: ProcessInner,
    replies: Seq<Reply>,
)
    requires
        process.inner.has_stdout(),
        inner.has_stdout(),
    ensures
        ({
            let (end, step) = block_line_run(process, replies);
            block_line_run(ProcessView { inner, ..process }, replies) == (
                ProcessView { inner, ..end },
                step,
            )
        }),
    decreases replies.len(),
{
    if replies.len() > 0 {
        law_blocking_lines_are_received_alike(process, inner, replies.drop_last());
    }
}

/// Whether a reply to a read is the end of file.
pub open spec fn ends_file(reply: Reply) -> bool {
    match reply {
        Reply::Data(chunk) => chunk@.len() == 0,
        Reply::Failed(error) => ErrorView::Io(error).eof(),
        _ => false,
    }
}

/// The end of file ends a line too: all data that had been read before and that came is the last
/// line, and nothing remains. Only where there is none, the end of file is reported.
pub proof fn law_end_of_file_ends_a_blocking_line(
    process: ProcessView,
    replies: Seq<Reply>,
    last: Reply,
)
    requires
        block_line_answers(process, replies),
        block_line_run(process, replies) matches (_, Step::Call(_, state)) && !state.paused,
        ends_file(last),
    ensures
        ({
            let data = process.stdout + chunks(replies);
            let (end, step) = block_line_run(process, replies.push(last));
            &&& end == process.with_buffer(Stream::Stdout, Seq::empty())
            &&& if data.len() > 0 {
                step == BlockLineStep::Return(text(data))
            } else {
                step matches Step::Return(Err(error)) && error.eof()
            }
        }),
{
    lemma_block_line_run(process, replies);
    assert(replies.push(last).drop_last() =~= replies);
}

/// A standard output that has been closed is at its end of file: what has been read before is the
/// last line.
pub proof fn law_closed_output_ends_a_blocking_line(process: ProcessView)
    requires
        !process.inner.has_stdout(),
        !process.stdout.contains(NEWLINE),
    ensures
        ({
            let (end, step) = block_line_run(process, Seq::empty());
            &&& end == process.with_buffer(Stream::Stdout, Seq::empty())
            &&& if process.stdout.len() > 0 {
                step == BlockLineStep::Return(text(process.stdout))
            } else {
                step matches Step::Return(Err(error)) && error.eof()
            }
        }),
{
}

/// Where receiving an exact number of bytes stands after these replies.
pub open spec fn block_bytes_run(process: ProcessView, bytes: usize, replies: Seq<Reply>) -> (
    ProcessView,
    BlockBytesStep,
)
    decreases replies.len(),
{
    if replies.len() == 0 {
        block_bytes_start(process, bytes)
    } else {
        match block_bytes_run(process, bytes, replies.drop_last()) {
            (before, Step::Call(_, state)) => (before, block_bytes_next(state, replies.last())),
            done => done,
        }
    }
}

/// Whether each of these replies answers the call that is made when it comes.
pub open spec fn block_bytes_answers(
    process: ProcessView,
    bytes: usize,
    replies: Seq<Reply>,
) -> bool
    decreases replies.len(),
{
    replies.len() > 0 ==> {
        &&& block_bytes_answers(process, bytes, replies.drop_last())
        &&& match block_bytes_run(process, bytes, replies.drop_last()) {
            (_, Step::Call(_, state)) => block_bytes_accepts(state, replies.last()),
            _ => false,
        }
    }
}

/// While bytes are being received, all data is at hand, and the process holds none.
proof fn lemma_block_bytes_run(process: ProcessView, bytes: usize, replies: Seq<Reply>)
    requires
        block_bytes_answers(process, bytes, replies),
    ensures
        block_bytes_run(process, bytes, replies) matches (end, Step::Call(_, state)) ==> {
            &&& end == process.with_buffer(Stream::Stdout, Seq::empty())
            &&& state.head == process.stdout + chunks(replies)
            &&& state.head.len() < bytes
            &&& state.missing == bytes - state.head.len()
        },
    decreases replies.len(),
{
    if replies.len() == 0 {
        assert(process.stdout + chunks(replies) =~= process.stdout);
    } else {
        let before = replies.drop_last();
        lemma_block_bytes_run(process, bytes, before);
        assert(chunks(before) + Seq::<u8>::empty() =~= chunks(before));
        if let Reply::Data(chunk) = replies.last() {
            assert(process.stdout + chunks(before) + chunk@ =~= process.stdout + chunks(replies));
        }
    }
}

/// Bytes that are received with blocking are exactly as many as were asked for. With what is kept
/// for later they are, in order, what had been read before and what came, in whatever pieces it
/// came and however often the channel was not ready. The standard error output is never touched.
pub proof fn law_blocking_for_bytes_loses_nothing(
    process: ProcessView,
    bytes: usize,
    replies: Seq<Reply>,
)
    requires
        block_bytes_answers(process, bytes, replies),
    ensures
        ({
            let (end, step) = block_bytes_run(process, bytes, replies);
            &&& end == process.with_buffer(Stream::Stdout, end.stdout)
            &&& match step {
                Step::Call(_, state) => state.head == process.stdout + chunks(replies),
                Step::Return(Ok(taken)) => {
                    &&& taken.len() == bytes
                    &&& taken + end.stdout == process.stdout + chunks(replies)
                },
                Step::Return(Err(_)) => true,
            }
        }),
{
    let data = process.stdout + chunks(replies);
    lemma_block_bytes_run(process, bytes, replies);
    if replies.len() == 0 {
        assert(data =~= process.stdout);
        if data.len() >= bytes {
            assert(data.take(bytes as int) + data.skip(bytes as int) =~= data);
        }
    } else {
        let before = replies.drop_last();
        lemma_block_bytes_run(process, bytes, before);
        match (block_bytes_run(process, bytes, before).1, replies.last()) {
            (Step::Call(_, state), Reply::Data(chunk)) => {
                assert(state.head + chunk@ =~= data);
                assert(data + Seq::<u8>::empty() =~= data);
            },
            _ => {},
        }
    }
}

/// Where a read of an exact number of bytes would block, the operation lets other threads run and
/// then reads what is missing, as if it had not been asked before.
pub proof fn law_would_block_keeps_the_bytes(
    state: BlockBytesView,
    blocked: Reply,
    yielded: Reply,
)
    requires
        !state.paused,
        blocked matches Reply::Failed(error) && error.kind == ErrorKind::WouldBlock,
    ensures
        block_bytes_next(state, blocked) matches Step::Call(Call::Yield, waiting)
            && block_bytes_next(waiting, yielded) == read_missing(state.head, state.missing),
{
}

/// A channel that is not ready makes no difference: where a read would block, the operation lets
/// other threads run and then reads again, as if it had not been asked before.
pub proof fn law_would_block_is_no_outcome(
    process: ProcessView,
    replies: Seq<Reply>,
    blocked: Reply,
    yielded: Reply,
)
    requires
        block_line_run(process, replies) matches (_, Step::Call(_, state)) && !state.paused,
        blocked matches Reply::Failed(error) && error.kind == ErrorKind::WouldBlock,
    ensures
        block_line_run(process, replies.push(blocked).push(yielded)) == block_line_run(
            process,
            replies,
        ),
{
    let once = replies.push(blocked);
    assert(once.drop_last() =~= replies);
    assert(once.push(yielded).drop_last() =~= once);
    reveal_with_fuel(block_line_run, 3);
}

/// What blocking for a line gives, of what had been read before and what came.
///
/// Where there is a newline, the line is what stands before the first one, and what is kept is all
/// that stands behind it. So a line never holds a newline. Where there is none, the operation goes
/// on, with a read or, where that would have blocked, once other threads have run; it ends only with
/// the end of file, which makes a line of all data if there is any, or with a failure.
pub proof fn law_what_blocking_for_a_line_gives(process: ProcessView, replies: Seq<Reply>)
    requires
        block_line_answers(process, replies),
    ensures
        ({
            let data = process.stdout + chunks(replies);
            let (end, step) = block_line_run(process, replies);
            let closed = process.inner matches ProcessInner::Local { stdout, .. } && !stdout;
            &&& end.stderr == process.stderr
            &&& end.inner == process.inner && end.computer == process.computer
            &&& match step {
                Step::Call(call, state) => {
                    &&& !data.contains(NEWLINE)
                    &&& !closed
                    &&& end.stdout.len() == 0
                    &&& replies.len() > 0 ==> match replies.last() {
                        Reply::Data(chunk) => chunk@.len() > 0,
                        Reply::Failed(error) => error.kind == ErrorKind::WouldBlock,
                        _ => true,
                    }
                    &&& call == if replies.len() > 0 && replies.last() is Failed {
                        Call::Yield
                    } else {
                        Call::Read { stream: Stream::Stdout, room: 8192 }
                    }
                    // Every answer that the call can have is taken.
                    &&& forall|reply: Reply|
                        #![trigger block_line_accepts(state, reply)]
                        block_line_accepts(state, reply) <==> match call {
                            Call::Read { .. } => match reply {
                                Reply::Data(chunk) => chunk@.len() <= 8192,
                                Reply::Failed(_) => true,
                                _ => false,
                            },
                            _ => reply is Done,
                        }
                },
                Step::Return(outcome) => if data.contains(NEWLINE) {
                    match outcome {
                        Ok(line) => {
                            &&& !encode_utf8(line).contains(NEWLINE)
                            &&& encode_utf8(line).push(NEWLINE) + end.stdout == data
                        },
                        Err(ErrorView::Utf8(bytes)) => {
                            let after = bytes.len() + 1;
                            &&& !valid_utf8(bytes)
                            &&& !bytes.contains(NEWLINE)
                            &&& bytes.push(NEWLINE).is_prefix_of(data)
                            &&& end.stdout == if replies.len() == 0 {
                                data.skip(after as int)
                            } else {
                                Seq::empty()
                            }
                        },
                        Err(_) => false,
                    }
                } else {
                    // Where nothing was read, the channel was closed.
                    let ended = IoError { kind: ErrorKind::BrokenPipe, report: None };
                    let error = if replies.len() == 0 {
                        ended
                    } else {
                        match replies.last() {
                            Reply::Failed(error) => error,
                            _ => ended,
                        }
                    };
                    &&& replies.len() == 0 ==> closed
                    &&& replies.len() > 0 ==> match replies.last() {
                        Reply::Data(chunk) => chunk@.len() == 0,
                        Reply::Failed(_) => true,
                        _ => false,
                    }
                    &&& error.kind != ErrorKind::WouldBlock
                    &&& end.stdout.len() == 0
                    &&& if is_end_of_file(error) && data.len() > 0 {
                        match outcome {
                            Ok(line) => encode_utf8(line) == data,
                            Err(ErrorView::Utf8(bytes)) => !valid_utf8(bytes) && bytes == data,
                            Err(_) => false,
                        }
                    } else {
                        outcome == Err::<Seq<char>, ErrorView>(ErrorView::Io(error))
                    }
                },
            }
        }),
{
    let data = process.stdout + chunks(replies);
    lemma_block_line_course(process, replies);
    if replies.len() == 0 {
        assert(data =~= process.stdout);
    } else {
        let before = replies.drop_last();
        lemma_block_line_course(process, before);
        lemma_block_line_run(process, before);
        match replies.last() {
            Reply::Data(chunk) => {
                assert(process.stdout + chunks(before) + chunk@ =~= data);
                if chunk@.len() == 0 {
                    assert(data =~= process.stdout + chunks(before));
                }
            },
            _ => {
                assert(chunks(before) + Seq::<u8>::empty() =~= chunks(before));
            },
        }
    }
    if data.contains(NEWLINE) {
        law_line_and_rest_are_the_data(data);
        let bytes = line_bytes(data);
        if valid_utf8(bytes) {
            decode_utf8_encode_utf8(bytes);
        }
        assert(bytes.push(NEWLINE).is_prefix_of(data));
    }
    if valid_utf8(data) {
        decode_utf8_encode_utf8(data);
    }
}

/// An operation that waits is paused exactly behind a read that would have blocked.
proof fn lemma_block_line_course(process: ProcessView, replies: Seq<Reply>)
    requires
        block_line_answers(process, replies),
    ensures
        block_line_run(process, replies) matches (_, Step::Call(call, state)) ==> {
            &&& process.inner.has_stdout()
            &&& state.paused <==> replies.len() > 0 && replies.last() is Failed
            &&& call == if state.paused {
                Call::Yield
            } else {
                Call::Read { stream: Stream::Stdout, room: 8192 }
            }
            &&& replies.len() > 0 ==> match replies.last() {
                Reply::Data(chunk) => chunk@.len() > 0,
                Reply::Failed(error) => error.kind == ErrorKind::WouldBlock,
                _ => true,
            }
        },
    decreases replies.len(),
{
    if replies.len() > 0 {
        lemma_block_line_course(process, replies.drop_last());
    }
}

/// What blocking for an exact number of bytes gives, of what had been read before and what came: the
/// first so many bytes, as soon as there are so many. Until then the operation goes on, with a read
/// of no more than what is missing or, where that would have blocked, once other threads have run.
/// It ends without them only where the channel ends too soon, or with a failure.
pub proof fn law_what_blocking_for_bytes_gives(
    process: ProcessView,
    bytes: usize,
    replies: Seq<Reply>,
)
    requires
        block_bytes_answers(process, bytes, replies),
    ensures
        ({
            let data = process.stdout + chunks(replies);
            let (end, step) = block_bytes_run(process, bytes, replies);
            let closed = process.inner matches ProcessInner::Local { stdout, .. } && !stdout;
            &&& end.stderr == process.stderr
            &&& end.inner == process.inner && end.computer == process.computer
            &&& match step {
                Step::Call(call, state) => {
                    let blocked = replies.len() > 0 && (replies.last() matches Reply::Failed(error)
                        && error.kind == ErrorKind::WouldBlock);
                    &&& data.len() < bytes
                    &&& !closed
                    &&& end.stdout.len() == 0
                    &&& replies.len() > 0 ==> match replies.last() {
                        Reply::Data(chunk) => chunk@.len() > 0,
                        Reply::Failed(error) => {
                            error.kind == ErrorKind::WouldBlock || error.kind
                                == ErrorKind::Interrupted
                        },
                        _ => true,
                    }
                    &&& if blocked {
                        call == Call::Yield
                    } else {
                        call matches Call::Read { stream: Stream::Stdout, room } && room == bytes
                            - data.len()
                    }
                    // Every answer that the call can have is taken.
                    &&& forall|reply: Reply|
                        #![trigger block_bytes_accepts(state, reply)]
                        block_bytes_accepts(state, reply) <==> match call {
                            Call::Read { room, .. } => match reply {
                                Reply::Data(chunk) => chunk@.len() <= room,
                                Reply::Failed(_) => true,
                                _ => false,
                            },
                            _ => reply is Done,
                        }
                },
                Step::Return(outcome) => if data.len() >= bytes {
                    &&& outcome == Ok::<Seq<u8>, ErrorView>(data.take(bytes as int))
                    &&& end.stdout == data.skip(bytes as int)
                } else {
                    let error = if replies.len() == 0 {
                        IoError { kind: ErrorKind::BrokenPipe, report: None }
                    } else {
                        match replies.last() {
                            Reply::Failed(error) => error,
                            _ => IoError { kind: ErrorKind::UnexpectedEof, report: None },
                        }
                    };
                    &&& replies.len() == 0 ==> closed
                    &&& replies.len() > 0 ==> match replies.last() {
                        Reply::Data(chunk) => chunk@.len() == 0,
                        Reply::Failed(_) => true,
                        _ => false,
                    }
                    &&& error.kind != ErrorKind::WouldBlock
                    &&& error.kind != ErrorKind::Interrupted
                    &&& end.stdout.len() == 0
                    &&& outcome == Err::<Seq<u8>, ErrorView>(ErrorView::Io(error))
                },
            }
        }),
{
    let data = process.stdout + chunks(replies);
    lemma_block_bytes_run(process, bytes, replies);
    lemma_block_bytes_course(process, bytes, replies);
    if replies.len() == 0 {
        assert(data =~= process.stdout);
    } else {
        let before = replies.drop_last();
        lemma_block_bytes_run(process, bytes, before);
        lemma_block_bytes_course(process, bytes, before);
        match replies.last() {
            Reply::Data(chunk) => {
                assert(process.stdout + chunks(before) + chunk@ =~= data);
                assert(data.len() == bytes ==> data.take(bytes as int) =~= data);
                assert(data.len() == bytes ==> data.skip(bytes as int) =~= Seq::<u8>::empty());
            },
            _ => {
                assert(chunks(before) + Seq::<u8>::empty() =~= chunks(before));
            },
        }
    }
}

/// An operation that waits is paused exactly behind a read that would have blocked.
proof fn lemma_block_bytes_course(process: ProcessView, bytes: usize, replies: Seq<Reply>)
    requires
        block_bytes_answers(process, bytes, replies),
    ensures
        block_bytes_run(process, bytes, replies) matches (_, Step::Call(call, state)) ==> {
            &&& process.inner.has_stdout()
            &&& state.paused <==> replies.len() > 0 && (replies.last() matches Reply::Failed(error)
                && error.kind == ErrorKind::WouldBlock)
            &&& call == if state.paused {
                Call::Yield
            } else {
                Call::Read { stream: Stream::Stdout, room: state.missing }
            }
            &&& replies.len() > 0 ==> match replies.last() {
                Reply::Data(chunk) => chunk@.len() > 0,
                Reply::Failed(error) => {
                    error.kind == ErrorKind::WouldBlock || error.kind == ErrorKind::Interrupted
                },
                _ => true,
            }
        },
    decreases replies.len(),
{
    if replies.len() > 0 {
        lemma_block_bytes_course(process, bytes, replies.drop_last());
    }
}

} // verus!
