//! Laws of receiving without blocking: a channel is left as it was found, and no data is lost.
//!
//! A run of an operation is told by the replies that it gets, in order.

use crate::call::{Call, Reply, Step, Stream};
use crate::error::{ErrorKind, ErrorView, IoError};
use crate::laws::lines::law_line_and_rest_are_the_data;
use crate::line::{line_bytes, some_text, NEWLINE};
use crate::process::{ProcessInner, ProcessView};
use crate::receive::{
    bytes_next, bytes_start, bytes_step, collect_step, fill_accepts, fill_next, fill_start,
    line_next, line_start, line_step, read_call, BytesStep, CollectStep, FillPhaseView, FillStep,
    LineStep,
};
use vstd::prelude::*;
use vstd::utf8::{decode_utf8_encode_utf8, encode_utf8, valid_utf8};

verus! {

/// The data that came with these replies, in order.
pub open spec fn chunks(replies: Seq<Reply>) -> Seq<u8>
    decreases replies.len(),
{
    if replies.len() == 0 {
        Seq::empty()
    } else {
        chunks(replies.drop_last()) + match replies.last() {
            Reply::Data(data) => data@,
            _ => Seq::empty(),
        }
    }
}

/// Where reading everything that a channel has to offer stands after these replies.
pub open spec fn fill_run(inner: ProcessInner, stream: Stream, replies: Seq<Reply>) -> FillStep
    decreases replies.len(),
{
    if replies.len() == 0 {
        fill_start(inner, stream)
    } else {
        match fill_run(inner, stream, replies.drop_last()) {
            Step::Call(_, fill) => fill_next(inner, fill, replies.last()),
            Step::Return(outcome) => Step::Return(outcome),
        }
    }
}

/// Whether each of these replies answers the call that is made when it comes.
pub open spec fn fill_answers(inner: ProcessInner, stream: Stream, replies: Seq<Reply>) -> bool
    decreases replies.len(),
{
    replies.len() > 0 ==> {
        &&& fill_answers(inner, stream, replies.drop_last())
        &&& match fill_run(inner, stream, replies.drop_last()) {
            Step::Call(_, fill) => fill_accepts(fill, replies.last()),
            Step::Return(_) => false,
        }
    }
}

/// The call that a step makes, if it makes one.
pub open spec fn step_call(step: FillStep) -> Seq<Call> {
    match step {
        Step::Call(call, _) => seq![call],
        Step::Return(_) => Seq::empty(),
    }
}

/// The calls that have been made once these replies have come, in order.
pub open spec fn fill_calls(inner: ProcessInner, stream: Stream, replies: Seq<Reply>) -> Seq<Call>
    decreases replies.len(),
{
    if replies.len() == 0 {
        step_call(fill_start(inner, stream))
    } else {
        fill_calls(inner, stream, replies.drop_last()) + step_call(fill_run(inner, stream, replies))
    }
}

/// How many of these replies answer a read.
pub open spec fn read_count(replies: Seq<Reply>) -> nat
    decreases replies.len(),
{
    if replies.len() == 0 {
        0
    } else {
        read_count(replies.drop_last()) + if replies.last() is Done {
            0nat
        } else {
            1nat
        }
    }
}

/// So many reads of a channel in a row.
pub open spec fn reads(stream: Stream, count: nat) -> Seq<Call> {
    Seq::new(count, |i: int| read_call(stream))
}

/// The call that may or may not be needed.
pub open spec fn optional(call: Option<Call>) -> Seq<Call> {
    match call {
        Some(call) => seq![call],
        None => Seq::empty(),
    }
}

/// What is known of a run after any replies.
proof fn lemma_fill_run(inner: ProcessInner, stream: Stream, replies: Seq<Reply>)
    requires
        fill_answers(inner, stream, replies),
    ensures
        ({
            let calls = fill_calls(inner, stream, replies);
            let enter = optional(inner.blocking_call(stream, false));
            let leave = optional(inner.blocking_call(stream, true));
            match fill_run(inner, stream, replies) {
                Step::Call(call, fill) => {
                    &&& fill_start(inner, stream) is Call
                    &&& fill.stream == stream
                    &&& match fill.phase {
                        FillPhaseView::Enter => {
                            &&& read_count(replies) == 0
                            &&& chunks(replies) == Seq::<u8>::empty()
                            &&& inner.blocking_call(stream, false) is Some
                            &&& calls == enter
                        },
                        FillPhaseView::Reading(data) => {
                            &&& data == chunks(replies)
                            &&& calls == enter + reads(stream, read_count(replies) + 1)
                        },
                        FillPhaseView::Leave(outcome) => {
                            &&& outcome matches Ok(data) ==> data == chunks(replies)
                            &&& calls == enter + reads(stream, read_count(replies)) + leave
                        },
                    }
                },
                Step::Return(outcome) => {
                    &&& outcome matches Ok(data) ==> data == chunks(replies)
                    &&& fill_start(inner, stream) is Call ==> calls == enter + reads(
                        stream,
                        read_count(replies),
                    ) + leave
                    &&& fill_start(inner, stream) is Return ==> replies.len() == 0
                },
            }
        }),
    decreases replies.len(),
{
    let enter = optional(inner.blocking_call(stream, false));
    let leave = optional(inner.blocking_call(stream, true));
    let calls = fill_calls(inner, stream, replies);
    let count = read_count(replies);
    if replies.len() == 0 {
        assert(enter + reads(stream, 1) =~= enter + seq![read_call(stream)]);
        assert(Seq::<Call>::empty() + seq![read_call(stream)] =~= seq![read_call(stream)]);
    } else {
        let before = replies.drop_last();
        lemma_fill_run(inner, stream, before);
        assert(chunks(before) + Seq::<u8>::empty() =~= chunks(before));
        assert(enter + reads(stream, 0) =~= enter);
        assert(reads(stream, count) + seq![read_call(stream)] =~= reads(stream, count + 1));
        assert((enter + reads(stream, count)) + seq![read_call(stream)] =~= enter + reads(
            stream,
            count + 1,
        ));
        assert(enter + reads(stream, count) + Seq::<Call>::empty() =~= enter + reads(
            stream,
            count,
        ));
        assert(calls + Seq::<Call>::empty() =~= calls);
        assert(enter + seq![read_call(stream)] =~= enter + reads(stream, 1));
        assert((enter + reads(stream, count) + leave) + Seq::<Call>::empty() =~= enter + reads(
            stream,
            count,
        ) + leave);
    }
}

/// However reading everything ends, the channel is made blocking again if and only if it was made
/// non-blocking, and in between it is only read.
pub proof fn law_channel_left_blocking(inner: ProcessInner, stream: Stream, replies: Seq<Reply>)
    requires
        fill_answers(inner, stream, replies),
        fill_start(inner, stream) is Call,
        fill_run(inner, stream, replies) is Return,
    ensures
        fill_calls(inner, stream, replies) == optional(inner.blocking_call(stream, false)) + reads(
            stream,
            read_count(replies),
        ) + optional(inner.blocking_call(stream, true)),
{
    lemma_fill_run(inner, stream, replies);
}

/// Reading everything returns exactly the data that came, in the order in which it came.
pub proof fn law_everything_read_is_returned(
    inner: ProcessInner,
    stream: Stream,
    replies: Seq<Reply>,
)
    requires
        fill_answers(inner, stream, replies),
    ensures
        fill_run(inner, stream, replies) matches Step::Return(Ok(data)) ==> data == chunks(replies),
{
    lemma_fill_run(inner, stream, replies);
}

/// Everything that is available is read: a read that gives data is followed by another, until the
/// end of file, until a read would block, or until it fails for good.
pub proof fn law_reading_goes_on_while_data_comes(
    inner: ProcessInner,
    stream: Stream,
    replies: Seq<Reply>,
    chunk: Vec<u8>,
)
    requires
        fill_answers(inner, stream, replies.push(Reply::Data(chunk))),
        chunk@.len() > 0,
    ensures
        fill_run(inner, stream, replies.push(Reply::Data(chunk))) matches Step::Call(call, _)
            && call == read_call(stream),
{
    let more = replies.push(Reply::Data(chunk));
    assert(more.drop_last() =~= replies);
    assert(more.last() == Reply::Data(chunk));
    lemma_fill_run(inner, stream, replies);
}

/// Reading everything fails only where no data came: data is never taken away by a failure.
pub proof fn law_failure_takes_no_data_away(
    inner: ProcessInner,
    stream: Stream,
    replies: Seq<Reply>,
)
    requires
        fill_answers(inner, stream, replies),
    ensures
        match fill_run(inner, stream, replies) {
            Step::Return(Err(_)) => chunks(replies) == Seq::<u8>::empty(),
            Step::Call(_, fill) => {
                fill.phase matches FillPhaseView::Leave(Err(_)) ==> chunks(replies) == Seq::<
                    u8,
                >::empty()
            },
            _ => true,
        },
    decreases replies.len(),
{
    if replies.len() > 0 {
        let before = replies.drop_last();
        lemma_fill_run(inner, stream, before);
        law_failure_takes_no_data_away(inner, stream, before);
        assert(chunks(before) + Seq::<u8>::empty() =~= chunks(before));
        if let Reply::Data(chunk) = replies.last() {
            if chunk@.len() == 0 {
                assert(chunks(replies) =~= chunks(before));
            }
        }
        match fill_run(inner, stream, before) {
            Step::Call(_, fill) => match fill.phase {
                FillPhaseView::Reading(data) => {
                    if data.len() == 0 {
                        assert(data =~= Seq::<u8>::empty());
                    }
                },
                _ => {},
            },
            Step::Return(_) => {},
        }
    }
}

/// The last of these replies that answers a read, if there is one.
pub open spec fn last_read(replies: Seq<Reply>) -> Option<Reply>
    decreases replies.len(),
{
    if replies.len() == 0 {
        None
    } else if replies.last() is Done {
        last_read(replies.drop_last())
    } else {
        Some(replies.last())
    }
}

/// The failure that reading everything ends with, where it does: only where no data came. A
/// standard output that cannot be read has been closed, and a channel that ends is a broken pipe.
/// To would block is no failure.
pub open spec fn read_failure(inner: ProcessInner, stream: Stream, replies: Seq<Reply>) -> Option<
    IoError,
> {
    let ended = IoError { kind: ErrorKind::BrokenPipe, report: None };
    if chunks(replies).len() > 0 {
        None
    } else {
        match last_read(replies) {
            None => if inner is Local && stream == Stream::Stdout {
                Some(ended)
            } else {
                None
            },
            Some(Reply::Failed(error)) => if error.kind == ErrorKind::WouldBlock {
                None
            } else {
                Some(error)
            },
            Some(_) => Some(ended),
        }
    }
}

/// Whether a failure is an end of file.
pub open spec fn is_end_of_file(error: IoError) -> bool {
    error.kind == ErrorKind::BrokenPipe || error.kind == ErrorKind::UnexpectedEof
}

/// Reading everything reads until the channel ends, would block or fails, and no further. It gives
/// the data that came, or, where none came, the end or the failure. A channel that is not there is
/// not read: a closed standard output is at its end, and a forwarded standard error output has
/// nothing to offer. Any answer to a call is taken.
pub proof fn law_what_reading_everything_gives(
    inner: ProcessInner,
    stream: Stream,
    replies: Seq<Reply>,
)
    requires
        fill_answers(inner, stream, replies),
    ensures
        ({
            let more = match last_read(replies) {
                Some(Reply::Data(chunk)) => chunk@.len() > 0,
                None => true,
                _ => false,
            };
            match fill_run(inner, stream, replies) {
                Step::Return(outcome) => {
                    &&& last_read(replies) is Some ==> !more
                    &&& last_read(replies) is None ==> {
                        &&& replies.len() == 0
                        &&& inner matches ProcessInner::Local { stdout, stderr, .. } && !(
                        if stream == Stream::Stdout {
                            stdout
                        } else {
                            stderr
                        })
                    }
                    &&& outcome == match read_failure(inner, stream, replies) {
                        Some(error) => Err(ErrorView::Io(error)),
                        None => Ok(chunks(replies)),
                    }
                },
                Step::Call(call, fill) => {
                    &&& call is Read ==> more
                    &&& last_read(replies) is Some && more ==> call is Read
                    // One call comes before the first read at most, and one behind the last.
                    &&& last_read(replies) is None ==> replies.len() == 0 || replies.len() == 1
                        && call is Read
                    &&& !more ==> !(replies.last() is Done)
                    &&& fill.stream == stream
                    &&& forall|reply: Reply|
                        #![trigger fill_accepts(fill, reply)]
                        fill_accepts(fill, reply) <==> match call {
                            Call::Read { .. } => match reply {
                                Reply::Data(chunk) => chunk@.len() <= 8192,
                                Reply::Failed(_) => true,
                                _ => false,
                            },
                            _ => reply is Done,
                        }
                },
            }
        }),
{
    lemma_fill_course(inner, stream, replies);
}

/// What is known of the replies in a run after any of them.
proof fn lemma_fill_course(inner: ProcessInner, stream: Stream, replies: Seq<Reply>)
    requires
        fill_answers(inner, stream, replies),
    ensures
        ({
            let more = match last_read(replies) {
                Some(Reply::Data(chunk)) => chunk@.len() > 0,
                None => true,
                _ => false,
            };
            let gives = match read_failure(inner, stream, replies) {
                Some(error) => Err(ErrorView::Io(error)),
                None => Ok(chunks(replies)),
            };
            match fill_run(inner, stream, replies) {
                Step::Return(outcome) => {
                    &&& last_read(replies) is Some ==> !more
                    &&& last_read(replies) is None ==> {
                        &&& replies.len() == 0
                        &&& fill_start(inner, stream) is Return
                    }
                    &&& outcome == gives
                },
                Step::Call(call, fill) => {
                    &&& fill.stream == stream
                    &&& match fill.phase {
                        FillPhaseView::Enter => {
                            last_read(replies) is None && !(call is Read) && replies.len() == 0
                        },
                        FillPhaseView::Reading(data) => {
                            &&& call == read_call(stream)
                            &&& data == chunks(replies)
                            &&& more
                            &&& last_read(replies) is Some <==> data.len() > 0
                        },
                        FillPhaseView::Leave(outcome) => {
                            &&& !(call is Read)
                            &&& last_read(replies) is Some
                            &&& !more
                            &&& outcome == gives
                        },
                    }
                },
            }
        }),
    decreases replies.len(),
{
    if replies.len() > 0 {
        let before = replies.drop_last();
        lemma_fill_course(inner, stream, before);
        assert(chunks(before) + Seq::<u8>::empty() =~= chunks(before));
        if let Reply::Data(chunk) = replies.last() {
            if chunk@.len() == 0 {
                assert(chunks(replies) =~= chunks(before));
            }
        }
        if chunks(before).len() == 0 {
            assert(chunks(before) =~= Seq::<u8>::empty());
        }
    }
}

/// A pipe of a local process is made non-blocking, read, and made blocking again, whatever becomes
/// of its other channels. Its standard error output is read as it is. The session of a remote
/// process is entered, read, and left. A channel that is not there takes no call.
pub proof fn law_calls_of_reading_everything(
    inner: ProcessInner,
    stream: Stream,
    replies: Seq<Reply>,
)
    requires
        fill_answers(inner, stream, replies),
        fill_run(inner, stream, replies) is Return,
    ensures
        ({
            let reads = Seq::new(read_count(replies), |i: int| Call::Read { stream, room: 8192 });
            fill_calls(inner, stream, replies) == match (inner, stream) {
                (ProcessInner::Remote, _) => {
                    seq![Call::Session { blocking: false }] + reads + seq![
                        Call::Session { blocking: true },
                    ]
                },
                (ProcessInner::Local { stdout, .. }, Stream::Stdout) => if stdout {
                    seq![Call::Descriptor { stream, blocking: false }] + reads + seq![
                        Call::Descriptor { stream, blocking: true },
                    ]
                } else {
                    Seq::empty()
                },
                (ProcessInner::Local { stderr, .. }, Stream::Stderr) => if stderr {
                    reads
                } else {
                    Seq::empty()
                },
            }
        }),
{
    lemma_fill_run(inner, stream, replies);
    let count = read_count(replies);
    assert(reads(stream, count) =~= Seq::new(
        count,
        |i: int| Call::Read { stream, room: 8192 },
    ));
    assert(Seq::<Call>::empty() + reads(stream, count) + Seq::<Call>::empty() =~= reads(
        stream,
        count,
    ));
}

/// Where receiving a line stands after these replies.
pub open spec fn line_run(process: ProcessView, stream: Stream, replies: Seq<Reply>) -> (
    ProcessView,
    LineStep,
)
    decreases replies.len(),
{
    if replies.len() == 0 {
        line_start(process, stream)
    } else {
        match line_run(process, stream, replies.drop_last()) {
            (before, Step::Call(_, fill)) => line_next(before, fill, replies.last()),
            done => done,
        }
    }
}

/// Whether each of these replies answers the call that is made when it comes. A line that has been
/// read before takes none.
pub open spec fn line_answers(process: ProcessView, stream: Stream, replies: Seq<Reply>) -> bool {
    if process.buffer(stream).contains(NEWLINE) {
        replies.len() == 0
    } else {
        fill_answers(process.inner, stream, replies)
    }
}

proof fn lemma_line_run(process: ProcessView, stream: Stream, replies: Seq<Reply>)
    requires
        !process.buffer(stream).contains(NEWLINE),
        fill_answers(process.inner, stream, replies),
    ensures
        line_run(process, stream, replies) == line_step(
            process,
            stream,
            fill_run(process.inner, stream, replies),
        ),
    decreases replies.len(),
{
    if replies.len() > 0 {
        let before = replies.drop_last();
        lemma_line_run(process, stream, before);
        lemma_fill_run(process.inner, stream, before);
    }
}

/// Receiving a line loses nothing. What had been read before and what comes are, in order, the
/// line with its newline and what is kept for later. Without a line, and with a failure, all of it
/// is kept. At the end of file the last line may come without a newline, and nothing remains. The
/// other channel is never touched.
pub proof fn law_receiving_a_line_loses_nothing(
    process: ProcessView,
    stream: Stream,
    replies: Seq<Reply>,
)
    requires
        line_answers(process, stream, replies),
    ensures
        ({
            let data = process.buffer(stream) + chunks(replies);
            let (end, step) = line_run(process, stream, replies);
            let kept = end.buffer(stream);
            &&& end == process.with_buffer(stream, kept)
            &&& match step {
                Step::Call(..) => end == process,
                Step::Return(Ok(None)) => kept == data && !data.contains(NEWLINE),
                Step::Return(Ok(Some(line))) => {
                    ||| encode_utf8(line).push(NEWLINE) + kept == data
                    ||| encode_utf8(line) == data && kept == Seq::<u8>::empty() && data.len() > 0
                },
                Step::Return(Err(ErrorView::Utf8(bytes))) => {
                    ||| bytes.push(NEWLINE) + kept == data
                    ||| bytes == data && kept == Seq::<u8>::empty()
                },
                Step::Return(Err(_)) => kept == data,
            }
        }),
{
    let buffer = process.buffer(stream);
    let data = buffer + chunks(replies);
    assert(process == process.with_buffer(stream, buffer));
    if buffer.contains(NEWLINE) {
        assert(data =~= buffer);
        law_line_and_rest_are_the_data(buffer);
        if vstd::utf8::valid_utf8(line_bytes(buffer)) {
            decode_utf8_encode_utf8(line_bytes(buffer));
        }
    } else {
        lemma_line_run(process, stream, replies);
        lemma_fill_run(process.inner, stream, replies);
        law_failure_takes_no_data_away(process.inner, stream, replies);
        match fill_run(process.inner, stream, replies) {
            Step::Return(Ok(chunk)) => {
                assert(buffer + chunk == data);
                if data.contains(NEWLINE) {
                    law_line_and_rest_are_the_data(data);
                    if vstd::utf8::valid_utf8(line_bytes(data)) {
                        decode_utf8_encode_utf8(line_bytes(data));
                    }
                }
            },
            Step::Return(Err(error)) => {
                assert(data =~= buffer);
                assert(!(error is Utf8)) by {
                    lemma_fill_error(process.inner, stream, replies);
                }
                if vstd::utf8::valid_utf8(buffer) {
                    decode_utf8_encode_utf8(buffer);
                }
            },
            Step::Call(..) => {},
        }
    }
}

/// What receiving a line gives, of what had been read before and what came.
///
/// Where there is a newline, the line is what stands before the first one, and what is kept is all
/// that stands behind it. Where there is none, the end of file makes a line of all data, if there is
/// any. Otherwise all data is kept, and there is no line yet, or the failure is reported. So data
/// without a newline on a channel that would block is never a line. A line that is not UTF-8 is
/// reported with its bytes, and is consumed like any other.
pub proof fn law_what_receiving_a_line_gives(
    process: ProcessView,
    stream: Stream,
    replies: Seq<Reply>,
)
    requires
        line_answers(process, stream, replies),
    ensures
        ({
            let data = process.buffer(stream) + chunks(replies);
            let (end, step) = line_run(process, stream, replies);
            let kept = end.buffer(stream);
            match step {
                Step::Call(call, fill) => {
                    &&& !process.buffer(stream).contains(NEWLINE)
                    &&& fill_run(process.inner, stream, replies) == FillStep::Call(call, fill)
                    &&& end == process
                },
                Step::Return(outcome) => {
                    &&& match stream {
                        Stream::Stdout => end.stderr == process.stderr,
                        Stream::Stderr => end.stdout == process.stdout,
                    }
                    &&& end.inner == process.inner && end.computer == process.computer
                    &&& process.buffer(stream).contains(NEWLINE) ==> replies.len() == 0
                    &&& !process.buffer(stream).contains(NEWLINE) ==> fill_run(
                        process.inner,
                        stream,
                        replies,
                    ) is Return
                    &&& if data.contains(NEWLINE) {
                        match outcome {
                            Ok(Some(line)) => {
                                &&& !encode_utf8(line).contains(NEWLINE)
                                &&& encode_utf8(line).push(NEWLINE) + kept == data
                            },
                            Err(ErrorView::Utf8(bytes)) => {
                                &&& !valid_utf8(bytes)
                                &&& !bytes.contains(NEWLINE)
                                &&& bytes.push(NEWLINE) + kept == data
                            },
                            _ => false,
                        }
                    } else {
                        match read_failure(process.inner, stream, replies) {
                            Some(error) => if is_end_of_file(error) && data.len() > 0 {
                                &&& kept.len() == 0
                                &&& match outcome {
                                    Ok(Some(line)) => encode_utf8(line) == data,
                                    Err(ErrorView::Utf8(bytes)) => {
                                        !valid_utf8(bytes) && bytes == data
                                    },
                                    _ => false,
                                }
                            } else {
                                kept == data && outcome == Err::<Option<Seq<char>>, ErrorView>(
                                    ErrorView::Io(error),
                                )
                            },
                            None => {
                                kept == data && outcome == Ok::<Option<Seq<char>>, ErrorView>(None)
                            },
                        }
                    }
                },
            }
        }),
{
    let buffer = process.buffer(stream);
    let data = buffer + chunks(replies);
    if buffer.contains(NEWLINE) {
        assert(data =~= buffer);
        law_line_and_rest_are_the_data(buffer);
        if valid_utf8(line_bytes(buffer)) {
            decode_utf8_encode_utf8(line_bytes(buffer));
        }
    } else {
        lemma_line_run(process, stream, replies);
        lemma_fill_course(process.inner, stream, replies);
        law_failure_takes_no_data_away(process.inner, stream, replies);
        if data.contains(NEWLINE) {
            law_line_and_rest_are_the_data(data);
            if valid_utf8(line_bytes(data)) {
                decode_utf8_encode_utf8(line_bytes(data));
            }
        }
        if valid_utf8(data) {
            decode_utf8_encode_utf8(data);
        }
        if chunks(replies).len() == 0 {
            assert(data =~= buffer);
        }
    }
}

/// The end of file ends a line too, unless that line would be empty: then it is reported.
pub proof fn law_end_of_file_ends_a_line(
    process: ProcessView,
    stream: Stream,
    replies: Seq<Reply>,
    error: ErrorView,
)
    requires
        line_answers(process, stream, replies),
        !process.buffer(stream).contains(NEWLINE),
        fill_run(process.inner, stream, replies) == FillStep::Return(Err(error)),
        error.eof(),
    ensures
        line_run(process, stream, replies) == (if process.buffer(stream).len() > 0 {
            (
                process.with_buffer(stream, Seq::empty()),
                LineStep::Return(some_text(process.buffer(stream))),
            )
        } else {
            (process, LineStep::Return(Err(error)))
        }),
{
    lemma_line_run(process, stream, replies);
}

/// Reading everything never fails over text.
proof fn lemma_fill_error(inner: ProcessInner, stream: Stream, replies: Seq<Reply>)
    requires
        fill_answers(inner, stream, replies),
    ensures
        match fill_run(inner, stream, replies) {
            Step::Return(Err(error)) => error is Io,
            Step::Call(_, fill) => {
                fill.phase matches FillPhaseView::Leave(Err(error)) ==> error is Io
            },
            _ => true,
        },
    decreases replies.len(),
{
    if replies.len() > 0 {
        lemma_fill_error(inner, stream, replies.drop_last());
    }
}

/// Reading everything from a standard output takes the same course wherever the process runs.
proof fn lemma_fill_alike(left: ProcessInner, right: ProcessInner, replies: Seq<Reply>)
    requires
        left.has_stdout(),
        right.has_stdout(),
    ensures
        fill_answers(left, Stream::Stdout, replies) == fill_answers(
            right,
            Stream::Stdout,
            replies,
        ),
        match (
            fill_run(left, Stream::Stdout, replies),
            fill_run(right, Stream::Stdout, replies),
        ) {
            (Step::Call(_, one), Step::Call(_, other)) => {
                one == other && one.stream == Stream::Stdout
            },
            (Step::Return(one), Step::Return(other)) => one == other,
            _ => false,
        },
    decreases replies.len(),
{
    if replies.len() > 0 {
        lemma_fill_alike(left, right, replies.drop_last());
    }
}

/// It does not matter where a process runs: the same data gives the same lines, whether it comes
/// from a pipe of this computer or over an SSH channel.
pub proof fn law_lines_are_received_alike(
    process: ProcessView,
    inner: ProcessInner,
    replies: Seq<Reply>,
)
    requires
        process.inner.has_stdout(),
        inner.has_stdout(),
        line_answers(process, Stream::Stdout, replies),
    ensures
        ({
            let elsewhere = ProcessView { inner, ..process };
            let (end, step) = line_run(process, Stream::Stdout, replies);
            let (other_end, other_step) = line_run(elsewhere, Stream::Stdout, replies);
            &&& line_answers(elsewhere, Stream::Stdout, replies)
            &&& other_end == ProcessView { inner, ..end }
            &&& match (step, other_step) {
                (Step::Call(_, one), Step::Call(_, other)) => one == other,
                (Step::Return(one), Step::Return(other)) => one == other,
                _ => false,
            }
        }),
{
    let elsewhere = ProcessView { inner, ..process };
    lemma_fill_alike(process.inner, inner, replies);
    if !process.stdout.contains(NEWLINE) {
        lemma_line_run(process, Stream::Stdout, replies);
        lemma_line_run(elsewhere, Stream::Stdout, replies);
    }
}

/// Where receiving an exact number of bytes stands after these replies.
pub open spec fn bytes_run(process: ProcessView, bytes: usize, replies: Seq<Reply>) -> (
    ProcessView,
    BytesStep,
)
    decreases replies.len(),
{
    if replies.len() == 0 {
        bytes_start(process, bytes)
    } else {
        match bytes_run(process, bytes, replies.drop_last()) {
            (before, Step::Call(_, (bytes, fill))) => {
                bytes_next(before, bytes, fill, replies.last())
            },
            done => done,
        }
    }
}

/// Whether each of these replies answers the call that is made when it comes. Bytes that have been
/// read before take none.
pub open spec fn bytes_answers(process: ProcessView, bytes: usize, replies: Seq<Reply>) -> bool {
    if process.stdout.len() >= bytes {
        replies.len() == 0
    } else {
        fill_answers(process.inner, Stream::Stdout, replies)
    }
}

proof fn lemma_bytes_run(process: ProcessView, bytes: usize, replies: Seq<Reply>)
    requires
        process.stdout.len() < bytes,
        fill_answers(process.inner, Stream::Stdout, replies),
    ensures
        bytes_run(process, bytes, replies) == bytes_step(
            process,
            bytes,
            fill_run(process.inner, Stream::Stdout, replies),
        ),
    decreases replies.len(),
{
    if replies.len() > 0 {
        lemma_bytes_run(process, bytes, replies.drop_last());
        lemma_fill_run(process.inner, Stream::Stdout, replies.drop_last());
    }
}

/// Receiving an exact number of bytes loses nothing. What had been read before and what comes are,
/// in order, the bytes and what is kept for later. As long as there are not so many, all of it is
/// kept. A failure comes only where no data did, and changes nothing.
pub proof fn law_receiving_bytes_loses_nothing(
    process: ProcessView,
    bytes: usize,
    replies: Seq<Reply>,
)
    requires
        bytes_answers(process, bytes, replies),
    ensures
        ({
            let data = process.stdout + chunks(replies);
            let (end, step) = bytes_run(process, bytes, replies);
            &&& end == process.with_buffer(Stream::Stdout, end.stdout)
            &&& match step {
                Step::Call(..) => end == process,
                Step::Return(Ok(Some(taken))) => taken.len() == bytes && taken + end.stdout == data,
                Step::Return(Ok(None)) => data.len() < bytes && end.stdout == data,
                Step::Return(Err(_)) => end == process && end.stdout == data,
            }
        }),
{
    let data = process.stdout + chunks(replies);
    assert(process == process.with_buffer(Stream::Stdout, process.stdout));
    if process.stdout.len() >= bytes {
        assert(data =~= process.stdout);
        assert(data.take(bytes as int) + data.skip(bytes as int) =~= data);
    } else {
        lemma_bytes_run(process, bytes, replies);
        lemma_fill_run(process.inner, Stream::Stdout, replies);
        law_failure_takes_no_data_away(process.inner, Stream::Stdout, replies);
        assert(process.stdout + Seq::<u8>::empty() =~= process.stdout);
        if data.len() >= bytes {
            assert(data.take(bytes as int) + data.skip(bytes as int) =~= data);
        }
    }
}

/// What receiving an exact number of bytes gives, of what had been read before and what came: the
/// first so many bytes, as soon as there are so many, and nothing else is read then. Otherwise all
/// data is kept, and there are not so many yet, or the failure is reported.
pub proof fn law_what_receiving_bytes_gives(
    process: ProcessView,
    bytes: usize,
    replies: Seq<Reply>,
)
    requires
        bytes_answers(process, bytes, replies),
    ensures
        ({
            let data = process.stdout + chunks(replies);
            let (end, step) = bytes_run(process, bytes, replies);
            match step {
                Step::Call(call, (count, fill)) => {
                    &&& process.stdout.len() < bytes
                    &&& count == bytes
                    &&& fill_run(process.inner, Stream::Stdout, replies) == FillStep::Call(
                        call,
                        fill,
                    )
                    &&& end == process
                },
                Step::Return(outcome) => {
                    &&& end.stderr == process.stderr
                    &&& end.inner == process.inner && end.computer == process.computer
                    &&& process.stdout.len() >= bytes ==> replies.len() == 0
                    &&& process.stdout.len() < bytes ==> fill_run(
                        process.inner,
                        Stream::Stdout,
                        replies,
                    ) is Return
                    &&& if data.len() >= bytes {
                        &&& outcome == Ok::<Option<Seq<u8>>, ErrorView>(
                            Some(data.take(bytes as int)),
                        )
                        &&& end.stdout == data.skip(bytes as int)
                    } else {
                        &&& end.stdout == data
                        &&& outcome == match read_failure(
                            process.inner,
                            Stream::Stdout,
                            replies,
                        ) {
                            Some(error) => Err(ErrorView::Io(error)),
                            None => Ok(None::<Seq<u8>>),
                        }
                    }
                },
            }
        }),
{
    let data = process.stdout + chunks(replies);
    if process.stdout.len() >= bytes {
        assert(data =~= process.stdout);
    } else {
        lemma_bytes_run(process, bytes, replies);
        lemma_fill_course(process.inner, Stream::Stdout, replies);
        if chunks(replies).len() == 0 {
            assert(data =~= process.stdout);
        }
    }
}

/// Where collecting the standard error output stands after these replies.
pub open spec fn collect_run(process: ProcessView, replies: Seq<Reply>) -> (
    ProcessView,
    CollectStep,
)
    decreases replies.len(),
{
    if replies.len() == 0 {
        collect_step(process, fill_start(process.inner, Stream::Stderr))
    } else {
        match collect_run(process, replies.drop_last()) {
            (before, Step::Call(_, fill)) => {
                collect_step(before, fill_next(before.inner, fill, replies.last()))
            },
            done => done,
        }
    }
}

proof fn lemma_collect_run(process: ProcessView, replies: Seq<Reply>)
    requires
        fill_answers(process.inner, Stream::Stderr, replies),
    ensures
        collect_run(process, replies) == collect_step(
            process,
            fill_run(process.inner, Stream::Stderr, replies),
        ),
    decreases replies.len(),
{
    if replies.len() > 0 {
        lemma_collect_run(process, replies.drop_last());
    }
}

/// Collecting the standard error output returns all that had been read before and all that comes,
/// in order, and keeps nothing. A failure comes only where no data did, and changes nothing.
pub proof fn law_collecting_loses_nothing(process: ProcessView, replies: Seq<Reply>)
    requires
        fill_answers(process.inner, Stream::Stderr, replies),
    ensures
        ({
            let (end, step) = collect_run(process, replies);
            match step {
                Step::Return(Ok(collected)) => {
                    &&& collected == process.stderr + chunks(replies)
                    &&& end == process.with_buffer(Stream::Stderr, Seq::empty())
                },
                Step::Return(Err(_)) => {
                    end == process && end.stderr == process.stderr + chunks(replies)
                },
                Step::Call(..) => end == process,
            }
        }),
{
    lemma_collect_run(process, replies);
    lemma_fill_run(process.inner, Stream::Stderr, replies);
    law_failure_takes_no_data_away(process.inner, Stream::Stderr, replies);
    assert(process.stderr + Seq::<u8>::empty() =~= process.stderr);
}

/// What collecting the standard error output gives: all that had been read before and all that came,
/// of which nothing is kept. Only where there is nothing of either, or the failure is no end of
/// file, a failure is reported, and what had been read before is kept.
pub proof fn law_what_collecting_gives(process: ProcessView, replies: Seq<Reply>)
    requires
        fill_answers(process.inner, Stream::Stderr, replies),
    ensures
        ({
            let data = process.stderr + chunks(replies);
            let (end, step) = collect_run(process, replies);
            match step {
                Step::Call(call, fill) => {
                    &&& fill_run(process.inner, Stream::Stderr, replies) == FillStep::Call(
                        call,
                        fill,
                    )
                    &&& end == process
                },
                Step::Return(outcome) => {
                    &&& fill_run(process.inner, Stream::Stderr, replies) is Return
                    &&& end.stdout == process.stdout
                    &&& end.inner == process.inner && end.computer == process.computer
                    &&& match read_failure(process.inner, Stream::Stderr, replies) {
                        Some(error) if !is_end_of_file(error) || data.len() == 0 => {
                            &&& outcome == Err::<Seq<u8>, ErrorView>(ErrorView::Io(error))
                            &&& end.stderr == data
                        },
                        _ => {
                            &&& outcome == Ok::<Seq<u8>, ErrorView>(data)
                            &&& end.stderr.len() == 0
                        },
                    }
                },
            }
        }),
{
    let data = process.stderr + chunks(replies);
    lemma_collect_run(process, replies);
    lemma_fill_course(process.inner, Stream::Stderr, replies);
    if chunks(replies).len() == 0 {
        assert(data =~= process.stderr);
    }
}

} // verus!
