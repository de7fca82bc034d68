//! Laws of sending: what reaches the standard input of a process.

use crate::call::{Call, Part, Reply, Step};
use crate::error::{broken_pipe, write_zero, ErrorKind, ErrorView, IoError};
use crate::laws::lines::law_sent_line_reads_back;
use crate::line::{after_line, ends_line, first_line, line_payload, NEWLINE};
use crate::process::ProcessInner;
use crate::send::{send_next, send_start, SendPhase, SendStep, SendingView};
use vstd::prelude::*;
use vstd::utf8::encode_utf8;

verus! {

/// Where sending a message stands after these replies.
pub open spec fn send_run(
    inner: ProcessInner,
    message: Seq<u8>,
    newline: bool,
    replies: Seq<Reply>,
) -> SendStep
    decreases replies.len(),
{
    if replies.len() == 0 {
        send_start(inner, message, newline)
    } else {
        match send_run(inner, message, newline, replies.drop_last()) {
            Step::Call(_, state) => send_next(inner, state, replies.last()),
            Step::Return(outcome) => Step::Return(outcome),
        }
    }
}

/// Whether each of these replies answers the call that is made when it comes.
pub open spec fn send_answers(
    inner: ProcessInner,
    message: Seq<u8>,
    newline: bool,
    replies: Seq<Reply>,
) -> bool
    decreases replies.len(),
{
    replies.len() > 0 ==> {
        &&& send_answers(inner, message, newline, replies.drop_last())
        &&& match send_run(inner, message, newline, replies.drop_last()) {
            Step::Call(_, state) => state.call().accepted(replies.last()),
            Step::Return(_) => false,
        }
    }
}

/// What one reply says to be taken, when it answers the call of a step.
pub open spec fn accepted_bytes(step: SendStep, reply: Reply) -> Seq<u8> {
    match (step, reply) {
        (Step::Call(Call::Write { .. }, state), Reply::Written(count)) => state.rest().take(
            count as int,
        ),
        _ => Seq::empty(),
    }
}

/// The bytes that the channel has taken once these replies have come, in order.
pub open spec fn taken(
    inner: ProcessInner,
    message: Seq<u8>,
    newline: bool,
    replies: Seq<Reply>,
) -> Seq<u8>
    decreases replies.len(),
{
    if replies.len() == 0 {
        Seq::empty()
    } else {
        taken(inner, message, newline, replies.drop_last()) + accepted_bytes(
            send_run(inner, message, newline, replies.drop_last()),
            replies.last(),
        )
    }
}

/// The message, with a newline behind it where one is needed.
pub open spec fn payload(message: Seq<u8>, newline: bool) -> Seq<u8> {
    if newline {
        message.push(NEWLINE)
    } else {
        message
    }
}

/// What an operation in this state has had taken.
pub open spec fn reached(state: SendingView) -> Seq<u8> {
    match state.phase {
        SendPhase::Message => state.message.take(state.sent as int),
        SendPhase::Newline => state.message,
        SendPhase::Flush => payload(state.message, state.newline),
    }
}

/// What an operation has had taken grows by what a reply says, up to the whole.
proof fn lemma_send_step(inner: ProcessInner, state: SendingView, reply: Reply)
    requires
        state.valid(),
        state.phase == SendPhase::Newline ==> state.newline,
        state.call().accepted(reply),
    ensures
        ({
            let bytes = reached(state) + accepted_bytes(state.waiting(), reply);
            match send_next(inner, state, reply) {
                Step::Call(call, next) => {
                    &&& call == next.call()
                    &&& next.valid()
                    &&& next.message == state.message
                    &&& next.newline == state.newline
                    &&& next.phase == SendPhase::Newline ==> next.newline
                    &&& bytes == reached(next)
                },
                Step::Return(Ok(())) => {
                    &&& bytes == payload(state.message, state.newline)
                    &&& reply is Done
                    &&& state.call() == Call::Flush
                },
                Step::Return(Err(_)) => bytes == reached(state),
            }
        }),
{
    let message = state.message;
    let had = reached(state);
    assert(had + Seq::<u8>::empty() =~= had);
    if let Reply::Written(count) = reply {
        if state.phase == SendPhase::Message {
            let sent = state.sent + count;
            assert(message.take(state.sent as int) + message.skip(state.sent as int).take(
                count as int,
            ) =~= message.take(sent));
            assert(message.take(message.len() as int) =~= message);
        } else if count == 0 {
            assert(state.rest().take(0) =~= Seq::<u8>::empty());
        } else {
            assert(state.rest().take(count as int) =~= seq![NEWLINE]);
            assert(message + seq![NEWLINE] =~= message.push(NEWLINE));
        }
    }
}

/// What is known of a run after any replies.
proof fn lemma_send_run(
    inner: ProcessInner,
    message: Seq<u8>,
    newline: bool,
    replies: Seq<Reply>,
)
    requires
        message.len() <= usize::MAX,
        send_answers(inner, message, newline, replies),
    ensures
        ({
            let bytes = taken(inner, message, newline, replies);
            match send_run(inner, message, newline, replies) {
                Step::Call(call, state) => {
                    &&& call == state.call()
                    &&& state.valid()
                    &&& state.message == message
                    &&& state.newline == newline
                    &&& state.phase == SendPhase::Newline ==> newline
                    &&& bytes == reached(state)
                },
                Step::Return(Ok(())) => {
                    &&& bytes == payload(message, newline)
                    &&& replies.len() > 0
                    &&& replies.last() is Done
                    &&& send_run(inner, message, newline, replies.drop_last()) matches Step::Call(
                        call,
                        _,
                    ) && call == Call::Flush
                },
                Step::Return(Err(_)) => bytes.is_prefix_of(payload(message, newline)),
            }
        }),
    decreases replies.len(),
{
    if replies.len() == 0 {
        assert(message.take(0) =~= Seq::<u8>::empty());
        assert(message.len() == 0 ==> message =~= Seq::<u8>::empty());
    } else {
        let before = replies.drop_last();
        lemma_send_run(inner, message, newline, before);
        if let Step::Call(_, state) = send_run(inner, message, newline, before) {
            lemma_send_step(inner, state, replies.last());
            assert(reached(state).is_prefix_of(payload(message, newline)));
        }
    }
}

/// Each byte is sent once and in order: whatever parts of the message the channel takes at a time,
/// however often it is not ready, and wherever sending ends, what it has taken is a beginning of
/// the message with the newline where one is needed. Sending that succeeds has had all of it taken,
/// and has flushed it last.
pub proof fn law_each_byte_is_sent_once(
    inner: ProcessInner,
    message: Seq<u8>,
    newline: bool,
    replies: Seq<Reply>,
)
    requires
        message.len() <= usize::MAX,
        send_answers(inner, message, newline, replies),
    ensures
        taken(inner, message, newline, replies).is_prefix_of(payload(message, newline)),
        send_run(inner, message, newline, replies) == SendStep::Return(Ok(())) ==> {
            &&& taken(inner, message, newline, replies) == payload(message, newline)
            &&& send_run(inner, message, newline, replies.drop_last()) matches Step::Call(
                Call::Flush,
                _,
            )
        },
{
    lemma_send_run(inner, message, newline, replies);
    if let Step::Call(_, state) = send_run(inner, message, newline, replies) {
        assert(reached(state).is_prefix_of(payload(message, newline)));
    }
}

/// A remote channel that is not ready makes no difference: the operation lets other threads run and
/// then asks for what is left, as if it had not asked before.
pub proof fn law_not_ready_is_no_outcome(
    inner: ProcessInner,
    state: SendingView,
    blocked: Reply,
    yielded: Reply,
)
    requires
        inner is Remote,
        !state.paused,
        blocked matches Reply::Failed(error) && error.kind == ErrorKind::WouldBlock,
    ensures
        send_next(inner, state, blocked) matches Step::Call(Call::Yield, waiting) && send_next(
            inner,
            waiting,
            yielded,
        ) == state.waiting(),
{
}

/// A line that was sent with success, and that the process gives back as it got it, is received as
/// the message that was sent.
pub proof fn law_echoed_line_is_the_message(
    inner: ProcessInner,
    message: Seq<char>,
    replies: Seq<Reply>,
)
    requires
        encode_utf8(message).len() <= usize::MAX,
        send_answers(inner, encode_utf8(message), !ends_line(message), replies),
        send_run(inner, encode_utf8(message), !ends_line(message), replies) == SendStep::Return(
            Ok(()),
        ),
        !message.contains('\n'),
    ensures
        ({
            let echo = taken(inner, encode_utf8(message), !ends_line(message), replies);
            &&& echo == line_payload(message)
            &&& first_line(echo) == Ok::<Option<Seq<char>>, ErrorView>(Some(message))
            &&& after_line(echo) == Seq::<u8>::empty()
        }),
{
    lemma_send_run(inner, encode_utf8(message), !ends_line(message), replies);
    law_sent_line_reads_back(message, Seq::empty());
    assert(line_payload(message) + Seq::<u8>::empty() =~= line_payload(message));
}

/// A local channel that is not ready fails the operation. A remote one is asked again later. An
/// interrupted write is made again on either, and any other failure is the outcome.
pub proof fn law_only_remote_channels_are_retried(
    inner: ProcessInner,
    state: SendingView,
    reply: Reply,
)
    requires
        !state.paused,
        reply is Failed,
    ensures
        send_next(inner, state, reply) is Call <==> {
            ||| inner is Remote && reply->Failed_0.kind == ErrorKind::WouldBlock
            ||| state.phase != SendPhase::Flush && reply->Failed_0.kind == ErrorKind::Interrupted
        },
{
}

/// What sending asks for, and what comes of it, in terms of what the channel has taken.
///
/// As long as something of the message is left, that is what is written next, and then the newline
/// where one is needed, and then the flush. Behind a remote channel that was not ready, other
/// threads run first. Sending succeeds exactly where all was taken and the flush succeeded. It fails
/// at once where the input has been closed, where the channel takes nothing, and with any failure
/// but that of a remote channel that is not ready, and that of a write that was interrupted.
pub proof fn law_what_sending_asks_and_gives(
    inner: ProcessInner,
    message: Seq<u8>,
    newline: bool,
    replies: Seq<Reply>,
)
    requires
        message.len() <= usize::MAX,
        send_answers(inner, message, newline, replies),
    ensures
        ({
            let had = taken(inner, message, newline, replies);
            let whole = if newline {
                message.push(NEWLINE)
            } else {
                message
            };
            let blocked = replies.len() > 0 && (replies.last() matches Reply::Failed(error)
                && error.kind == ErrorKind::WouldBlock);
            let closed = inner matches ProcessInner::Local { stdin, .. } && !stdin;
            &&& had.is_prefix_of(whole)
            &&& match send_run(inner, message, newline, replies) {
                Step::Call(call, state) => {
                    &&& state.call() == call && state.valid()
                    &&& !closed
                    &&& blocked ==> inner is Remote
                    &&& replies.len() > 0 ==> match replies.last() {
                        Reply::Failed(error) => {
                            error.kind == ErrorKind::WouldBlock || error.kind
                                == ErrorKind::Interrupted && had.len() < whole.len()
                        },
                        Reply::Written(count) => count > 0,
                        _ => true,
                    }
                    &&& if blocked {
                        call == Call::Yield
                    } else if had.len() < message.len() {
                        &&& call matches Call::Write { part: Part::Message, left } && left
                            == message.len() - had.len()
                        &&& state.rest() == message.skip(had.len() as int)
                    } else if had.len() < whole.len() {
                        &&& call == (Call::Write { part: Part::Newline, left: 1 })
                        &&& state.rest() == seq![NEWLINE]
                    } else {
                        call == Call::Flush
                    }
                },
                Step::Return(Ok(())) => {
                    &&& had == whole
                    &&& replies.len() > 0
                    &&& replies.last() is Done
                    &&& send_run(inner, message, newline, replies.drop_last()) matches Step::Call(
                        Call::Flush,
                        _,
                    )
                },
                Step::Return(Err(error)) => if replies.len() == 0 {
                    &&& closed
                    &&& error == ErrorView::Io(
                        IoError { kind: ErrorKind::BrokenPipe, report: None },
                    )
                } else {
                    match replies.last() {
                        Reply::Failed(failure) => {
                            &&& error == ErrorView::Io(failure)
                            &&& failure.kind == ErrorKind::WouldBlock ==> inner is Local
                            &&& failure.kind == ErrorKind::Interrupted ==> had == whole
                        },
                        Reply::Written(count) => {
                            &&& count == 0
                            &&& error == ErrorView::Io(
                                IoError { kind: ErrorKind::WriteZero, report: None },
                            )
                        },
                        _ => false,
                    }
                },
            }
        }),
{
    lemma_send_run(inner, message, newline, replies);
    lemma_send_course(inner, message, newline, replies);
    match send_run(inner, message, newline, replies) {
        Step::Call(_, state) => {
            lemma_rest_of_payload(state);
        },
        Step::Return(Ok(())) => {},
        Step::Return(Err(_)) => {
            lemma_send_failed(inner, message, newline, replies);
        },
    }
}

/// What has been taken and what is left to write, by what is being written.
proof fn lemma_rest_of_payload(state: SendingView)
    requires
        state.valid(),
        state.phase == SendPhase::Newline ==> state.newline,
    ensures
        reached(state).is_prefix_of(payload(state.message, state.newline)),
        match state.phase {
            SendPhase::Message => {
                &&& reached(state).len() == state.sent < state.message.len()
                &&& state.rest() == state.message.skip(state.sent as int)
            },
            SendPhase::Newline => {
                &&& reached(state).len() == state.message.len()
                &&& state.newline
                &&& state.sent == 0
                &&& state.rest() == seq![NEWLINE]
            },
            SendPhase::Flush => reached(state) == payload(state.message, state.newline),
        },
{
    assert(seq![NEWLINE].skip(0) =~= seq![NEWLINE]);
}

/// Sending fails with the last reply, or because the input has been closed.
proof fn lemma_send_failed(
    inner: ProcessInner,
    message: Seq<u8>,
    newline: bool,
    replies: Seq<Reply>,
)
    requires
        message.len() <= usize::MAX,
        send_answers(inner, message, newline, replies),
        send_run(inner, message, newline, replies) matches Step::Return(Err(_)),
    ensures
        ({
            let error = send_run(inner, message, newline, replies)->Return_0->Err_0;
            if replies.len() == 0 {
                !inner.has_stdin() && error == ErrorView::Io(broken_pipe())
            } else {
                match replies.last() {
                    Reply::Failed(failure) => {
                        &&& error == ErrorView::Io(failure)
                        &&& failure.kind == ErrorKind::WouldBlock ==> inner is Local
                        &&& failure.kind == ErrorKind::Interrupted ==> taken(
                            inner,
                            message,
                            newline,
                            replies,
                        ) == payload(message, newline)
                    },
                    Reply::Written(count) => count == 0 && error == ErrorView::Io(write_zero()),
                    _ => false,
                }
            }
        }),
{
    if replies.len() > 0 {
        let before = replies.drop_last();
        lemma_send_run(inner, message, newline, before);
        lemma_send_course(inner, message, newline, before);
        let had = taken(inner, message, newline, before);
        assert(had + Seq::<u8>::empty() =~= had);
    }
}

/// An operation that waits is paused exactly behind a channel that was not ready.
proof fn lemma_send_course(
    inner: ProcessInner,
    message: Seq<u8>,
    newline: bool,
    replies: Seq<Reply>,
)
    requires
        message.len() <= usize::MAX,
        send_answers(inner, message, newline, replies),
    ensures
        send_run(inner, message, newline, replies) matches Step::Call(call, state) ==> {
            &&& inner.has_stdin()
            &&& state.paused <==> replies.len() > 0 && (replies.last() matches Reply::Failed(error)
                && error.kind == ErrorKind::WouldBlock)
            &&& state.paused ==> inner is Remote
            &&& replies.len() > 0 ==> match replies.last() {
                Reply::Failed(error) => {
                    error.kind == ErrorKind::WouldBlock || error.kind == ErrorKind::Interrupted
                        && state.phase != SendPhase::Flush
                },
                Reply::Written(count) => count > 0,
                _ => true,
            }
        },
    decreases replies.len(),
{
    if replies.len() > 0 {
        lemma_send_course(inner, message, newline, replies.drop_last());
        lemma_send_run(inner, message, newline, replies.drop_last());
    }
}

/// The bytes of a line that is sent are those of the message, and one newline behind them exactly
/// where the message does not end with one.
pub proof fn law_what_a_line_consists_of(message: Seq<char>)
    ensures
        line_payload(message) == if message.len() > 0 && message.last() == '\n' {
            encode_utf8(message)
        } else {
            encode_utf8(message).push(NEWLINE)
        },
        ends_line(message) <==> message.len() > 0 && message.last() == '\n',
{
}

} // verus!
