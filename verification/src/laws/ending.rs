//! Laws of the end of a process: what keeps it alive, and how its session is guarded.

use crate::call::{Call, Reply, Step, Stream};
use crate::error::{ErrorView, SshError};
use crate::life::{
    check_next, check_start, close_next, close_start, wait_next, wait_start, CheckStep, Checking,
    CloseStep, Closing, Guard, WaitStep, Waiting,
};
use crate::process::{ProcessInner, ProcessView};
use vstd::prelude::*;

verus! {

/// Where finding out whether a process is alive stands after these replies.
pub open spec fn check_run(process: ProcessView, replies: Seq<Reply>) -> (ProcessView, CheckStep)
    decreases replies.len(),
{
    if replies.len() == 0 {
        (process, check_start(process))
    } else {
        match check_run(process, replies.drop_last()) {
            (before, Step::Call(_, state)) => check_next(before, state, replies.last()),
            done => done,
        }
    }
}

/// Whether each of these replies answers the call that is made when it comes.
pub open spec fn check_answers(process: ProcessView, replies: Seq<Reply>) -> bool
    decreases replies.len(),
{
    replies.len() > 0 ==> {
        &&& check_answers(process, replies.drop_last())
        &&& match check_run(process, replies.drop_last()) {
            (_, Step::Call(_, state)) => state.as_call().accepted(replies.last()),
            _ => false,
        }
    }
}

/// Messages that have been read and not been collected keep a process alive, without any call.
pub proof fn law_unread_messages_keep_alive(process: ProcessView)
    requires
        process.unread(),
    ensures
        check_start(process) == CheckStep::Return(Ok(true)),
{
}

/// What is known of a run after any replies.
proof fn lemma_check_run(process: ProcessView, replies: Seq<Reply>)
    requires
        check_answers(process, replies),
    ensures
        ({
            let (end, step) = check_run(process, replies);
            let exited = replies.len() > 0 && (replies[0] matches Reply::Exited(Some(_)));
            match step {
                Step::Call(call, state) => {
                    &&& call == state.as_call()
                    &&& end.computer == process.computer
                    &&& end.inner == process.inner
                    &&& !process.unread()
                    &&& match state {
                        Checking::Status => {
                            process.inner is Local && end == process && replies.len() == 0
                        },
                        Checking::Remote => {
                            process.inner is Remote && end == process && replies.len() == 0
                        },
                        _ => process.inner is Local && exited,
                    }
                },
                Step::Return(Ok(false)) => {
                    &&& !end.unread()
                    &&& match process.inner {
                        ProcessInner::Local { .. } => {
                            exited && end == process.without_pipes()
                        },
                        ProcessInner::Remote => {
                            &&& end == process
                            &&& replies.len() == 1
                            &&& replies[0] == Reply::Flag(true)
                        },
                    }
                },
                _ => true,
            }
        }),
    decreases replies.len(),
{
    if replies.len() > 0 {
        let before = replies.drop_last();
        lemma_check_run(process, before);
        if before.len() > 0 {
            assert(before[0] == replies[0]);
        }
        match check_run(process, before) {
            (held, Step::Call(_, Checking::Dropping)) => {
                if !held.unread() {
                    assert(held.stdout =~= Seq::<u8>::empty());
                    assert(held.stderr =~= Seq::<u8>::empty());
                    assert(process.stdout =~= Seq::<u8>::empty());
                    assert(process.stderr =~= Seq::<u8>::empty());
                }
            },
            _ => {},
        }
    }
}

/// A process that is found not to be alive has ended, and has no unread messages. A local one has
/// exited, and its input and output are dropped.
pub proof fn law_dead_means_ended_and_read(process: ProcessView, replies: Seq<Reply>)
    requires
        check_answers(process, replies),
        check_run(process, replies).1 == CheckStep::Return(Ok(false)),
    ensures
        !check_run(process, replies).0.unread(),
        match process.inner {
            ProcessInner::Local { .. } => {
                &&& replies[0] matches Reply::Exited(Some(_))
                &&& check_run(process, replies).0 == process.without_pipes()
            },
            ProcessInner::Remote => replies == seq![Reply::Flag(true)],
        },
{
    lemma_check_run(process, replies);
    if process.inner is Remote {
        assert(replies =~= seq![Reply::Flag(true)]);
    }
}

/// What these replies have drained from a channel, in order.
pub open spec fn drained(process: ProcessView, replies: Seq<Reply>, stream: Stream) -> Seq<u8>
    decreases replies.len(),
{
    if replies.len() == 0 {
        Seq::empty()
    } else {
        drained(process, replies.drop_last(), stream) + match (
            check_run(process, replies.drop_last()).1,
            replies.last(),
        ) {
            (Step::Call(Call::ReadToEnd { stream: from }, _), Reply::Data(data)) if from
                == stream => data@,
            _ => Seq::empty(),
        }
    }
}

/// What an exited process had left in a channel is kept: for each of the two, what it holds in the
/// end is what it held before and what was drained from it.
pub proof fn law_final_messages_are_kept(process: ProcessView, replies: Seq<Reply>, stream: Stream)
    requires
        check_answers(process, replies),
    ensures
        check_run(process, replies).0.buffer(stream) == process.buffer(stream) + drained(
            process,
            replies,
            stream,
        ),
    decreases replies.len(),
{
    if replies.len() == 0 {
        assert(process.buffer(stream) + Seq::<u8>::empty() =~= process.buffer(stream));
    } else {
        let before = replies.drop_last();
        law_final_messages_are_kept(process, before, stream);
        lemma_check_run(process, before);
        let had = drained(process, before, stream);
        assert(had + Seq::<u8>::empty() =~= had);
        if let Reply::Data(data) = replies.last() {
            assert((process.buffer(stream) + had) + data@ =~= process.buffer(stream) + (had
                + data@));
        }
    }
}

/// Whether each of these replies is what a process that has ended gives: it has exited, its pipes
/// have nothing to offer, its output has ended, and nothing fails.
pub open spec fn ended(replies: Seq<Reply>) -> bool {
    forall|i: int|
        0 <= i < replies.len() ==> match #[trigger] replies[i] {
            Reply::Exited(status) => status is Some,
            Reply::Data(data) => data@.len() == 0,
            Reply::Flag(eof) => eof,
            Reply::Failed(_) => false,
            _ => true,
        }
}

/// How many calls it takes to find out that a process which was found dead still is.
pub open spec fn calls_when_dead(inner: ProcessInner) -> nat {
    match inner {
        ProcessInner::Local { stderr: true, .. } => 4,
        ProcessInner::Local { .. } => 2,
        ProcessInner::Remote => 1,
    }
}

/// What is known of asking a dead process again after any replies.
proof fn lemma_dead_run(process: ProcessView, replies: Seq<Reply>)
    requires
        !process.unread(),
        process.inner is Local ==> process == process.without_pipes(),
        check_answers(process, replies),
        ended(replies),
    ensures
        match check_run(process, replies) {
            (end, Step::Call(_, state)) => {
                &&& end == process
                &&& match state {
                    Checking::Status => process.inner is Local && replies.len() == 0,
                    Checking::Remote => process.inner is Remote && replies.len() == 0,
                    Checking::Blocking(stream) => {
                        &&& stream == Stream::Stderr
                        &&& calls_when_dead(process.inner) == 4
                        &&& replies.len() == 1
                    },
                    Checking::Draining(stream) => {
                        &&& stream == Stream::Stderr
                        &&& calls_when_dead(process.inner) == 4
                        &&& replies.len() == 2
                    },
                    Checking::Dropping => {
                        &&& process.inner is Local
                        &&& replies.len() == calls_when_dead(process.inner) - 1
                    },
                }
            },
            (end, Step::Return(outcome)) => {
                &&& end == process
                &&& outcome == Ok::<bool, ErrorView>(false)
                &&& replies.len() == calls_when_dead(process.inner)
            },
        },
    decreases replies.len(),
{
    if replies.len() > 0 {
        let before = replies.drop_last();
        assert forall|i: int| 0 <= i < before.len() implies match #[trigger] before[i] {
            Reply::Exited(status) => status is Some,
            Reply::Data(data) => data@.len() == 0,
            Reply::Flag(eof) => eof,
            Reply::Failed(_) => false,
            _ => true,
        } by {
            assert(before[i] == replies[i]);
        }
        lemma_dead_run(process, before);
        assert(replies[replies.len() - 1] == replies.last());
        if let Reply::Data(data) = replies.last() {
            assert(process.stderr + data@ =~= process.stderr);
        }
    }
}

/// A process that was found not to be alive stays so, wherever it runs. It can be waited for in
/// between, which changes nothing. Asked again, it gives what a process that has ended gives, and
/// the answer is the same after a fixed number of calls. It is left as it was, so this holds any
/// number of times.
pub proof fn law_dead_stays_dead(process: ProcessView, first: Seq<Reply>, again: Seq<Reply>)
    requires
        check_answers(process, first),
        check_run(process, first).1 == CheckStep::Return(Ok(false)),
        check_answers(check_run(process, first).0.without_stdin(), again),
        ended(again),
    ensures
        ({
            let dead = check_run(process, first).0;
            &&& dead.without_stdin() == dead
            &&& check_run(dead, again).0 == dead
            &&& match check_run(dead, again).1 {
                Step::Call(..) => again.len() < calls_when_dead(dead.inner),
                Step::Return(outcome) => {
                    &&& outcome == Ok::<bool, ErrorView>(false)
                    &&& again.len() == calls_when_dead(dead.inner)
                }
            }
        }),
{
    lemma_check_run(process, first);
    lemma_dead_run(check_run(process, first).0, again);
}

/// Waiting for a process is answered alike every time: the same replies give the same
/// outcome, whatever has been read of the process in between.
pub proof fn law_waiting_again_is_answered_alike(
    before: ProcessView,
    after: ProcessView,
    replies: Seq<Reply>,
)
    requires
        after.inner == before.without_stdin().inner,
    ensures
        wait_run(after.inner, replies) == wait_run(before.inner, replies),
    decreases replies.len(),
{
    if replies.len() > 0 {
        law_waiting_again_is_answered_alike(before, after, replies.drop_last());
    }
}

/// Where waiting for a process stands after these replies.
pub open spec fn wait_run(inner: ProcessInner, replies: Seq<Reply>) -> WaitStep
    decreases replies.len(),
{
    if replies.len() == 0 {
        wait_start(inner)
    } else {
        match wait_run(inner, replies.drop_last()) {
            Step::Call(_, state) => wait_next(state, replies.last()),
            Step::Return(outcome) => Step::Return(outcome),
        }
    }
}

/// Whether each of these replies answers the call that is made when it comes.
pub open spec fn wait_answers(inner: ProcessInner, replies: Seq<Reply>) -> bool
    decreases replies.len(),
{
    replies.len() > 0 ==> {
        &&& wait_answers(inner, replies.drop_last())
        &&& match wait_run(inner, replies.drop_last()) {
            Step::Call(_, state) => state.as_call().accepted(replies.last()),
            Step::Return(_) => false,
        }
    }
}

/// Whether the operation holds the lock on the count of its session when it waits in this state.
pub open spec fn guard_holds(guard: Guard) -> bool {
    guard is Unlock
}

/// Whether the operation holds the lock on the count of its session when it waits in this state.
pub open spec fn wait_holds(state: Waiting) -> bool {
    match state {
        Waiting::Child => false,
        Waiting::Guard(guard) => guard_holds(guard),
        _ => true,
    }
}

/// What a reply to a call does to the lock: locking takes it, and unlocking lets it go.
pub open spec fn lock_after(held: bool, call: Call) -> bool {
    match call {
        Call::LockSession => true,
        Call::UnlockSession => false,
        _ => held,
    }
}

/// Whether a call works on the SSH channel, and so needs a session that is and stays blocking.
pub open spec fn needs_guard(call: Call) -> bool {
    match call {
        Call::SendEof
        | Call::WaitEof
        | Call::CloseChannel
        | Call::WaitClose
        | Call::ExitSignal
        | Call::ExitStatus => true,
        _ => false,
    }
}

/// Waiting for a process works on the SSH channel only while it holds the lock on the count of the
/// session, never locks or unlocks out of turn, and has let the lock go however it ends.
pub proof fn law_waiting_guards_the_session(state: Waiting, reply: Reply)
    requires
        state.as_call().accepted(reply),
    ensures
        state.as_call() == Call::LockSession ==> !wait_holds(state),
        state.as_call() == Call::UnlockSession || needs_guard(state.as_call()) ==> wait_holds(state),
        match wait_next(state, reply) {
            Step::Call(call, next) => {
                &&& call == next.as_call()
                &&& wait_holds(next) == lock_after(wait_holds(state), state.as_call())
            },
            Step::Return(_) => !lock_after(wait_holds(state), state.as_call()),
        },
{
}

/// Whether the operation holds the lock on the count of its session when it waits in this state.
pub open spec fn close_holds(state: Closing) -> bool {
    match state {
        Closing::Pipes => false,
        Closing::Guard(guard) => guard_holds(guard),
        _ => true,
    }
}

/// Closing the channels of a process works on the SSH channel only while it holds the lock on the
/// count of the session, never locks or unlocks out of turn, and has let the lock go however it
/// ends.
pub proof fn law_closing_guards_the_session(process: ProcessView, state: Closing, reply: Reply)
    requires
        state.as_call().accepted(reply),
    ensures
        state.as_call() == Call::LockSession ==> !close_holds(state),
        state.as_call() == Call::UnlockSession || needs_guard(state.as_call()) ==> close_holds(
            state,
        ),
        match close_next(process, state, reply).1 {
            Step::Call(call, next) => {
                &&& call == next.as_call()
                &&& close_holds(next) == lock_after(close_holds(state), state.as_call())
            },
            Step::Return(_) => !lock_after(close_holds(state), state.as_call()),
        },
{
}

/// The session is locked for the channel only when nobody needs it non-blocking.
pub proof fn law_guard_waits_for_blocking_session(guard: Guard, reply: Reply)
    requires
        guard.as_call().accepted(reply),
    ensures
        guard.next(reply) is None <==> guard is Lock && reply == Reply::Count(0),
{
}

/// What is known of a run of waiting for a remote process after any replies.
proof fn lemma_wait_run(replies: Seq<Reply>)
    requires
        wait_answers(ProcessInner::Remote, replies),
    ensures
        ({
            let killed = replies.contains(Reply::Flag(true));
            let clean = replies.contains(Reply::Flag(false)) && replies.contains(Reply::Status(0));
            match wait_run(ProcessInner::Remote, replies) {
                Step::Call(_, Waiting::Child) => false,
                Step::Call(_, Waiting::Status) => {
                    !killed && replies.contains(Reply::Flag(false)) && !replies.contains(
                        Reply::Status(0),
                    )
                },
                Step::Call(_, Waiting::Release(Ok(success))) => success == (!killed && clean),
                Step::Call(_, Waiting::Release(Err(_))) => true,
                Step::Call(..) => {
                    !killed && !replies.contains(Reply::Flag(false)) && !replies.contains(
                        Reply::Status(0),
                    )
                },
                Step::Return(Ok(success)) => success == (!killed && clean),
                Step::Return(Err(error)) => error is Ssh,
            }
        }),
    decreases replies.len(),
{
    if replies.len() > 0 {
        let before = replies.drop_last();
        lemma_wait_run(before);
        lemma_contains_last(replies);
    }
}

/// Waiting for a remote process tells that it ended cleanly exactly where no signal killed it and
/// its exit status was zero.
pub proof fn law_clean_end_of_a_remote_process(replies: Seq<Reply>, success: bool)
    requires
        wait_answers(ProcessInner::Remote, replies),
        wait_run(ProcessInner::Remote, replies) == WaitStep::Return(Ok(success)),
    ensures
        success <==> {
            &&& !replies.contains(Reply::Flag(true))
            &&& replies.contains(Reply::Flag(false))
            &&& replies.contains(Reply::Status(0))
        },
{
    lemma_wait_run(replies);
}

/// Closing leaves a remote process's output open, and drops both pipes of a local one. It never
/// touches what has been read.
pub proof fn law_closing_keeps_unread_messages(process: ProcessView, state: Closing, reply: Reply)
    ensures
        ({
            let end = close_next(process, state, reply).0;
            &&& end.stdout == process.stdout
            &&& end.stderr == process.stderr
            &&& process.inner is Remote ==> end.inner.has_stdout()
            &&& process.inner is Local && state is Pipes ==> !end.inner.has_stdin()
                && !end.inner.has_stdout()
        }),
{
}

/// The calls that it takes to find out whether an exited process is alive, in order: it is asked for
/// its status, each channel that is in hand is made blocking and drained, and the pipes are dropped.
pub open spec fn exit_calls(stdout: bool, stderr: bool) -> Seq<Call> {
    let drain = |stream: Stream|
        seq![Call::Descriptor { stream, blocking: true }, Call::ReadToEnd { stream }];
    let out = if stdout {
        drain(Stream::Stdout)
    } else {
        Seq::empty()
    };
    let err = if stderr {
        drain(Stream::Stderr)
    } else {
        Seq::empty()
    };
    seq![Call::TryWait] + out + err + seq![Call::DropPipes]
}

/// Where in this order a state of asking an exited process stands.
spec fn exit_place(stdout: bool, stderr: bool, state: Checking) -> int {
    match state {
        Checking::Blocking(Stream::Stdout) => 1,
        Checking::Draining(Stream::Stdout) => 2,
        Checking::Blocking(Stream::Stderr) => if stdout {
            3
        } else {
            1
        },
        Checking::Draining(Stream::Stderr) => if stdout {
            4
        } else {
            2
        },
        Checking::Dropping => exit_calls(stdout, stderr).len() - 1,
        _ => 0,
    }
}

/// What is known of asking a local process of which nothing is unread.
proof fn lemma_check_local(
    process: ProcessView,
    replies: Seq<Reply>,
    stdin: bool,
    stdout: bool,
    stderr: bool,
)
    requires
        check_answers(process, replies),
        process.stdout.len() == 0 && process.stderr.len() == 0,
        process.inner == (ProcessInner::Local { stdin, stdout, stderr }),
    ensures
        ({
            let calls = exit_calls(stdout, stderr);
            let (end, step) = check_run(process, replies);
            &&& end.computer == process.computer
            &&& match step {
                Step::Call(call, state) => {
                    let place = exit_place(stdout, stderr, state);
                    &&& end.inner == process.inner
                    &&& call == state.as_call()
                    &&& replies.len() == place < calls.len()
                    &&& call == calls[place]
                    &&& replies.len() > 0 ==> (replies[0] matches Reply::Exited(Some(_)))
                    &&& match state {
                        Checking::Remote => false,
                        Checking::Blocking(Stream::Stdout)
                        | Checking::Draining(Stream::Stdout) => stdout,
                        Checking::Blocking(Stream::Stderr)
                        | Checking::Draining(Stream::Stderr) => stderr,
                        _ => true,
                    }
                },
                Step::Return(Ok(alive)) => {
                    &&& replies.len() > 0
                    &&& match replies[0] {
                        Reply::Exited(None) => alive && end == process && replies.len() == 1,
                        Reply::Exited(Some(_)) => {
                            &&& replies.len() == calls.len()
                            &&& alive <==> end.stdout.len() > 0 || end.stderr.len() > 0
                            &&& end.inner == (ProcessInner::Local {
                                stdin: false,
                                stdout: false,
                                stderr,
                            })
                        },
                        _ => false,
                    }
                },
                Step::Return(Err(error)) => {
                    &&& replies.len() > 0
                    &&& replies.last() matches Reply::Failed(failure) && error == ErrorView::Io(
                        failure,
                    )
                    &&& end.inner == process.inner
                },
            }
        }),
    decreases replies.len(),
{
    if replies.len() > 0 {
        let before = replies.drop_last();
        lemma_check_local(process, before, stdin, stdout, stderr);
        if before.len() > 0 {
            assert(before[0] == replies[0]);
        } else {
            assert(replies[0] == replies.last());
        }
    }
}

/// Whether a process is alive, from what it says.
///
/// Messages that have been read and not been collected keep it alive, without any call. A remote
/// process is alive until its output has ended. A local process is alive until it has exited. Then
/// each channel that is in hand, and no other, is drained and kept, whichever of them are open, and
/// the input and the output are dropped. It is alive after that exactly where something was drained.
/// Only a call that fails gives a failure.
pub proof fn law_what_tells_that_a_process_is_alive(process: ProcessView, replies: Seq<Reply>)
    requires
        check_answers(process, replies),
    ensures
        ({
            let (end, step) = check_run(process, replies);
            &&& end.computer == process.computer
            &&& step matches Step::Call(call, state) ==> state.as_call() == call
            &&& replies.len() > 0 && replies.last() is Failed ==> (step matches Step::Return(
                Err(_),
            ))
            &&& if process.stdout.len() > 0 || process.stderr.len() > 0 {
                &&& replies.len() == 0
                &&& end == process
                &&& step == CheckStep::Return(Ok(true))
            } else {
                match process.inner {
                    ProcessInner::Remote => {
                        &&& end == process
                        &&& if replies.len() == 0 {
                            step matches Step::Call(call, _) && call == Call::ChannelEof
                        } else {
                            &&& replies.len() == 1
                            &&& replies[0] matches Reply::Flag(ended) && step == CheckStep::Return(
                                Ok(!ended),
                            )
                        }
                    },
                    ProcessInner::Local { stdout, stderr, .. } => match step {
                        Step::Call(call, _) => {
                            &&& replies.len() < exit_calls(stdout, stderr).len()
                            &&& call == exit_calls(stdout, stderr)[replies.len() as int]
                            &&& replies.len() > 0 ==> (replies[0] matches Reply::Exited(Some(_)))
                            &&& end.inner == process.inner
                        },
                        Step::Return(Ok(alive)) => {
                            &&& replies.len() > 0
                            &&& match replies[0] {
                                Reply::Exited(None) => {
                                    alive && end == process && replies.len() == 1
                                },
                                Reply::Exited(Some(_)) => {
                                    &&& replies.len() == exit_calls(stdout, stderr).len()
                                    &&& alive <==> {
                                        ||| drained(process, replies, Stream::Stdout).len() > 0
                                        ||| drained(process, replies, Stream::Stderr).len() > 0
                                    }
                                    &&& end.stdout == drained(process, replies, Stream::Stdout)
                                    &&& end.stderr == drained(process, replies, Stream::Stderr)
                                    &&& end.inner == (ProcessInner::Local {
                                        stdin: false,
                                        stdout: false,
                                        stderr,
                                    })
                                },
                                _ => false,
                            }
                        },
                        Step::Return(Err(error)) => {
                            &&& replies.len() > 0
                            &&& replies.last() matches Reply::Failed(failure) && error
                                == ErrorView::Io(failure)
                            &&& end.inner == process.inner
                        },
                    },
                }
            }
        }),
{
    if process.stdout.len() > 0 || process.stderr.len() > 0 {
        lemma_check_unread(process, replies);
    } else {
        assert(process.stdout =~= Seq::<u8>::empty());
        assert(process.stderr =~= Seq::<u8>::empty());
        law_final_messages_are_kept(process, replies, Stream::Stdout);
        law_final_messages_are_kept(process, replies, Stream::Stderr);
        assert(process.stdout + drained(process, replies, Stream::Stdout) =~= drained(
            process,
            replies,
            Stream::Stdout,
        ));
        assert(process.stderr + drained(process, replies, Stream::Stderr) =~= drained(
            process,
            replies,
            Stream::Stderr,
        ));
        match process.inner {
            ProcessInner::Local { stdin, stdout, stderr } => {
                lemma_check_local(process, replies, stdin, stdout, stderr);
            },
            ProcessInner::Remote => {
                lemma_check_remote(process, replies);
            },
        }
    }
}

/// Unread messages answer at once.
proof fn lemma_check_unread(process: ProcessView, replies: Seq<Reply>)
    requires
        check_answers(process, replies),
        process.stdout.len() > 0 || process.stderr.len() > 0,
    ensures
        replies.len() == 0,
        check_run(process, replies) == (process, CheckStep::Return(Ok(true))),
    decreases replies.len(),
{
    if replies.len() > 0 {
        lemma_check_unread(process, replies.drop_last());
    }
}

/// A remote process is asked once.
proof fn lemma_check_remote(process: ProcessView, replies: Seq<Reply>)
    requires
        check_answers(process, replies),
        process.stdout.len() == 0 && process.stderr.len() == 0,
        process.inner is Remote,
    ensures
        if replies.len() == 0 {
            check_run(process, replies) == (process, Checking::Remote.waiting())
        } else {
            &&& replies.len() == 1
            &&& replies[0] matches Reply::Flag(ended) && check_run(process, replies) == (
                process,
                CheckStep::Return(Ok(!ended)),
            )
        },
    decreases replies.len(),
{
    if replies.len() > 0 {
        lemma_check_remote(process, replies.drop_last());
        assert(replies.len() == 1 ==> replies[0] == replies.last());
    }
}

/// A local process that has exited, with nothing unread and nothing left in its channels, is not
/// alive, whichever of its channels are open, closed or forwarded. All calls are made, and no more.
pub proof fn law_exited_and_empty_is_not_alive(
    process: ProcessView,
    replies: Seq<Reply>,
    stdin: bool,
    stdout: bool,
    stderr: bool,
)
    requires
        process.stdout.len() == 0 && process.stderr.len() == 0,
        process.inner == (ProcessInner::Local { stdin, stdout, stderr }),
        check_answers(process, replies),
        ended(replies),
    ensures
        match check_run(process, replies).1 {
            Step::Call(..) => replies.len() < exit_calls(stdout, stderr).len(),
            Step::Return(outcome) => {
                &&& outcome == Ok::<bool, ErrorView>(false)
                &&& replies.len() == exit_calls(stdout, stderr).len()
            },
        },
{
    law_what_tells_that_a_process_is_alive(process, replies);
    lemma_nothing_drained(process, replies, Stream::Stdout);
    lemma_nothing_drained(process, replies, Stream::Stderr);
    if replies.len() > 0 {
        assert(replies[replies.len() - 1] == replies.last());
        assert(replies[0] is Exited ==> (replies[0] matches Reply::Exited(Some(_))));
    }
}

/// Channels that have nothing to offer give nothing.
proof fn lemma_nothing_drained(process: ProcessView, replies: Seq<Reply>, stream: Stream)
    requires
        ended(replies),
    ensures
        drained(process, replies, stream).len() == 0,
    decreases replies.len(),
{
    if replies.len() > 0 {
        let before = replies.drop_last();
        assert forall|i: int| 0 <= i < before.len() implies match #[trigger] before[i] {
            Reply::Exited(status) => status is Some,
            Reply::Data(data) => data@.len() == 0,
            Reply::Flag(eof) => eof,
            Reply::Failed(_) => false,
            _ => true,
        } by {
            assert(before[i] == replies[i]);
        }
        lemma_nothing_drained(process, before, stream);
        assert(replies[replies.len() - 1] == replies.last());
    }
}

/// Where closing the channels of a process stands after these replies.
pub open spec fn close_run(process: ProcessView, replies: Seq<Reply>) -> (ProcessView, CloseStep)
    decreases replies.len(),
{
    if replies.len() == 0 {
        (process, close_start(process.inner))
    } else {
        match close_run(process, replies.drop_last()) {
            (before, Step::Call(_, state)) => close_next(before, state, replies.last()),
            done => done,
        }
    }
}

/// Whether each of these replies answers the call that is made when it comes.
pub open spec fn close_answers(process: ProcessView, replies: Seq<Reply>) -> bool
    decreases replies.len(),
{
    replies.len() > 0 ==> {
        &&& close_answers(process, replies.drop_last())
        &&& match close_run(process, replies.drop_last()) {
            (_, Step::Call(call, _)) => call.accepted(replies.last()),
            _ => false,
        }
    }
}

/// The calls that closing has made once these replies have come, in order, with the one that it
/// waits for.
pub open spec fn close_calls(process: ProcessView, replies: Seq<Reply>) -> Seq<Call>
    decreases replies.len(),
{
    let made = if replies.len() == 0 {
        Seq::empty()
    } else {
        close_calls(process, replies.drop_last())
    };
    match close_run(process, replies).1 {
        Step::Call(call, _) => made.push(call),
        Step::Return(_) => made,
    }
}

/// The calls that waiting has made once these replies have come, in order, with the one that it
/// waits for.
pub open spec fn wait_calls(inner: ProcessInner, replies: Seq<Reply>) -> Seq<Call>
    decreases replies.len(),
{
    let made = if replies.len() == 0 {
        Seq::empty()
    } else {
        wait_calls(inner, replies.drop_last())
    };
    match wait_run(inner, replies) {
        Step::Call(call, _) => made.push(call),
        Step::Return(_) => made,
    }
}

/// How often these replies found that somebody needs the session non-blocking.
pub open spec fn busy(replies: Seq<Reply>) -> nat
    decreases replies.len(),
{
    if replies.len() == 0 {
        0
    } else {
        busy(replies.drop_last()) + match replies.last() {
            Reply::Count(count) => if count > 0 {
                1nat
            } else {
                0nat
            },
            _ => 0nat,
        }
    }
}

/// So many attempts to have the session to oneself: the count is locked, found in use, and unlocked,
/// and other threads run.
pub open spec fn attempts(count: nat) -> Seq<Call>
    decreases count,
{
    if count == 0 {
        Seq::empty()
    } else {
        attempts((count - 1) as nat) + seq![Call::LockSession, Call::UnlockSession, Call::Yield]
    }
}

/// What is known of closing a remote process after any replies.
proof fn lemma_close_remote(process: ProcessView, replies: Seq<Reply>)
    requires
        process.inner is Remote,
        close_answers(process, replies),
    ensures
        ({
            let calls = close_calls(process, replies);
            let tries = attempts(busy(replies));
            let failed = ssh_failed(replies);
            &&& close_run(process, replies).0 == process
            &&& match close_run(process, replies).1 {
                Step::Call(call, state) => {
                    &&& call == state.as_call()
                    &&& match state {
                        Closing::Pipes => false,
                        Closing::Guard(Guard::Lock) => calls == tries + seq![Call::LockSession],
                        Closing::Guard(Guard::Unlock) => {
                            &&& busy(replies) > 0
                            &&& calls == attempts((busy(replies) - 1) as nat) + seq![
                                Call::LockSession,
                                Call::UnlockSession,
                            ]
                        },
                        Closing::Guard(Guard::Yield) => busy(replies) > 0 && calls == tries,
                        Closing::SendEof => {
                            calls == tries + seq![Call::LockSession, Call::SendEof]
                        },
                        Closing::Release(outcome) => {
                            &&& calls == tries + seq![
                                Call::LockSession,
                                Call::SendEof,
                                Call::UnlockSession,
                            ]
                            &&& match outcome {
                                Ok(()) => !failed,
                                Err(error) => replies.last() == Reply::SshFailed(error),
                            }
                        },
                    }
                    &&& !(state is Release) ==> !failed
                },
                Step::Return(outcome) => {
                    &&& calls == tries + seq![
                        Call::LockSession,
                        Call::SendEof,
                        Call::UnlockSession,
                    ]
                    &&& match outcome {
                        Ok(()) => !failed,
                        Err(error) => {
                            &&& replies.len() > 1
                            &&& replies[replies.len() - 2] matches Reply::SshFailed(failure)
                                && error == ErrorView::Ssh(failure)
                        },
                    }
                },
            }
        }),
    decreases replies.len(),
{
    if replies.len() == 0 {
        assert(close_calls(process, replies) =~= attempts(0) + seq![Call::LockSession]);
    } else {
        let before = replies.drop_last();
        lemma_close_remote(process, before);
        lemma_contains_last(replies);
        let calls = close_calls(process, replies);
        let had = close_calls(process, before);
        let tries = attempts(busy(replies));
        match close_run(process, before).1 {
            Step::Call(_, Closing::Guard(Guard::Lock)) => {
                assert(calls =~= attempts(busy(before)) + seq![
                    Call::LockSession,
                    Call::UnlockSession,
                ] || calls =~= tries + seq![Call::LockSession, Call::SendEof]);
            },
            Step::Call(_, Closing::Guard(Guard::Unlock)) => {
                assert(calls =~= tries);
            },
            Step::Call(_, Closing::Guard(Guard::Yield)) => {
                assert(calls =~= tries + seq![Call::LockSession]);
            },
            Step::Call(_, Closing::SendEof) => {
                assert(calls =~= tries + seq![
                    Call::LockSession,
                    Call::SendEof,
                    Call::UnlockSession,
                ]);
            },
            _ => {},
        }
    }
}

/// What these replies hold, one reply after another.
proof fn lemma_contains_last(replies: Seq<Reply>)
    requires
        replies.len() > 0,
    ensures
        forall|reply: Reply|
            #![trigger replies.contains(reply)]
            replies.contains(reply) <==> replies.drop_last().contains(reply) || replies.last()
                == reply,
{
    let before = replies.drop_last();
    assert forall|reply: Reply|
        #![trigger replies.contains(reply)]
        replies.contains(reply) <==> before.contains(reply) || replies.last() == reply by {
        assert(replies =~= before.push(replies.last()));
        if before.contains(reply) {
            let i = choose|i: int| 0 <= i < before.len() && before[i] == reply;
            assert(replies[i] == reply);
        }
        if replies.last() == reply {
            assert(replies[replies.len() - 1] == reply);
        }
        if replies.contains(reply) && replies.last() != reply {
            let i = choose|i: int| 0 <= i < replies.len() && replies[i] == reply;
            assert(before[i] == reply);
        }
    }
}

/// Whether a failure of the SSH session is among these replies.
pub open spec fn ssh_failed(replies: Seq<Reply>) -> bool {
    exists|error: SshError| replies.contains(Reply::SshFailed(error))
}

/// What closing the channels of a process asks for, and what it gives.
///
/// Of a local process the input and the output are dropped, and nothing else is done. A remote
/// session is first brought into blocking mode, however many attempts that takes. Then the process
/// is told that its input has ended, and the session is let go, whatever came of it. Closing fails
/// exactly where the process could not be told.
pub proof fn law_what_closing_asks_and_gives(process: ProcessView, replies: Seq<Reply>)
    requires
        close_answers(process, replies),
    ensures
        ({
            let (end, step) = close_run(process, replies);
            &&& end.computer == process.computer
            &&& end.stdout == process.stdout
            &&& end.stderr == process.stderr
            &&& step matches Step::Call(call, state) ==> state.as_call() == call
            &&& match process.inner {
                ProcessInner::Local { stderr, .. } => if replies.len() == 0 {
                    &&& end.inner == process.inner
                    &&& step matches Step::Call(call, _) && call == Call::DropPipes
                } else {
                    &&& replies.len() == 1
                    &&& end.inner == (ProcessInner::Local { stdin: false, stdout: false, stderr })
                    &&& step == CloseStep::Return(Ok(()))
                },
                ProcessInner::Remote => {
                    let calls = close_calls(process, replies);
                    let tries = attempts(busy(replies));
                    let all = tries + seq![Call::LockSession, Call::SendEof, Call::UnlockSession];
                    &&& end == process
                    &&& match step {
                        Step::Call(..) => {
                            ||| tries.len() < calls.len() <= all.len() && calls == all.take(
                                calls.len() as int,
                            )
                            ||| busy(replies) > 0 && calls == tries
                            ||| busy(replies) > 0 && calls == tries.drop_last()
                        },
                        Step::Return(Ok(())) => calls == all && !ssh_failed(replies),
                        Step::Return(Err(error)) => {
                            &&& calls == all
                            &&& replies.len() > 1
                            &&& replies[replies.len() - 2] matches Reply::SshFailed(failure)
                                && error == ErrorView::Ssh(failure)
                        },
                    }
                },
            }
        }),
{
    match process.inner {
        ProcessInner::Local { .. } => lemma_close_local(process, replies),
        ProcessInner::Remote => {
            lemma_close_remote(process, replies);
            let calls = close_calls(process, replies);
            let tries = attempts(busy(replies));
            let all = tries + seq![Call::LockSession, Call::SendEof, Call::UnlockSession];
            match close_run(process, replies).1 {
                Step::Call(_, Closing::Guard(Guard::Unlock)) => {
                    assert(calls =~= tries.drop_last());
                },
                Step::Call(_, Closing::Guard(Guard::Yield)) => {},
                _ => {
                    assert(calls =~= all.take(calls.len() as int));
                },
            }
        },
    }
}

/// Closing drops the pipes of a local process.
proof fn lemma_close_local(process: ProcessView, replies: Seq<Reply>)
    requires
        process.inner is Local,
        close_answers(process, replies),
    ensures
        if replies.len() == 0 {
            close_run(process, replies) == (process, Closing::Pipes.waiting())
        } else {
            &&& replies.len() == 1
            &&& close_run(process, replies) == (process.without_pipes(), CloseStep::Return(Ok(())))
        },
    decreases replies.len(),
{
    if replies.len() > 0 {
        lemma_close_local(process, replies.drop_last());
    }
}

/// The calls that waiting for a remote process makes once it has the session to itself, in order:
/// the input ends, the output has to end before the channel is closed on both sides, and then the
/// process is asked how it ended.
pub open spec fn wait_order() -> Seq<Call> {
    seq![
        Call::LockSession,
        Call::SendEof,
        Call::WaitEof,
        Call::CloseChannel,
        Call::WaitClose,
        Call::ExitSignal,
        Call::ExitStatus,
    ]
}

/// How many of these calls have been made when waiting stands in this state.
spec fn wait_place(state: Waiting) -> int {
    match state {
        Waiting::Guard(_) => 1,
        Waiting::SendEof => 2,
        Waiting::WaitEof => 3,
        Waiting::Close => 4,
        Waiting::WaitClose => 5,
        Waiting::Signal => 6,
        Waiting::Status => 7,
        _ => 0,
    }
}

/// Whether waiting can have made these calls and given this outcome: `reply` is the last reply
/// before the session was let go.
pub open spec fn wait_outcome(
    calls: Seq<Call>,
    tries: Seq<Call>,
    reply: Reply,
    outcome: Result<bool, SshError>,
) -> bool {
    exists|made: int|
        #![trigger wait_order().take(made)]
        {
            &&& 2 <= made <= 7
            &&& calls == tries + wait_order().take(made) + seq![Call::UnlockSession]
            &&& match (reply, outcome) {
                (Reply::SshFailed(failure), Err(error)) => error == failure,
                (Reply::Flag(killed), Ok(success)) => killed && !success && made == 6,
                (Reply::Status(status), Ok(success)) => success == (status == 0) && made == 7,
                _ => false,
            }
        }
}

/// What is known of waiting for a remote process after any replies.
#[verifier::spinoff_prover]
#[verifier::rlimit(60)]
proof fn lemma_wait_remote(replies: Seq<Reply>)
    requires
        wait_answers(ProcessInner::Remote, replies),
    ensures
        ({
            let calls = wait_calls(ProcessInner::Remote, replies);
            let tries = attempts(busy(replies));
            match wait_run(ProcessInner::Remote, replies) {
                Step::Call(call, state) => {
                    &&& call == state.as_call()
                    &&& match state {
                        Waiting::Child => false,
                        Waiting::Guard(Guard::Unlock) => {
                            &&& busy(replies) > 0
                            &&& calls == attempts((busy(replies) - 1) as nat) + seq![
                                Call::LockSession,
                                Call::UnlockSession,
                            ]
                        },
                        Waiting::Guard(Guard::Yield) => busy(replies) > 0 && calls == tries,
                        Waiting::Release(outcome) => {
                            &&& replies.len() > 0
                            &&& wait_outcome(calls, tries, replies.last(), outcome)
                        },
                        _ => calls == tries + wait_order().take(wait_place(state)),
                    }
                    &&& !(state is Release) ==> {
                        &&& !ssh_failed(replies)
                        &&& !replies.contains(Reply::Flag(true))
                    }
                },
                Step::Return(outcome) => {
                    &&& replies.len() > 1
                    &&& match outcome {
                        Ok(success) => wait_outcome(
                            calls,
                            tries,
                            replies[replies.len() - 2],
                            Ok(success),
                        ),
                        Err(ErrorView::Ssh(error)) => wait_outcome(
                            calls,
                            tries,
                            replies[replies.len() - 2],
                            Err(error),
                        ),
                        _ => false,
                    }
                },
            }
        }),
    decreases replies.len(),
{
    let inner = ProcessInner::Remote;
    if replies.len() == 0 {
        assert(wait_calls(inner, replies) =~= attempts(0) + wait_order().take(1));
    } else {
        let before = replies.drop_last();
        lemma_wait_remote(before);
        lemma_contains_last(replies);
        let calls = wait_calls(inner, replies);
        let tries = attempts(busy(replies));
        match wait_run(inner, before) {
            Step::Call(_, Waiting::Guard(Guard::Lock)) => {
                assert(calls =~= attempts(busy(before)) + seq![
                    Call::LockSession,
                    Call::UnlockSession,
                ] || calls =~= tries + wait_order().take(2));
            },
            Step::Call(_, Waiting::Guard(Guard::Unlock)) => {
                assert(calls =~= tries);
            },
            Step::Call(_, Waiting::Guard(Guard::Yield)) => {
                assert(calls =~= tries + wait_order().take(1));
            },
            Step::Call(_, Waiting::Release(_)) => {
                assert(before.last() == replies[replies.len() - 2]);
            },
            Step::Call(_, state) => {
                let place = wait_place(state);
                let had = wait_order().take(place);
                assert(place < 7 ==> had.push(wait_order()[place]) =~= wait_order().take(place + 1));
                assert(place < 7 ==> tries + had.push(wait_order()[place]) =~= (tries + had).push(
                    wait_order()[place],
                ));
                assert(tries + had + seq![Call::UnlockSession] =~= (tries + had).push(
                    Call::UnlockSession,
                ));
            },
            _ => {},
        }
    }
}

/// What waiting for a process asks for, and what it gives.
///
/// A local process is waited for with one call, and its answer is the outcome. A remote session is
/// first brought into blocking mode, however many attempts that takes. Then the calls are made in
/// their order, until one of them fails or it is known how the process ended, and the session is
/// let go. The process ended cleanly where no signal killed it and its exit status is zero.
pub proof fn law_what_waiting_asks_and_gives(inner: ProcessInner, replies: Seq<Reply>)
    requires
        wait_answers(inner, replies),
    ensures
        ({
            let step = wait_run(inner, replies);
            &&& step matches Step::Call(call, state) ==> state.as_call() == call
            &&& match inner {
                ProcessInner::Local { .. } => if replies.len() == 0 {
                    step matches Step::Call(call, _) && call == Call::Wait
                } else {
                    &&& replies.len() == 1
                    &&& match replies[0] {
                        Reply::Exited(Some(success)) => step == WaitStep::Return(Ok(success)),
                        Reply::Failed(error) => step == WaitStep::Return(
                            Err(ErrorView::Io(error)),
                        ),
                        _ => false,
                    }
                },
                ProcessInner::Remote => {
                    let calls = wait_calls(inner, replies);
                    let tries = attempts(busy(replies));
                    match step {
                        Step::Call(..) => {
                            ||| {
                                let made = calls.len() - tries.len();
                                &&& 1 <= made <= 7
                                &&& calls == tries + wait_order().take(made)
                                &&& !ssh_failed(replies)
                                &&& !replies.contains(Reply::Flag(true))
                            }
                            ||| busy(replies) > 0 && calls == tries
                            ||| busy(replies) > 0 && calls == tries.drop_last()
                            ||| exists|outcome: Result<bool, SshError>| #[trigger]
                                wait_outcome(calls, tries, replies.last(), outcome)
                        },
                        Step::Return(Ok(success)) => {
                            &&& replies.len() > 1
                            &&& wait_outcome(calls, tries, replies[replies.len() - 2], Ok(success))
                        },
                        Step::Return(Err(error)) => {
                            &&& replies.len() > 1
                            &&& error matches ErrorView::Ssh(failure) && wait_outcome(
                                calls,
                                tries,
                                replies[replies.len() - 2],
                                Err(failure),
                            )
                        },
                    }
                },
            }
        }),
{
    match inner {
        ProcessInner::Local { .. } => lemma_wait_local(inner, replies),
        ProcessInner::Remote => {
            lemma_wait_remote(replies);
            let calls = wait_calls(inner, replies);
            let tries = attempts(busy(replies));
            match wait_run(inner, replies) {
                Step::Call(_, Waiting::Guard(Guard::Unlock)) => {
                    assert(calls =~= tries.drop_last());
                },
                Step::Call(_, Waiting::Release(outcome)) => {
                    assert(wait_outcome(calls, tries, replies.last(), outcome));
                },
                _ => {},
            }
        },
    }
}

/// A local process is waited for with one call.
proof fn lemma_wait_local(inner: ProcessInner, replies: Seq<Reply>)
    requires
        inner is Local,
        wait_answers(inner, replies),
    ensures
        if replies.len() == 0 {
            wait_run(inner, replies) == Waiting::Child.waiting()
        } else {
            &&& replies.len() == 1
            &&& match replies[0] {
                Reply::Exited(Some(success)) => {
                    wait_run(inner, replies) == WaitStep::Return(Ok(success))
                },
                Reply::Failed(error) => {
                    wait_run(inner, replies) == WaitStep::Return(Err(ErrorView::Io(error)))
                },
                _ => false,
            }
        },
    decreases replies.len(),
{
    if replies.len() > 0 {
        lemma_wait_local(inner, replies.drop_last());
        assert(replies.len() == 1 ==> replies[0] == replies.last());
    }
}

} // verus!
