//! Laws of connecting and of spawning: what is asked of the system, in which order, and what comes
//! of it.

use crate::call::{Reply, Step};
use crate::computer::{Address, Computer, ConnectCall, ConnectStep};
use crate::error::ErrorView;
use crate::launch::{launch_next, launch_start, LaunchCallView, LaunchPhase, LaunchStep};
use crate::process::ProcessInner;
use crate::shell::{command_line, escaped, law_shell_reads_command_back, shell_words};
use vstd::prelude::*;

verus! {

/// Where connecting to a computer stands after these replies.
pub open spec fn connect_run<'a>(computer: &'a Computer, replies: Seq<Reply>) -> ConnectStep<'a>
    decreases replies.len(),
{
    if replies.len() == 0 {
        computer.connect_start()
    } else {
        match connect_run(computer, replies.drop_last()) {
            Step::Call(_, state) => computer.connect_next(state, replies.last()),
            Step::Return(outcome) => Step::Return(outcome),
        }
    }
}

/// Whether each of these replies answers the call that is made when it comes: with success, or with
/// the failure of the network for the first call, and of SSH for the others.
pub open spec fn connect_answers(computer: &Computer, replies: Seq<Reply>) -> bool
    decreases replies.len(),
{
    replies.len() > 0 ==> {
        &&& connect_answers(computer, replies.drop_last())
        &&& connect_run(computer, replies.drop_last()) is Call
        &&& if replies.len() == 1 {
            replies.last() is Done || replies.last() is Failed
        } else {
            replies.last() is Done || replies.last() is SshFailed
        }
    }
}

/// Whether all of these replies say that the call succeeded.
pub open spec fn all_done(replies: Seq<Reply>) -> bool {
    forall|i: int| 0 <= i < replies.len() ==> #[trigger] replies[i] is Done
}

/// Connecting opens a network connection to the address of the computer, sets up a session, shakes
/// hands, and logs in with the user of the computer: with its key file whenever it has one, whatever
/// the password is; with its password exactly where it has no key file and the password is not
/// empty; and otherwise not at all. It succeeds exactly where all of this did, and fails with the
/// first failure.
pub proof fn law_connecting(
    computer: &Computer,
    host: String,
    addr: Address,
    user: String,
    auth: String,
    key: String,
    replies: Seq<Reply>,
)
    requires
        *computer == (Computer::Remote { host, addr, user, auth, key }),
        connect_answers(computer, replies),
    ensures
        match connect_run(computer, replies) {
            Step::Call(call, state) => {
                &&& all_done(replies)
                &&& replies.len() <= 3
                &&& match call {
                    ConnectCall::Tcp(to) => replies.len() == 0 && *to == addr,
                    ConnectCall::Session => replies.len() == 1,
                    ConnectCall::Handshake => replies.len() == 2,
                    ConnectCall::PublicKey { user: u, key: k } => {
                        replies.len() == 3 && key@.len() > 0 && *u == user && *k == key
                    },
                    ConnectCall::Password { user: u, auth: a } => {
                        &&& replies.len() == 3
                        &&& key@.len() == 0 && auth@.len() > 0
                        &&& *u == user && *a == auth
                    },
                }
                // Every answer that the call can have is taken.
                &&& forall|reply: Reply|
                    #![trigger state.accepted(reply)]
                    state.accepted(reply) <==> if replies.len() == 0 {
                        reply is Done || reply is Failed
                    } else {
                        reply is Done || reply is SshFailed
                    }
            },
            Step::Return(Ok(())) => {
                &&& all_done(replies)
                &&& replies.len() == if key@.len() > 0 || auth@.len() > 0 {
                    4int
                } else {
                    3int
                }
            },
            Step::Return(Err(error)) => {
                &&& replies.len() > 0
                &&& all_done(replies.drop_last())
                &&& match replies.last() {
                    Reply::Failed(failure) => replies.len() == 1 && error == ErrorView::Io(failure),
                    Reply::SshFailed(failure) => error == ErrorView::Ssh(failure),
                    _ => false,
                }
            },
        },
    decreases replies.len(),
{
    if replies.len() > 0 {
        let before = replies.drop_last();
        law_connecting(computer, host, addr, user, auth, key, before);
        assert(replies.last() is Done ==> all_done(replies)) by {
            assert forall|i: int| 0 <= i < replies.len() && replies.last() is Done
                && all_done(before) implies #[trigger] replies[i] is Done by {
                if i < before.len() {
                    assert(before[i] == replies[i]);
                }
            }
        }
    }
}

/// Where spawning a process stands after these replies.
pub open spec fn launch_run<'a>(
    computer: &'a Computer,
    words: Seq<Seq<char>>,
    replies: Seq<Reply>,
) -> LaunchStep<'a>
    decreases replies.len(),
{
    if replies.len() == 0 {
        launch_start(computer, words)
    } else {
        match launch_run(computer, words, replies.drop_last()) {
            Step::Call(_, phase) => launch_next(computer, words, phase, replies.last()),
            Step::Return(outcome) => Step::Return(outcome),
        }
    }
}

/// Spawning a process on this computer runs the first word of the command with the others as its
/// arguments, and makes its standard error output non-blocking. The process has all its channels,
/// and nothing of it has been read.
pub proof fn law_spawning_here(
    computer: &Computer,
    words: Seq<Seq<char>>,
    spawned: Reply,
    changed: Reply,
)
    requires
        *computer is Local,
        words.len() > 0,
        spawned is Done || spawned is Failed,
        changed is Done,
    ensures
        launch_run(computer, words, Seq::empty()) matches Step::Call(call, phase) && {
            &&& call == (LaunchCallView::Spawn { program: words[0], args: words.skip(1) })
            &&& forall|reply: Reply|
                #![trigger phase.accepted(reply)]
                phase.accepted(reply) <==> reply is Done || reply is Failed
        },
        match spawned {
            Reply::Failed(error) => {
                launch_run(computer, words, seq![spawned]) == LaunchStep::Return(
                    Err(ErrorView::Io(error)),
                )
            },
            _ => {
                &&& launch_run(computer, words, seq![spawned]) matches Step::Call(call, phase) && {
                    &&& call is StderrNonblocking
                    &&& forall|reply: Reply|
                        #![trigger phase.accepted(reply)]
                        phase.accepted(reply) <==> reply is Done
                }
                &&& launch_run(computer, words, seq![spawned, changed]) matches Step::Return(
                    Ok(process),
                ) && {
                    &&& process.computer == *computer
                    &&& process.stdout.len() == 0
                    &&& process.stderr.len() == 0
                    &&& process.inner == (ProcessInner::Local {
                        stdin: true,
                        stdout: true,
                        stderr: true,
                    })
                }
            },
        },
{
    assert(seq![spawned].drop_last() =~= Seq::<Reply>::empty());
    assert(seq![spawned, changed].drop_last() =~= seq![spawned]);
    reveal_with_fuel(launch_run, 3);
}

/// How many calls it takes to connect to a computer: a login is one more.
pub open spec fn connect_calls(computer: &Computer) -> nat {
    match computer {
        Computer::Remote { auth, key, .. } => if key@.len() > 0 || auth@.len() > 0 {
            4
        } else {
            3
        },
        Computer::Local => 0,
    }
}

/// Whether each of these replies answers the call that is made when it comes.
pub open spec fn launch_answers(
    computer: &Computer,
    words: Seq<Seq<char>>,
    replies: Seq<Reply>,
) -> bool
    decreases replies.len(),
{
    replies.len() > 0 ==> {
        &&& launch_answers(computer, words, replies.drop_last())
        &&& launch_run(computer, words, replies.drop_last()) is Call
        &&& if replies.len() == 1 {
            replies.last() is Done || replies.last() is Failed
        } else {
            replies.last() is Done || replies.last() is SshFailed
        }
    }
}

/// Spawning a process on a remote computer connects to it, opens a channel, and has the shell there
/// run a line that it splits into exactly the words of the command. The process is a remote one of
/// which nothing has been read. The first failure is the outcome.
pub proof fn law_spawning_there(computer: &Computer, words: Seq<Seq<char>>, replies: Seq<Reply>)
    requires
        *computer is Remote,
        words.len() > 0,
        launch_answers(computer, words, replies),
    ensures
        ({
            let connected = connect_calls(computer);
            match launch_run(computer, words, replies) {
                Step::Call(call, phase) => {
                    &&& all_done(replies)
                    &&& match call {
                        LaunchCallView::Connect(call) => {
                            &&& replies.len() < connected
                            &&& connect_run(computer, replies) matches Step::Call(asked, _)
                                && asked == call
                        },
                        LaunchCallView::Channel => replies.len() == connected,
                        LaunchCallView::Exec(line) => {
                            &&& replies.len() == connected + 1
                            &&& line == command_line(words)
                            &&& shell_words(line) == Some(words)
                        },
                        _ => false,
                    }
                    // Every answer that the call can have is taken.
                    &&& forall|reply: Reply|
                        #![trigger phase.accepted(reply)]
                        phase.accepted(reply) <==> if replies.len() == 0 {
                            reply is Done || reply is Failed
                        } else {
                            reply is Done || reply is SshFailed
                        }
                },
                Step::Return(Ok(process)) => {
                    &&& all_done(replies)
                    &&& replies.len() == connected + 2
                    &&& process.computer == *computer
                    &&& process.stdout.len() == 0
                    &&& process.stderr.len() == 0
                    &&& process.inner is Remote
                },
                Step::Return(Err(error)) => {
                    &&& replies.len() > 0
                    &&& all_done(replies.drop_last())
                    &&& match replies.last() {
                        Reply::Failed(failure) => error == ErrorView::Io(failure),
                        Reply::SshFailed(failure) => error == ErrorView::Ssh(failure),
                        _ => false,
                    }
                },
            }
        }),
{
    lemma_spawning_there(computer, words, replies);
    law_shell_reads_command_back(words);
}

/// What is known of spawning a process on a remote computer after any replies.
proof fn lemma_spawning_there(computer: &Computer, words: Seq<Seq<char>>, replies: Seq<Reply>)
    requires
        *computer is Remote,
        words.len() > 0,
        launch_answers(computer, words, replies),
    ensures
        ({
            let connected = connect_calls(computer);
            match launch_run(computer, words, replies) {
                Step::Call(call, phase) => {
                    &&& all_done(replies)
                    &&& match phase {
                        LaunchPhase::Connect(state) => {
                            &&& replies.len() < connected
                            &&& connect_answers(computer, replies)
                            &&& call matches LaunchCallView::Connect(asked) && connect_run(
                                computer,
                                replies,
                            ) == ConnectStep::Call(asked, state)
                        },
                        LaunchPhase::Channel => {
                            call is Channel && replies.len() == connected
                        },
                        LaunchPhase::Exec => {
                            &&& call == LaunchCallView::<'_>::Exec(command_line(words))
                            &&& replies.len() == connected + 1
                        },
                        _ => false,
                    }
                    &&& forall|reply: Reply|
                        #![trigger phase.accepted(reply)]
                        phase.accepted(reply) <==> if replies.len() == 0 {
                            reply is Done || reply is Failed
                        } else {
                            reply is Done || reply is SshFailed
                        }
                },
                Step::Return(Ok(process)) => {
                    &&& all_done(replies)
                    &&& replies.len() == connected + 2
                    &&& process.computer == *computer
                    &&& process.stdout.len() == 0
                    &&& process.stderr.len() == 0
                    &&& process.inner is Remote
                },
                Step::Return(Err(error)) => {
                    &&& replies.len() > 0
                    &&& all_done(replies.drop_last())
                    &&& match replies.last() {
                        Reply::Failed(failure) => error == ErrorView::Io(failure),
                        Reply::SshFailed(failure) => error == ErrorView::Ssh(failure),
                        _ => false,
                    }
                },
            }
        }),
    decreases replies.len(),
{
    match *computer {
        Computer::Remote { host, addr, user, auth, key } => {
            if replies.len() == 0 {
                law_connecting(computer, host, addr, user, auth, key, replies);
            } else {
                let before = replies.drop_last();
                lemma_spawning_there(computer, words, before);
                assert(replies.last() is Done ==> all_done(replies)) by {
                    assert forall|i: int| 0 <= i < replies.len() && replies.last() is Done
                        && all_done(before) implies #[trigger] replies[i] is Done by {
                        if i < before.len() {
                            assert(before[i] == replies[i]);
                        }
                    }
                }
                if let Step::Call(_, LaunchPhase::Connect(state)) = launch_run(
                    computer,
                    words,
                    before,
                ) {
                    law_connecting(computer, host, addr, user, auth, key, before);
                    law_connecting(computer, host, addr, user, auth, key, replies);
                }
            }
        },
        Computer::Local => {},
    }
}

/// The line of a command with one more word is the line of the command, a space, and that word as a
/// shell reads it back. A command of one word is that word.
pub proof fn law_line_of_one_more_word(words: Seq<Seq<char>>, word: Seq<char>)
    ensures
        command_line(words.push(word)) == if words.len() == 0 {
            escaped(word)
        } else {
            command_line(words) + seq![' '] + escaped(word)
        },
{
    assert(words.push(word).drop_last() =~= words);
}

} // verus!
