//! Laws of transfers over a connection of their own: once the connection is there, they are the
//! transfers.

use crate::call::{Reply, Step};
use crate::computer::Computer;
use crate::connection::{
    recv_from_accepts, recv_from_next, recv_from_start, recv_from_transfer, send_to_accepts,
    send_to_next, send_to_start, send_to_transfer, FileCallView, FileReply, RecvFromStep,
    RecvFromView, SendToStep, SendToView,
};
use crate::laws::launching::{all_done, connect_answers, connect_run};
use crate::laws::transfers::{
    contents_read, law_file_there_and_back, local_mtime, local_stat, local_written,
    recv_file_answers, recv_file_run, remote_mtime, remote_stat, remote_written,
    send_file_answers, send_file_run,
};
use crate::transfer::{
    parent_of, recv_file_accepts, send_file_accepts, TransferCallView, TransferReply,
};
use vstd::prelude::*;

verus! {

/// So many successful steps of establishing a connection.
pub open spec fn connect_steps(count: nat) -> Seq<FileReply> {
    Seq::new(count, |i: int| FileReply::Connect(Reply::Done))
}

/// How many steps it takes to establish a connection to a computer.
pub open spec fn connect_count(computer: &Computer) -> nat {
    if computer.login() is Some {
        4
    } else {
        3
    }
}

/// These replies of a transfer, behind those of a connection that succeeds.
pub open spec fn connected(computer: &Computer, replies: Seq<TransferReply>) -> Seq<FileReply> {
    connect_steps(connect_count(computer)) + replies.map_values(
        |reply: TransferReply| FileReply::Transfer(reply),
    )
}

/// Where sending a file to a computer stands after these replies.
pub open spec fn send_to_run<'a>(
    computer: &'a Computer,
    path: Seq<char>,
    replies: Seq<FileReply>,
) -> SendToStep<'a>
    decreases replies.len(),
{
    if replies.len() == 0 {
        send_to_start(computer, path)
    } else {
        match send_to_run(computer, path, replies.drop_last()) {
            Step::Call(_, state) => send_to_next(state, replies.last()),
            Step::Return(outcome) => Step::Return(outcome),
        }
    }
}

/// Whether each of these replies answers the call that is made when it comes.
pub open spec fn send_to_answers(
    computer: &Computer,
    path: Seq<char>,
    replies: Seq<FileReply>,
) -> bool
    decreases replies.len(),
{
    replies.len() > 0 ==> {
        &&& send_to_answers(computer, path, replies.drop_last())
        &&& match send_to_run(computer, path, replies.drop_last()) {
            Step::Call(_, state) => send_to_accepts(state, replies.last()),
            Step::Return(_) => false,
        }
    }
}

/// Where receiving a file from a computer stands after these replies.
pub open spec fn recv_from_run<'a>(
    computer: &'a Computer,
    path: Seq<char>,
    replies: Seq<FileReply>,
) -> RecvFromStep<'a>
    decreases replies.len(),
{
    if replies.len() == 0 {
        recv_from_start(computer, path)
    } else {
        match recv_from_run(computer, path, replies.drop_last()) {
            Step::Call(_, state) => recv_from_next(state, replies.last()),
            Step::Return(outcome) => Step::Return(outcome),
        }
    }
}

/// Whether each of these replies answers the call that is made when it comes.
pub open spec fn recv_from_answers(
    computer: &Computer,
    path: Seq<char>,
    replies: Seq<FileReply>,
) -> bool
    decreases replies.len(),
{
    replies.len() > 0 ==> {
        &&& recv_from_answers(computer, path, replies.drop_last())
        &&& match recv_from_run(computer, path, replies.drop_last()) {
            Step::Call(_, state) => recv_from_accepts(state, replies.last()),
            Step::Return(_) => false,
        }
    }
}

/// One reply more behind a connection that succeeds.
proof fn lemma_connected(computer: &Computer, replies: Seq<TransferReply>)
    ensures
        replies.len() == 0 ==> connected(computer, replies) == connect_steps(
            connect_count(computer),
        ),
        replies.len() > 0 ==> {
            let all = connected(computer, replies);
            &&& all.drop_last() == connected(computer, replies.drop_last())
            &&& all.last() == FileReply::Transfer(replies.last())
        },
{
    let all = connected(computer, replies);
    if replies.len() == 0 {
        assert(all =~= connect_steps(connect_count(computer)));
    } else {
        assert(all.drop_last() =~= connected(computer, replies.drop_last()));
    }
}

/// One step less of establishing a connection.
proof fn lemma_connect_steps(count: nat)
    ensures
        connect_steps(0).len() == 0,
        count > 0 ==> {
            &&& connect_steps(count).drop_last() == connect_steps((count - 1) as nat)
            &&& connect_steps(count).last() == FileReply::Connect(Reply::Done)
        },
{
    if count > 0 {
        assert(connect_steps(count).drop_last() =~= connect_steps((count - 1) as nat));
    }
}

/// A file is sent to a computer as it is sent over any session: once the connection is there, the
/// replies have the effect that they have on the transfer itself.
pub proof fn law_sending_over_a_connection(
    computer: &Computer,
    path: Seq<char>,
    replies: Seq<TransferReply>,
)
    requires
        computer is Remote,
    ensures
        send_to_answers(computer, path, connected(computer, replies)) == send_file_answers(
            path,
            replies,
        ),
        send_to_run(computer, path, connected(computer, replies)) == send_to_transfer(
            send_file_run(path, replies),
        ),
        send_to_run(computer, path, connected(computer, replies)) == (match send_file_run(
            path,
            replies,
        ) {
            Step::Call(call, state) => Step::Call(
                FileCallView::Transfer(call),
                SendToView::Transfer(state),
            ),
            Step::Return(outcome) => Step::Return(outcome),
        }),
        send_to_run(computer, path, connected(computer, replies)) matches Step::Call(
            _,
            SendToView::Transfer(state),
        ) ==> forall|reply: FileReply| #[trigger]
            send_to_accepts(SendToView::Transfer(state), reply) <==> {
                reply matches FileReply::Transfer(answer) && send_file_accepts(state, answer)
            },
    decreases replies.len(),
{
    lemma_connected(computer, replies);
    if replies.len() == 0 {
        lemma_connect_steps(1);
        lemma_connect_steps(2);
        lemma_connect_steps(3);
        lemma_connect_steps(4);
        reveal_with_fuel(send_to_run, 5);
        reveal_with_fuel(send_to_answers, 5);
    } else {
        law_sending_over_a_connection(computer, path, replies.drop_last());
    }
}

/// A file is received from a computer as it is received over any session: once the connection is
/// there, the replies have the effect that they have on the transfer itself.
pub proof fn law_receiving_over_a_connection(
    computer: &Computer,
    path: Seq<char>,
    replies: Seq<TransferReply>,
)
    requires
        computer is Remote,
    ensures
        recv_from_answers(computer, path, connected(computer, replies)) == recv_file_answers(
            path,
            parent_of(path),
            replies,
        ),
        recv_from_run(computer, path, connected(computer, replies)) == recv_from_transfer(
            recv_file_run(path, parent_of(path), replies),
        ),
        recv_from_run(computer, path, connected(computer, replies)) == (match recv_file_run(
            path,
            parent_of(path),
            replies,
        ) {
            Step::Call(call, state) => Step::Call(
                FileCallView::Transfer(call),
                RecvFromView::Transfer(state),
            ),
            Step::Return(outcome) => Step::Return(outcome),
        }),
        recv_from_run(computer, path, connected(computer, replies)) matches Step::Call(
            _,
            RecvFromView::Transfer(state),
        ) ==> forall|reply: FileReply| #[trigger]
            recv_from_accepts(RecvFromView::Transfer(state), reply) <==> {
                reply matches FileReply::Transfer(answer) && recv_file_accepts(state, answer)
            },
    decreases replies.len(),
{
    lemma_connected(computer, replies);
    if replies.len() == 0 {
        lemma_connect_steps(1);
        lemma_connect_steps(2);
        lemma_connect_steps(3);
        lemma_connect_steps(4);
        reveal_with_fuel(recv_from_run, 5);
        reveal_with_fuel(recv_from_answers, 5);
    } else {
        law_receiving_over_a_connection(computer, path, replies.drop_last());
    }
}

/// A computer gives back the file that it was sent. Where the connections work, the file was not up
/// to date there, and the remote file is read as it was written, receiving it writes on this
/// computer what was read here when it was sent.
pub proof fn law_computer_gives_the_file_back(
    computer: &Computer,
    path: Seq<char>,
    sent: Seq<TransferReply>,
    received: Seq<TransferReply>,
)
    requires
        computer is Remote,
        send_to_answers(computer, path, connected(computer, sent)),
        send_to_run(computer, path, connected(computer, sent)) == SendToStep::Return(Ok(())),
        remote_mtime(sent) != local_mtime(sent),
        recv_from_answers(computer, path, connected(computer, received)),
        recv_from_run(computer, path, connected(computer, received)) == RecvFromStep::Return(
            Ok(()),
        ),
        contents_read(received) == remote_written(path, sent),
    ensures
        local_written(path, parent_of(path), received) == Some(contents_read(sent)),
        remote_stat(path, sent) == local_stat(sent),
{
    law_sending_over_a_connection(computer, path, sent);
    law_receiving_over_a_connection(computer, path, received);
    law_file_there_and_back(path, sent, received);
}

/// For the local computer nothing is asked for, and the transfer succeeds.
pub proof fn law_nothing_to_transfer_to_the_local_computer(computer: &Computer, path: Seq<char>)
    requires
        computer is Local,
    ensures
        send_to_run(computer, path, Seq::empty()) == SendToStep::Return(Ok(())),
        recv_from_run(computer, path, Seq::empty()) == RecvFromStep::Return(Ok(())),
{
}

/// These replies to establishing a connection, as replies to a transfer over it.
pub open spec fn for_connecting(replies: Seq<Reply>) -> Seq<FileReply> {
    replies.map_values(|reply: Reply| FileReply::Connect(reply))
}

/// One reply more to establishing a connection.
proof fn lemma_for_connecting(replies: Seq<Reply>)
    ensures
        replies.len() > 0 ==> {
            &&& for_connecting(replies).drop_last() == for_connecting(replies.drop_last())
            &&& for_connecting(replies).last() == FileReply::Connect(replies.last())
        },
{
    if replies.len() > 0 {
        assert(for_connecting(replies).drop_last() =~= for_connecting(replies.drop_last()));
    }
}

/// Sending a file to a remote computer first connects to it, with the calls and the replies that
/// connecting has. Where connecting fails, sending fails with the same failure. Otherwise SFTP is
/// started on the connection.
pub proof fn law_sending_connects_first(computer: &Computer, path: Seq<char>, replies: Seq<Reply>)
    requires
        computer is Remote,
        connect_answers(computer, replies),
    ensures
        match connect_run(computer, replies) {
            Step::Call(call, state) => {
                &&& send_to_run(computer, path, for_connecting(replies)) == SendToStep::Call(
                    FileCallView::Connect(call),
                    SendToView::Connect { computer, path, state },
                )
                &&& forall|reply: FileReply| #[trigger]
                    send_to_accepts(SendToView::Connect { computer, path, state }, reply) <==> {
                        reply matches FileReply::Connect(answer) && state.accepted(answer)
                    }
            },
            Step::Return(Ok(())) => {
                send_to_run(computer, path, for_connecting(replies)) matches Step::Call(call, _)
                    && call == FileCallView::<'_>::Transfer(TransferCallView::Sftp)
            },
            Step::Return(Err(error)) => {
                send_to_run(computer, path, for_connecting(replies)) == SendToStep::Return(
                    Err(error),
                )
            },
        },
    decreases replies.len(),
{
    lemma_for_connecting(replies);
    if replies.len() > 0 {
        law_sending_connects_first(computer, path, replies.drop_last());
    }
}

/// Receiving a file from a remote computer first connects to it, with the calls that connecting has,
/// all of which have to succeed. Then the directory that the file lies in is made on this computer,
/// if it lies in one, or else SFTP is started on the connection.
pub proof fn law_receiving_connects_first(
    computer: &Computer,
    path: Seq<char>,
    replies: Seq<Reply>,
)
    requires
        computer is Remote,
        connect_answers(computer, replies),
        all_done(replies),
    ensures
        match connect_run(computer, replies) {
            Step::Call(call, state) => {
                &&& recv_from_run(computer, path, for_connecting(replies)) == RecvFromStep::Call(
                    FileCallView::Connect(call),
                    RecvFromView::Connect { computer, path, state },
                )
                &&& forall|reply: FileReply| #[trigger]
                    recv_from_accepts(RecvFromView::Connect { computer, path, state }, reply) <==> {
                        reply matches FileReply::Connect(answer) && answer is Done
                    }
            },
            Step::Return(outcome) => {
                &&& outcome is Ok
                &&& recv_from_run(computer, path, for_connecting(replies)) matches Step::Call(
                    call,
                    _,
                ) && call == FileCallView::<'_>::Transfer(
                    match parent_of(path) {
                        Some(dir) => TransferCallView::MakeLocalDirs(dir),
                        None => TransferCallView::Sftp,
                    },
                )
            },
        },
    decreases replies.len(),
{
    lemma_for_connecting(replies);
    if replies.len() > 0 {
        let before = replies.drop_last();
        assert(replies[replies.len() - 1] == replies.last());
        assert forall|i: int| 0 <= i < before.len() implies #[trigger] before[i] is Done by {
            assert(before[i] == replies[i]);
        }
        law_receiving_connects_first(computer, path, before);
    }
}

} // verus!
