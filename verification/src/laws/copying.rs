//! Laws of the course of a transfer: which calls are made, in which order, and how it ends.

use crate::call::Step;
use crate::error::{ErrorView, SshCode};
use crate::laws::transfers::{
    above, make_dirs_run, recv_file_answers, recv_file_run, send_file_answers, send_file_run,
};
use crate::transfer::{
    make_dirs_accepts, parent_of, recv_file_accepts, send_file_accepts, MakeDirsStep,
    MakeDirsView, RecvFilePhase, SendFilePhaseView, SendFileStep, TransferCallView, TransferReply,
};
use vstd::prelude::*;

verus! {

/// Whether a reply says that there is no such file.
pub open spec fn tells_missing(reply: TransferReply) -> bool {
    reply matches TransferReply::SshFailed(error) && error.code == SshCode::SFTP(2)
}

/// Whether a reply to a call ends the transfer with a failure. That something which is looked at is
/// not there is no failure, where it can be made.
pub open spec fn breaks_off(call: TransferCallView, reply: TransferReply) -> bool {
    ||| reply is Failed
    ||| reply is SshFailed && !(call is StatRemote && tells_missing(reply))
}

/// Whether this is the failure that a reply reports.
pub open spec fn reported(error: ErrorView, reply: TransferReply) -> bool {
    match reply {
        TransferReply::Failed(failure) => error == ErrorView::Io(failure),
        TransferReply::SshFailed(failure) => error == ErrorView::Ssh(failure),
        _ => false,
    }
}

/// Whether a reply can be the answer to a call.
pub open spec fn answers(call: TransferCallView, reply: TransferReply) -> bool {
    match call {
        TransferCallView::Sftp
        | TransferCallView::Mkdir(..)
        | TransferCallView::CreateRemote
        | TransferCallView::SetStat { .. }
        | TransferCallView::OpenRemote => reply is Done || reply is SshFailed,
        TransferCallView::StatRemote(_) => reply is RemoteStat || reply is SshFailed,
        TransferCallView::StatLocal => reply is LocalStat || reply is Failed,
        TransferCallView::ReadLocal | TransferCallView::ReadRemote(_) => {
            reply is Data || reply is Failed
        },
        TransferCallView::WriteRemote(_)
        | TransferCallView::MakeLocalDirs(_)
        | TransferCallView::WriteLocal(_) => reply is Done || reply is Failed,
    }
}

/// Whether each of these replies answers the call that is made when it comes.
pub open spec fn make_dirs_answers(
    target: Seq<char>,
    mode: i32,
    replies: Seq<TransferReply>,
) -> bool
    decreases replies.len(),
{
    replies.len() > 0 ==> {
        &&& make_dirs_answers(target, mode, replies.drop_last())
        &&& match make_dirs_run(target, mode, replies.drop_last()) {
            Step::Call(_, state) => make_dirs_accepts(state, replies.last()),
            Step::Return(_) => false,
        }
    }
}

/// Whether these replies have found the directory `levels` above `target`, after those below it were
/// missing, and have made some of those since. A directory that is missing and lies in none counts
/// as found.
pub open spec fn found_at(target: Seq<char>, replies: Seq<TransferReply>, levels: int) -> bool {
    &&& 0 <= levels < replies.len()
    &&& forall|i: int| 0 <= i < levels ==> tells_missing(#[trigger] replies[i])
    &&& {
        ||| replies[levels] is RemoteStat
        ||| tells_missing(replies[levels]) && above(target, (levels + 1) as nat) is None
    }
    &&& forall|i: int| levels < i < replies.len() ==> (#[trigger] replies[i]) is Done
}

/// What is known of the state after any replies.
spec fn levels_known(
    target: Seq<char>,
    mode: i32,
    replies: Seq<TransferReply>,
    call: TransferCallView,
    state: MakeDirsView,
) -> bool {
    let depth = state.pending.len();
    &&& state.mode == mode
    &&& above(target, depth) == Some(state.dir)
    &&& forall|i: nat| i < depth ==> #[trigger] above(target, i) == Some(state.pending[i as int])
    &&& if state.making {
        &&& call == TransferCallView::Mkdir(state.dir, mode)
        &&& exists|levels: int| #[trigger]
            found_at(target, replies, levels) && depth == 2 * levels - replies.len()
    } else {
        &&& call == TransferCallView::StatRemote(state.dir)
        &&& depth == replies.len()
        &&& forall|i: int| 0 <= i < replies.len() ==> tells_missing(#[trigger] replies[i])
    }
}

/// What is known of making directories after any replies.
#[verifier::spinoff_prover]
#[verifier::rlimit(60)]
proof fn lemma_make_dirs_course(target: Seq<char>, mode: i32, replies: Seq<TransferReply>)
    requires
        make_dirs_answers(target, mode, replies),
    ensures
        match make_dirs_run(target, mode, replies) {
            Step::Call(call, state) => levels_known(target, mode, replies, call, state),
            Step::Return(Ok(())) => exists|levels: int| #[trigger]
                found_at(target, replies, levels) && replies.len() == 2 * levels + 1,
            Step::Return(Err(error)) => {
                &&& replies.len() > 0
                &&& reported(error, replies.last())
                &&& make_dirs_run(target, mode, replies.drop_last()) matches Step::Call(call, _)
                    && breaks_off(call, replies.last())
            },
        },
    decreases replies.len(),
{
    if replies.len() == 0 {
        assert(above(target, 0) == Some(target));
    } else {
        let before = replies.drop_last();
        lemma_make_dirs_course(target, mode, before);
        let last = replies.last();
        assert(replies[replies.len() - 1] == last);
        match make_dirs_run(target, mode, before) {
            Step::Call(call, state) => {
                let depth = state.pending.len();
                if state.making {
                    let levels = choose|levels: int| #[trigger]
                        found_at(target, before, levels) && depth == 2 * levels - before.len();
                    if last is Done {
                        assert forall|i: int| 0 <= i < levels implies tells_missing(
                            #[trigger] replies[i],
                        ) by {
                            assert(replies[i] == before[i]);
                        }
                        assert(replies[levels] == before[levels]);
                        assert forall|i: int| levels < i < replies.len() implies (
                        #[trigger] replies[i]) is Done by {
                            if i < before.len() {
                                assert(replies[i] == before[i]);
                            }
                        }
                        assert(found_at(target, replies, levels));
                    }
                } else {
                    assert forall|i: int| 0 <= i < before.len() implies tells_missing(
                        #[trigger] replies[i],
                    ) by {
                        assert(replies[i] == before[i]);
                    }
                    assert(above(target, depth + 1) == parent_of(state.dir));
                    if last is RemoteStat || tells_missing(last) && parent_of(state.dir) is None {
                        assert(found_at(target, replies, depth as int));
                    }
                }
            },
            Step::Return(_) => {},
        }
    }
}

/// What making a directory asks for, and what it gives.
///
/// The directory is looked at, and while those are missing, the ones above it in turn. Once one is
/// there, or lies in none, the missing ones are made, from the highest down to the one that is asked
/// for, with the permissions that are asked for. Any other failure ends it, and is the outcome.
pub proof fn law_what_making_directories_asks_and_gives(
    target: Seq<char>,
    mode: i32,
    replies: Seq<TransferReply>,
)
    requires
        make_dirs_answers(target, mode, replies),
    ensures
        match make_dirs_run(target, mode, replies) {
            Step::Call(TransferCallView::StatRemote(dir), _) => {
                &&& above(target, replies.len()) == Some(dir)
                &&& forall|i: int| 0 <= i < replies.len() ==> tells_missing(#[trigger] replies[i])
            },
            Step::Call(TransferCallView::Mkdir(dir, permissions), _) => {
                &&& permissions == mode
                &&& exists|levels: int| #[trigger]
                    found_at(target, replies, levels) && 2 * levels >= replies.len() && above(
                        target,
                        (2 * levels - replies.len()) as nat,
                    ) == Some(dir)
            },
            Step::Call(..) => false,
            Step::Return(Ok(())) => exists|levels: int| #[trigger]
                found_at(target, replies, levels) && replies.len() == 2 * levels + 1,
            Step::Return(Err(error)) => {
                &&& replies.len() > 0
                &&& reported(error, replies.last())
                &&& make_dirs_run(target, mode, replies.drop_last()) matches Step::Call(call, _)
                    && breaks_off(call, replies.last())
            },
        },
        make_dirs_run(target, mode, replies) matches Step::Call(call, state) ==> forall|
            reply: TransferReply,
        | #[trigger]
            make_dirs_accepts(state, reply) <==> answers(call, reply),
{
    lemma_make_dirs_course(target, mode, replies);
    if let Step::Call(call, state) = make_dirs_run(target, mode, replies) {
        if state.making {
            let levels = choose|levels: int| #[trigger]
                found_at(target, replies, levels) && state.pending.len() == 2 * levels
                    - replies.len();
            assert(found_at(target, replies, levels));
        }
    }
}

/// The calls that copy a file to the remote computer, once it is known what the remote file is: this
/// many of the replies have come since.
pub open spec fn copy_call(replies: Seq<TransferReply>, came: int) -> TransferCallView {
    let first = replies.len() - came;
    if came == 0 {
        TransferCallView::StatLocal
    } else if came == 1 {
        TransferCallView::ReadLocal
    } else if came == 2 {
        TransferCallView::CreateRemote
    } else if came == 3 {
        match replies[first + 1] {
            TransferReply::Data(data) => TransferCallView::WriteRemote(data@),
            _ => TransferCallView::StatLocal,
        }
    } else {
        match replies[first] {
            TransferReply::LocalStat { perm, modified } => {
                TransferCallView::SetStat { perm, mtime: modified }
            },
            _ => TransferCallView::StatLocal,
        }
    }
}

/// Whether these replies have settled what the remote file is, this many of them ago: it was looked
/// at, and where it was missing, its directory has been made, if it lies in one.
pub open spec fn settled(path: Seq<char>, replies: Seq<TransferReply>, came: int) -> bool {
    let dirs = replies.subrange(2, replies.len() - came);
    &&& 0 <= came <= replies.len() - 2
    &&& if replies[1] is RemoteStat {
        dirs.len() == 0
    } else {
        &&& tells_missing(replies[1])
        &&& match parent_of(path) {
            Some(dir) => {
                &&& make_dirs_answers(dir, 0o775, dirs)
                &&& make_dirs_run(dir, 0o775, dirs) == MakeDirsStep::Return(Ok(()))
            },
            None => dirs.len() == 0,
        }
    }
}

/// Whether the remote file was there, with the modification time that the local one was then found
/// to have.
pub open spec fn up_to_date(replies: Seq<TransferReply>) -> bool {
    &&& replies.len() > 2
    &&& match (replies[1], replies[2]) {
        (
            TransferReply::RemoteStat { mtime, .. },
            TransferReply::LocalStat { modified, .. },
        ) => mtime == Some(modified),
        _ => false,
    }
}

/// Where a phase of sending stands in copying the file.
spec fn copy_place(phase: SendFilePhaseView) -> int {
    match phase {
        SendFilePhaseView::StatLocal(_) => 0,
        SendFilePhaseView::ReadLocal(..) => 1,
        SendFilePhaseView::Create(..) => 2,
        SendFilePhaseView::Write(..) => 3,
        SendFilePhaseView::SetStat => 4,
        _ => -1,
    }
}

/// What is known of copying after any replies.
spec fn copy_known(
    path: Seq<char>,
    replies: Seq<TransferReply>,
    call: TransferCallView,
    phase: SendFilePhaseView,
) -> bool {
    let came = copy_place(phase);
    let first = replies.len() - came;
    let local = replies[first];
    let read = replies[first + 1];
    &&& settled(path, replies, came)
    &&& call == copy_call(replies, came)
    &&& !up_to_date(replies)
    &&& came > 0 ==> local is LocalStat
    &&& came > 1 ==> read is Data
    &&& match phase {
        SendFilePhaseView::StatLocal(remote) => match replies[1] {
            TransferReply::RemoteStat { mtime, .. } => remote == mtime,
            _ => remote is None,
        },
        SendFilePhaseView::ReadLocal(perm, modified) => {
            local == (TransferReply::LocalStat { perm, modified })
        },
        SendFilePhaseView::Create(data, perm, modified) => {
            &&& local == (TransferReply::LocalStat { perm, modified })
            &&& read matches TransferReply::Data(bytes) && bytes@ == data
        },
        SendFilePhaseView::Write(perm, modified) => {
            local == (TransferReply::LocalStat { perm, modified })
        },
        _ => true,
    }
}

/// What is known of sending a file after any replies.
#[verifier::spinoff_prover]
#[verifier::rlimit(60)]
proof fn lemma_send_file_course(path: Seq<char>, replies: Seq<TransferReply>)
    requires
        send_file_answers(path, replies),
    ensures
        match send_file_run(path, replies) {
            Step::Call(call, state) => {
                &&& state.path == path
                &&& match state.phase {
                    SendFilePhaseView::Sftp => replies.len() == 0 && call is Sftp,
                    SendFilePhaseView::StatRemote => {
                        &&& replies.len() == 1
                        &&& call == TransferCallView::StatRemote(path)
                    },
                    SendFilePhaseView::MakeDirs(dirs) => {
                        &&& replies.len() >= 2
                        &&& tells_missing(replies[1])
                        &&& parent_of(path) matches Some(dir) && {
                            &&& make_dirs_answers(dir, 0o775, replies.skip(2))
                            &&& make_dirs_run(dir, 0o775, replies.skip(2)) == MakeDirsStep::Call(
                                call,
                                dirs,
                            )
                        }
                    },
                    _ => copy_known(path, replies, call, state.phase),
                }
            },
            Step::Return(Ok(())) => {
                ||| replies.len() == 3 && up_to_date(replies)
                ||| settled(path, replies, 5) && !up_to_date(replies)
            },
            Step::Return(Err(error)) => {
                &&& replies.len() > 0
                &&& reported(error, replies.last())
                &&& send_file_run(path, replies.drop_last()) matches Step::Call(call, _)
                    && breaks_off(call, replies.last())
            },
        },
    decreases replies.len(),
{
    if replies.len() > 0 {
        let before = replies.drop_last();
        lemma_send_file_course(path, before);
        let last = replies.last();
        assert(replies[replies.len() - 1] == last);
        assert(forall|i: int| 0 <= i < before.len() ==> #[trigger] before[i] == replies[i]);
        if let Step::Call(call, state) = send_file_run(path, before) {
            match state.phase {
                SendFilePhaseView::Sftp => {},
                SendFilePhaseView::StatRemote => {
                    assert(replies.skip(2) =~= Seq::<TransferReply>::empty());
                },
                SendFilePhaseView::MakeDirs(dirs) => {
                    let dir = parent_of(path)->0;
                    let rest = replies.skip(2);
                    assert(rest.drop_last() =~= before.skip(2));
                    assert(rest.last() == last);
                    assert(make_dirs_answers(dir, 0o775, rest));
                    lemma_make_dirs_course(dir, 0o775, before.skip(2));
                    lemma_make_dirs_course(dir, 0o775, rest);
                    assert(replies.subrange(2, replies.len() as int) =~= rest);
                },
                _ => {
                    let came = copy_place(state.phase);
                    assert(replies.subrange(2, replies.len() - (came + 1)) =~= before.subrange(
                        2,
                        before.len() - came,
                    ));
                    if came == 0 && before.len() > 2 {
                        lemma_not_up_to_date(path, before);
                    }
                },
            }
        }
    }
}

/// Where directories were made, the remote file was missing.
proof fn lemma_not_up_to_date(path: Seq<char>, replies: Seq<TransferReply>)
    requires
        settled(path, replies, 0),
        replies.len() > 2,
    ensures
        tells_missing(replies[1]),
{
    assert(replies.subrange(2, replies.len() as int).len() > 0);
}

/// What sending a file asks for, and what it gives.
///
/// SFTP is started, and the remote file is looked at. Where it is missing, the directory that it
/// lies in is made, with all that lead to it. Then the local file is looked at. Where it has the
/// modification time of the remote one, that is all. Otherwise it is read, the remote file is
/// created, written with what was read, and given the permissions and the modification time of the
/// local one. A failure ends it, and is the outcome.
pub proof fn law_what_sending_a_file_asks_and_gives(path: Seq<char>, replies: Seq<TransferReply>)
    requires
        send_file_answers(path, replies),
    ensures
        match send_file_run(path, replies) {
            Step::Call(call, _) => if replies.len() == 0 {
                call is Sftp
            } else if replies.len() == 1 {
                call == TransferCallView::StatRemote(path)
            } else {
                ||| exists|came: int|
                    #![trigger settled(path, replies, came)]
                    0 <= came < 5 && settled(path, replies, came) && !up_to_date(replies) && call
                        == copy_call(replies, came)
                ||| {
                    &&& tells_missing(replies[1])
                    &&& parent_of(path) matches Some(dir) && {
                        &&& make_dirs_answers(dir, 0o775, replies.skip(2))
                        &&& make_dirs_run(dir, 0o775, replies.skip(2)) matches Step::Call(asked, _)
                            && asked == call
                    }
                }
            },
            Step::Return(Ok(())) => {
                ||| replies.len() == 3 && up_to_date(replies)
                ||| settled(path, replies, 5) && !up_to_date(replies)
            },
            Step::Return(Err(error)) => {
                &&& replies.len() > 0
                &&& reported(error, replies.last())
                &&& send_file_run(path, replies.drop_last()) matches Step::Call(call, _)
                    && breaks_off(call, replies.last())
            },
        },
        replies.len() > 0 ==> {
            send_file_run(path, replies.drop_last()) matches Step::Call(call, _) ==> breaks_off(
                call,
                replies.last(),
            ) ==> (send_file_run(path, replies) matches Step::Return(Err(_)))
        },
        send_file_run(path, replies) matches Step::Call(call, state) ==> forall|
            reply: TransferReply,
        | #[trigger]
            send_file_accepts(state, reply) <==> answers(call, reply),
{
    lemma_send_file_course(path, replies);
    if replies.len() > 0 {
        lemma_send_file_course(path, replies.drop_last());
        if let Step::Call(call, state) = send_file_run(path, replies.drop_last()) {
            if let SendFilePhaseView::MakeDirs(dirs) = state.phase {
                lemma_make_dirs_course(
                    parent_of(path)->0,
                    0o775,
                    replies.drop_last().skip(2),
                );
            }
        }
    }
    if let Step::Call(call, state) = send_file_run(path, replies) {
        match state.phase {
            SendFilePhaseView::Sftp | SendFilePhaseView::StatRemote => {},
            SendFilePhaseView::MakeDirs(dirs) => {
                lemma_make_dirs_course(parent_of(path)->0, 0o775, replies.skip(2));
            },
            _ => {
                assert(settled(path, replies, copy_place(state.phase)));
            },
        }
    }
}

/// The calls that receive a file, where this many replies have come since its directory was made, if
/// it lies in one.
pub open spec fn fetch_call(
    path: Seq<char>,
    replies: Seq<TransferReply>,
    came: int,
) -> TransferCallView {
    let first = replies.len() - came;
    if came == 0 {
        TransferCallView::Sftp
    } else if came == 1 {
        TransferCallView::StatRemote(path)
    } else if came == 2 {
        TransferCallView::OpenRemote
    } else if came == 3 {
        match replies[first + 1] {
            TransferReply::RemoteStat { size: Some(bytes), .. } => {
                TransferCallView::ReadRemote(bytes as usize)
            },
            _ => TransferCallView::ReadRemote(0),
        }
    } else {
        match replies[first + 3] {
            TransferReply::Data(data) => TransferCallView::WriteLocal(data@),
            _ => TransferCallView::Sftp,
        }
    }
}

/// Where a phase of receiving stands.
spec fn fetch_place(phase: RecvFilePhase) -> int {
    match phase {
        RecvFilePhase::MakeLocalDirs => -1,
        RecvFilePhase::Sftp => 0,
        RecvFilePhase::StatRemote => 1,
        RecvFilePhase::Open(_) => 2,
        RecvFilePhase::Read => 3,
        RecvFilePhase::Write => 4,
    }
}

/// What is known of receiving a file after any replies.
proof fn lemma_recv_file_course(
    path: Seq<char>,
    parent: Option<Seq<char>>,
    replies: Seq<TransferReply>,
)
    requires
        recv_file_answers(path, parent, replies),
    ensures
        ({
            let lead = if parent is Some {
                1int
            } else {
                0int
            };
            match recv_file_run(path, parent, replies) {
                Step::Call(call, state) => {
                    let came = fetch_place(state.phase);
                    let first = replies.len() - came;
                    &&& state.path == path
                    &&& replies.len() == lead + came
                    &&& if came < 0 {
                        &&& parent matches Some(dir) && call == TransferCallView::MakeLocalDirs(dir)
                    } else {
                        call == fetch_call(path, replies, came)
                    }
                    &&& state.phase matches RecvFilePhase::Open(size) ==> (replies[first
                        + 1] matches TransferReply::RemoteStat { size: told, .. } && told == size)
                    &&& came > 3 ==> replies[first + 3] is Data
                },
                Step::Return(Ok(())) => replies.len() == lead + 5,
                Step::Return(Err(error)) => {
                    &&& replies.len() > 0
                    &&& reported(error, replies.last())
                },
            }
        }),
        replies.len() > 0 && (replies.last() is Failed || replies.last() is SshFailed) ==> (
        recv_file_run(path, parent, replies) matches Step::Return(Err(_))),
    decreases replies.len(),
{
    if replies.len() > 0 {
        let before = replies.drop_last();
        lemma_recv_file_course(path, parent, before);
        assert(replies[replies.len() - 1] == replies.last());
        assert(forall|i: int| 0 <= i < before.len() ==> #[trigger] before[i] == replies[i]);
    }
}

/// What receiving a file asks for, and what it gives.
///
/// The directory that the file lies in is made on this computer, if it lies in one. Then SFTP is
/// started, the remote file is looked at, opened and read, with memory for the size that it was said
/// to have, and what was read is written to the local file. A directory is not received. A failure
/// ends it, and is the outcome.
pub proof fn law_what_receiving_a_file_asks_and_gives(
    path: Seq<char>,
    parent: Option<Seq<char>>,
    replies: Seq<TransferReply>,
)
    requires
        recv_file_answers(path, parent, replies),
    ensures
        ({
            let lead = if parent is Some {
                1int
            } else {
                0int
            };
            match recv_file_run(path, parent, replies) {
                Step::Call(call, _) => match parent {
                    Some(dir) if replies.len() == 0 => call == TransferCallView::MakeLocalDirs(dir),
                    _ => {
                        &&& lead <= replies.len() < lead + 5
                        &&& call == fetch_call(path, replies, replies.len() - lead)
                    },
                },
                Step::Return(Ok(())) => replies.len() == lead + 5,
                Step::Return(Err(error)) => {
                    replies.len() > 0 && reported(error, replies.last())
                },
            }
        }),
        replies.len() > 0 && (replies.last() is Failed || replies.last() is SshFailed) ==> (
        recv_file_run(path, parent, replies) matches Step::Return(Err(_))),
        recv_file_run(path, parent, replies) matches Step::Call(call, state) ==> forall|
            reply: TransferReply,
        | #[trigger]
            recv_file_accepts(state, reply) <==> {
                &&& answers(call, reply)
                &&& reply matches TransferReply::RemoteStat { perm: Some(bits), .. } ==> bits
                    & 0o170000 != 0o040000
            },
{
    lemma_recv_file_course(path, parent, replies);
}

/// A file is sent with success exactly after these calls: three where it is up to date, and
/// otherwise seven and those that make its directory.
pub proof fn law_calls_of_sending_a_file(path: Seq<char>, replies: Seq<TransferReply>)
    requires
        send_file_answers(path, replies),
        send_file_run(path, replies) == SendFileStep::Return(Ok(())),
    ensures
        replies.len() == 3 || replies.len() >= 7,
        replies[1] is RemoteStat ==> replies.len() == (if up_to_date(replies) {
            3
        } else {
            7int
        }),
{
    law_what_sending_a_file_asks_and_gives(path, replies);
    if !(replies.len() == 3 && up_to_date(replies)) {
        assert(settled(path, replies, 5));
    }
}

} // verus!
