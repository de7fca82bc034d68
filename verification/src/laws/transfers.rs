//! Laws of transfers: directories are made from the top down, and files arrive as they are.

use crate::call::Step;
use crate::transfer::{
    make_dirs_accepts, make_dirs_look, make_dirs_next, no_such_file, parent_of, recv_file_accepts,
    recv_file_next, recv_file_start, send_file_accepts, send_file_call, send_file_next,
    send_file_start, MakeDirsStep, RecvFilePhase, RecvFileStep, SendFilePhaseView, SendFileStep,
    SendFileView, TransferCallView, TransferReply, DIR_MODE,
};
use vstd::prelude::*;

verus! {

/// Where making a directory stands after these replies.
pub open spec fn make_dirs_run(
    target: Seq<char>,
    mode: i32,
    replies: Seq<TransferReply>,
) -> MakeDirsStep
    decreases replies.len(),
{
    if replies.len() == 0 {
        make_dirs_look(target, Seq::empty(), mode)
    } else {
        match make_dirs_run(target, mode, replies.drop_last()) {
            Step::Call(_, state) => make_dirs_next(state, replies.last()),
            Step::Return(outcome) => Step::Return(outcome),
        }
    }
}

/// The directories that exist after these replies, where `existing` did before: each one that was
/// made is added.
pub open spec fn existing_after(
    existing: Set<Seq<char>>,
    target: Seq<char>,
    mode: i32,
    replies: Seq<TransferReply>,
) -> Set<Seq<char>>
    decreases replies.len(),
{
    if replies.len() == 0 {
        existing
    } else {
        let before = existing_after(existing, target, mode, replies.drop_last());
        match make_dirs_run(target, mode, replies.drop_last()) {
            Step::Call(_, state) => if state.making && replies.last() is Done {
                before.insert(state.dir)
            } else {
                before
            },
            Step::Return(_) => before,
        }
    }
}

/// Whether a reply about a directory says whether it is one of those that exist.
pub open spec fn tells_existence(
    existing: Set<Seq<char>>,
    dir: Seq<char>,
    reply: TransferReply,
) -> bool {
    match reply {
        TransferReply::RemoteStat { .. } => existing.contains(dir),
        TransferReply::SshFailed(error) => no_such_file(error) ==> !existing.contains(dir),
        _ => true,
    }
}

/// Whether each of these replies answers the call that is made when it comes, and says of a
/// directory that is looked at whether it exists.
pub open spec fn truthful(
    existing: Set<Seq<char>>,
    target: Seq<char>,
    mode: i32,
    replies: Seq<TransferReply>,
) -> bool
    decreases replies.len(),
{
    replies.len() > 0 ==> {
        &&& truthful(existing, target, mode, replies.drop_last())
        &&& match make_dirs_run(target, mode, replies.drop_last()) {
            Step::Call(_, state) => {
                let now = existing_after(existing, target, mode, replies.drop_last());
                &&& make_dirs_accepts(state, replies.last())
                &&& !state.making ==> tells_existence(now, state.dir, replies.last())
            },
            Step::Return(_) => false,
        }
    }
}

/// Whether each directory lies in the next.
pub open spec fn nested(dirs: Seq<Seq<char>>) -> bool {
    forall|i: int| 0 <= i < dirs.len() - 1 ==> parent_of(#[trigger] dirs[i]) == Some(dirs[i + 1])
}

/// Whether a directory is there, or can not be made because it lies in none.
pub open spec fn given(existing: Set<Seq<char>>, dir: Seq<char>) -> bool {
    existing.contains(dir) || parent_of(dir) is None
}

/// What is known of a truthful run after any replies.
proof fn lemma_make_dirs_run(
    existing: Set<Seq<char>>,
    target: Seq<char>,
    mode: i32,
    replies: Seq<TransferReply>,
)
    requires
        truthful(existing, target, mode, replies),
    ensures
        ({
            let now = existing_after(existing, target, mode, replies);
            match make_dirs_run(target, mode, replies) {
                Step::Call(call, state) => {
                    let dirs = state.pending.push(state.dir);
                    &&& state.mode == mode
                    &&& dirs[0] == target
                    &&& nested(dirs)
                    &&& forall|i: int|
                        0 <= i < state.pending.len() ==> !existing.contains(
                            #[trigger] state.pending[i],
                        )
                    &&& if state.making {
                        &&& call == TransferCallView::Mkdir(state.dir, mode)
                        &&& !existing.contains(state.dir)
                        &&& parent_of(state.dir) matches Some(parent) && given(now, parent)
                    } else {
                        &&& call == TransferCallView::StatRemote(state.dir)
                        &&& now == existing
                    }
                },
                Step::Return(Ok(())) => given(now, target),
                Step::Return(Err(_)) => true,
            }
        }),
    decreases replies.len(),
{
    if replies.len() == 0 {
        assert(Seq::<Seq<char>>::empty().push(target)[0] == target);
    } else {
        let before = replies.drop_last();
        lemma_make_dirs_run(existing, target, mode, before);
        match make_dirs_run(target, mode, before) {
            Step::Call(_, state) => {
                let dirs = state.pending.push(state.dir);
                let pending = state.pending;
                // What follows once a directory is there, or lies in none.
                if pending.len() > 0 {
                    let next = pending.drop_last().push(pending.last());
                    assert(next =~= pending);
                    assert(dirs[pending.len() - 1] == pending.last());
                    assert(dirs[pending.len() as int] == state.dir);
                    assert(parent_of(dirs[pending.len() - 1]) == Some(dirs[pending.len() as int]));
                    assert(!existing.contains(pending[pending.len() - 1]));
                    assert(pending[0] == dirs[0]);
                    assert forall|i: int| 0 <= i < pending.len() - 1 implies parent_of(
                        #[trigger] pending[i],
                    ) == Some(pending[i + 1]) by {
                        assert(pending[i] == dirs[i]);
                        assert(pending[i + 1] == dirs[i + 1]);
                    }
                    assert forall|i: int| 0 <= i < pending.drop_last().len() implies !existing.contains(
                        #[trigger] pending.drop_last()[i],
                    ) by {
                        assert(pending.drop_last()[i] == pending[i]);
                    }
                } else {
                    assert(dirs[0] == state.dir);
                }
                // What follows when the directory that it lies in is looked at.
                if let Some(parent) = parent_of(state.dir) {
                    let deeper = dirs.push(parent);
                    assert(deeper[0] == dirs[0]);
                    assert forall|i: int| 0 <= i < deeper.len() - 1 implies parent_of(
                        #[trigger] deeper[i],
                    ) == Some(deeper[i + 1]) by {
                        assert(deeper[i] == dirs[i]);
                        if i < dirs.len() - 1 {
                            assert(deeper[i + 1] == dirs[i + 1]);
                        }
                    }
                }
            },
            Step::Return(_) => {},
        }
    }
}

/// Directories are made from the top down: when one is made, it did not exist, and the one that it
/// lies in is there, or lies in none itself. They are made with the permissions that were asked
/// for.
pub proof fn law_directories_made_top_down(
    existing: Set<Seq<char>>,
    target: Seq<char>,
    mode: i32,
    replies: Seq<TransferReply>,
)
    requires
        truthful(existing, target, mode, replies),
    ensures
        make_dirs_run(target, mode, replies) matches Step::Call(
            TransferCallView::Mkdir(dir, permissions),
            _,
        ) ==> {
            &&& permissions == mode
            &&& !existing.contains(dir)
            &&& parent_of(dir) matches Some(parent) && given(
                existing_after(existing, target, mode, replies),
                parent,
            )
        },
{
    lemma_make_dirs_run(existing, target, mode, replies);
}

/// Making a directory that succeeds leaves it there, unless it lies in none.
pub proof fn law_directory_is_there_after_making_it(
    existing: Set<Seq<char>>,
    target: Seq<char>,
    mode: i32,
    replies: Seq<TransferReply>,
)
    requires
        truthful(existing, target, mode, replies),
        make_dirs_run(target, mode, replies) == MakeDirsStep::Return(Ok(())),
    ensures
        given(existing_after(existing, target, mode, replies), target),
{
    lemma_make_dirs_run(existing, target, mode, replies);
}

/// The directory that lies this many levels above `target`, if there is one.
pub open spec fn above(target: Seq<char>, levels: nat) -> Option<Seq<char>>
    decreases levels,
{
    if levels == 0 {
        Some(target)
    } else {
        match above(target, (levels - 1) as nat) {
            Some(dir) => parent_of(dir),
            None => None,
        }
    }
}

/// Whether `dir` is `target` or one of the directories that lead to it.
pub open spec fn leads_to(dir: Seq<char>, target: Seq<char>) -> bool {
    exists|levels: nat| above(target, levels) == Some(dir)
}

/// The directories that were made once these replies have come, in order.
pub open spec fn made(target: Seq<char>, mode: i32, replies: Seq<TransferReply>) -> Seq<Seq<char>>
    decreases replies.len(),
{
    if replies.len() == 0 {
        Seq::empty()
    } else {
        let before = made(target, mode, replies.drop_last());
        match (make_dirs_run(target, mode, replies.drop_last()), replies.last()) {
            (Step::Call(TransferCallView::Mkdir(dir, _), _), TransferReply::Done) => before.push(
                dir,
            ),
            _ => before,
        }
    }
}

/// Whether the directories on the first so many levels are all different.
spec fn distinct_levels(target: Seq<char>, levels: int) -> bool {
    forall|i: nat, j: nat|
        i < j < levels ==> #[trigger] above(target, i) != #[trigger] above(target, j)
}

/// Equal directories lie in equal directories, any number of levels above them.
proof fn lemma_above_alike(target: Seq<char>, i: nat, j: nat, further: nat)
    requires
        above(target, i) == above(target, j),
    ensures
        above(target, i + further) == above(target, j + further),
    decreases further,
{
    if further > 0 {
        lemma_above_alike(target, i, j, (further - 1) as nat);
    }
}

/// Where the directory on a level is the first that exists or lies in none, those below it are all
/// different: if two were the same, the lower one would come to such a directory sooner.
proof fn lemma_distinct_levels(existing: Set<Seq<char>>, target: Seq<char>, top: nat)
    requires
        above(target, top) matches Some(dir) && given(existing, dir),
        forall|i: nat| i < top ==> !given(existing, (#[trigger] above(target, i))->0),
    ensures
        distinct_levels(target, top as int),
{
    assert forall|i: nat, j: nat| i < j < top implies #[trigger] above(target, i)
        != #[trigger] above(target, j) by {
        if above(target, i) == above(target, j) {
            let further = (top - j) as nat;
            lemma_above_alike(target, i, j, further);
            assert(above(target, i + further) == above(target, top));
        }
    }
}

/// Whether the directories that were made lie on the levels below `top`, from there downwards, and
/// no directory is on two of these levels.
spec fn made_down(target: Seq<char>, done: Seq<Seq<char>>, top: int) -> bool {
    &&& done.len() <= top
    &&& distinct_levels(target, top)
    &&& forall|k: int|
        0 <= k < done.len() ==> above(target, (top - 1 - k) as nat) == Some(#[trigger] done[k])
}

/// What is known of the levels in a truthful run after any replies.
#[verifier::spinoff_prover]
#[verifier::rlimit(40)]
proof fn lemma_levels(
    existing: Set<Seq<char>>,
    target: Seq<char>,
    mode: i32,
    replies: Seq<TransferReply>,
)
    requires
        truthful(existing, target, mode, replies),
    ensures
        ({
            let done = made(target, mode, replies);
            match make_dirs_run(target, mode, replies) {
                Step::Call(call, state) => {
                    let depth = state.pending.len();
                    &&& above(target, depth) == Some(state.dir)
                    &&& forall|i: nat|
                        i < depth ==> #[trigger] above(target, i) == Some(state.pending[i as int])
                    &&& if state.making {
                        made_down(target, done, (depth + 1 + done.len()) as int)
                    } else {
                        &&& done.len() == 0
                        &&& forall|i: nat|
                            i < depth ==> !given(existing, (#[trigger] above(target, i))->0)
                    }
                },
                Step::Return(outcome) => {
                    exists|top: int| #[trigger] made_down(target, done, top) && (outcome is Ok
                        ==> top == done.len())
                },
            }
        }),
    decreases replies.len(),
{
    let done = made(target, mode, replies);
    if replies.len() == 0 {
        assert(above(target, 0) == Some(target));
    } else {
        let before = replies.drop_last();
        lemma_levels(existing, target, mode, before);
        lemma_make_dirs_run(existing, target, mode, before);
        if let Step::Call(call, state) = make_dirs_run(target, mode, before) {
            let depth = state.pending.len();
            let had = made(target, mode, before);
            if state.making {
                let top = (depth + 1 + had.len()) as int;
                assert(made_down(target, done, top));
            } else if given(existing, state.dir) {
                lemma_distinct_levels(existing, target, depth);
                assert(made_down(target, done, depth as int));
            } else {
                assert(distinct_levels(target, 0));
                assert(made_down(target, done, 0));
                assert(above(target, depth + 1) == parent_of(state.dir));
            }
        }
    }
}

/// Only the directory that is asked for and those that lead to it are made, each at most once, and
/// each in the one that was made before it. The last is the one that is asked for.
pub proof fn law_only_leading_directories_are_made(
    existing: Set<Seq<char>>,
    target: Seq<char>,
    mode: i32,
    replies: Seq<TransferReply>,
)
    requires
        truthful(existing, target, mode, replies),
    ensures
        ({
            let done = made(target, mode, replies);
            &&& done.no_duplicates()
            &&& forall|k: int| 0 <= k < done.len() ==> leads_to(#[trigger] done[k], target)
            &&& forall|k: int|
                0 < k < done.len() ==> parent_of(#[trigger] done[k]) == Some(done[k - 1])
            &&& match make_dirs_run(target, mode, replies) {
                Step::Call(TransferCallView::Mkdir(dir, _), _) => {
                    leads_to(dir, target) && !done.contains(dir)
                },
                Step::Return(Ok(())) => done.len() > 0 ==> done.last() == target,
                _ => true,
            }
        }),
{
    let done = made(target, mode, replies);
    lemma_levels(existing, target, mode, replies);
    lemma_make_dirs_run(existing, target, mode, replies);
    let top: int = match make_dirs_run(target, mode, replies) {
        Step::Call(_, state) => if state.making {
            (state.pending.len() + 1 + done.len()) as int
        } else {
            0
        },
        Step::Return(outcome) => choose|top: int| #[trigger] made_down(target, done, top) && (
        outcome is Ok ==> top == done.len()),
    };
    assert(distinct_levels(target, 0));
    assert(made_down(target, done, top));
    assert forall|i: int, j: int| 0 <= i < done.len() && 0 <= j < done.len() && i != j implies done[i]
        != done[j] by {
        let (low, high) = if i < j {
            (j, i)
        } else {
            (i, j)
        };
        assert(above(target, (top - 1 - low) as nat) != above(target, (top - 1 - high) as nat));
    }
    assert forall|k: int| 0 < k < done.len() implies parent_of(#[trigger] done[k]) == Some(
        done[k - 1],
    ) by {
        assert(above(target, (top - 1 - k) as nat) == Some(done[k]));
        assert(above(target, (top - 1 - (k - 1)) as nat) == Some(done[k - 1]));
    }
    match make_dirs_run(target, mode, replies) {
        Step::Call(call, state) => {
            if state.making {
                let depth = state.pending.len();
                assert forall|k: int| 0 <= k < done.len() implies done[k] != state.dir by {
                    assert(above(target, depth) != above(target, (top - 1 - k) as nat));
                }
            }
        },
        Step::Return(Ok(())) => {
            if done.len() > 0 {
                assert(above(target, (top - 1 - (done.len() - 1)) as nat) == Some(
                    done[done.len() - 1],
                ));
                assert(above(target, 0) == Some(target));
            }
        },
        _ => {},
    }
}

/// Where sending a file stands after these replies.
pub open spec fn send_file_run(path: Seq<char>, replies: Seq<TransferReply>) -> SendFileStep
    decreases replies.len(),
{
    if replies.len() == 0 {
        send_file_start(path)
    } else {
        match send_file_run(path, replies.drop_last()) {
            Step::Call(_, state) => send_file_next(state, replies.last()),
            Step::Return(outcome) => Step::Return(outcome),
        }
    }
}

/// Whether each of these replies answers the call that is made when it comes.
pub open spec fn send_file_answers(path: Seq<char>, replies: Seq<TransferReply>) -> bool
    decreases replies.len(),
{
    replies.len() > 0 ==> {
        &&& send_file_answers(path, replies.drop_last())
        &&& match send_file_run(path, replies.drop_last()) {
            Step::Call(_, state) => send_file_accepts(state, replies.last()),
            Step::Return(_) => false,
        }
    }
}

/// The contents that were read with these replies, in order.
pub open spec fn contents_read(replies: Seq<TransferReply>) -> Seq<u8>
    decreases replies.len(),
{
    if replies.len() == 0 {
        Seq::empty()
    } else {
        contents_read(replies.drop_last()) + match replies.last() {
            TransferReply::Data(data) => data@,
            _ => Seq::empty(),
        }
    }
}

/// What these replies say of the local file: its permissions and its modification time.
pub open spec fn local_stat(replies: Seq<TransferReply>) -> Option<(Option<u32>, u64)>
    decreases replies.len(),
{
    if replies.len() == 0 {
        None
    } else {
        match replies.last() {
            TransferReply::LocalStat { perm, modified } => Some((perm, modified)),
            _ => local_stat(replies.drop_last()),
        }
    }
}

/// What these replies say of the modification time of the local file.
pub open spec fn local_mtime(replies: Seq<TransferReply>) -> Option<u64> {
    match local_stat(replies) {
        Some((_, modified)) => Some(modified),
        None => None,
    }
}

/// What is confirmed to be written to the remote file once these replies have come, in order.
pub open spec fn remote_written(path: Seq<char>, replies: Seq<TransferReply>) -> Seq<u8>
    decreases replies.len(),
{
    if replies.len() == 0 {
        Seq::empty()
    } else {
        remote_written(path, replies.drop_last()) + match (
            send_file_run(path, replies.drop_last()),
            replies.last(),
        ) {
            (Step::Call(TransferCallView::WriteRemote(data), _), TransferReply::Done) => data,
            _ => Seq::empty(),
        }
    }
}

/// The permissions and the modification time that the remote file is confirmed to have been given
/// once these replies have come.
pub open spec fn remote_stat(path: Seq<char>, replies: Seq<TransferReply>) -> Option<
    (Option<u32>, u64),
>
    decreases replies.len(),
{
    if replies.len() == 0 {
        None
    } else {
        match (send_file_run(path, replies.drop_last()), replies.last()) {
            (Step::Call(TransferCallView::SetStat { perm, mtime }, _), TransferReply::Done) => {
                Some((perm, mtime))
            },
            _ => remote_stat(path, replies.drop_last()),
        }
    }
}

/// The modification time that the remote file had when sending looked at it, which is the second
/// call that it makes. A file that is not there has none.
pub open spec fn remote_mtime(replies: Seq<TransferReply>) -> Option<u64> {
    if replies.len() > 1 {
        match replies[1] {
            TransferReply::RemoteStat { mtime, .. } => mtime,
            _ => None,
        }
    } else {
        None
    }
}

/// Whether a call changes something on this computer.
pub open spec fn changes_local(call: TransferCallView) -> bool {
    call is MakeLocalDirs || call is WriteLocal
}

/// What is known of a run of sending a file after any replies.
proof fn lemma_send_file_run(path: Seq<char>, replies: Seq<TransferReply>)
    requires
        send_file_answers(path, replies),
    ensures
        ({
            let read = contents_read(replies);
            let written = remote_written(path, replies);
            let nothing = Seq::<u8>::empty();
            match send_file_run(path, replies) {
                Step::Call(call, state) => {
                    &&& state.path == path
                    &&& remote_stat(path, replies) is None
                    &&& !changes_local(call)
                    &&& match state.phase {
                        SendFilePhaseView::Sftp => {
                            &&& replies.len() == 0
                            &&& read == nothing
                            &&& written == nothing
                            &&& call is Sftp
                        },
                        SendFilePhaseView::StatRemote => {
                            &&& replies.len() == 1
                            &&& read == nothing
                            &&& written == nothing
                            &&& call == TransferCallView::StatRemote(path)
                        },
                        SendFilePhaseView::MakeDirs(dirs) => {
                            &&& replies.len() >= 2
                            &&& remote_mtime(replies) is None
                            &&& read == nothing
                            &&& written == nothing
                            &&& if dirs.making {
                                call == TransferCallView::Mkdir(dirs.dir, dirs.mode)
                            } else {
                                call == TransferCallView::StatRemote(dirs.dir)
                            }
                        },
                        SendFilePhaseView::StatLocal(remote) => {
                            &&& replies.len() >= 2
                            &&& remote == remote_mtime(replies)
                            &&& read == nothing
                            &&& written == nothing
                            &&& call is StatLocal
                        },
                        SendFilePhaseView::ReadLocal(perm, modified) => {
                            &&& replies.len() >= 2
                            &&& remote_mtime(replies) != Some(modified)
                            &&& read == nothing
                            &&& written == nothing
                            &&& call is ReadLocal
                            &&& local_stat(replies) == Some((perm, modified))
                        },
                        SendFilePhaseView::Create(data, perm, modified) => {
                            &&& replies.len() >= 2
                            &&& remote_mtime(replies) != Some(modified)
                            &&& read == data
                            &&& written == nothing
                            &&& call is CreateRemote
                            &&& local_stat(replies) == Some((perm, modified))
                        },
                        SendFilePhaseView::Write(perm, modified) => {
                            &&& replies.len() >= 2
                            &&& remote_mtime(replies) != Some(modified)
                            &&& written == nothing
                            &&& call == TransferCallView::WriteRemote(read)
                            &&& local_stat(replies) == Some((perm, modified))
                        },
                        SendFilePhaseView::SetStat => {
                            &&& replies.len() >= 2
                            &&& written == read
                            &&& local_stat(replies) matches Some((perm, mtime)) && {
                                &&& remote_mtime(replies) != Some(mtime)
                                &&& call == (TransferCallView::SetStat { perm, mtime })
                            }
                        },
                    }
                },
                Step::Return(Ok(())) => {
                    &&& written == read
                    &&& local_stat(replies) matches Some((perm, modified)) && if remote_mtime(
                        replies,
                    ) == Some(modified) {
                        remote_stat(path, replies) is None && written == nothing
                    } else {
                        remote_stat(path, replies) == Some((perm, modified))
                    }
                },
                Step::Return(Err(_)) => true,
            }
        }),
    decreases replies.len(),
{
    if replies.len() > 0 {
        let before = replies.drop_last();
        lemma_send_file_run(path, before);
        let read = contents_read(before);
        let written = remote_written(path, before);
        assert(read + Seq::<u8>::empty() =~= read);
        assert(written + Seq::<u8>::empty() =~= written);
        assert(Seq::<u8>::empty() + read =~= read);
        if before.len() >= 2 {
            assert(before[1] == replies[1]);
        } else {
            assert(replies.len() == 2 ==> replies[1] == replies.last());
        }
        if let TransferReply::Data(data) = replies.last() {
            assert(Seq::<u8>::empty() + data@ =~= data@);
        }
    }
}

/// A file that was sent with success is on the remote computer as it is on this one. Where the
/// remote file had the modification time of the local one, nothing was written and nothing was
/// changed. Otherwise, whether it was older, newer, or not there, it has been written as it was read
/// here, and been given the permissions and the modification time that it has here.
pub proof fn law_sent_file_is_the_local_file(path: Seq<char>, replies: Seq<TransferReply>)
    requires
        send_file_answers(path, replies),
        send_file_run(path, replies) == SendFileStep::Return(Ok(())),
    ensures
        remote_written(path, replies) == contents_read(replies),
        local_stat(replies) matches Some((perm, modified)) && if remote_mtime(replies) == Some(
            modified,
        ) {
            &&& remote_stat(path, replies) is None
            &&& remote_written(path, replies) == Seq::<u8>::empty()
        } else {
            remote_stat(path, replies) == Some((perm, modified))
        },
{
    lemma_send_file_run(path, replies);
}

/// Sending a file changes nothing on this computer.
pub proof fn law_sending_leaves_local_files(path: Seq<char>, replies: Seq<TransferReply>)
    requires
        send_file_answers(path, replies),
    ensures
        send_file_run(path, replies) matches Step::Call(call, _) ==> !changes_local(call),
{
    lemma_send_file_run(path, replies);
}

/// Whether a call changes something on the remote computer.
pub open spec fn changes_remote(call: TransferCallView) -> bool {
    call is Mkdir || call is CreateRemote || call is WriteRemote || call is SetStat
}

/// Whether these replies show a remote file and a local file that both have this modification time,
/// and no failure.
pub open spec fn shows_up_to_date(replies: Seq<TransferReply>, modified: u64) -> bool {
    forall|i: int|
        0 <= i < replies.len() ==> match #[trigger] replies[i] {
            TransferReply::RemoteStat { mtime, .. } => mtime == Some(modified),
            TransferReply::LocalStat { modified: local, .. } => local == modified,
            TransferReply::Failed(_) | TransferReply::SshFailed(_) => false,
            _ => true,
        }
}

/// A run that shows an up-to-date file looks at it on both computers, and is over.
proof fn lemma_up_to_date_run(path: Seq<char>, replies: Seq<TransferReply>, modified: u64)
    requires
        send_file_answers(path, replies),
        shows_up_to_date(replies, modified),
    ensures
        match send_file_run(path, replies) {
            Step::Call(_, state) => match state.phase {
                SendFilePhaseView::Sftp => replies.len() == 0,
                SendFilePhaseView::StatRemote => replies.len() == 1,
                SendFilePhaseView::StatLocal(remote) => {
                    &&& replies.len() == 2
                    &&& remote == Some(modified)
                    &&& remote_mtime(replies) == Some(modified)
                },
                _ => false,
            },
            Step::Return(outcome) => {
                &&& replies.len() == 3
                &&& outcome is Ok
                &&& remote_mtime(replies) == Some(modified)
                &&& local_mtime(replies) == Some(modified)
            },
        },
    decreases replies.len(),
{
    if replies.len() > 0 {
        let before = replies.drop_last();
        assert forall|i: int| 0 <= i < before.len() implies match #[trigger] before[i] {
            TransferReply::RemoteStat { mtime, .. } => mtime == Some(modified),
            TransferReply::LocalStat { modified: local, .. } => local == modified,
            TransferReply::Failed(_) | TransferReply::SshFailed(_) => false,
            _ => true,
        } by {
            assert(before[i] == replies[i]);
        }
        lemma_up_to_date_run(path, before, modified);
        assert(replies[replies.len() - 1] == replies.last());
        if before.len() >= 2 {
            assert(before[1] == replies[1]);
        }
    }
}

/// A file that has been sent with success is up to date: sending it again, with the remote file as
/// it was left and the local file as it was, succeeds after three calls and changes nothing.
pub proof fn law_second_send_writes_nothing(
    path: Seq<char>,
    first: Seq<TransferReply>,
    second: Seq<TransferReply>,
    modified: u64,
)
    requires
        send_file_answers(path, first),
        send_file_run(path, first) == SendFileStep::Return(Ok(())),
        local_mtime(first) == Some(modified),
        send_file_answers(path, second),
        shows_up_to_date(second, modified),
    ensures
        left_mtime(path, first) == Some(modified),
        match send_file_run(path, second) {
            Step::Call(call, _) => second.len() < 3 && !changes_remote(call),
            Step::Return(outcome) => second.len() == 3 && outcome is Ok,
        },
        remote_written(path, second) == Seq::<u8>::empty(),
        remote_stat(path, second) is None,
{
    lemma_send_file_run(path, first);
    lemma_send_file_run(path, second);
    lemma_up_to_date_run(path, second, modified);
}

/// The modification time that the remote file has once sending has succeeded: the one that it was
/// given, or else the one that it had.
pub open spec fn left_mtime(path: Seq<char>, replies: Seq<TransferReply>) -> Option<u64> {
    match remote_stat(path, replies) {
        Some((_, mtime)) => Some(mtime),
        None => remote_mtime(replies),
    }
}

/// The remote directories that exist after these replies, where `existing` did before: each one
/// that was made is added.
pub open spec fn dirs_after(
    existing: Set<Seq<char>>,
    path: Seq<char>,
    replies: Seq<TransferReply>,
) -> Set<Seq<char>>
    decreases replies.len(),
{
    if replies.len() == 0 {
        existing
    } else {
        let before = dirs_after(existing, path, replies.drop_last());
        match (send_file_run(path, replies.drop_last()), replies.last()) {
            (Step::Call(TransferCallView::Mkdir(dir, _), _), TransferReply::Done) => before.insert(
                dir,
            ),
            _ => before,
        }
    }
}

/// Whether each of these replies answers the call that is made when it comes, and says of a
/// directory that is looked at whether it exists.
pub open spec fn send_truthful(
    existing: Set<Seq<char>>,
    path: Seq<char>,
    replies: Seq<TransferReply>,
) -> bool
    decreases replies.len(),
{
    replies.len() > 0 ==> {
        &&& send_truthful(existing, path, replies.drop_last())
        &&& match send_file_run(path, replies.drop_last()) {
            Step::Call(_, state) => {
                &&& send_file_accepts(state, replies.last())
                &&& state.phase matches SendFilePhaseView::MakeDirs(dirs) ==> !dirs.making
                    ==> tells_existence(
                    dirs_after(existing, path, replies.drop_last()),
                    dirs.dir,
                    replies.last(),
                )
            },
            Step::Return(_) => false,
        }
    }
}

/// Whether the remote file was not there when sending looked at it.
pub open spec fn was_missing(replies: Seq<TransferReply>) -> bool {
    &&& replies.len() > 1
    &&& replies[1] matches TransferReply::SshFailed(error) && no_such_file(error)
}

/// Truthful replies are answers.
proof fn lemma_send_truthful(
    existing: Set<Seq<char>>,
    path: Seq<char>,
    replies: Seq<TransferReply>,
)
    requires
        send_truthful(existing, path, replies),
    ensures
        send_file_answers(path, replies),
    decreases replies.len(),
{
    if replies.len() > 0 {
        lemma_send_truthful(existing, path, replies.drop_last());
    }
}

/// While directories are made for a file, the run is that of making its directory. Once they are
/// made, its directory is there.
proof fn lemma_send_dirs(existing: Set<Seq<char>>, path: Seq<char>, replies: Seq<TransferReply>)
    requires
        send_truthful(existing, path, replies),
    ensures
        ({
            let rest = replies.skip(2);
            let now = dirs_after(existing, path, replies);
            match send_file_run(path, replies) {
                Step::Call(call, state) => match state.phase {
                    SendFilePhaseView::Sftp => replies.len() == 0 && now == existing,
                    SendFilePhaseView::StatRemote => replies.len() == 1 && now == existing,
                    SendFilePhaseView::MakeDirs(dirs) => {
                        &&& replies.len() >= 2
                        &&& parent_of(path) matches Some(dir) && {
                            &&& make_dirs_run(dir, DIR_MODE, rest) == MakeDirsStep::Call(call, dirs)
                            &&& truthful(existing, dir, DIR_MODE, rest)
                            &&& now == existing_after(existing, dir, DIR_MODE, rest)
                        }
                    },
                    _ => {
                        &&& replies.len() >= 2
                        &&& !(call is Mkdir)
                        &&& was_missing(replies) ==> {
                            parent_of(path) matches Some(dir) ==> given(now, dir)
                        }
                    },
                },
                Step::Return(Ok(())) => was_missing(replies) ==> {
                    parent_of(path) matches Some(dir) ==> given(now, dir)
                },
                Step::Return(Err(_)) => true,
            }
        }),
    decreases replies.len(),
{
    if replies.len() > 0 {
        let before = replies.drop_last();
        lemma_send_dirs(existing, path, before);
        lemma_send_truthful(existing, path, before);
        lemma_send_file_run(path, before);
        if before.len() >= 2 {
            assert(before[1] == replies[1]);
            assert(replies.skip(2).drop_last() =~= before.skip(2));
            assert(replies.skip(2).last() == replies.last());
        } else if replies.len() == 2 {
            assert(replies[1] == replies.last());
            assert(replies.skip(2) =~= Seq::<TransferReply>::empty());
        }
        if let Step::Call(call, state) = send_file_run(path, before) {
            if let SendFilePhaseView::MakeDirs(dirs) = state.phase {
                let dir = parent_of(path)->0;
                lemma_make_dirs_run(existing, dir, DIR_MODE, before.skip(2));
                lemma_make_dirs_run(existing, dir, DIR_MODE, replies.skip(2));
            }
        }
    }
}

/// The directory of a file that was not on the remote computer is there once the file has been
/// sent, unless it lies in none.
pub proof fn law_directories_of_a_sent_file_are_there(
    existing: Set<Seq<char>>,
    path: Seq<char>,
    dir: Seq<char>,
    replies: Seq<TransferReply>,
)
    requires
        send_truthful(existing, path, replies),
        send_file_run(path, replies) == SendFileStep::Return(Ok(())),
        was_missing(replies),
        parent_of(path) == Some(dir),
    ensures
        given(dirs_after(existing, path, replies), dir),
{
    lemma_send_dirs(existing, path, replies);
}

/// A remote file that has the modification time of the local one is up to date: nothing is sent.
/// Otherwise the local file is read.
pub proof fn law_up_to_date_file_is_not_sent(
    path: Seq<char>,
    remote: Option<u64>,
    perm: Option<u32>,
    modified: u64,
)
    ensures
        send_file_next(
            SendFileView { path, phase: SendFilePhaseView::StatLocal(remote) },
            TransferReply::LocalStat { perm, modified },
        ) == (if remote == Some(modified) {
            SendFileStep::Return(Ok(()))
        } else {
            send_file_call(
                path,
                TransferCallView::ReadLocal,
                SendFilePhaseView::ReadLocal(perm, modified),
            )
        }),
{
}

/// Where receiving a file stands after these replies, given the directory that it lies in.
pub open spec fn recv_file_run(
    path: Seq<char>,
    parent: Option<Seq<char>>,
    replies: Seq<TransferReply>,
) -> RecvFileStep
    decreases replies.len(),
{
    if replies.len() == 0 {
        recv_file_start(path, parent)
    } else {
        match recv_file_run(path, parent, replies.drop_last()) {
            Step::Call(_, state) => recv_file_next(state, replies.last()),
            Step::Return(outcome) => Step::Return(outcome),
        }
    }
}

/// Whether each of these replies answers the call that is made when it comes.
pub open spec fn recv_file_answers(
    path: Seq<char>,
    parent: Option<Seq<char>>,
    replies: Seq<TransferReply>,
) -> bool
    decreases replies.len(),
{
    replies.len() > 0 ==> {
        &&& recv_file_answers(path, parent, replies.drop_last())
        &&& match recv_file_run(path, parent, replies.drop_last()) {
            Step::Call(_, state) => recv_file_accepts(state, replies.last()),
            Step::Return(_) => false,
        }
    }
}

/// What is confirmed to be written to the local file once these replies have come, if anything is.
pub open spec fn local_written(
    path: Seq<char>,
    parent: Option<Seq<char>>,
    replies: Seq<TransferReply>,
) -> Option<Seq<u8>>
    decreases replies.len(),
{
    if replies.len() == 0 {
        None
    } else {
        match (recv_file_run(path, parent, replies.drop_last()), replies.last()) {
            (Step::Call(TransferCallView::WriteLocal(data), _), TransferReply::Done) => Some(data),
            _ => local_written(path, parent, replies.drop_last()),
        }
    }
}

/// What is known of a run of receiving a file after any replies.
proof fn lemma_recv_file_run(
    path: Seq<char>,
    parent: Option<Seq<char>>,
    replies: Seq<TransferReply>,
)
    requires
        recv_file_answers(path, parent, replies),
    ensures
        ({
            let read = contents_read(replies);
            let written = local_written(path, parent, replies);
            match recv_file_run(path, parent, replies) {
                Step::Call(call, state) => {
                    &&& written is None
                    &&& match state.phase {
                        RecvFilePhase::Write => call == TransferCallView::WriteLocal(read),
                        _ => !(call is WriteLocal) && read == Seq::<u8>::empty(),
                    }
                },
                Step::Return(Ok(())) => written == Some(read),
                Step::Return(Err(_)) => written is None,
            }
        }),
    decreases replies.len(),
{
    if replies.len() > 0 {
        let before = replies.drop_last();
        lemma_recv_file_run(path, parent, before);
        let read = contents_read(before);
        assert(read + Seq::<u8>::empty() =~= read);
        if let TransferReply::Data(data) = replies.last() {
            assert(Seq::<u8>::empty() + data@ =~= data@);
        }
    }
}

/// A file that was received with success has been written on this computer as it was read on the
/// remote one. Where receiving fails, nothing is confirmed to be written.
pub proof fn law_received_file_is_the_remote_file(
    path: Seq<char>,
    parent: Option<Seq<char>>,
    replies: Seq<TransferReply>,
)
    requires
        recv_file_answers(path, parent, replies),
    ensures
        match recv_file_run(path, parent, replies) {
            Step::Return(Ok(())) => local_written(path, parent, replies) == Some(
                contents_read(replies),
            ),
            _ => local_written(path, parent, replies) is None,
        },
{
    lemma_recv_file_run(path, parent, replies);
}

/// A file that is sent to a remote computer on which it was not up to date, and is then received
/// with the remote file read as it was written, is written on this computer as it was when it was
/// sent. The directory that it lies in is made first.
pub proof fn law_file_there_and_back(
    path: Seq<char>,
    sent: Seq<TransferReply>,
    received: Seq<TransferReply>,
)
    requires
        send_file_answers(path, sent),
        send_file_run(path, sent) == SendFileStep::Return(Ok(())),
        remote_mtime(sent) != local_mtime(sent),
        recv_file_answers(path, parent_of(path), received),
        recv_file_run(path, parent_of(path), received) == RecvFileStep::Return(Ok(())),
        contents_read(received) == remote_written(path, sent),
    ensures
        local_written(path, parent_of(path), received) == Some(contents_read(sent)),
        remote_stat(path, sent) == local_stat(sent),
        parent_of(path) matches Some(dir) ==> {
            &&& recv_file_run(path, parent_of(path), Seq::empty()) matches Step::Call(call, _)
                && call == TransferCallView::MakeLocalDirs(dir)
            &&& received.len() > 0
            &&& received[0] is Done
        },
{
    lemma_send_file_run(path, sent);
    lemma_recv_file_run(path, parent_of(path), received);
    if parent_of(path) is Some {
        lemma_local_dir_made(path, parent_of(path), received);
    }
}

/// Receiving goes past making the directory only once that is done.
proof fn lemma_local_dir_made(
    path: Seq<char>,
    parent: Option<Seq<char>>,
    replies: Seq<TransferReply>,
)
    requires
        parent is Some,
        recv_file_answers(path, parent, replies),
    ensures
        match recv_file_run(path, parent, replies) {
            Step::Call(_, state) => {
                state.phase is MakeLocalDirs && replies.len() == 0 || replies.len() > 0
                    && replies[0] is Done
            },
            Step::Return(Ok(())) => replies.len() > 0 && replies[0] is Done,
            Step::Return(Err(_)) => true,
        },
    decreases replies.len(),
{
    if replies.len() > 0 {
        let before = replies.drop_last();
        lemma_local_dir_made(path, parent, before);
        if before.len() > 0 {
            assert(before[0] == replies[0]);
        } else {
            assert(replies[0] == replies.last());
        }
    }
}

} // verus!
