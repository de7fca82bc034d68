//! Laws of forwarding: everything that is read is written, sessions are left as they were found,
//! and only closed sources are dropped.

use crate::error::ErrorKind;
use crate::forwarder::{
    ascending_below, forward_next, forward_sweep, swap_removed, ForwardCallView, ForwardPhase,
    ForwardReply, ForwardStep, ForwarderView, Source,
};
use vstd::multiset::Multiset;
use vstd::prelude::*;

verus! {

/// The sources that are left once those at the given places are dropped, from the last to the
/// first.
pub open spec fn swept(sources: Seq<Source>, dead: Seq<usize>) -> Seq<Source>
    decreases dead.len(),
{
    if dead.len() == 0 {
        sources
    } else {
        swept(swap_removed(sources, dead.last() as int), dead.drop_last())
    }
}

/// The sources at the given places.
pub open spec fn closed(sources: Seq<Source>, dead: Seq<usize>) -> Seq<Source> {
    dead.map_values(|place: usize| sources[place as int])
}

/// Letting the last element take a place removes exactly the element at that place.
proof fn lemma_swap_removed(sources: Seq<Source>, place: int)
    requires
        0 <= place < sources.len(),
    ensures
        swap_removed(sources, place).to_multiset().insert(sources[place]) == sources.to_multiset(),
{
    broadcast use vstd::seq_lib::group_to_multiset_ensures;

    let front = sources.drop_last();
    let last = sources.last();
    assert(sources =~= front.push(last));
    if place == sources.len() - 1 {
        assert(swap_removed(sources, place) =~= front);
    } else {
        assert(swap_removed(sources, place) =~= front.remove(place).insert(place, last));
        vstd::seq_lib::to_multiset_insert(front.remove(place), place, last);
        assert(front.contains(front[place]));
        assert(front.to_multiset().remove(front[place]).insert(last).insert(front[place])
            =~= front.to_multiset().insert(last));
    }
}

/// Dropping the closed sources drops each of them once and leaves all the others, although the
/// others change their places.
pub proof fn law_only_closed_sources_are_dropped(sources: Seq<Source>, dead: Seq<usize>)
    requires
        ascending_below(dead, sources.len() as int),
    ensures
        swept(sources, dead).to_multiset().add(closed(sources, dead).to_multiset())
            == sources.to_multiset(),
        swept(sources, dead).len() == sources.len() - dead.len(),
    decreases dead.len(),
{
    broadcast use vstd::seq_lib::group_to_multiset_ensures;

    if dead.len() == 0 {
        assert(closed(sources, dead) =~= Seq::<Source>::empty());
        assert(Seq::<Source>::empty().to_multiset() =~= Multiset::<Source>::empty());
        assert(sources.to_multiset().add(Multiset::empty()) =~= sources.to_multiset());
    } else {
        let place = dead.last() as int;
        let before = dead.drop_last();
        let rest = swap_removed(sources, place);
        assert(dead[dead.len() - 1] == dead.last());
        assert forall|i: int| 0 <= i < before.len() implies before[i] < rest.len() by {
            assert(dead[i] < dead[dead.len() - 1]);
        }
        law_only_closed_sources_are_dropped(rest, before);
        lemma_swap_removed(sources, place);
        assert(closed(rest, before) =~= closed(sources, before)) by {
            assert forall|i: int| 0 <= i < before.len() implies #[trigger] closed(rest, before)[i]
                == closed(sources, before)[i] by {
                assert(dead[i] < dead[dead.len() - 1]);
            }
        }
        assert(closed(sources, dead) =~= closed(sources, before).push(sources[place]));
        assert(swept(rest, before).to_multiset().add(
            closed(sources, before).to_multiset().insert(sources[place]),
        ) =~= swept(rest, before).to_multiset().add(closed(sources, before).to_multiset()).insert(
            sources[place],
        ));
    }
}

/// The state in which a new source is looked for, once all closed sources are dropped.
pub open spec fn sweep_all(forwarder: ForwarderView) -> ForwarderView
    decreases forwarder.dead.len(),
{
    if forwarder.dead.len() == 0 {
        forward_sweep(forwarder).0
    } else {
        sweep_all(forward_sweep(forwarder).0)
    }
}

/// At the end of a round exactly the sources that were found closed are gone, and a new source is
/// looked for.
pub proof fn law_round_ends_with_open_sources(forwarder: ForwarderView)
    ensures
        sweep_all(forwarder).sources == swept(forwarder.sources, forwarder.dead),
        sweep_all(forwarder).phase == ForwardPhase::Poll,
        sweep_all(forwarder).dead.len() == 0,
    decreases forwarder.dead.len(),
{
    if forwarder.dead.len() > 0 {
        law_round_ends_with_open_sources(forward_sweep(forwarder).0);
    }
}

/// A forwarder that has no sources yet, and what it asks first.
pub open spec fn forward_start() -> ForwardStep {
    (
        ForwarderView {
            sources: Seq::empty(),
            dead: Seq::empty(),
            phase: ForwardPhase::Poll,
        },
        Some(ForwardCallView::Receive),
    )
}

/// Where forwarding stands after these replies.
pub open spec fn forward_run(replies: Seq<ForwardReply>) -> ForwardStep
    decreases replies.len(),
{
    if replies.len() == 0 {
        forward_start()
    } else {
        let before = forward_run(replies.drop_last());
        if before.1 is Some {
            forward_next(before.0, replies.last())
        } else {
            before
        }
    }
}

/// Whether each of these replies answers what is asked when it comes.
pub open spec fn forward_answers(replies: Seq<ForwardReply>) -> bool
    decreases replies.len(),
{
    replies.len() > 0 ==> {
        let before = forward_run(replies.drop_last());
        &&& forward_answers(replies.drop_last())
        &&& before.1 is Some
        &&& before.0.accepted(replies.last())
    }
}

/// The data that came with these replies, in order.
pub open spec fn data_read(replies: Seq<ForwardReply>) -> Seq<u8>
    decreases replies.len(),
{
    if replies.len() == 0 {
        Seq::empty()
    } else {
        data_read(replies.drop_last()) + match replies.last() {
            ForwardReply::Data(data) => data@,
            _ => Seq::empty(),
        }
    }
}

/// The data that was asked to be written once these replies have come, in order.
pub open spec fn data_written(replies: Seq<ForwardReply>) -> Seq<u8>
    decreases replies.len(),
{
    if replies.len() == 0 {
        Seq::empty()
    } else {
        data_written(replies.drop_last()) + match forward_run(replies).1 {
            Some(ForwardCallView::Write(data)) => data,
            _ => Seq::empty(),
        }
    }
}

/// Every state that forwarding comes to is well formed.
pub proof fn law_forwarding_stays_well_formed(replies: Seq<ForwardReply>)
    requires
        forward_answers(replies),
    ensures
        forward_run(replies).0.well_formed(),
    decreases replies.len(),
{
    if replies.len() > 0 {
        law_forwarding_stays_well_formed(replies.drop_last());
        lemma_well_formed_step(forward_run(replies.drop_last()).0, replies.last());
    }
}

proof fn lemma_well_formed_step(forwarder: ForwarderView, reply: ForwardReply)
    requires
        forwarder.well_formed(),
        forwarder.accepted(reply),
    ensures
        forward_next(forwarder, reply).0.well_formed(),
{
    let next = forward_next(forwarder, reply).0;
    match forwarder.phase {
        ForwardPhase::Drop => {
            if forwarder.dead.len() > 0 {
                assert(forwarder.dead[forwarder.dead.len() - 1] == forwarder.dead.last());
            }
        },
        ForwardPhase::Read(place) => {
            let dead = forwarder.dead.push(place);
            assert(ascending_below(dead, place + 1));
            assert(dead.drop_last() =~= forwarder.dead);
        },
        ForwardPhase::Leave(place) => {
            if forwarder.dead.len() > 0 {
                assert(forwarder.dead[forwarder.dead.len() - 1] == forwarder.dead.last());
            }
        },
        _ => {},
    }
}

/// Whatever is read is written, in the order in which it was read, before anything else is read.
pub proof fn law_everything_read_is_written(replies: Seq<ForwardReply>)
    requires
        forward_answers(replies),
    ensures
        data_written(replies) == data_read(replies),
    decreases replies.len(),
{
    if replies.len() > 0 {
        let before = replies.drop_last();
        law_everything_read_is_written(before);
        match (forward_run(before).0.phase, replies.last()) {
            (ForwardPhase::Read(_), ForwardReply::Data(data)) => {
                if data@.len() == 0 {
                    assert(data@ =~= Seq::<u8>::empty());
                }
            },
            _ => {},
        }
    }
}

/// The data that came with these replies from the source `id`, in order.
pub open spec fn data_read_of(replies: Seq<ForwardReply>, id: u64) -> Seq<u8>
    decreases replies.len(),
{
    if replies.len() == 0 {
        Seq::empty()
    } else {
        data_read_of(replies.drop_last(), id) + match (
            forward_run(replies.drop_last()).1,
            replies.last(),
        ) {
            (Some(ForwardCallView::Read(source)), ForwardReply::Data(data)) if source == id => data@,
            _ => Seq::empty(),
        }
    }
}

/// What a step of forwarding asks to be written while it visits the source `id`.
pub open spec fn written_of(step: ForwardStep, id: u64) -> Seq<u8> {
    match (step.0.phase, step.1) {
        (ForwardPhase::Write(place), Some(ForwardCallView::Write(data))) => {
            if step.0.sources[place as int].id == id {
                data
            } else {
                Seq::empty()
            }
        },
        _ => Seq::empty(),
    }
}

/// The data of the source `id` that was asked to be written once these replies have come, in order.
pub open spec fn data_written_of(replies: Seq<ForwardReply>, id: u64) -> Seq<u8>
    decreases replies.len(),
{
    if replies.len() == 0 {
        Seq::empty()
    } else {
        data_written_of(replies.drop_last(), id) + written_of(forward_run(replies), id)
    }
}

/// Forwarding waits for a read exactly while it asks for one, from the source that it visits.
proof fn lemma_forward_call(replies: Seq<ForwardReply>)
    requires
        forward_answers(replies),
    ensures
        ({
            let (now, call) = forward_run(replies);
            match now.phase {
                ForwardPhase::Read(place) => {
                    call == Some(ForwardCallView::Read(now.sources[place as int].id))
                },
                _ => !(call matches Some(ForwardCallView::Read(_))),
            }
        }),
    decreases replies.len(),
{
    if replies.len() > 0 {
        lemma_forward_call(replies.drop_last());
        law_forwarding_stays_well_formed(replies.drop_last());
    }
}

/// For each source, whatever is read of it is written, in the order in which it was read and before
/// anything else is read, however many other sources there are.
pub proof fn law_each_source_is_written(replies: Seq<ForwardReply>, id: u64)
    requires
        forward_answers(replies),
    ensures
        data_written_of(replies, id) == data_read_of(replies, id),
    decreases replies.len(),
{
    if replies.len() > 0 {
        let before = replies.drop_last();
        law_each_source_is_written(before, id);
        lemma_forward_call(before);
        law_forwarding_stays_well_formed(before);
        match (forward_run(before).0.phase, replies.last()) {
            (ForwardPhase::Read(_), ForwardReply::Data(data)) => {
                if data@.len() == 0 {
                    assert(data@ =~= Seq::<u8>::empty());
                }
            },
            _ => {},
        }
    }
}

/// Where forwarding stands after these replies, when it starts by looking for a new source.
pub open spec fn forward_from(start: ForwarderView, replies: Seq<ForwardReply>) -> ForwardStep
    decreases replies.len(),
{
    if replies.len() == 0 {
        (start, Some(ForwardCallView::Receive))
    } else {
        let before = forward_from(start, replies.drop_last());
        if before.1 is Some {
            forward_next(before.0, replies.last())
        } else {
            before
        }
    }
}

/// Whether each of these replies answers what is asked when it comes, within one round: only the
/// first of them answers the question for a new source.
pub open spec fn round_answers(start: ForwarderView, replies: Seq<ForwardReply>) -> bool
    decreases replies.len(),
{
    replies.len() > 0 ==> {
        let before = forward_from(start, replies.drop_last());
        &&& round_answers(start, replies.drop_last())
        &&& before.1 is Some
        &&& before.0.accepted(replies.last())
        &&& before.0.phase == ForwardPhase::Poll ==> replies.len() == 1
    }
}

/// Forwarding goes round by round: where a new source is looked for, what follows is as if it had
/// started there.
pub proof fn law_forwarding_goes_round_by_round(
    replies: Seq<ForwardReply>,
    more: Seq<ForwardReply>,
)
    requires
        forward_run(replies).1 == Some(ForwardCallView::Receive),
    ensures
        forward_run(replies + more) == forward_from(forward_run(replies).0, more),
    decreases more.len(),
{
    if more.len() == 0 {
        assert(replies + more =~= replies);
    } else {
        law_forwarding_goes_round_by_round(replies, more.drop_last());
        assert((replies + more).drop_last() =~= replies + more.drop_last());
    }
}

/// The sources of a round: those that are open when it starts, and the new one if one has come.
pub open spec fn round_sources(start: ForwarderView, replies: Seq<ForwardReply>) -> Seq<Source> {
    if replies.len() > 0 {
        match replies[0] {
            ForwardReply::Message(source) => start.sources.push(source),
            _ => start.sources,
        }
    } else {
        start.sources
    }
}

/// The sources that were asked for data once these replies have come.
pub open spec fn asked(start: ForwarderView, replies: Seq<ForwardReply>) -> Set<u64>
    decreases replies.len(),
{
    if replies.len() == 0 {
        Set::empty()
    } else {
        match forward_from(start, replies).1 {
            Some(ForwardCallView::Read(id)) => asked(start, replies.drop_last()).insert(id),
            _ => asked(start, replies.drop_last()),
        }
    }
}

/// Whether a reply to a read closes the source: it has ended, or failed for good.
pub open spec fn closes(reply: ForwardReply) -> bool {
    match reply {
        ForwardReply::Data(data) => data@.len() == 0,
        ForwardReply::Failed(error) => error.kind != ErrorKind::WouldBlock,
        _ => false,
    }
}

/// The places of the sources that these replies have closed, in order.
pub open spec fn found_closed(start: ForwarderView, replies: Seq<ForwardReply>) -> Seq<usize>
    decreases replies.len(),
{
    if replies.len() == 0 {
        Seq::empty()
    } else {
        let before = found_closed(start, replies.drop_last());
        match forward_from(start, replies.drop_last()).0.phase {
            ForwardPhase::Read(place) if closes(replies.last()) => before.push(place),
            _ => before,
        }
    }
}

/// Whether the sources at all places below this one have been asked for data.
pub open spec fn asked_below(sources: Seq<Source>, ids: Set<u64>, place: int) -> bool {
    forall|i: int| 0 <= i < place && i < sources.len() ==> ids.contains(#[trigger] sources[i].id)
}

/// What is known in the middle of a round, of its sources, of those that were asked for data and of
/// those that were found closed.
spec fn round_known(
    now: ForwarderView,
    sources: Seq<Source>,
    ids: Set<u64>,
    found: Seq<usize>,
) -> bool {
    match now.phase {
        ForwardPhase::Idle => now.sources == sources && sources.len() == 0 && found.len() == 0,
        ForwardPhase::Enter(place) => {
            &&& now.sources == sources
            &&& now.dead == found
            &&& asked_below(sources, ids, place as int)
        },
        ForwardPhase::Read(place) | ForwardPhase::Write(place) | ForwardPhase::Leave(place) => {
            &&& now.sources == sources
            &&& now.dead == found
            &&& asked_below(sources, ids, place + 1)
        },
        ForwardPhase::Drop | ForwardPhase::Poll => {
            &&& swept(now.sources, now.dead) == swept(sources, found)
            &&& ascending_below(found, sources.len() as int)
            &&& asked_below(sources, ids, sources.len() as int)
        },
    }
}

/// What is known of a round after any replies.
proof fn lemma_round(start: ForwarderView, replies: Seq<ForwardReply>)
    requires
        start.well_formed(),
        start.phase == ForwardPhase::Poll,
        round_answers(start, replies),
    ensures
        forward_from(start, replies).0.well_formed(),
        replies.len() > 0 && forward_from(start, replies).1 is Some ==> round_known(
            forward_from(start, replies).0,
            round_sources(start, replies),
            asked(start, replies),
            found_closed(start, replies),
        ),
    decreases replies.len(),
{
    if replies.len() > 0 {
        let before = replies.drop_last();
        lemma_round(start, before);
        let held = forward_from(start, before).0;
        lemma_well_formed_step(held, replies.last());
        if before.len() > 0 {
            assert(before[0] == replies[0]);
        } else {
            assert(replies[0] == replies.last());
            assert(found_closed(start, before) =~= Seq::<usize>::empty());
        }
        if held.phase is Poll || held.phase is Idle {
            assert(held.dead =~= found_closed(start, replies));
        }
    }
}

/// Every open source is visited in each round, and the end of one does not stop the others. When a
/// round is over, each of the sources that were open, and the new one if one has come, has been
/// asked for data. Exactly those that were found closed are gone, and all the others are kept.
pub proof fn law_round_visits_every_source(start: ForwarderView, replies: Seq<ForwardReply>)
    requires
        start.well_formed(),
        start.phase == ForwardPhase::Poll,
        round_answers(start, replies),
        replies.len() > 0,
        forward_from(start, replies).1 == Some(ForwardCallView::Receive),
        forward_from(start, replies).0.phase == ForwardPhase::Poll,
    ensures
        ({
            let sources = round_sources(start, replies);
            let found = found_closed(start, replies);
            &&& forall|i: int|
                0 <= i < sources.len() ==> asked(start, replies).contains(#[trigger] sources[i].id)
            &&& forward_from(start, replies).0.sources.to_multiset().add(
                closed(sources, found).to_multiset(),
            ) == sources.to_multiset()
        }),
{
    lemma_round(start, replies);
    let end = forward_from(start, replies).0;
    assert(end.dead =~= Seq::<usize>::empty());
    law_only_closed_sources_are_dropped(
        round_sources(start, replies),
        found_closed(start, replies),
    );
}

/// A source is exhausted before the next is visited: whatever it gives is written and it is read
/// again, until it would block, has ended or has failed.
pub proof fn law_source_is_exhausted(forwarder: ForwarderView, place: usize, reply: ForwardReply)
    requires
        forwarder.phase == ForwardPhase::Read(place),
        forwarder.accepted(reply),
    ensures
        match reply {
            ForwardReply::Data(data) if data@.len() > 0 => {
                let (writing, call) = forward_next(forwarder, reply);
                &&& call == Some(ForwardCallView::Write(data@))
                &&& forward_next(writing, ForwardReply::Done) == (
                    forwarder,
                    Some(ForwardCallView::Read(forwarder.sources[place as int].id)),
                )
            },
            _ => !(forward_next(forwarder, reply).0.phase is Write),
        },
{
}

/// How often a call enters the non-blocking behaviour of the session of a source; leaving it
/// counts the other way.
pub open spec fn entries(call: Option<ForwardCallView>, id: u64) -> int {
    match call {
        Some(ForwardCallView::Session { id: source, blocking }) => if source != id {
            0
        } else if blocking {
            -1
        } else {
            1
        },
        _ => 0,
    }
}

/// How often these replies have had the session of a source entered and not left.
pub open spec fn balance(replies: Seq<ForwardReply>, id: u64) -> int
    decreases replies.len(),
{
    if replies.len() == 0 {
        0
    } else {
        balance(replies.drop_last(), id) + entries(forward_run(replies).1, id)
    }
}

/// Whether the remote source `id` is being visited.
pub open spec fn visiting(forwarder: ForwarderView, id: u64) -> bool {
    match forwarder.phase {
        ForwardPhase::Enter(place) | ForwardPhase::Read(place) | ForwardPhase::Write(place) => {
            forwarder.sources[place as int] == (Source { id, remote: true })
        },
        _ => false,
    }
}

/// The session of a source is entered once when the source is visited and left once after it, so
/// that between visits, between rounds and at the end it is as it was found.
pub proof fn law_sessions_left_as_found(replies: Seq<ForwardReply>, id: u64)
    requires
        forward_answers(replies),
    ensures
        balance(replies, id) == (if visiting(forward_run(replies).0, id) {
            1int
        } else {
            0int
        }),
    decreases replies.len(),
{
    if replies.len() > 0 {
        let before = replies.drop_last();
        law_sessions_left_as_found(before, id);
        law_forwarding_stays_well_formed(before);
    }
}

/// The numbers of these sources, in order.
pub open spec fn ids_of(sources: Seq<Source>) -> Seq<u64> {
    Seq::new(sources.len(), |i: int| sources[i].id)
}

/// The sources whose visits have begun to read once these replies have come, in order. Reading on
/// after a write belongs to the same visit.
pub open spec fn visits(start: ForwarderView, replies: Seq<ForwardReply>) -> Seq<u64>
    decreases replies.len(),
{
    if replies.len() == 0 {
        Seq::empty()
    } else {
        let had = visits(start, replies.drop_last());
        match (forward_from(start, replies.drop_last()).1, forward_from(start, replies).1) {
            (Some(ForwardCallView::Write(_)), _) => had,
            (_, Some(ForwardCallView::Read(id))) => had.push(id),
            _ => had,
        }
    }
}

/// The sources that these replies have closed, in the order in which they were read.
pub open spec fn endings(start: ForwarderView, replies: Seq<ForwardReply>) -> Seq<u64>
    decreases replies.len(),
{
    if replies.len() == 0 {
        Seq::empty()
    } else {
        let had = endings(start, replies.drop_last());
        match forward_from(start, replies.drop_last()).1 {
            Some(ForwardCallView::Read(id)) if closes(replies.last()) => had.push(id),
            _ => had,
        }
    }
}

/// The sources that were asked to be dropped once these replies have come, in order.
pub open spec fn drops(start: ForwarderView, replies: Seq<ForwardReply>) -> Seq<u64>
    decreases replies.len(),
{
    if replies.len() == 0 {
        Seq::empty()
    } else {
        let had = drops(start, replies.drop_last());
        match forward_from(start, replies).1 {
            Some(ForwardCallView::Drop(id)) => had.push(id),
            _ => had,
        }
    }
}

/// What is asked for in the middle of a round, with the order of the sources.
spec fn course_known(
    now: ForwarderView,
    call: Option<ForwardCallView>,
    sources: Seq<Source>,
    visited: Seq<u64>,
    ended: Seq<u64>,
    dropped: Seq<u64>,
) -> bool {
    let ids = ids_of(sources);
    match now.phase {
        ForwardPhase::Poll => {
            &&& call is Some ==> {
                &&& call == Some(ForwardCallView::Receive)
                &&& visited == ids
                &&& ended == dropped.reverse()
            }
        },
        ForwardPhase::Idle => {
            &&& call == Some(ForwardCallView::Yield)
            &&& now.sources == sources
            &&& sources.len() == 0
            &&& visited.len() == 0 && ended.len() == 0 && dropped.len() == 0
        },
        ForwardPhase::Enter(place) => {
            &&& now.sources == sources
            &&& visited == ids.take(place as int)
            &&& ended == ids_of(closed(sources, now.dead))
            &&& dropped.len() == 0
            &&& sources[place as int].remote
            &&& call == Some(
                ForwardCallView::Session { id: sources[place as int].id, blocking: false },
            )
        },
        ForwardPhase::Read(place) => {
            &&& now.sources == sources
            &&& visited == ids.take(place + 1)
            &&& ended == ids_of(closed(sources, now.dead))
            &&& dropped.len() == 0
            &&& call == Some(ForwardCallView::Read(sources[place as int].id))
        },
        ForwardPhase::Write(place) => {
            &&& now.sources == sources
            &&& visited == ids.take(place + 1)
            &&& ended == ids_of(closed(sources, now.dead))
            &&& dropped.len() == 0
            &&& call matches Some(ForwardCallView::Write(_))
        },
        ForwardPhase::Leave(place) => {
            &&& now.sources == sources
            &&& visited == ids.take(place + 1)
            &&& ended == ids_of(closed(sources, now.dead))
            &&& dropped.len() == 0
            &&& sources[place as int].remote
            &&& call == Some(
                ForwardCallView::Session { id: sources[place as int].id, blocking: true },
            )
        },
        ForwardPhase::Drop => {
            &&& visited == ids
            &&& ended == ids_of(closed(now.sources, now.dead)) + dropped.reverse()
            &&& dropped.len() > 0
            &&& call == Some(ForwardCallView::Drop(dropped.last()))
        },
    }
}

/// Closing one more source adds its number.
proof fn lemma_closed_push(sources: Seq<Source>, dead: Seq<usize>, place: usize)
    ensures
        ids_of(closed(sources, dead.push(place))) == ids_of(closed(sources, dead)).push(
            sources[place as int].id,
        ),
{
    assert(closed(sources, dead.push(place)) =~= closed(sources, dead).push(
        sources[place as int],
    ));
    assert(ids_of(closed(sources, dead.push(place))) =~= ids_of(closed(sources, dead)).push(
        sources[place as int].id,
    ));
}

/// Dropping the last of the closed sources takes its number away from those that are still to be
/// dropped.
proof fn lemma_closed_drop(sources: Seq<Source>, dead: Seq<usize>, dropped: Seq<u64>)
    requires
        dead.len() > 0,
        ascending_below(dead, sources.len() as int),
    ensures
        ({
            let place = dead.last() as int;
            let rest = swap_removed(sources, place);
            &&& ids_of(closed(sources, dead)) + dropped.reverse() == ids_of(
                closed(rest, dead.drop_last()),
            ) + dropped.push(sources[place].id).reverse()
        }),
{
    let place = dead.last() as int;
    let rest = swap_removed(sources, place);
    let before = dead.drop_last();
    assert(dead[dead.len() - 1] == dead.last());
    assert forall|i: int| 0 <= i < before.len() implies #[trigger] closed(rest, before)[i]
        == closed(sources, dead)[i] by {
        assert(dead[i] < dead[dead.len() - 1]);
    }
    let left = ids_of(closed(sources, dead)) + dropped.reverse();
    let right = ids_of(closed(rest, before)) + dropped.push(sources[place].id).reverse();
    assert forall|i: int| 0 <= i < left.len() implies left[i] == right[i] by {
        if i < before.len() {
            assert(closed(rest, before)[i] == closed(sources, dead)[i]);
        }
    }
    assert(left =~= right);
}

/// What is known of the course of a round after any replies.
proof fn lemma_course(start: ForwarderView, replies: Seq<ForwardReply>)
    requires
        start.well_formed(),
        start.phase == ForwardPhase::Poll,
        round_answers(start, replies),
        replies.len() > 0,
    ensures
        forward_from(start, replies).0.well_formed(),
        course_known(
            forward_from(start, replies).0,
            forward_from(start, replies).1,
            round_sources(start, replies),
            visits(start, replies),
            endings(start, replies),
            drops(start, replies),
        ),
    decreases replies.len(),
{
    let before = replies.drop_last();
    lemma_round(start, before);
    let (held, call) = forward_from(start, before);
    lemma_well_formed_step(held, replies.last());
    if before.len() > 0 {
        lemma_course(start, before);
        assert(before[0] == replies[0]);
    } else {
        assert(replies[0] == replies.last());
        assert(visits(start, before) =~= Seq::<u64>::empty());
        assert(endings(start, before) =~= Seq::<u64>::empty());
        assert(drops(start, before) =~= Seq::<u64>::empty());
    }
    lemma_course_step(
        held,
        call,
        replies.last(),
        round_sources(start, before),
        round_sources(start, replies),
        visits(start, before),
        visits(start, replies),
        endings(start, before),
        endings(start, replies),
        drops(start, before),
        drops(start, replies),
        before.len() == 0,
    );
}

/// One step in the course of a round.
#[verifier::spinoff_prover]
#[verifier::rlimit(60)]
proof fn lemma_course_step(
    held: ForwarderView,
    call: Option<ForwardCallView>,
    reply: ForwardReply,
    old_sources: Seq<Source>,
    sources: Seq<Source>,
    visited: Seq<u64>,
    now_visited: Seq<u64>,
    ended: Seq<u64>,
    now_ended: Seq<u64>,
    dropped: Seq<u64>,
    now_dropped: Seq<u64>,
    first: bool,
)
    requires
        held.well_formed(),
        held.accepted(reply),
        forward_next(held, reply).0.well_formed(),
        first ==> {
            &&& held.phase is Poll
            &&& call == Some(ForwardCallView::Receive)
            &&& visited.len() == 0 && ended.len() == 0 && dropped.len() == 0
            &&& sources == match reply {
                ForwardReply::Message(source) => held.sources.push(source),
                _ => held.sources,
            }
        },
        !first ==> {
            &&& !(held.phase is Poll)
            &&& sources == old_sources
            &&& course_known(held, call, old_sources, visited, ended, dropped)
        },
        now_visited == match (call, forward_next(held, reply).1) {
            (Some(ForwardCallView::Write(_)), _) => visited,
            (_, Some(ForwardCallView::Read(id))) => visited.push(id),
            _ => visited,
        },
        now_ended == match call {
            Some(ForwardCallView::Read(id)) if closes(reply) => ended.push(id),
            _ => ended,
        },
        now_dropped == match forward_next(held, reply).1 {
            Some(ForwardCallView::Drop(id)) => dropped.push(id),
            _ => dropped,
        },
    ensures
        course_known(
            forward_next(held, reply).0,
            forward_next(held, reply).1,
            sources,
            now_visited,
            now_ended,
            now_dropped,
        ),
{
    let (now, next) = forward_next(held, reply);
    let ids = ids_of(sources);
    let empty = Seq::<u64>::empty();
    assert(ids.take(0) =~= empty);
    assert(ids.take(ids.len() as int) =~= ids);
    assert(empty.reverse() =~= empty);
    assert forall|place: int| 0 <= place < ids.len() implies ids.take(place).push(ids[place])
        == #[trigger] ids.take(place + 1) by {
        assert(ids.take(place).push(ids[place]) =~= ids.take(place + 1));
    }
    if first || held.phase is Idle {
        assert(visited =~= empty && ended =~= empty && dropped =~= empty);
        assert(held.dead =~= Seq::<usize>::empty());
        assert(ids_of(closed(sources, held.dead)) =~= empty);
    } else {
        match held.phase {
            ForwardPhase::Read(place) => {
                lemma_closed_push(sources, held.dead, place);
                let dead = held.dead.push(place);
                assert(ascending_below(dead, place + 1));
                assert(ids.take(place + 1 + 1) == ids.take(place + 1).push(ids[place + 1]) || place
                    + 1 >= ids.len());
                assert(dropped =~= empty);
                if held.dead.len() > 0 {
                    lemma_closed_drop(sources, held.dead, empty);
                } else {
                    assert(ids_of(closed(sources, held.dead)) =~= empty);
                }
                lemma_closed_drop(sources, dead, empty);
                assert(ids_of(closed(sources, held.dead)) + empty =~= ids_of(
                    closed(sources, held.dead),
                ));
                assert(ids_of(closed(sources, dead)) + empty =~= ids_of(closed(sources, dead)));
            },
            ForwardPhase::Leave(place) => {
                assert(dropped =~= empty);
                if held.dead.len() > 0 {
                    lemma_closed_drop(sources, held.dead, empty);
                } else {
                    assert(ids_of(closed(sources, held.dead)) =~= empty);
                }
                assert(ids_of(closed(sources, held.dead)) + empty =~= ids_of(
                    closed(sources, held.dead),
                ));
                assert(ids.take(place + 1 + 1) == ids.take(place + 1).push(ids[place + 1]) || place
                    + 1 >= ids.len());
            },
            ForwardPhase::Drop => {
                if held.dead.len() > 0 {
                    lemma_closed_drop(held.sources, held.dead, dropped);
                } else {
                    assert(ids_of(closed(held.sources, held.dead)) + dropped.reverse()
                        =~= dropped.reverse());
                }
            },
            _ => {},
        }
    }
}

/// What forwarding asks for, in every round.
///
/// It ends where no new source can come, and there only. Without sources it lets other threads run.
/// Otherwise it visits the sources in order, each once: the session of a remote one is entered, the
/// source is read, what it gives is written and it is read on, and the session is left. Then the
/// sources that have ended or failed are dropped, the last one first, and a new source is looked
/// for.
#[verifier::spinoff_prover]
#[verifier::rlimit(60)]
pub proof fn law_what_forwarding_asks(start: ForwarderView, replies: Seq<ForwardReply>)
    requires
        start.well_formed(),
        start.phase == ForwardPhase::Poll,
        round_answers(start, replies),
        replies.len() > 0,
    ensures
        ({
            let sources = round_sources(start, replies);
            let ids = ids_of(sources);
            let visited = visits(start, replies);
            let dropped = drops(start, replies);
            let last = visited.len() - 1;
            let here = visits(start, replies.drop_last()).len() - 1;
            let asked_before = forward_from(start, replies.drop_last()).1;
            let written = (replies.last() matches ForwardReply::Data(data) && data@.len() > 0);
            &&& match forward_from(start, replies).1 {
                None => replies.len() == 1 && replies[0] is Disconnected,
                Some(ForwardCallView::Receive) => {
                    &&& visited == ids
                    &&& dropped == endings(start, replies).reverse()
                    &&& !(asked_before == Some(ForwardCallView::Receive))
                },
                Some(ForwardCallView::Yield) => {
                    replies.len() == 1 && replies[0] is Empty && sources.len() == 0
                },
                Some(ForwardCallView::Session { id, blocking: false }) => {
                    &&& visited.len() < sources.len()
                    &&& visited == ids.take(visited.len() as int)
                    &&& dropped.len() == 0
                    &&& sources[visited.len() as int] == (Source { id, remote: true })
                },
                Some(ForwardCallView::Session { id, blocking: true }) => {
                    &&& 0 < visited.len() <= sources.len()
                    &&& visited == ids.take(visited.len() as int)
                    &&& dropped.len() == 0
                    &&& sources[last] == (Source { id, remote: true })
                    &&& asked_before == Some(ForwardCallView::Read(id))
                    &&& !written
                },
                Some(ForwardCallView::Read(id)) => {
                    &&& 0 < visited.len() <= sources.len()
                    &&& visited == ids.take(visited.len() as int)
                    &&& dropped.len() == 0
                    &&& sources[last].id == id
                    &&& sources[last].remote ==> {
                        ||| asked_before == Some(ForwardCallView::Session { id, blocking: false })
                        ||| (asked_before matches Some(ForwardCallView::Write(_)))
                    }
                },
                Some(ForwardCallView::Write(data)) => {
                    &&& 0 < visited.len() <= sources.len()
                    &&& visited == ids.take(visited.len() as int)
                    &&& dropped.len() == 0
                    &&& asked_before == Some(ForwardCallView::Read(sources[last].id))
                    &&& replies.last() matches ForwardReply::Data(read) && read@ == data
                        && data.len() > 0
                },
                Some(ForwardCallView::Drop(id)) => {
                    &&& visited == ids
                    &&& 0 < dropped.len() <= endings(start, replies).len()
                    &&& dropped == endings(start, replies).reverse().take(dropped.len() as int)
                    &&& dropped.last() == id
                },
            }
            &&& replies.last() is Disconnected ==> forward_from(start, replies).1 is None
            &&& match asked_before {
                Some(ForwardCallView::Session { id, blocking: false }) => {
                    forward_from(start, replies).1 == Some(ForwardCallView::Read(id))
                },
                Some(ForwardCallView::Write(_)) => {
                    forward_from(start, replies).1 == Some(ForwardCallView::Read(sources[last].id))
                },
                Some(ForwardCallView::Read(id)) => {
                    &&& written ==> (forward_from(start, replies).1 matches Some(
                        ForwardCallView::Write(_),
                    ))
                    &&& !written && sources[here].remote ==> forward_from(start, replies).1 == Some(
                        ForwardCallView::Session { id, blocking: true },
                    )
                },
                _ => true,
            }
        }),
{
    let before = replies.drop_last();
    lemma_course(start, replies);
    let (held, call) = forward_from(start, before);
    let (now, next) = forward_from(start, replies);
    if before.len() > 0 {
        lemma_course(start, before);
        assert(before[0] == replies[0]);
    } else {
        assert(replies[0] == replies.last());
    }
    let ended = endings(start, replies);
    let dropped = drops(start, replies);
    if now.phase is Poll {
        assert(dropped.reverse().reverse() =~= dropped);
    }
    if now.phase is Drop {
        let rest = ids_of(closed(now.sources, now.dead));
        assert(dropped =~= ended.reverse().take(dropped.len() as int));
    }
}

/// Forwarding ends exactly where the question for a new source is answered with the news that none
/// can come. After any other reply it asks for something.
pub proof fn law_forwarding_ends_only_when_disconnected(replies: Seq<ForwardReply>)
    requires
        forward_answers(replies),
        replies.len() > 0,
    ensures
        forward_run(replies).1 is None <==> replies.last() is Disconnected,
        replies.last() is Disconnected ==> forward_run(replies.drop_last()).1 == Some(
            ForwardCallView::Receive,
        ),
{
    lemma_forward_asked(replies.drop_last());
}

/// What forwarding waits for is what it has asked for.
proof fn lemma_forward_asked(replies: Seq<ForwardReply>)
    requires
        forward_answers(replies),
    ensures
        ({
            let (now, call) = forward_run(replies);
            call is Some ==> match now.phase {
                ForwardPhase::Poll => call == Some(ForwardCallView::Receive),
                ForwardPhase::Idle => call == Some(ForwardCallView::Yield),
                ForwardPhase::Enter(_) => {
                    call matches Some(ForwardCallView::Session { blocking: false, .. })
                },
                ForwardPhase::Leave(_) => {
                    call matches Some(ForwardCallView::Session { blocking: true, .. })
                },
                ForwardPhase::Read(_) => call matches Some(ForwardCallView::Read(_)),
                ForwardPhase::Write(_) => call matches Some(ForwardCallView::Write(_)),
                ForwardPhase::Drop => call matches Some(ForwardCallView::Drop(_)),
            }
        }),
    decreases replies.len(),
{
    if replies.len() > 0 {
        lemma_forward_asked(replies.drop_last());
    }
}

/// Which replies forwarding takes: to the question for a new source a source, while there is memory
/// for one more, or the news that there is none or that none can come; to a read up to 8192 bytes
/// or any failure; and to anything else that it is done.
pub proof fn law_replies_to_forwarding(replies: Seq<ForwardReply>, reply: ForwardReply)
    requires
        forward_answers(replies),
        forward_run(replies).1 is Some,
    ensures
        forward_run(replies).0.accepted(reply) <==> match (forward_run(replies).1, reply) {
            (Some(ForwardCallView::Receive), ForwardReply::Message(_)) => {
                forward_run(replies).0.sources.len() < usize::MAX
            },
            (Some(ForwardCallView::Receive), ForwardReply::Empty) => true,
            (Some(ForwardCallView::Receive), ForwardReply::Disconnected) => true,
            (Some(ForwardCallView::Read(_)), ForwardReply::Data(data)) => data@.len() <= 8192,
            (Some(ForwardCallView::Read(_)), ForwardReply::Failed(_)) => true,
            (Some(ForwardCallView::Receive), _) => false,
            (Some(ForwardCallView::Read(_)), _) => false,
            (_, ForwardReply::Done) => true,
            _ => false,
        },
{
    lemma_forward_asked(replies);
}

} // verus!
