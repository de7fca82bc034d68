//! The blocking behaviour of an SSH session.
//!
//! A session has one behaviour for all its streams, and several parties use it. It is non-blocking
//! exactly while a party needs that, so the parties are counted.

use vstd::prelude::*;

verus! {

/// A party's request to the session.
pub enum Request {
    /// A party starts to need the session non-blocking.
    Enter,
    /// A party no longer needs it.
    Leave,
}

/// What the session is to be set to when `count` parties are counted and this request comes:
/// non-blocking for the first party to enter, blocking for the last one to leave.
pub open spec fn switch_for(count: int, request: Request) -> Option<bool> {
    match request {
        Request::Enter => if count == 0 {
            Some(false)
        } else {
            None
        },
        Request::Leave => if count == 1 {
            Some(true)
        } else {
            None
        },
    }
}

/// Count one more party that needs the session non-blocking.
///
/// Returns what the session is to be set to: `Some(false)` for non-blocking, or `None` to leave
/// it as it is.
pub fn set_session_nonblocking(count: &mut u8) -> (switch: Option<bool>)
    requires
        *old(count) < u8::MAX,
    ensures
        *final(count) == *old(count) + 1,
        switch == switch_for(*old(count) as int, Request::Enter),
        switch == (if *old(count) == 0 {
            Some(false)
        } else {
            None
        }),
{
    let first = *count == 0;
    *count = *count + 1;
    if first {
        Some(false)
    } else {
        None
    }
}

/// Count one party less, and restore the session to blocking once none is left.
///
/// Returns what the session is to be set to: `Some(true)` for blocking, or `None` to leave it as
/// it is.
pub fn set_session_blocking(count: &mut u8) -> (switch: Option<bool>)
    requires
        *old(count) > 0,
    ensures
        *final(count) == *old(count) - 1,
        switch == switch_for(*old(count) as int, Request::Leave),
        switch == (if *old(count) == 1 {
            Some(true)
        } else {
            None
        }),
{
    *count = *count - 1;
    if *count == 0 {
        Some(true)
    } else {
        None
    }
}

/// Whether the holder of the lock on the count may keep it and rely on a blocking session.
/// Otherwise the lock is to be let go, and taken again later.
pub fn guard_session_blocking(count: u8) -> (hold: bool)
    ensures
        hold == (count == 0),
{
    count == 0
}

/// The number of parties after these requests.
pub open spec fn parties(requests: Seq<Request>) -> int
    decreases requests.len(),
{
    if requests.len() == 0 {
        0
    } else {
        parties(requests.drop_last()) + match requests.last() {
            Request::Enter => 1int,
            Request::Leave => -1int,
        }
    }
}

/// Whether a session is blocking after this request, where it was `blocking` and `count` parties
/// were counted.
pub open spec fn switched(blocking: bool, count: int, request: Request) -> bool {
    match switch_for(count, request) {
        Some(switch) => switch,
        None => blocking,
    }
}

/// Whether a session that starts out blocking is blocking after these requests.
pub open spec fn blocking_after(requests: Seq<Request>) -> bool
    decreases requests.len(),
{
    if requests.len() == 0 {
        true
    } else {
        switched(
            blocking_after(requests.drop_last()),
            parties(requests.drop_last()),
            requests.last(),
        )
    }
}

/// No party leaves that has not entered.
pub open spec fn paired(requests: Seq<Request>) -> bool {
    forall|n: int| 0 <= n <= requests.len() ==> parties(#[trigger] requests.take(n)) >= 0
}

/// The session is blocking exactly while no party needs it non-blocking, whatever the order in
/// which parties enter and leave.
pub proof fn law_session_blocking_iff_unused(requests: Seq<Request>)
    requires
        paired(requests),
    ensures
        blocking_after(requests) <==> parties(requests) == 0,
    decreases requests.len(),
{
    if requests.len() > 0 {
        let before = requests.drop_last();
        assert forall|n: int| 0 <= n <= before.len() implies parties(#[trigger] before.take(n))
            >= 0 by {
            assert(before.take(n) =~= requests.take(n));
        }
        law_session_blocking_iff_unused(before);
        assert(requests.take(requests.len() as int) =~= requests);
        assert(requests.take(requests.len() - 1) =~= before);
        assert(parties(requests) >= 0);
        assert(parties(before) >= 0);
    }
}

} // verus!
