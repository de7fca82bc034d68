//! Forwarding the standard error output of processes.

use crate::error::{ErrorKind, IoError};
use crate::pipe::BUFFER_SIZE;
use crate::process::{Process, ProcessInner, ProcessView};
use vstd::prelude::*;

verus! {

/// The standard error output of a process that is forwarded.
#[derive(Clone, Copy, Debug, PartialEq, Eq, Structural)]
pub struct Source {
    /// The number under which the caller keeps the channel.
    pub id: u64,
    /// The channel belongs to an SSH session.
    pub remote: bool,
}

/// What forwarding asks of the system.
#[derive(Debug)]
pub enum ForwardCall {
    /// Look for a new source.
    Receive,
    /// Let other threads run.
    Yield,
    /// Enter or leave the non-blocking behaviour of the SSH session of a source.
    Session {
        /// The source.
        id: u64,
        /// `false` to enter, `true` to leave.
        blocking: bool,
    },
    /// Read up to [`BUFFER_SIZE`] bytes from this source.
    Read(u64),
    /// Write this to the destination, in full.
    Write(Vec<u8>),
    /// Drop this source.
    Drop(u64),
}

/// The mathematical value of a [`ForwardCall`].
pub enum ForwardCallView {
    /// See [`ForwardCall::Receive`].
    Receive,
    /// See [`ForwardCall::Yield`].
    Yield,
    /// See [`ForwardCall::Session`].
    Session {
        /// The source.
        id: u64,
        /// `false` to enter, `true` to leave.
        blocking: bool,
    },
    /// See [`ForwardCall::Read`].
    Read(u64),
    /// See [`ForwardCall::Write`].
    Write(Seq<u8>),
    /// See [`ForwardCall::Drop`].
    Drop(u64),
}

/// What the system answers to forwarding.
#[derive(Debug)]
pub enum ForwardReply {
    /// Done.
    Done,
    /// A new source has come.
    Message(Source),
    /// No new source has come.
    Empty,
    /// No new source can come any more.
    Disconnected,
    /// The bytes that were read.
    Data(Vec<u8>),
    /// The source failed.
    Failed(IoError),
}

/// What forwarding waits for.
#[derive(Clone, Copy, Debug, PartialEq, Eq, Structural)]
pub enum ForwardPhase {
    /// A new source is looked for.
    Poll,
    /// There are no sources, and other threads are let run.
    Idle,
    /// The session of the source at this place is made non-blocking.
    Enter(usize),
    /// The source at this place is read.
    Read(usize),
    /// What it gave is written.
    Write(usize),
    /// Its session is made blocking again.
    Leave(usize),
    /// A closed source is dropped.
    Drop,
}

/// Forwards the standard error outputs of processes to a destination.
///
/// The sources are visited in turn. Each is exhausted before the next, to minimize interleaving.
#[derive(Debug)]
pub struct Forwarder {
    /// The sources that are open.
    sources: Vec<Source>,
    /// The places of those that were found closed in this round.
    dead: Vec<usize>,
    /// What is waited for.
    phase: ForwardPhase,
}

/// The mathematical value of a [`Forwarder`].
pub struct ForwarderView {
    /// The sources that are open.
    pub sources: Seq<Source>,
    /// The places of those that were found closed in this round.
    pub dead: Seq<usize>,
    /// What is waited for.
    pub phase: ForwardPhase,
}

impl View for Forwarder {
    type V = ForwarderView;

    closed spec fn view(&self) -> ForwarderView {
        ForwarderView { sources: self.sources@, dead: self.dead@, phase: self.phase }
    }
}

/// The mathematical value of what forwarding asks next, or `None` once it is over.
pub open spec fn forward_view(call: Option<ForwardCall>) -> Option<ForwardCallView> {
    match call {
        None => None,
        Some(ForwardCall::Receive) => Some(ForwardCallView::Receive),
        Some(ForwardCall::Yield) => Some(ForwardCallView::Yield),
        Some(ForwardCall::Session { id, blocking }) => {
            Some(ForwardCallView::Session { id, blocking })
        },
        Some(ForwardCall::Read(id)) => Some(ForwardCallView::Read(id)),
        Some(ForwardCall::Write(data)) => Some(ForwardCallView::Write(data@)),
        Some(ForwardCall::Drop(id)) => Some(ForwardCallView::Drop(id)),
    }
}

/// Whether these places are in order, each below `bound`.
pub open spec fn ascending_below(places: Seq<usize>, bound: int) -> bool {
    &&& forall|i: int, j: int| 0 <= i < j < places.len() ==> places[i] < places[j]
    &&& forall|i: int| 0 <= i < places.len() ==> places[i] < bound
}

impl ForwarderView {
    /// The places of the closed sources are in order and have been visited, and the place that is
    /// being visited holds a source.
    pub open spec fn well_formed(self) -> bool {
        &&& self.sources.len() <= usize::MAX
        &&& match self.phase {
            ForwardPhase::Poll | ForwardPhase::Idle => self.dead.len() == 0,
            ForwardPhase::Enter(place) | ForwardPhase::Read(place) | ForwardPhase::Write(place) => {
                place < self.sources.len() && ascending_below(self.dead, place as int)
            },
            ForwardPhase::Leave(place) => {
                place < self.sources.len() && ascending_below(self.dead, place + 1)
            },
            ForwardPhase::Drop => ascending_below(self.dead, self.sources.len() as int),
        }
    }

    /// Whether `reply` can be the answer that is waited for. What is written has to arrive, and
    /// there has to be memory for a new source.
    pub open spec fn accepted(self, reply: ForwardReply) -> bool {
        match self.phase {
            ForwardPhase::Poll => match reply {
                ForwardReply::Message(_) => self.sources.len() < usize::MAX,
                _ => reply is Empty || reply is Disconnected,
            },
            ForwardPhase::Read(_) => match reply {
                ForwardReply::Data(data) => data@.len() <= BUFFER_SIZE,
                ForwardReply::Failed(_) => true,
                _ => false,
            },
            _ => reply is Done,
        }
    }
}

/// A sequence without the element at a place, which the last element has taken.
pub open spec fn swap_removed<A>(elements: Seq<A>, place: int) -> Seq<A> {
    elements.update(place, elements.last()).drop_last()
}

/// The step of forwarding after which it waits: its state then, and what it asks for.
pub type ForwardStep = (ForwarderView, Option<ForwardCallView>);

/// Visit the source at a place, or end the round where there is none.
pub open spec fn forward_visit(forwarder: ForwarderView, place: int) -> ForwardStep {
    if place >= forwarder.sources.len() {
        forward_sweep(forwarder)
    } else {
        let source = forwarder.sources[place];
        if source.remote {
            (
                ForwarderView { phase: ForwardPhase::Enter(place as usize), ..forwarder },
                Some(ForwardCallView::Session { id: source.id, blocking: false }),
            )
        } else {
            forward_read(forwarder, place)
        }
    }
}

/// Read the source at a place.
pub open spec fn forward_read(forwarder: ForwarderView, place: int) -> ForwardStep {
    (
        ForwarderView { phase: ForwardPhase::Read(place as usize), ..forwarder },
        Some(ForwardCallView::Read(forwarder.sources[place].id)),
    )
}

/// Leave the source at a place, and visit the next.
pub open spec fn forward_leave(forwarder: ForwarderView, place: int) -> ForwardStep {
    let source = forwarder.sources[place];
    if source.remote {
        (
            ForwarderView { phase: ForwardPhase::Leave(place as usize), ..forwarder },
            Some(ForwardCallView::Session { id: source.id, blocking: true }),
        )
    } else {
        forward_visit(forwarder, place + 1)
    }
}

/// Drop the closed sources, from the last to the first, and look for a new source once none is
/// left.
pub open spec fn forward_sweep(forwarder: ForwarderView) -> ForwardStep {
    if forwarder.dead.len() == 0 {
        (
            ForwarderView { phase: ForwardPhase::Poll, ..forwarder },
            Some(ForwardCallView::Receive),
        )
    } else {
        let place = forwarder.dead.last() as int;
        (
            ForwarderView {
                sources: swap_removed(forwarder.sources, place),
                dead: forwarder.dead.drop_last(),
                phase: ForwardPhase::Drop,
            },
            Some(ForwardCallView::Drop(forwarder.sources[place].id)),
        )
    }
}

/// The next step of forwarding, after a reply.
///
/// What a source gives is written at once, and the source is read again. A source that would
/// block is left for the next round. One that has ended or failed is closed.
pub open spec fn forward_next(forwarder: ForwarderView, reply: ForwardReply) -> ForwardStep {
    match forwarder.phase {
        ForwardPhase::Poll => match reply {
            ForwardReply::Message(source) => forward_visit(
                ForwarderView { sources: forwarder.sources.push(source), ..forwarder },
                0,
            ),
            ForwardReply::Disconnected => (forwarder, None),
            _ => if forwarder.sources.len() == 0 {
                (
                    ForwarderView { phase: ForwardPhase::Idle, ..forwarder },
                    Some(ForwardCallView::Yield),
                )
            } else {
                forward_visit(forwarder, 0)
            },
        },
        ForwardPhase::Idle => forward_visit(forwarder, 0),
        ForwardPhase::Enter(place) => forward_read(forwarder, place as int),
        ForwardPhase::Read(place) => {
            let closed = ForwarderView { dead: forwarder.dead.push(place), ..forwarder };
            match reply {
                ForwardReply::Data(data) => if data@.len() > 0 {
                    (
                        ForwarderView { phase: ForwardPhase::Write(place), ..forwarder },
                        Some(ForwardCallView::Write(data@)),
                    )
                } else {
                    forward_leave(closed, place as int)
                },
                ForwardReply::Failed(error) => if error.kind == ErrorKind::WouldBlock {
                    forward_leave(forwarder, place as int)
                } else {
                    forward_leave(closed, place as int)
                },
                _ => forward_leave(closed, place as int),
            }
        },
        ForwardPhase::Write(place) => forward_read(forwarder, place as int),
        ForwardPhase::Leave(place) => forward_visit(forwarder, place + 1),
        ForwardPhase::Drop => forward_sweep(forwarder),
    }
}

impl ProcessView {
    /// The same process with its standard error output handed over, where it is a local one.
    pub open spec fn forwarded(self) -> ProcessView {
        match self.inner {
            ProcessInner::Local { stdin, stdout, .. } => ProcessView {
                inner: ProcessInner::Local { stdin, stdout, stderr: false },
                ..self
            },
            ProcessInner::Remote => self,
        }
    }
}

impl Forwarder {
    /// A forwarder without sources, which looks for its first one.
    pub fn new() -> (forwarder: Forwarder)
        ensures
            forwarder@.sources == Seq::<Source>::empty(),
            forwarder@.dead == Seq::<usize>::empty(),
            forwarder@.phase == ForwardPhase::Poll,
            forwarder@.well_formed(),
    {
        Forwarder { sources: Vec::new(), dead: Vec::new(), phase: ForwardPhase::Poll }
    }

    /// Setup error forwarding for the given process.
    ///
    /// Note: this consumes the process's standard error channel. This method can be called only
    /// once for each process.
    pub fn forward_stderr(process: &mut Process, id: u64) -> (source: Source)
        requires
            old(process)@.inner matches ProcessInner::Local { stderr, .. } ==> stderr,
        ensures
            final(process)@ == old(process)@.forwarded(),
            source == (Source { id, remote: old(process)@.inner is Remote }),
            final(process).computer == old(process).computer,
            final(process).stdout_buffer == old(process).stdout_buffer,
            final(process).stderr_buffer == old(process).stderr_buffer,
            match (old(process).inner, final(process).inner) {
                (
                    ProcessInner::Local { stdin, stdout, .. },
                    ProcessInner::Local { stdin: i, stdout: o, stderr: e },
                ) => i == stdin && o == stdout && !e,
                (ProcessInner::Remote, ProcessInner::Remote) => true,
                _ => false,
            },
    {
        match process.inner {
            ProcessInner::Local { stdin, stdout, .. } => {
                process.inner = ProcessInner::Local { stdin, stdout, stderr: false };
                Source { id, remote: false }
            },
            ProcessInner::Remote => Source { id, remote: true },
        }
    }

    /// Visit the source at a place, or end the round where there is none.
    fn visit(&mut self, place: usize) -> (call: Option<ForwardCall>)
        requires
            old(self)@.sources.len() <= usize::MAX,
            place <= old(self)@.sources.len(),
            ascending_below(old(self)@.dead, place as int),
        ensures
            (final(self)@, forward_view(call)) == forward_visit(old(self)@, place as int),
            final(self)@.well_formed(),
    {
        if place >= self.sources.len() {
            return self.sweep();
        }
        let source = self.sources[place];
        if source.remote {
            self.phase = ForwardPhase::Enter(place);
            Some(ForwardCall::Session { id: source.id, blocking: false })
        } else {
            self.read(place)
        }
    }

    /// Read the source at a place.
    fn read(&mut self, place: usize) -> (call: Option<ForwardCall>)
        requires
            old(self)@.sources.len() <= usize::MAX,
            place < old(self)@.sources.len(),
            ascending_below(old(self)@.dead, place as int),
        ensures
            (final(self)@, forward_view(call)) == forward_read(old(self)@, place as int),
            final(self)@.well_formed(),
    {
        self.phase = ForwardPhase::Read(place);
        Some(ForwardCall::Read(self.sources[place].id))
    }

    /// Leave the source at a place, and visit the next.
    fn leave(&mut self, place: usize) -> (call: Option<ForwardCall>)
        requires
            old(self)@.sources.len() <= usize::MAX,
            place < old(self)@.sources.len(),
            ascending_below(old(self)@.dead, place + 1),
        ensures
            (final(self)@, forward_view(call)) == forward_leave(old(self)@, place as int),
            final(self)@.well_formed(),
    {
        let source = self.sources[place];
        if source.remote {
            self.phase = ForwardPhase::Leave(place);
            Some(ForwardCall::Session { id: source.id, blocking: true })
        } else {
            self.visit(place + 1)
        }
    }

    /// Drop the closed sources, from the last to the first.
    fn sweep(&mut self) -> (call: Option<ForwardCall>)
        requires
            old(self)@.sources.len() <= usize::MAX,
            ascending_below(old(self)@.dead, old(self)@.sources.len() as int),
        ensures
            (final(self)@, forward_view(call)) == forward_sweep(old(self)@),
            final(self)@.well_formed(),
    {
        match self.dead.pop() {
            Some(place) => {
                assert(place == old(self)@.dead.last());
                self.phase = ForwardPhase::Drop;
                let source = self.sources.swap_remove(place);
                assert(self@.sources =~= swap_removed(old(self)@.sources, place as int));
                Some(ForwardCall::Drop(source.id))
            },
            None => {
                self.phase = ForwardPhase::Poll;
                Some(ForwardCall::Receive)
            },
        }
    }

    /// What forwarding asks first: a new source.
    pub fn main(&self) -> (call: Option<ForwardCall>)
        requires
            self@.phase == ForwardPhase::Poll,
        ensures
            forward_view(call) == Some(ForwardCallView::Receive),
    {
        Some(ForwardCall::Receive)
    }

    /// Whether `reply` can be the answer that is waited for.
    pub fn accepts(&self, reply: &ForwardReply) -> (fits: bool)
        ensures
            fits == self@.accepted(*reply),
    {
        match self.phase {
            ForwardPhase::Poll => match reply {
                ForwardReply::Message(_) => self.sources.len() < usize::MAX,
                _ => matches!(reply, ForwardReply::Empty | ForwardReply::Disconnected),
            },
            ForwardPhase::Read(_) => match reply {
                ForwardReply::Data(data) => data.len() <= BUFFER_SIZE,
                ForwardReply::Failed(_) => true,
                _ => false,
            },
            _ => matches!(reply, ForwardReply::Done),
        }
    }

    /// Go on forwarding. Returns what to ask next, or `None` once no new source can come any more.
    pub fn resume_main(&mut self, reply: ForwardReply) -> (call: Option<ForwardCall>)
        requires
            old(self)@.well_formed(),
            old(self)@.accepted(reply),
        ensures
            (final(self)@, forward_view(call)) == forward_next(old(self)@, reply),
            final(self)@.well_formed(),
    {
        match self.phase {
            // Check for new stderr channels
            ForwardPhase::Poll => match reply {
                ForwardReply::Message(source) => {
                    self.sources.push(source);
                    self.visit(0)
                },
                ForwardReply::Disconnected => None,
                _ => {
                    if self.sources.len() == 0 {
                        self.phase = ForwardPhase::Idle;
                        Some(ForwardCall::Yield)
                    } else {
                        self.visit(0)
                    }
                },
            },
            ForwardPhase::Idle => self.visit(0),
            ForwardPhase::Enter(place) => self.read(place),
            // Exhaust each channel before moving onto the next
            ForwardPhase::Read(place) => match reply {
                ForwardReply::Data(data) => {
                    if data.len() > 0 {
                        self.phase = ForwardPhase::Write(place);
                        Some(ForwardCall::Write(data))
                    } else {
                        self.dead.push(place);  // Mark this source for removal
                        self.leave(place)
                    }
                },
                ForwardReply::Failed(error) => {
                    if error.kind == ErrorKind::WouldBlock {
                        self.leave(place)
                    } else {
                        self.dead.push(place);  // Mark this source for removal
                        self.leave(place)
                    }
                },
                _ => {
                    self.dead.push(place);
                    self.leave(place)
                },
            },
            ForwardPhase::Write(place) => self.read(place),
            ForwardPhase::Leave(place) => self.visit(place + 1),
            // Remove closed channels from the sources list
            ForwardPhase::Drop => self.sweep(),
        }
    }
}

} // verus!
