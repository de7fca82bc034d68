//! Reading and writing pipes.

use crate::call::Reply;
use crate::error::{broken_pipe, Error, ErrorKind, ErrorView, IoError};
use crate::line::bytes_view;
use vstd::prelude::*;

verus! {

/// How many bytes are read at a time.
pub const BUFFER_SIZE: usize = 8192;

/// A new buffer of [`BUFFER_SIZE`] bytes.
pub fn new_buffer() -> (buffer: Vec<u8>)
    ensures
        buffer@ == Seq::new(BUFFER_SIZE as nat, |i: int| 0u8),
{
    let buffer = vec![0u8; BUFFER_SIZE];
    assert(buffer@ =~= Seq::new(BUFFER_SIZE as nat, |i: int| 0u8));
    buffer
}

/// What a file descriptor's status flags are to be changed to, given the flags it has and the
/// flag that makes a descriptor non-blocking.
pub fn change_blocking_fd(flags: i32, nonblock: i32, blocking: bool) -> (changed: i32)
    requires
        flags >= 0,
    ensures
        changed == (if blocking {
            flags & !nonblock
        } else {
            flags | nonblock
        }),
        changed & !nonblock == flags & !nonblock,
        changed & nonblock == (if blocking {
            0i32
        } else {
            nonblock
        }),
{
    if blocking {
        assert((flags & !nonblock) & !nonblock == flags & !nonblock && (flags & !nonblock)
            & nonblock == 0i32) by (bit_vector);
        flags & !nonblock
    } else {
        assert((flags | nonblock) & !nonblock == flags & !nonblock && (flags | nonblock) & nonblock
            == nonblock) by (bit_vector);
        flags | nonblock
    }
}

/// What became of an attempt at a blocking operation.
#[derive(Debug)]
pub enum Attempt<V> {
    /// The channel was not ready: let other threads run, and try again.
    Again,
    /// The attempt succeeded, or failed for good.
    Settled(Result<V, IoError>),
}

/// Decide on one attempt at a blocking operation on a channel that may be non-blocking.
pub fn blocking_loop<V>(outcome: Result<V, IoError>) -> (attempt: Attempt<V>)
    ensures
        attempt == (match outcome {
            Err(IoError { kind: ErrorKind::WouldBlock, .. }) => Attempt::Again,
            _ => Attempt::Settled(outcome),
        }),
{
    match outcome {
        Err(error) => if error.kind == ErrorKind::WouldBlock {
            Attempt::Again
        } else {
            Attempt::Settled(Err(error))
        },
        Ok(value) => Attempt::Settled(Ok(value)),
    }
}

/// How far reading all available data has come.
#[derive(Debug)]
pub enum Progress {
    /// The channel had data, so there may be more: read again, with this data so far.
    More(Vec<u8>),
    /// All available data has been read, or the channel failed.
    Complete(Result<Vec<u8>, Error>),
}

/// The mathematical value of a [`Progress`].
pub enum ProgressView {
    /// See [`Progress::More`].
    More(Seq<u8>),
    /// See [`Progress::Complete`].
    Complete(Result<Seq<u8>, ErrorView>),
}

impl View for Progress {
    type V = ProgressView;

    open spec fn view(&self) -> ProgressView {
        match *self {
            Progress::More(data) => ProgressView::More(data@),
            Progress::Complete(outcome) => ProgressView::Complete(bytes_view(outcome)),
        }
    }
}

/// What reading all available data makes of one more reply, after `data` has been read.
///
/// A read that gave data is followed by another, until the end of file or until a read would block.
/// The end of file before any data is a broken pipe.
pub open spec fn read_more(data: Seq<u8>, reply: Reply) -> ProgressView {
    match reply {
        Reply::Data(chunk) => if chunk@.len() > 0 {
            ProgressView::More(data + chunk@)
        } else if data.len() > 0 {
            ProgressView::Complete(Ok(data))
        } else {
            ProgressView::Complete(Err(ErrorView::Io(broken_pipe())))
        },
        Reply::Failed(error) => if error.kind == ErrorKind::WouldBlock {
            ProgressView::Complete(Ok(data))
        } else {
            ProgressView::Complete(Err(ErrorView::Io(error)))
        },
        _ => ProgressView::More(data),
    }
}

/// Read all available data until a channel ends or would block: take one more reply to a read of
/// up to [`BUFFER_SIZE`] bytes.
pub fn read_nonblocking(data: Vec<u8>, reply: Reply) -> (progress: Progress)
    requires
        match reply {
            Reply::Data(chunk) => chunk@.len() <= BUFFER_SIZE,
            Reply::Failed(_) => true,
            _ => false,
        },
    ensures
        progress@ == read_more(data@, reply),
        match (reply, progress) {
            (Reply::Data(chunk), Progress::More(more)) => {
                chunk@.len() > 0 && more@ == data@ + chunk@
            },
            (Reply::Data(chunk), Progress::Complete(Ok(all))) => {
                chunk@.len() == 0 && data@.len() > 0 && all@ == data@
            },
            (Reply::Data(chunk), Progress::Complete(Err(Error::Io(error)))) => {
                &&& chunk@.len() == 0 && data@.len() == 0
                &&& error.kind == ErrorKind::BrokenPipe && error.report is None
            },
            (Reply::Failed(failure), Progress::Complete(Ok(all))) => {
                failure.kind == ErrorKind::WouldBlock && all@ == data@
            },
            (Reply::Failed(failure), Progress::Complete(Err(Error::Io(error)))) => {
                failure.kind != ErrorKind::WouldBlock && error == failure
            },
            _ => false,
        },
{
    let mut data = data;
    match reply {
        Reply::Data(chunk) => {
            let mut chunk = chunk;
            if chunk.len() > 0 {
                data.append(&mut chunk);
                Progress::More(data)
            } else if data.len() > 0 {
                Progress::Complete(Ok(data))
            } else {
                Progress::Complete(Err(Error::Io(IoError::broken_pipe())))
            }
        },
        Reply::Failed(error) => if error.kind == ErrorKind::WouldBlock {
            Progress::Complete(Ok(data))
        } else {
            Progress::Complete(Err(Error::Io(error)))
        },
        _ => Progress::More(data),
    }
}

} // verus!
