//! What each echo server, and the benchmark client, does after one read or
//! write on a connection. The servers perform the I/O; these functions decide.

use vstd::prelude::*;

verus! {

/// The result of one read on a connection.
#[derive(Debug, Clone, Copy, PartialEq, Eq, Structural)]
pub enum ReadOutcome {
    /// `n > 0` bytes were read.
    Received(usize),
    /// The read returned zero bytes (the peer finished writing).
    Closed,
    /// The read would have blocked (`ErrorKind::WouldBlock`).
    WouldBlock,
    /// The read was interrupted (`ErrorKind::Interrupted`).
    Interrupted,
    /// Any other read error.
    Failed,
}

/// What a server does next with a connection.
#[derive(Debug, Clone, Copy, PartialEq, Eq, Structural)]
pub enum PeerStep {
    /// Write back the first `n` bytes that were read, then go on.
    Echo(usize),
    /// Read again.
    Retry,
    /// Stop serving this connection.
    Close,
    /// Report the error, then stop serving this connection.
    CloseWithError,
    /// Panic with the error.
    Abort,
}

/// What the benchmark client does after a read while it waits for the echo.
#[derive(Debug, Clone, Copy, PartialEq, Eq, Structural)]
pub enum WaitStep {
    /// A response arrived; the round trip is over.
    Done,
    /// Read again.
    Retry,
    /// Panic with the error.
    Abort,
}

/// The result of one write on a connection.
#[derive(Debug, Clone, Copy, PartialEq, Eq, Structural)]
pub enum WriteOutcome {
    /// `n` bytes were written.
    Written(usize),
    /// The write would have blocked (`ErrorKind::WouldBlock`).
    WouldBlock,
    /// The write was interrupted (`ErrorKind::Interrupted`).
    Interrupted,
    /// Any other write error.
    Failed,
}

/// What the mio server's `write` does after one write attempt.
#[derive(Debug, Clone, Copy, PartialEq, Eq, Structural)]
pub enum WriteStep {
    /// The write is over; report success.
    Done,
    /// Write the whole buffer again.
    Retry,
    /// Fewer bytes than asked were written; report `ErrorKind::WriteZero`.
    ShortWrite,
    /// Report the write error.
    Fail,
}

/// The blocking-socket server (`tcp_server_std`): echo what was read, poll
/// again when the socket would block, stop on end of stream, and stop with a
/// report on any error.
pub fn std_server_step(outcome: ReadOutcome) -> (r: PeerStep)
    ensures
        r == match outcome {
            ReadOutcome::Received(n) => PeerStep::Echo(n),
            ReadOutcome::Closed => PeerStep::Close,
            ReadOutcome::WouldBlock => PeerStep::Retry,
            ReadOutcome::Interrupted => PeerStep::CloseWithError,
            ReadOutcome::Failed => PeerStep::CloseWithError,
        },
{
    match outcome {
        ReadOutcome::Received(n) => PeerStep::Echo(n),
        ReadOutcome::Closed => PeerStep::Close,
        ReadOutcome::WouldBlock => PeerStep::Retry,
        _ => PeerStep::CloseWithError,
    }
}

/// `handle_client` of the blocking server: echo what was read, keep reading
/// after end of stream or when the socket would block, panic on any error.
pub fn blocking_server_step(outcome: ReadOutcome) -> (r: PeerStep)
    ensures
        r == match outcome {
            ReadOutcome::Received(n) => PeerStep::Echo(n),
            ReadOutcome::Closed => PeerStep::Retry,
            ReadOutcome::WouldBlock => PeerStep::Retry,
            ReadOutcome::Interrupted => PeerStep::Abort,
            ReadOutcome::Failed => PeerStep::Abort,
        },
{
    match outcome {
        ReadOutcome::Received(n) => PeerStep::Echo(n),
        ReadOutcome::Closed | ReadOutcome::WouldBlock => PeerStep::Retry,
        _ => PeerStep::Abort,
    }
}

/// The tokio servers (`tcp_server_tokio`, and `tcp_server_tokio_framed_bytes`
/// with a frame as the data read and the end of the frame stream as `Closed`):
/// echo what was read, stop on end of stream, stop with a report on any error.
pub fn tokio_server_step(outcome: ReadOutcome) -> (r: PeerStep)
    ensures
        r == match outcome {
            ReadOutcome::Received(n) => PeerStep::Echo(n),
            ReadOutcome::Closed => PeerStep::Close,
            _ => PeerStep::CloseWithError,
        },
{
    match outcome {
        ReadOutcome::Received(n) => PeerStep::Echo(n),
        ReadOutcome::Closed => PeerStep::Close,
        _ => PeerStep::CloseWithError,
    }
}

/// `tcp_async_server`: echo what was read, keep reading after an empty read,
/// panic on any error.
pub fn async_server_step(outcome: ReadOutcome) -> (r: PeerStep)
    ensures
        r == match outcome {
            ReadOutcome::Received(n) => PeerStep::Echo(n),
            ReadOutcome::Closed => PeerStep::Retry,
            _ => PeerStep::Abort,
        },
{
    match outcome {
        ReadOutcome::Received(n) => PeerStep::Echo(n),
        ReadOutcome::Closed => PeerStep::Retry,
        _ => PeerStep::Abort,
    }
}

/// `tcp_async_server_framed`: echo each frame, stop when the frame stream ends,
/// panic on any error.
pub fn async_framed_server_step(outcome: ReadOutcome) -> (r: PeerStep)
    ensures
        r == match outcome {
            ReadOutcome::Received(n) => PeerStep::Echo(n),
            ReadOutcome::Closed => PeerStep::Close,
            _ => PeerStep::Abort,
        },
{
    match outcome {
        ReadOutcome::Received(n) => PeerStep::Echo(n),
        ReadOutcome::Closed => PeerStep::Close,
        _ => PeerStep::Abort,
    }
}

/// The mio server on a readable peer: echo what was read, stop (and deregister)
/// on end of stream, read again when the socket would block or the read was
/// interrupted, stop with a report on any other error.
pub fn mio_peer_step(outcome: ReadOutcome) -> (r: PeerStep)
    ensures
        r == match outcome {
            ReadOutcome::Received(n) => PeerStep::Echo(n),
            ReadOutcome::Closed => PeerStep::Close,
            ReadOutcome::WouldBlock => PeerStep::Retry,
            ReadOutcome::Interrupted => PeerStep::Retry,
            ReadOutcome::Failed => PeerStep::CloseWithError,
        },
{
    match outcome {
        ReadOutcome::Received(n) => PeerStep::Echo(n),
        ReadOutcome::Closed => PeerStep::Close,
        ReadOutcome::WouldBlock | ReadOutcome::Interrupted => PeerStep::Retry,
        ReadOutcome::Failed => PeerStep::CloseWithError,
    }
}

/// The benchmark client waiting for the echo of its message: any data ends the
/// wait; an empty read or a read that would block is retried; any other error
/// is fatal.
pub fn response_wait_step(outcome: ReadOutcome) -> (r: WaitStep)
    ensures
        r == match outcome {
            ReadOutcome::Received(_) => WaitStep::Done,
            ReadOutcome::Closed => WaitStep::Retry,
            ReadOutcome::WouldBlock => WaitStep::Retry,
            ReadOutcome::Interrupted => WaitStep::Abort,
            ReadOutcome::Failed => WaitStep::Abort,
        },
{
    match outcome {
        ReadOutcome::Received(_) => WaitStep::Done,
        ReadOutcome::Closed | ReadOutcome::WouldBlock => WaitStep::Retry,
        _ => WaitStep::Abort,
    }
}

/// The mio server's `write` of a buffer of `len` bytes in a single go: a write
/// of fewer bytes is a short-write error, a write that would block counts as
/// done, an interrupted write is tried again, any other error is reported.
pub fn mio_write_step(len: usize, outcome: WriteOutcome) -> (r: WriteStep)
    ensures
        r == match outcome {
            WriteOutcome::Written(n) => if n < len {
                WriteStep::ShortWrite
            } else {
                WriteStep::Done
            },
            WriteOutcome::WouldBlock => WriteStep::Done,
            WriteOutcome::Interrupted => WriteStep::Retry,
            WriteOutcome::Failed => WriteStep::Fail,
        },
{
    match outcome {
        WriteOutcome::Written(n) => {
            if n < len {
                WriteStep::ShortWrite
            } else {
                WriteStep::Done
            }
        },
        WriteOutcome::WouldBlock => WriteStep::Done,
        WriteOutcome::Interrupted => WriteStep::Retry,
        WriteOutcome::Failed => WriteStep::Fail,
    }
}

} // verus!
