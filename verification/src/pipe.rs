//! Cooperative in-memory byte pipes aimed at producer-consumer problems.
//!
//! Pipes are like byte-oriented channels for cooperatively scheduled
//! callers: an end that cannot go forward reports `Pending` and is woken
//! through its registered waker instead of blocking a thread.

use crate::arrays::min_len;
use crate::io::PipeError;
use std::task::Context;
use vstd::prelude::*;

pub mod chunked;

use chunked::PipePoll;

verus! {

/// How many chunks are available in a pipe made by [`pipe`]: a balance of
/// low memory usage and throughput.
pub const DEFAULT_CHUNK_COUNT: usize = 4;

/// Creates a new cooperative pipe with the default configuration.
///
/// The pipe guarantees that when a slice of bytes is written, either the
/// entire slice is delivered at once or not at all: slices are never
/// partially written.
pub fn pipe() -> (r: (PipeReader, PipeWriter))
    ensures
        r.0.held() == Seq::<u8>::empty(),
{
    let (reader, writer) = chunked::new(DEFAULT_CHUNK_COUNT);
    (PipeReader { inner: reader }, PipeWriter { inner: writer })
}

/// The reading end of a cooperative pipe.
pub struct PipeReader {
    inner: chunked::Reader,
}

impl PipeReader {
    /// What is left of the chunk held over from earlier reads.
    pub closed spec fn held(&self) -> Seq<u8> {
        self.inner.held()
    }

    /// Make one attempt to read bytes out of the pipe into `buf`; see
    /// [`chunked::Reader::poll_read`].
    pub fn poll_read(&mut self, cx: &mut Context<'_>, buf: &mut [u8]) -> (r: PipePoll)
        ensures
            r matches PipePoll::Ready(res) ==> res matches Ok(n) && n <= old(buf)@.len(),
            r matches PipePoll::Pending ==> final(buf)@ == old(buf)@ && final(self).held()
                == old(self).held(),
            old(self).held().len() > 0 ==> ({
                let n = min_len(old(self).held().len() as int, old(buf)@.len() as int);
                &&& r == PipePoll::Ready(Result::<usize, PipeError>::Ok(n as usize))
                &&& final(buf)@ == old(self).held().take(n) + old(buf)@.skip(n)
                &&& final(self).held() == old(self).held().skip(n)
            }),
            r matches PipePoll::Ready(res) ==> (res matches Ok(n) ==> exists|c: Seq<u8>|
                {
                    &&& n == min_len(#[trigger] c.len() as int, old(buf)@.len() as int)
                    &&& final(buf)@ == c.take(n as int) + old(buf)@.skip(n as int)
                    &&& final(self).held() == c.skip(n as int)
                }),
    {
        self.inner.poll_read(cx, buf)
    }
}

/// The writing end of a cooperative pipe.
pub struct PipeWriter {
    inner: chunked::Writer,
}

impl PipeWriter {
    /// Make one attempt to write the whole of `buf` into the pipe; see
    /// [`chunked::Writer::poll_write`].
    pub fn poll_write(&mut self, cx: &mut Context<'_>, buf: &[u8]) -> (r: PipePoll)
        ensures
            r matches PipePoll::Ready(res) ==> (res matches Ok(n) ==> n == buf@.len()),
            r matches PipePoll::Ready(res) ==> (res matches Err(e)
                ==> e == crate::io::PipeError::BrokenPipe),
    {
        self.inner.poll_write(cx, buf)
    }

    /// Flushing is a no-op: a completed write already sits with the reader.
    pub fn poll_flush(&mut self) -> (r: Result<(), crate::io::PipeError>)
        ensures
            r == Ok::<(), crate::io::PipeError>(()),
    {
        self.inner.poll_flush()
    }

    /// Close the writing end: the reader drains what is in flight, then
    /// sees end-of-stream.
    pub fn poll_close(&mut self) -> (r: Result<(), crate::io::PipeError>)
        ensures
            r == Ok::<(), crate::io::PipeError>(()),
    {
        self.inner.poll_close()
    }

    /// Whether the reading end has detached.
    pub fn is_closed(&self) -> bool {
        self.inner.is_closed()
    }
}

} // verus!
