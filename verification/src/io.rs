//! A reader/writer byte pipe over the shared bounded queue, with
//! non-blocking and half-close semantics.
//!
//! Each operation here makes one attempt and reports what it found:
//! [`PipeReader::try_read`] and [`PipeWriter::try_write`] say exactly when
//! data moved, when the stream ended, when a non-blocking caller would have
//! had to wait, and when a blocking caller should wait and retry. A caller
//! that wants to park a thread runs the attempt in a loop around a wait
//! primitive; the pipe itself never blocks, so every function here returns.
//!
//! Ends are closed explicitly with [`PipeReader::close`] and
//! [`PipeWriter::close`]; an owner that wants close-on-release wraps the end
//! in a guard that calls `close` on every exit path.

use crate::arrays::MAX_LEN;
use crate::buffers::atomic;
use crate::buffers::atomic::bounded;
use std::sync::Arc;
use vstd::prelude::*;
use vstd::rwlock::{RwLock, RwLockPredicate};

verus! {

/// The capacity a pipe gets when none is chosen: 8 KiB.
pub const DEFAULT_CAPACITY: usize = 8192;

/// Why a pipe operation could not move bytes.
#[derive(Clone, Copy, Debug, PartialEq, Eq, Structural)]
pub enum PipeError {
    /// The operation could not complete without waiting and the end is in
    /// non-blocking mode; the caller may retry later.
    WouldBlock,
    /// The peer end has closed; applies to writes only — reads report a
    /// closed peer as end-of-stream instead.
    BrokenPipe,
}

/// What one read attempt found.
#[derive(Clone, Copy, Debug, PartialEq, Eq, Structural)]
pub enum ReadStep {
    /// This many bytes were pulled out of the pipe.
    Read(usize),
    /// The pipe is empty and the writer has closed: end of stream.
    Eof,
    /// The pipe is empty, the writer may still write, and this end is
    /// non-blocking.
    WouldBlock,
    /// The pipe is empty, the writer may still write, and this end is
    /// blocking: wait for data and retry.
    Wait,
}

/// What one write attempt did.
#[derive(Clone, Copy, Debug, PartialEq, Eq, Structural)]
pub enum WriteStep {
    /// This many bytes went into the pipe; fewer than asked when the free
    /// space did not hold them all.
    Wrote(usize),
    /// The reader has closed: nothing was written and nothing will be.
    Closed,
    /// The pipe is full, the reader may still read, and this end is
    /// non-blocking.
    WouldBlock,
    /// The pipe is full, the reader may still read, and this end is
    /// blocking: wait for space and retry.
    Wait,
}

/// What a read attempt reports, given how many bytes it pulled, whether the
/// peer had closed, and this end's non-blocking flag.
///
/// Data always wins; an empty pipe with a closed peer is end-of-stream,
/// never an error; and only a non-blocking end sees `WouldBlock`.
pub fn read_decision(pulled: usize, closed: bool, nonblocking: bool) -> (r: ReadStep)
    ensures
        pulled > 0 ==> r == ReadStep::Read(pulled),
        pulled == 0 && closed ==> r == ReadStep::Eof,
        pulled == 0 && !closed && nonblocking ==> r == ReadStep::WouldBlock,
        pulled == 0 && !closed && !nonblocking ==> r == ReadStep::Wait,
{
    if pulled > 0 {
        ReadStep::Read(pulled)
    } else if closed {
        ReadStep::Eof
    } else if nonblocking {
        ReadStep::WouldBlock
    } else {
        ReadStep::Wait
    }
}

/// What a write attempt reports, given whether the peer had closed, how
/// many bytes it pushed, and this end's non-blocking flag.
///
/// A closed reader makes the write fail outright, whatever else holds; a
/// short but positive count is success; and only a non-blocking end sees
/// `WouldBlock`.
pub fn write_decision(closed: bool, pushed: usize, nonblocking: bool) -> (r: WriteStep)
    ensures
        closed ==> r == WriteStep::Closed,
        !closed && pushed > 0 ==> r == WriteStep::Wrote(pushed),
        !closed && pushed == 0 && nonblocking ==> r == WriteStep::WouldBlock,
        !closed && pushed == 0 && !nonblocking ==> r == WriteStep::Wait,
{
    if closed {
        WriteStep::Closed
    } else if pushed > 0 {
        WriteStep::Wrote(pushed)
    } else if nonblocking {
        WriteStep::WouldBlock
    } else {
        WriteStep::Wait
    }
}

/// The predicate on the shared closed flag: any value may be stored.
pub struct FlagPred {}

impl RwLockPredicate<bool> for FlagPred {
    open spec fn inv(self, v: bool) -> bool {
        true
    }
}

/// Creates new pipes with configurable properties.
pub struct PipeBuilder {
    nonblocking: bool,
    capacity: usize,
}

impl PipeBuilder {
    /// The non-blocking mode new ends will start in.
    pub closed spec fn spec_nonblocking(&self) -> bool {
        self.nonblocking
    }

    /// The buffer capacity the pipe will be built with.
    pub closed spec fn spec_capacity(&self) -> int {
        self.capacity as int
    }

    /// A builder for a blocking pipe with the default capacity.
    pub fn new() -> (r: Self)
        ensures
            !r.spec_nonblocking(),
            r.spec_capacity() == DEFAULT_CAPACITY,
    {
        PipeBuilder { nonblocking: false, capacity: DEFAULT_CAPACITY }
    }

    /// Enable or disable non-blocking behavior.
    ///
    /// If non-blocking mode is enabled, any reads or writes that cannot be
    /// completed until later will report `WouldBlock` instead of asking the
    /// caller to wait.
    pub fn nonblocking(&mut self, nonblocking: bool) -> (r: &mut Self)
        ensures
            r.spec_nonblocking() == nonblocking,
            r.spec_capacity() == old(self).spec_capacity(),
            *final(self) == *final(r),
    {
        self.nonblocking = nonblocking;
        self
    }

    /// Set the maximum buffer capacity of the pipe in bytes.
    pub fn capacity(&mut self, capacity: usize) -> (r: &mut Self)
        ensures
            r.spec_capacity() == capacity,
            r.spec_nonblocking() == old(self).spec_nonblocking(),
            *final(self) == *final(r),
    {
        self.capacity = capacity;
        self
    }

    /// Create a new pipe using the current settings and return a reader and
    /// writer pair.
    pub fn build(&self) -> (r: (PipeReader, PipeWriter))
        requires
            self.spec_capacity() <= MAX_LEN,
        ensures
            r.0.is_nonblocking() == self.spec_nonblocking(),
            r.1.is_nonblocking() == self.spec_nonblocking(),
            r.0.shares_pipe_with(&r.1),
            r.0.cap() == r.1.cap(),
            r.0.cap() == crate::buffers::unbounded::grown_capacity(self.spec_capacity() as nat),
    {
        let buffers = bounded::<u8>(self.capacity);
        let flag = RwLock::<bool, FlagPred>::new(false, Ghost(FlagPred {}));
        let shared = Arc::new(flag);
        let shared2 = crate::buffers::share(&shared);
        (
            PipeReader { nonblocking: self.nonblocking, buffer: buffers.0, shared },
            PipeWriter { nonblocking: self.nonblocking, buffer: buffers.1, shared: shared2 },
        )
    }
}

impl Default for PipeBuilder {
    /// A builder for a blocking pipe with the default capacity.
    fn default() -> (r: Self)
        ensures
            !r.spec_nonblocking(),
            r.spec_capacity() == DEFAULT_CAPACITY,
    {
        PipeBuilder::new()
    }
}

/// Open a new pipe and return a reader and writer pair.
///
/// The pipe is allocated with a default buffer size of 8 KiB. To customize
/// the buffer size or mode, use [`PipeBuilder`] instead.
pub fn pipe() -> (r: (PipeReader, PipeWriter))
    ensures
        !r.0.is_nonblocking(),
        !r.1.is_nonblocking(),
        r.0.shares_pipe_with(&r.1),
        r.0.cap() == DEFAULT_CAPACITY && r.1.cap() == DEFAULT_CAPACITY,
{
    let r = PipeBuilder::new().build();
    proof {
        assert(crate::arrays::is_pow2(8192nat)) by {
            reveal_with_fuel(crate::arrays::is_pow2, 16);
        }
        crate::arrays::lemma_pow2_round_up_exact(8192, 8192);
    }
    r
}

/// The reading end of a pipe.
pub struct PipeReader {
    nonblocking: bool,
    buffer: atomic::Reader<u8>,
    shared: Arc<RwLock<bool, FlagPred>>,
}

impl PipeReader {
    /// Whether this end is in non-blocking mode.
    pub closed spec fn is_nonblocking(&self) -> bool {
        self.nonblocking
    }

    /// The fixed capacity of the pipe's buffer.
    pub closed spec fn cap(&self) -> int {
        self.buffer.cap()
    }

    /// Whether this reading end and the given writing end belong to one
    /// pipe: one byte queue, one closed flag.
    pub closed spec fn shares_pipe_with(&self, w: &PipeWriter) -> bool {
        self.buffer.shares_queue_with(&w.buffer) && self.shared == w.shared
    }

    /// Set the non-blocking mode for this end of the pipe.
    ///
    /// If non-blocking mode is enabled, attempting to read from an empty
    /// pipe reports `WouldBlock` instead of asking the caller to wait for
    /// data.
    pub fn set_nonblocking(&mut self, nonblocking: bool)
        ensures
            final(self).is_nonblocking() == nonblocking,
            final(self).cap() == old(self).cap(),
    {
        self.nonblocking = nonblocking;
    }

    /// Make one attempt to read bytes from the pipe into `buf`.
    ///
    /// Reports exactly one of: bytes moved; end of stream (empty pipe,
    /// writer closed); would-block (empty pipe, non-blocking mode); or that
    /// a blocking caller should wait for data and retry.
    pub fn try_read(&mut self, buf: &mut [u8]) -> (r: ReadStep)
        ensures
            *final(self) == *old(self),
            old(buf)@.len() == 0 ==> r == ReadStep::Read(0) && final(buf)@ == old(buf)@,
            r matches ReadStep::Read(n) ==> n <= old(buf)@.len(),
            r matches ReadStep::Read(n) ==> (old(buf)@.len() > 0 ==> n > 0 && exists|c: Seq<u8>|
                {
                    &&& n == crate::arrays::min_len(
                        #[trigger] c.len() as int,
                        old(buf)@.len() as int,
                    )
                    &&& final(buf)@ == c.take(n as int) + old(buf)@.skip(n as int)
                }),
            !(r matches ReadStep::Read(_)) ==> final(buf)@ == old(buf)@,
            r == ReadStep::WouldBlock ==> old(self).is_nonblocking(),
            r == ReadStep::Wait ==> !old(self).is_nonblocking(),
    {
        if buf.len() == 0 {
            return ReadStep::Read(0);
        }
        let pulled = self.buffer.pull(buf);
        proof {
            if pulled == 0 {
                assert(final(buf)@ =~= old(buf)@);
            }
        }
        let closed = self.peer_closed();
        read_decision(pulled, closed, self.nonblocking)
    }

    /// Make one attempt to read, folding the blocking cases together.
    ///
    /// Returns the byte count on success — `0` both for an empty `buf` and
    /// for end of stream — and `WouldBlock` whenever the attempt would have
    /// had to wait, whatever mode the end is in. Callers that want to park
    /// the thread use [`PipeReader::try_read`] and wait on `Wait`.
    pub fn read(&mut self, buf: &mut [u8]) -> (r: Result<usize, PipeError>)
        ensures
            *final(self) == *old(self),
            old(buf)@.len() == 0 ==> r == Ok::<usize, PipeError>(0) && final(buf)@ == old(buf)@,
            r matches Ok(n) ==> n <= old(buf)@.len(),
            r matches Ok(n) ==> (n == 0 ==> final(buf)@ == old(buf)@),
            r matches Ok(n) ==> (n > 0 ==> exists|c: Seq<u8>|
                {
                    &&& n == crate::arrays::min_len(
                        #[trigger] c.len() as int,
                        old(buf)@.len() as int,
                    )
                    &&& final(buf)@ == c.take(n as int) + old(buf)@.skip(n as int)
                }),
            r matches Err(e) ==> e == PipeError::WouldBlock && final(buf)@ == old(buf)@,
    {
        let step = self.try_read(buf);
        match step {
            ReadStep::Read(n) => Ok(n),
            ReadStep::Eof => Ok(0),
            ReadStep::WouldBlock => Err(PipeError::WouldBlock),
            ReadStep::Wait => Err(PipeError::WouldBlock),
        }
    }

    /// Observe whether either end has closed the pipe.
    fn peer_closed(&self) -> bool {
        let handle = self.shared.acquire_read();
        let closed = *handle.borrow();
        handle.release_read();
        closed
    }

    /// Close this end of the pipe: the writer's next attempt reports a
    /// broken pipe. In-flight bytes stay readable until then.
    pub fn close(&mut self)
        ensures
            *final(self) == *old(self),
    {
        let (_, handle) = self.shared.acquire_write();
        handle.release_write(true);
    }
}

/// The writing end of a pipe.
pub struct PipeWriter {
    nonblocking: bool,
    buffer: atomic::Writer<u8>,
    shared: Arc<RwLock<bool, FlagPred>>,
}

impl PipeWriter {
    /// Whether this end is in non-blocking mode.
    pub closed spec fn is_nonblocking(&self) -> bool {
        self.nonblocking
    }

    /// The fixed capacity of the pipe's buffer.
    pub closed spec fn cap(&self) -> int {
        self.buffer.cap()
    }

    /// Set the non-blocking mode for this end of the pipe.
    ///
    /// If non-blocking mode is enabled, attempting to write to a full pipe
    /// reports `WouldBlock` instead of asking the caller to wait for space.
    pub fn set_nonblocking(&mut self, nonblocking: bool)
        ensures
            final(self).is_nonblocking() == nonblocking,
            final(self).cap() == old(self).cap(),
    {
        self.nonblocking = nonblocking;
    }

    /// Make one attempt to write bytes from `buf` into the pipe.
    ///
    /// A closed reader fails the attempt before anything is pushed. A
    /// positive short count is success: callers needing exact-length writes
    /// must loop.
    pub fn try_write(&mut self, buf: &[u8]) -> (r: WriteStep)
        ensures
            *final(self) == *old(self),
            buf@.len() == 0 ==> r == WriteStep::Wrote(0),
            r matches WriteStep::Wrote(n) ==> n <= buf@.len(),
            r matches WriteStep::Wrote(n) ==> (buf@.len() > 0 ==> n > 0 && exists|c: Seq<u8>|
                {
                    &&& #[trigger] c.len() <= old(self).cap()
                    &&& n == crate::arrays::min_len(buf@.len() as int, old(self).cap() - c.len())
                }),
            r == WriteStep::WouldBlock ==> old(self).is_nonblocking(),
            r == WriteStep::Wait ==> !old(self).is_nonblocking(),
    {
        if buf.len() == 0 {
            return WriteStep::Wrote(0);
        }
        let closed = self.peer_closed();
        if closed {
            return write_decision(true, 0, self.nonblocking);
        }
        let pushed = self.buffer.push(buf);
        write_decision(false, pushed, self.nonblocking)
    }

    /// Make one attempt to write, folding the blocking cases together.
    ///
    /// Returns the byte count pushed — possibly short — `BrokenPipe` when
    /// the reader has closed, and `WouldBlock` whenever the attempt would
    /// have had to wait, whatever mode the end is in. Callers that want to
    /// park the thread use [`PipeWriter::try_write`] and wait on `Wait`.
    pub fn write(&mut self, buf: &[u8]) -> (r: Result<usize, PipeError>)
        ensures
            *final(self) == *old(self),
            buf@.len() == 0 ==> r == Ok::<usize, PipeError>(0),
            r matches Ok(n) ==> n <= buf@.len(),
            r matches Ok(n) ==> (buf@.len() > 0 ==> n > 0 && exists|c: Seq<u8>|
                {
                    &&& #[trigger] c.len() <= old(self).cap()
                    &&& n == crate::arrays::min_len(buf@.len() as int, old(self).cap() - c.len())
                }),
    {
        let step = self.try_write(buf);
        match step {
            WriteStep::Wrote(n) => Ok(n),
            WriteStep::Closed => Err(PipeError::BrokenPipe),
            WriteStep::WouldBlock => Err(PipeError::WouldBlock),
            WriteStep::Wait => Err(PipeError::WouldBlock),
        }
    }

    /// Flushing is a no-op: there is no buffering layer past the pipe.
    pub fn flush(&mut self) -> (r: Result<(), PipeError>)
        ensures
            r == Ok::<(), PipeError>(()),
    {
        Ok(())
    }

    /// Observe whether either end has closed the pipe.
    fn peer_closed(&self) -> bool {
        let handle = self.shared.acquire_read();
        let closed = *handle.borrow();
        handle.release_read();
        closed
    }

    /// Close this end of the pipe: once the pipe drains, the reader's next
    /// attempt reports end of stream.
    pub fn close(&mut self)
        ensures
            *final(self) == *old(self),
    {
        let (_, handle) = self.shared.acquire_write();
        handle.release_write(true);
    }
}

} // verus!
