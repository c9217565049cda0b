//! The chunked cooperative pipe.
//!
//! A ring buffer does not fit callers that must consume either all of a
//! "chunk" of bytes or none of it. This pipe instead keeps a fixed pool of
//! reusable growable chunks that are exchanged back and forth between the
//! producer and the consumer over two bounded channels: the writer takes an
//! empty chunk from the pool, fills it with the whole buffer it was handed,
//! and sends it to the reader as one unit; the reader drains it, possibly
//! over several reads, and returns the emptied chunk to the pool. The number
//! of chunks in the system is fixed at creation, so the only allocation
//! after start-up is the occasional growth of one chunk.
//!
//! Nothing here blocks a thread: an attempt that cannot go forward reports
//! `Pending` after registering the caller's waker, cooperative-scheduler
//! style, through the channels' own poll functions.

use crate::arrays::{copy, min_len};
use crate::io::PipeError;
use futures_channel::mpsc;
use futures_core::Stream;
use std::pin::Pin;
use std::task::{Context, Poll};
use vstd::prelude::*;

verus! {

#[verifier::external_type_specification]
#[verifier::external_body]
#[verifier::reject_recursive_types(T)]
pub struct ExSender<T>(mpsc::Sender<T>);

#[verifier::external_type_specification]
#[verifier::external_body]
#[verifier::reject_recursive_types(T)]
pub struct ExReceiver<T>(mpsc::Receiver<T>);

#[verifier::external_type_specification]
#[verifier::external_body]
pub struct ExContext<'a>(Context<'a>);

/// One reusable buffer travelling between the pool and the stream: a byte
/// store and a read cursor marking how much of it has been drained.
pub struct Chunk {
    data: Vec<u8>,
    pos: usize,
}

impl View for Chunk {
    /// What is left to read out of the chunk: everything past the cursor.
    /// A cursor past the end — which no operation produces — reads as an
    /// empty chunk.
    type V = Seq<u8>;

    closed spec fn view(&self) -> Seq<u8> {
        self.data@.skip(min_len(self.pos as int, self.data@.len() as int))
    }
}

impl Chunk {
    /// A fresh, empty chunk.
    pub fn new() -> (r: Self)
        ensures
            r@ == Seq::<u8>::empty(),
    {
        let r = Chunk { data: Vec::new(), pos: 0 };
        proof {
            assert(r@ =~= Seq::<u8>::empty());
        }
        r
    }

    /// Append the whole of `src` behind what the chunk already holds.
    pub fn append(&mut self, src: &[u8])
        ensures
            final(self)@ == old(self)@ + src@,
    {
        if self.pos > self.data.len() {
            self.pos = self.data.len();
        }
        self.data.extend_from_slice(src);
        proof {
            assert(final(self)@ =~= old(self)@ + src@);
        }
    }

    /// Move bytes out of the front of the chunk into `dest`.
    ///
    /// Returns how many were moved: everything left, or as much as `dest`
    /// holds.
    pub fn drain(&mut self, dest: &mut [u8]) -> (n: usize)
        ensures
            n == min_len(old(self)@.len() as int, old(dest)@.len() as int),
            final(dest)@ == old(self)@.take(n as int) + old(dest)@.skip(n as int),
            final(self)@ == old(self)@.skip(n as int),
    {
        let p = if self.pos <= self.data.len() {
            self.pos
        } else {
            self.data.len()
        };
        let (_, rest) = self.data.as_slice().split_at(p);
        let n = copy(rest, dest);
        self.pos = p + n;
        proof {
            assert(final(self)@ =~= old(self)@.skip(n as int));
            assert(final(dest)@ =~= old(self)@.take(n as int) + old(dest)@.skip(n as int));
        }
        n
    }

    /// Whether nothing is left to read.
    pub fn is_drained(&self) -> (r: bool)
        ensures
            r == (self@.len() == 0),
    {
        self.pos >= self.data.len()
    }

    /// Make the chunk empty again, ready for reuse from the pool.
    pub fn reset(&mut self)
        ensures
            final(self)@ == Seq::<u8>::empty(),
    {
        self.data.clear();
        self.pos = 0;
        proof {
            assert(final(self)@ =~= Seq::<u8>::empty());
        }
    }
}

/// Chunked writes are atomic: the chunk a write fills holds exactly the
/// written bytes behind what it already carried — for a pool chunk,
/// nothing — and one read with room enough drains all of them at once, so
/// a write is never split across reads that could have taken it whole.
pub proof fn lemma_chunk_write_atomic(prior: Seq<u8>, buf: Seq<u8>, dest_len: int)
    requires
        prior.len() == 0,
        dest_len >= buf.len(),
    ensures
        prior + buf == buf,
        min_len((prior + buf).len() as int, dest_len) == buf.len(),
        (prior + buf).take(min_len((prior + buf).len() as int, dest_len)) == buf,
{
    assert(prior + buf =~= buf);
    assert(buf.take(buf.len() as int) =~= buf);
}

/// Successive drains of one chunk hand its bytes out in order with none
/// lost: what two reads deliver, one after the other, is one unbroken
/// prefix of the chunk's contents.
pub proof fn lemma_chunk_drain_in_order(c: Seq<u8>, k1: int, k2: int)
    requires
        0 <= k1,
        0 <= k2,
    ensures
        ({
            let m1 = min_len(c.len() as int, k1);
            let m2 = min_len(c.skip(m1).len() as int, k2);
            c.take(m1) + c.skip(m1).take(m2) == c.take(m1 + m2)
        }),
{
    let m1 = min_len(c.len() as int, k1);
    let m2 = min_len(c.skip(m1).len() as int, k2);
    assert(c.take(m1) + c.skip(m1).take(m2) =~= c.take(m1 + m2));
}

/// What polling a chunk channel produced.
pub enum ChunkPoll {
    /// Nothing yet; the waker is registered and the caller resumes later.
    Pending,
    /// The channel is closed and drained: no chunk will ever arrive.
    Closed,
    /// A chunk arrived.
    Item(Chunk),
}

/// What trying to hand a chunk to a channel produced.
pub enum SendOutcome {
    /// The chunk was accepted.
    Sent,
    /// The channel was full; the chunk comes back.
    Full(Chunk),
    /// The peer is gone; the chunk comes back.
    Disconnected(Chunk),
}

/// Relies on futures_channel::mpsc::channel: builds the bounded channel
/// pair. The buffer bound must stay under the channel's internal capacity
/// limit of a quarter of the word range, or the constructor panics.
#[verifier::external_body]
fn chunk_channel(count: usize) -> (r: (mpsc::Sender<Chunk>, mpsc::Receiver<Chunk>))
    requires
        count < usize::MAX / 4,
{
    mpsc::channel(count)
}

/// Relies on futures_core::Stream::poll_next on the bounded mpsc receiver:
/// reports a waiting item, a closed-and-drained channel, or registers the
/// waker and reports pending; it never panics. What arrives depends on the
/// peer, so nothing is promised about the item.
#[verifier::external_body]
fn poll_receive(rx: &mut mpsc::Receiver<Chunk>, cx: &mut Context<'_>) -> (r: ChunkPoll)
{
    match Pin::new(rx).poll_next(cx) {
        Poll::Pending => ChunkPoll::Pending,
        Poll::Ready(None) => ChunkPoll::Closed,
        Poll::Ready(Some(chunk)) => ChunkPoll::Item(chunk),
    }
}

/// Relies on futures_channel::mpsc::Sender::try_send: accepts the item or
/// returns it inside a full or disconnected error; it never panics. Whether
/// there is room depends on the peer, so nothing is promised beyond getting
/// the chunk back on failure.
#[verifier::external_body]
fn try_send(tx: &mut mpsc::Sender<Chunk>, chunk: Chunk) -> (r: SendOutcome)
{
    match tx.try_send(chunk) {
        Ok(()) => SendOutcome::Sent,
        Err(e) => {
            if e.is_full() {
                SendOutcome::Full(e.into_inner())
            } else {
                SendOutcome::Disconnected(e.into_inner())
            }
        },
    }
}

/// Relies on futures_channel::mpsc::Sender::is_closed: whether the receiver
/// is gone or the channel was closed; the peer may detach at any moment, so
/// nothing is promised of the answer.
#[verifier::external_body]
fn sender_is_closed(tx: &mpsc::Sender<Chunk>) -> bool {
    tx.is_closed()
}

/// Relies on futures_channel::mpsc::Sender::close_channel: no new chunks
/// will be accepted, while buffered ones stay receivable.
#[verifier::external_body]
fn close_sender(tx: &mut mpsc::Sender<Chunk>) {
    tx.close_channel();
}

/// What one poll of a pipe end produced: still waiting, or a finished
/// read/write with its byte count.
#[derive(Debug)]
pub enum PipePoll {
    /// Not ready; the caller's waker is registered and it resumes later.
    Pending,
    /// The attempt finished with this result.
    Ready(Result<usize, PipeError>),
}

/// Create a new chunked pipe with room for a fixed number of chunks.
///
/// `count` bounds how many chunks are in flight at once, and so the memory
/// amplification between the two ends. With `count` of 1 the pipe is fully
/// serial: the writer cannot start a chunk before the reader has returned
/// the previous one.
pub fn new(count: usize) -> (r: (Reader, Writer))
    requires
        count < usize::MAX / 4,
    ensures
        r.0.held() == Seq::<u8>::empty(),
{
    let (mut buf_pool_tx, buf_pool_rx) = chunk_channel(count);
    let (buf_stream_tx, buf_stream_rx) = chunk_channel(count);
    // Fill up the buffer pool. The channel was sized for exactly this many,
    // so each send is accepted; a chunk that a send would not take is
    // dropped, costing pool capacity but never correctness.
    let mut filled: usize = 0;
    while filled < count
        decreases count - filled,
    {
        let _outcome = try_send(&mut buf_pool_tx, Chunk::new());
        filled = filled + 1;
    }
    let reader = Reader { buf_pool_tx, buf_stream_rx, chunk: None };
    let writer = Writer { buf_pool_rx, buf_stream_tx };
    (reader, writer)
}

/// The reading half of a chunked pipe.
pub struct Reader {
    /// Returns consumed chunk buffers to the writer for reuse.
    buf_pool_tx: mpsc::Sender<Chunk>,
    /// Incoming filled chunks from the writer.
    buf_stream_rx: mpsc::Receiver<Chunk>,
    /// A chunk currently being read from, kept between calls while it still
    /// holds bytes.
    chunk: Option<Chunk>,
}

impl Reader {
    /// What is left of the chunk held over from earlier reads.
    pub closed spec fn held(&self) -> Seq<u8> {
        match self.chunk {
            Some(c) => c@,
            None => Seq::<u8>::empty(),
        }
    }

    /// Make one attempt to read bytes out of the pipe into `buf`.
    ///
    /// A held chunk is drained first; otherwise one chunk is awaited from
    /// the writer and drained. A whole chunk is delivered in one call
    /// whenever `buf` is long enough, so one write is never split across
    /// reads that could have taken it whole. A read never errors: a
    /// detached writer is reported as end-of-stream (`Ready(Ok(0))`) once
    /// the in-flight chunks are drained.
    pub fn poll_read(&mut self, cx: &mut Context<'_>, buf: &mut [u8]) -> (r: PipePoll)
        ensures
            r matches PipePoll::Ready(res) ==> res matches Ok(n) && n <= old(buf)@.len(),
            r matches PipePoll::Pending ==> final(buf)@ == old(buf)@ && final(self).held()
                == old(self).held(),
            old(self).held().len() > 0 ==> ({
                let n = min_len(old(self).held().len() as int, old(buf)@.len() as int);
                &&& r == PipePoll::Ready(Result::<usize, PipeError>::Ok(n as usize))
                &&& final(buf)@ == old(self).held().take(n) + old(buf)@.skip(n)
                &&& final(self).held() == old(self).held().skip(n)
            }),
            r matches PipePoll::Ready(res) ==> (res matches Ok(n) ==> exists|c: Seq<u8>|
                {
                    &&& n == min_len(#[trigger] c.len() as int, old(buf)@.len() as int)
                    &&& final(buf)@ == c.take(n as int) + old(buf)@.skip(n as int)
                    &&& final(self).held() == c.skip(n as int)
                }),
    {
        // Fetch the chunk to read from: the one already in hand, else the
        // next one the writer delivers.
        let taken = self.chunk.take();
        let mut chunk = match taken {
            Some(chunk) => chunk,
            None => {
                match poll_receive(&mut self.buf_stream_rx, cx) {
                    ChunkPoll::Pending => {
                        proof {
                            assert(final(buf)@ =~= old(buf)@);
                        }
                        return PipePoll::Pending;
                    },
                    ChunkPoll::Closed => {
                        proof {
                            assert(final(buf)@ =~= old(buf)@);
                            assert(final(buf)@ == Seq::<u8>::empty().take(0) + old(buf)@.skip(0));
                            assert(final(self).held() =~= Seq::<u8>::empty().skip(0));
                        }
                        return PipePoll::Ready(Ok(0));
                    },
                    ChunkPoll::Item(chunk) => chunk,
                }
            },
        };
        let ghost contents = chunk@;
        let n = chunk.drain(buf);
        if !chunk.is_drained() {
            // Not empty yet: keep it for a future read.
            self.chunk = Some(chunk);
        } else {
            // Drained: hand it back to the writer for reuse. If the writer
            // has detached the pool is gone, and the chunk is simply
            // dropped; the remaining in-flight chunks stay readable.
            chunk.reset();
            let _outcome = try_send(&mut self.buf_pool_tx, chunk);
        }
        proof {
            assert(final(self).held() =~= contents.skip(n as int));
        }
        PipePoll::Ready(Ok(n))
    }

    /// Drop the held chunk, if any, releasing its memory early. Closing the
    /// reading half otherwise happens by dropping it, which detaches the
    /// channels and makes the writer's next attempt report a broken pipe.
    pub fn close(&mut self)
        ensures
            final(self).held() == Seq::<u8>::empty(),
    {
        self.chunk = None;
    }
}

/// The writing half of a chunked pipe.
pub struct Writer {
    /// Reusable chunk buffers coming back from the reader.
    buf_pool_rx: mpsc::Receiver<Chunk>,
    /// Filled chunks on their way to the reader.
    buf_stream_tx: mpsc::Sender<Chunk>,
}

impl Writer {
    /// Make one attempt to write the whole of `buf` into the pipe.
    ///
    /// The write is atomic: either every byte of `buf` is handed to the
    /// reader inside one chunk — and the full length is reported — or
    /// nothing is. A detached reader is reported as a broken pipe, before
    /// any data is touched.
    pub fn poll_write(&mut self, cx: &mut Context<'_>, buf: &[u8]) -> (r: PipePoll)
        ensures
            r matches PipePoll::Ready(res) ==> (res matches Ok(n) ==> n == buf@.len()),
            r matches PipePoll::Ready(res) ==> (res matches Err(e) ==> e == PipeError::BrokenPipe),
    {
        // An early check: filling a whole chunk only to find the reader
        // gone would be wasted work.
        if sender_is_closed(&self.buf_stream_tx) {
            return PipePoll::Ready(Err(PipeError::BrokenPipe));
        }
        // Wait for an empty chunk from the pool.
        match poll_receive(&mut self.buf_pool_rx, cx) {
            ChunkPoll::Pending => PipePoll::Pending,
            ChunkPoll::Closed => PipePoll::Ready(Err(PipeError::BrokenPipe)),
            ChunkPoll::Item(mut chunk) => {
                // Fill the chunk with the whole buffer, then hand it over
                // as one unit.
                chunk.append(buf);
                match try_send(&mut self.buf_stream_tx, chunk) {
                    SendOutcome::Sent => PipePoll::Ready(Ok(buf.len())),
                    // A full stream channel would mean the fixed pool had
                    // leaked an extra chunk — an internal accounting
                    // violation that deserves to fail loudly, but a
                    // verified function may not abort, so the unreachable
                    // case is reported as a failed write instead.
                    SendOutcome::Full(c) => PipePoll::Ready(Err(PipeError::BrokenPipe)),
                    SendOutcome::Disconnected(c) => PipePoll::Ready(Err(PipeError::BrokenPipe)),
                }
            },
        }
    }

    /// Flushing is a no-op: a completed write already sits with the reader.
    pub fn poll_flush(&mut self) -> (r: Result<(), PipeError>)
        ensures
            r == Ok::<(), PipeError>(()),
    {
        Ok(())
    }

    /// Close the writing half: the reader drains what is in flight, then
    /// sees end-of-stream. In-flight chunks are never discarded by a close.
    pub fn poll_close(&mut self) -> (r: Result<(), PipeError>)
        ensures
            r == Ok::<(), PipeError>(()),
    {
        close_sender(&mut self.buf_stream_tx);
        Ok(())
    }

    /// Whether the reading half has detached.
    pub fn is_closed(&self) -> bool {
        sender_is_closed(&self.buf_stream_tx)
    }
}

} // verus!
