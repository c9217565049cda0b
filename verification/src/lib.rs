//! In-process byte pipes and the ring buffers underneath them.
//!
//! The crate provides bounded byte queues for moving a stream of bytes
//! between a producer and a consumer, with explicit control over the memory
//! bound and over waiting behaviour:
//!
//! - [`arrays`]: bulk copy helpers and a circular, virtually indexed array.
//! - [`buffer`] and [`buffers::unbounded`]: growable single-owner ring
//!   buffers.
//! - [`buffers::atomic`]: a bounded reader/writer byte queue whose two
//!   handles may be moved to different threads.
//! - [`io`]: a reader/writer pipe over the bounded queue with non-blocking
//!   and half-close semantics.
//! - [`pipe`]: a cooperative pipe that exchanges ownership of a fixed pool
//!   of reusable chunks and delivers every write as one undivided unit.
//!
//! Every operation makes one bounded attempt and returns; callers that want
//! to park a thread between attempts, or to drive an async executor, wrap
//! these types in their own retry loop or poll adapter.

pub mod arrays;
pub mod buffer;
pub mod buffers;
pub mod io;
pub mod pipe;
