use futures::task::noop_waker;
use sluice::io::{pipe, read_decision, write_decision, PipeBuilder, PipeError, ReadStep, WriteStep};
use sluice::pipe::chunked;
use sluice::pipe::chunked::PipePoll;
use std::task::Context;

fn ready(poll: PipePoll) -> Result<usize, PipeError> {
    match poll {
        PipePoll::Ready(res) => res,
        PipePoll::Pending => panic!("expected poll to be ready"),
    }
}

#[test]
fn read_write() {
    let (mut reader, mut writer) = pipe();

    assert_eq!(writer.write(b"hello world").unwrap(), 11);

    let mut buf = [0; 11];
    assert_eq!(reader.read(&mut buf).unwrap(), 11);
    assert_eq!(&buf, b"hello world");
}

#[test]
fn read_nonblocking() {
    let (mut reader, _writer) = pipe();

    let mut buf = [0; 4];
    reader.set_nonblocking(true);
    assert_eq!(reader.read(&mut buf).err().unwrap(), PipeError::WouldBlock);
}

#[test]
fn write_nonblocking() {
    let (_reader, mut writer) = PipeBuilder::default().capacity(16).build();

    let buf = [0; 16];
    assert_eq!(writer.write(&buf).unwrap(), buf.len());

    writer.set_nonblocking(true);
    assert_eq!(writer.write(&buf).err().unwrap(), PipeError::WouldBlock);
}

#[test]
fn read_from_closed_pipe_returns_zero() {
    let (mut reader, mut writer) = pipe();
    writer.close();
    drop(writer);

    let mut buf = [0; 16];
    assert_eq!(reader.read(&mut buf).unwrap(), 0);
}

#[test]
fn write_to_closed_pipe_returns_broken_pipe() {
    let (mut reader, mut writer) = pipe();
    reader.close();
    drop(reader);

    assert_eq!(writer.write(b"hi").err().unwrap(), PipeError::BrokenPipe);
}

#[test]
fn read_after_data_then_close_sees_data_then_eof() {
    // Half-close: bytes written before the close stay readable; only then
    // does the reader see end-of-stream.
    let (mut reader, mut writer) = pipe();
    assert_eq!(writer.write(b"tail").unwrap(), 4);
    writer.close();
    drop(writer);

    let mut buf = [0; 16];
    assert_eq!(reader.read(&mut buf).unwrap(), 4);
    assert_eq!(&buf[..4], b"tail");
    assert_eq!(reader.read(&mut buf).unwrap(), 0);
}

#[test]
fn blocking_read_on_empty_pipe_reports_wait() {
    let (mut reader, _writer) = pipe();
    let mut buf = [0; 4];
    assert!(matches!(reader.try_read(&mut buf), ReadStep::Wait));
}

#[test]
fn blocking_write_on_full_pipe_reports_wait() {
    let (_reader, mut writer) = PipeBuilder::default().capacity(16).build();
    let buf = [7u8; 16];
    assert!(matches!(writer.try_write(&buf), WriteStep::Wrote(16)));
    assert!(matches!(writer.try_write(&buf), WriteStep::Wait));
}

#[test]
fn short_writes_report_the_partial_count() {
    let (mut reader, mut writer) = PipeBuilder::default().capacity(8).build();
    assert_eq!(writer.write(b"abcde").unwrap(), 5);
    // Only three bytes fit; the rest is the caller's to retry.
    assert_eq!(writer.write(b"fghij").unwrap(), 3);

    let mut buf = [0; 8];
    assert_eq!(reader.read(&mut buf).unwrap(), 8);
    assert_eq!(&buf, b"abcdefgh");
}

#[test]
fn flush_is_a_no_op() {
    let (_reader, mut writer) = pipe();
    assert_eq!(writer.flush(), Ok(()));
}

#[test]
fn read_then_write() {
    let waker = noop_waker();
    let mut context = Context::from_waker(&waker);

    let (mut reader, mut writer) = chunked::new(1);

    assert_eq!(ready(writer.poll_write(&mut context, b"hello")).unwrap(), 5);

    let mut dest = [0; 5];
    assert_eq!(ready(reader.poll_read(&mut context, &mut dest)).unwrap(), 5);
    assert_eq!(&dest, b"hello");
}

#[test]
fn reader_still_drainable_after_writer_disconnects() {
    let waker = noop_waker();
    let mut context = Context::from_waker(&waker);

    let (mut reader, mut writer) = chunked::new(1);

    assert_eq!(ready(writer.poll_write(&mut context, b"hello")).unwrap(), 5);

    drop(writer);

    let mut dest = [0; 5];
    assert_eq!(ready(reader.poll_read(&mut context, &mut dest)).unwrap(), 5);
    assert_eq!(&dest, b"hello");

    assert_eq!(ready(reader.poll_read(&mut context, &mut dest)).unwrap(), 0);
}

#[test]
fn writer_errors_if_reader_is_dropped() {
    let waker = noop_waker();
    let mut context = Context::from_waker(&waker);

    let (reader, mut writer) = chunked::new(2);

    drop(reader);

    match writer.poll_write(&mut context, b"hello") {
        PipePoll::Ready(Err(e)) => assert_eq!(e, PipeError::BrokenPipe),
        _ => panic!("expected poll to be ready"),
    }
}

#[test]
fn chunked_write_is_never_split() {
    // One write is delivered to one read whole whenever the read has room
    // for it, even with several chunks in flight.
    let waker = noop_waker();
    let mut context = Context::from_waker(&waker);

    let (mut reader, mut writer) = chunked::new(4);
    assert_eq!(ready(writer.poll_write(&mut context, b"0123456789")).unwrap(), 10);
    assert_eq!(ready(writer.poll_write(&mut context, b"ab")).unwrap(), 2);

    let mut dest = [0; 64];
    assert_eq!(ready(reader.poll_read(&mut context, &mut dest)).unwrap(), 10);
    assert_eq!(&dest[..10], b"0123456789");
    assert_eq!(ready(reader.poll_read(&mut context, &mut dest)).unwrap(), 2);
    assert_eq!(&dest[..2], b"ab");
}

#[test]
fn chunked_single_chunk_serializes_the_ends() {
    // With one chunk in the pool a second write cannot start until the
    // reader has fully drained the first chunk and returned it.
    let waker = noop_waker();
    let mut context = Context::from_waker(&waker);

    let (mut reader, mut writer) = chunked::new(1);
    assert_eq!(ready(writer.poll_write(&mut context, b"abc")).unwrap(), 3);
    assert!(matches!(writer.poll_write(&mut context, b"def"), PipePoll::Pending));

    // A partial drain keeps the chunk with the reader: still no room.
    let mut small = [0u8; 2];
    assert_eq!(ready(reader.poll_read(&mut context, &mut small)).unwrap(), 2);
    assert_eq!(&small, b"ab");
    assert!(matches!(writer.poll_write(&mut context, b"def"), PipePoll::Pending));

    // Draining the rest returns the chunk to the pool and unblocks the
    // writer.
    let mut rest = [0u8; 2];
    assert_eq!(ready(reader.poll_read(&mut context, &mut rest)).unwrap(), 1);
    assert_eq!(rest[0], b'c');
    assert_eq!(ready(writer.poll_write(&mut context, b"def")).unwrap(), 3);
}

#[test]
fn chunked_reader_pends_on_empty_pipe() {
    let waker = noop_waker();
    let mut context = Context::from_waker(&waker);

    let (mut reader, _writer) = chunked::new(2);
    let mut dest = [0; 4];
    assert!(matches!(reader.poll_read(&mut context, &mut dest), PipePoll::Pending));
}

#[test]
fn chunked_close_delivers_in_flight_data_first() {
    // poll_close: the reader drains what was already written, then sees
    // end-of-stream.
    let waker = noop_waker();
    let mut context = Context::from_waker(&waker);

    let (mut reader, mut writer) = sluice::pipe::pipe();
    assert_eq!(ready(writer.poll_write(&mut context, b"last")).unwrap(), 4);
    assert_eq!(writer.poll_close(), Ok(()));

    let mut dest = [0; 8];
    assert_eq!(ready(reader.poll_read(&mut context, &mut dest)).unwrap(), 4);
    assert_eq!(&dest[..4], b"last");
    assert_eq!(ready(reader.poll_read(&mut context, &mut dest)).unwrap(), 0);
}

#[test]
fn read_decision_covers_every_case() {
    assert_eq!(read_decision(7, false, false), ReadStep::Read(7));
    assert_eq!(read_decision(7, true, true), ReadStep::Read(7));
    assert_eq!(read_decision(0, true, false), ReadStep::Eof);
    assert_eq!(read_decision(0, true, true), ReadStep::Eof);
    assert_eq!(read_decision(0, false, true), ReadStep::WouldBlock);
    assert_eq!(read_decision(0, false, false), ReadStep::Wait);
}

#[test]
fn write_decision_covers_every_case() {
    assert_eq!(write_decision(true, 7, false), WriteStep::Closed);
    assert_eq!(write_decision(true, 0, true), WriteStep::Closed);
    assert_eq!(write_decision(false, 7, true), WriteStep::Wrote(7));
    assert_eq!(write_decision(false, 0, true), WriteStep::WouldBlock);
    assert_eq!(write_decision(false, 0, false), WriteStep::Wait);
}

#[test]
fn builder_starts_ends_in_nonblocking_mode() {
    let (mut reader, mut writer) = PipeBuilder::default().nonblocking(true).capacity(16).build();

    let mut buf = [0; 4];
    assert_eq!(reader.read(&mut buf).err().unwrap(), PipeError::WouldBlock);

    let data = [1u8; 16];
    assert_eq!(writer.write(&data).unwrap(), 16);
    assert_eq!(writer.write(&data).err().unwrap(), PipeError::WouldBlock);
}

#[test]
fn write_of_empty_buffer_succeeds_even_when_closed() {
    // The empty-buffer guard runs before the closed check: an empty write
    // reports 0 even on a broken pipe, and nothing is pushed.
    let (mut reader, mut writer) = pipe();
    reader.close();
    drop(reader);

    assert_eq!(writer.write(b"").unwrap(), 0);
    assert_eq!(writer.write(b"hi").err().unwrap(), PipeError::BrokenPipe);
}
