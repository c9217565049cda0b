use sluice::buffers::atomic::bounded;
use sluice::buffers::unbounded::UnboundedBuffer;
use sluice::buffers::{Buffer, ReadableBuffer, WritableBuffer};

#[test]
fn atomic_test_capacity() {
    let buffer = bounded::<u8>(16);

    assert_eq!(buffer.0.capacity(), 16);
    assert_eq!(buffer.1.capacity(), 16);
}

#[test]
fn atomic_test_push() {
    let mut buffer = bounded::<u8>(16);

    assert!(buffer.0.is_empty());
    assert!(buffer.1.is_empty());

    let bytes = b"hello world";
    assert_eq!(buffer.1.push(bytes), bytes.len());

    assert!(!buffer.0.is_empty());
    assert!(!buffer.1.is_empty());

    assert_eq!(buffer.0.len(), bytes.len());
    assert_eq!(buffer.1.len(), bytes.len());
}

#[test]
fn test_push_more_than_buffer() {
    let mut buffer = bounded::<u8>(2);
    assert_eq!(buffer.0.capacity(), 2);

    assert_eq!(buffer.1.push(&[100]), 1);
    assert_eq!(buffer.1.push(&[200]), 1);
    assert_eq!(buffer.1.push(&[210]), 0);
    assert_eq!(buffer.1.push(&[220]), 0);

    assert_eq!(buffer.0.len(), 2);
}

#[test]
fn atomic_test_push_and_consume() {
    let mut buffer = bounded::<u8>(12);

    assert_eq!(buffer.1.push(b"hello world"), 11);

    assert_eq!(buffer.0.consume(6), 6);
    assert_eq!(buffer.0.len(), 5);

    assert_eq!(buffer.1.push(b" hello"), 6);

    assert_eq!(buffer.0.len(), 11);

    let mut dest = [0; 11];
    assert_eq!(buffer.0.copy_to(&mut dest), 11);
    assert_eq!(&dest, b"world hello");
}

#[test]
fn atomic_test_pull_more_than_buffer() {
    let mut buffer = bounded(32);
    let bytes = b"hello world";
    buffer.1.push(bytes);

    let mut dst = [0; 1024];
    assert_eq!(buffer.0.pull(&mut dst), bytes.len());
    assert_eq!(&dst[0..bytes.len()], bytes);
    assert!(buffer.0.is_empty());
}

#[test]
fn atomic_test_pull_less_than_buffer() {
    let mut buffer = bounded(32);
    let bytes = b"hello world";
    buffer.1.push(bytes);

    let mut dst = [0; 4];
    assert_eq!(buffer.0.pull(&mut dst), dst.len());
    assert_eq!(&dst, &bytes[0..4]);
    assert!(!buffer.0.is_empty());
    assert_eq!(buffer.0.len(), bytes.len() - dst.len());
}

#[test]
fn atomic_wraparound_cycles_preserve_data() {
    // Many equal push/pull cycles on a small ring drive the cursors round
    // the array over and over without losing or corrupting bytes, and the
    // live count never passes the capacity.
    let mut buffer = bounded::<u8>(8);
    for round in 0..200u32 {
        let chunk = [
            round as u8,
            round.wrapping_add(1) as u8,
            round.wrapping_add(2) as u8,
            round.wrapping_add(3) as u8,
            round.wrapping_add(4) as u8,
        ];
        assert_eq!(buffer.1.push(&chunk), 5);
        assert!(buffer.0.len() <= 8);

        let mut out = [0u8; 5];
        assert_eq!(buffer.0.pull(&mut out), 5);
        assert_eq!(out, chunk);
        assert!(buffer.0.is_empty());
    }
}

#[test]
fn atomic_clear_empties_the_queue() {
    let mut buffer = bounded::<u8>(8);
    assert_eq!(buffer.1.push(b"abcde"), 5);
    buffer.0.clear();
    assert!(buffer.0.is_empty());
    assert_eq!(buffer.1.push(b"xy"), 2);
    let mut out = [0u8; 2];
    assert_eq!(buffer.0.pull(&mut out), 2);
    assert_eq!(&out, b"xy");
}

#[test]
fn unbounded_test_capacity() {
    let buffer = UnboundedBuffer::<u8>::with_capacity(16);
    assert_eq!(buffer.capacity(), 16);
}

#[test]
fn unbounded_test_push() {
    let mut buffer = UnboundedBuffer::new();

    assert!(buffer.is_empty());

    let bytes = b"hello world";
    assert_eq!(buffer.push(bytes), bytes.len());

    assert!(!buffer.is_empty());
    assert_eq!(buffer.len(), bytes.len());
}

#[test]
fn unbounded_test_push_and_consume() {
    let mut buffer = UnboundedBuffer::with_capacity(12);

    assert_eq!(buffer.push(b"hello world"), 11);

    assert_eq!(buffer.consume(6), 6);
    assert_eq!(buffer.len(), 5);

    assert_eq!(buffer.push(b" hello"), 6);

    assert_eq!(buffer.len(), 11);
}

#[test]
fn test_push_a_lot() {
    let mut buffer = UnboundedBuffer::new();
    let bytes = "heavyweight;".repeat(1000).into_bytes();

    assert_eq!(buffer.len(), 0);
    assert_eq!(buffer.push(&bytes), bytes.len());
    assert_eq!(buffer.len(), bytes.len());
    assert_eq!(buffer.consume(bytes.len()), bytes.len());
    assert_eq!(buffer.len(), 0);
}

#[test]
fn unbounded_test_pull_more_than_buffer() {
    let mut buffer = UnboundedBuffer::new();
    let bytes = b"hello world";
    assert_eq!(buffer.push(bytes), 11);

    let mut dst = [0; 1024];
    assert_eq!(buffer.pull(&mut dst), bytes.len());
    assert_eq!(&dst[0..bytes.len()], bytes);
    assert!(buffer.is_empty());
}

#[test]
fn unbounded_test_pull_less_than_buffer() {
    let mut buffer = UnboundedBuffer::new();
    let bytes = b"hello world";
    buffer.push(bytes);

    let mut dst = [0; 4];
    assert_eq!(buffer.pull(&mut dst), dst.len());
    assert_eq!(&dst, &bytes[0..4]);
    assert!(!buffer.is_empty());
    assert_eq!(buffer.len(), bytes.len() - dst.len());
}

#[test]
fn unbounded_test_force_resize() {
    let mut buffer = UnboundedBuffer::with_capacity(8);

    buffer.push(b"hello");
    assert_eq!(buffer.capacity(), 8);

    buffer.push(b" world");
    assert!(buffer.capacity() > 8);

    let mut out = [0; 11];
    buffer.copy_to(&mut out);
    assert_eq!(&out, b"hello world");
}

#[test]
fn unbounded_round_trip_in_order() {
    // What goes in comes back out, in order, across interleaved pushes and
    // pulls.
    let mut buffer = UnboundedBuffer::<u8>::with_capacity(4);
    assert_eq!(buffer.push(b"abc"), 3);
    assert_eq!(buffer.push(b"defg"), 4);

    let mut out = [0u8; 7];
    assert_eq!(buffer.pull(&mut out), 7);
    assert_eq!(&out, b"abcdefg");
}

#[test]
fn traits_dispatch_to_the_buffer() {
    // The same operations are reachable through the buffer traits.
    fn fill<B: WritableBuffer<u8>>(b: &mut B, src: &[u8]) -> usize {
        b.push(src)
    }

    fn drain<B: ReadableBuffer<u8>>(b: &mut B, dest: &mut [u8]) -> usize {
        b.pull(dest)
    }

    let mut buffer = UnboundedBuffer::<u8>::with_capacity(4);
    assert_eq!(fill(&mut buffer, b"hello"), 5);
    assert_eq!(Buffer::len(&buffer), 5);
    let mut out = [0u8; 5];
    assert_eq!(drain(&mut buffer, &mut out), 5);
    assert_eq!(&out, b"hello");
    assert!(Buffer::is_empty(&buffer));
}
