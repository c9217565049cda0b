use sluice::buffer::Buffer;

#[test]
fn buffer_test_capacity() {
    let buffer = Buffer::<u8>::with_capacity(16);
    assert!(buffer.capacity() == 16);
}

#[test]
fn buffer_test_push() {
    let mut buffer = Buffer::new();

    assert!(buffer.is_empty());

    let bytes = b"hello world";
    buffer.push(bytes);

    assert!(!buffer.is_empty());
    assert!(buffer.len() == bytes.len());
}

#[test]
fn buffer_test_push_and_consume() {
    let mut buffer = Buffer::with_capacity(12);

    buffer.push(b"hello world");

    assert!(buffer.consume(6) == 6);
    assert!(buffer.len() == 5);

    buffer.push(b" hello");

    assert!(buffer.len() == 11);
}

#[test]
fn buffer_test_pull_more_than_buffer() {
    let mut buffer = Buffer::new();
    let bytes = b"hello world";
    buffer.push(bytes);

    let mut dst = [0; 1024];
    assert!(buffer.pull(&mut dst) == bytes.len());
    assert!(&dst[0..bytes.len()] == bytes);
    assert!(buffer.is_empty());
}

#[test]
fn buffer_test_pull_less_than_buffer() {
    let mut buffer = Buffer::new();
    let bytes = b"hello world";
    buffer.push(bytes);

    let mut dst = [0; 4];
    assert!(buffer.pull(&mut dst) == dst.len());
    assert!(&dst == &bytes[0..4]);
    assert!(!buffer.is_empty());
    assert!(buffer.len() == bytes.len() - dst.len());
}

#[test]
fn buffer_test_force_resize() {
    let mut buffer = Buffer::with_capacity(8);

    buffer.push(b"hello");
    assert!(buffer.capacity() == 8);

    buffer.push(b" world");
    assert!(buffer.capacity() > 8);

    let mut out = [0; 11];
    buffer.copy_to(&mut out);
    assert!(&out == b"hello world");
}

#[test]
fn buffer_clear_keeps_capacity() {
    let mut buffer = Buffer::<u8>::with_capacity(16);
    buffer.push(b"abc");
    buffer.clear();
    assert!(buffer.is_empty());
    assert_eq!(buffer.capacity(), 16);
}
