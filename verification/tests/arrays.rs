use sluice::arrays::{copy, copy_from_seq, copy_to_seq, CircularArray};

#[test]
fn copy_shorter_source() {
    let src: [u8; 2] = [7, 8];
    let mut dest: [u8; 5] = [0; 5];
    assert_eq!(copy(&src, &mut dest), 2);
    assert_eq!(&dest, &[7, 8, 0, 0, 0]);
}

#[test]
fn copy_shorter_destination() {
    let src: [u8; 4] = [1, 2, 3, 4];
    let mut dest: [u8; 2] = [0; 2];
    assert_eq!(copy(&src, &mut dest), 2);
    assert_eq!(&dest, &[1, 2]);
}

#[test]
fn copy_from_seq_with_less_elements() {
    let chunks: [&[i32]; 3] = [&[], &[1, 2], &[3]];
    let mut dest = [0; 6];

    assert_eq!(copy_from_seq(&chunks, &mut dest), 3);
    assert_eq!(&dest, &[1, 2, 3, 0, 0, 0]);
}

#[test]
fn copy_from_seq_with_more_elements() {
    let chunks: [&[i32]; 5] = [&[], &[1, 2], &[], &[3], &[4, 5, 6]];
    let mut dest = [0; 4];

    assert_eq!(copy_from_seq(&chunks, &mut dest), 4);
    assert_eq!(&dest, &[1, 2, 3, 4]);
}

#[test]
fn copy_to_seq_with_less_elements() {
    let src: [u8; 3] = [1, 2, 3];
    let mut dest_1 = [0; 1];
    let mut dest_2 = [0; 4];

    assert_eq!(copy_to_seq(&src, &mut dest_1, &mut dest_2), 3);

    assert_eq!(&dest_1, &[1]);
    assert_eq!(&dest_2, &[2, 3, 0, 0]);
}

#[test]
fn copy_to_seq_with_more_elements() {
    let src: [u8; 4] = [1, 2, 3, 4];
    let mut dest_1 = [0; 1];
    let mut dest_2 = [0; 2];

    assert_eq!(copy_to_seq(&src, &mut dest_1, &mut dest_2), 3);

    assert_eq!(&dest_1, &[1]);
    assert_eq!(&dest_2, &[2, 3]);
}

#[test]
fn circular_array_rounds_up_to_power_of_two() {
    let array = CircularArray::<u8>::new(12);
    assert_eq!(array.len(), 16);
    assert_eq!(CircularArray::<u8>::new(0).len(), 1);
    assert_eq!(CircularArray::<u8>::new(8).len(), 8);
}

#[test]
fn circular_array_slices_wrap_around() {
    let mut array = CircularArray::<u8>::new(8);
    // The window 6..10 wraps: two slots at the end, then two at the start.
    let (back, front) = array.as_slices_mut(6..10);
    assert_eq!(back.len(), 2);
    assert_eq!(front.len(), 2);
    back[0] = 1;
    back[1] = 2;
    front[0] = 3;
    front[1] = 4;

    let (a, b) = array.as_slices(6..10);
    assert_eq!(a, &[1, 2]);
    assert_eq!(b, &[3, 4]);

    // The same window named by other virtual indices maps to the same
    // slots.
    let (a, b) = array.as_slices(14..18);
    assert_eq!(a, &[1, 2]);
    assert_eq!(b, &[3, 4]);

    // A non-wrapping window is one contiguous slice.
    let (a, b) = array.as_slices(0..2);
    assert_eq!(a, &[3, 4]);
    assert_eq!(b, &[] as &[u8]);
}
