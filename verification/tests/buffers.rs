use reactor::buf::{slice, Buf, BufMut, VectoredBuf};
use reactor::iovec::OwnedIoSlice;

#[test]
fn vec_is_a_buffer() {
    let v: Vec<u8> = vec![10, 20, 30, 40];
    assert_eq!(v.buf_len(), 4);
    assert_eq!(v.buf_byte(0), 10);
    assert_eq!(v.buf_byte(3), 40);
}

#[test]
fn vec_writes_through() {
    let mut v: Vec<u8> = vec![0, 0, 0];
    v.put(1, 9);
    assert_eq!(v, vec![0, 9, 0]);
}

#[test]
fn slice_restricts_the_byte_range() {
    let v: Vec<u8> = vec![1, 2, 3, 4, 5];
    let s = slice(v, 1, 4);
    assert_eq!(s.buf_len(), 3);
    assert_eq!(s.buf_byte(0), 2);
    assert_eq!(s.buf_byte(2), 4);
}

#[test]
fn slice_of_slice_composes() {
    let v: Vec<u8> = vec![1, 2, 3, 4, 5, 6];
    let outer = slice(v, 1, 5);
    let nested = slice(outer, 1, 3);
    let v2: Vec<u8> = vec![1, 2, 3, 4, 5, 6];
    let direct = slice(v2, 2, 4);
    assert_eq!(nested.buf_len(), direct.buf_len());
    for i in 0..nested.buf_len() {
        assert_eq!(nested.buf_byte(i), direct.buf_byte(i));
    }
}

#[test]
fn slice_writes_at_the_right_offset() {
    let v: Vec<u8> = vec![0, 0, 0, 0];
    let mut s = slice(v, 1, 3);
    s.put(0, 7);
    s.put(1, 8);
    let back = s.into_inner();
    assert_eq!(back, vec![0, 7, 8, 0]);
}

#[test]
fn owned_io_slice_round_trips() {
    let s = OwnedIoSlice::from_boxed_slice(vec![5, 6, 7]);
    assert_eq!(s.buf_len(), 3);
    assert_eq!(s.buf_byte(1), 6);
    assert_eq!(s.into_vec(), vec![5, 6, 7]);
}

#[test]
fn owned_io_slice_writes_through() {
    let mut s = OwnedIoSlice::from_boxed_slice(vec![0, 0]);
    s.put(0, 1);
    s.put(1, 2);
    assert_eq!(s.into_vec(), vec![1, 2]);
}

#[test]
fn vectored_buffer_counts_segments() {
    let v: Vec<OwnedIoSlice> = vec![
        OwnedIoSlice::from_boxed_slice(vec![1]),
        OwnedIoSlice::from_boxed_slice(vec![2, 3]),
    ];
    assert_eq!(v.segment_count(), 2);
    assert_eq!(v.total_len(), 3);
}

#[test]
fn vectored_buffer_with_no_segments_is_empty() {
    let v: Vec<OwnedIoSlice> = Vec::new();
    assert_eq!(v.segment_count(), 0);
    assert_eq!(v.total_len(), 0);
}
