use reactor::ops::{split_into_offsets, Op, OpDesc, OpKind, Read, Write};
use reactor::source::{RawSource, SourceType};

#[test]
fn read_describes_a_socket_operation() {
    let src = RawSource::new(7, SourceType::Socket);
    let buf: Vec<u8> = vec![0; 16];
    let op = Read::new(&src, buf);
    assert_eq!(op.source(), 7);
    assert_eq!(op.variant(), SourceType::Socket);
    let d = op.descriptor();
    assert_eq!(
        d,
        OpDesc {
            kind: OpKind::ReadFrom,
            source: 7,
            variant: SourceType::Socket,
            len: 16,
            offset: 0,
            read: true,
            write: false,
        }
    );
}

#[test]
fn read_offset_applies_to_files_only() {
    let file = RawSource::new(3, SourceType::File);
    let mut op = Read::new(&file, vec![0u8; 4]);
    op.offset(9);
    assert_eq!(op.descriptor().offset, 9);

    let sock = RawSource::new(4, SourceType::Socket);
    let mut op2 = Read::new(&sock, vec![0u8; 4]);
    op2.offset(9);
    assert_eq!(op2.descriptor().offset, 0);
}

#[test]
fn read_hands_its_buffer_back() {
    let src = RawSource::new(1, SourceType::Socket);
    let op = Read::new(&src, vec![1u8, 2, 3]);
    assert_eq!(op.into_captured(), vec![1u8, 2, 3]);
}

#[test]
fn write_describes_a_file_operation() {
    let src = RawSource::new(5, SourceType::File);
    let mut op = Write::new(&src, vec![9u8, 9]);
    op.offset(100);
    let d = op.descriptor();
    assert_eq!(d.kind, OpKind::WriteTo);
    assert_eq!(d.len, 2);
    assert_eq!(d.offset, 100);
    assert!(d.write);
    assert!(!d.read);
}

#[test]
fn read_accepts_a_sliced_buffer() {
    let src = RawSource::new(2, SourceType::File);
    let window = reactor::buf::slice(vec![0u8; 10], 0, 4);
    let mut op = Read::new(&src, window);
    op.offset(3);
    let d = op.descriptor();
    assert_eq!(d.len, 4);
    assert_eq!(d.offset, 3);
}

#[test]
fn offsets_split_into_halves() {
    assert_eq!(split_into_offsets(0), (0, 0));
    assert_eq!(split_into_offsets(0x1_0000_0002), (2, 1));
    assert_eq!(split_into_offsets(-1), (0xffff_ffff, 0xffff_ffff));
    let (lo, hi) = split_into_offsets(0x0123_4567_89ab_cdef);
    assert_eq!(lo, 0x89ab_cdef);
    assert_eq!(hi, 0x0123_4567);
}
