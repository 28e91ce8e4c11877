//! Reader behaviour: the cursor invariant, peek transparency, batch
//! atomicity, seek and rebase semantics, error reporting, and the concrete
//! little-endian scenario.

use bitchomp::{
    ByteReader, ByteReaderErrorKind, ChompFlatten, Endianness, TryFromBytesError,
};

#[test]
fn test_concrete_little_endian_scenario() {
    let data = [1u8, 1, 1, 12, 0, 0, 0, 0];
    let mut r = ByteReader::new(&data, Endianness::Little);
    assert_eq!(r.read_n::<u8>(3).unwrap().flatten(), vec![1, 1, 1]);
    assert_eq!(r.cursor(), 3);
    assert_eq!(r.peek::<u32>().unwrap().inner(), 12);
    assert_eq!(r.cursor(), 3);
    assert_eq!(r.read::<u32>().unwrap().inner(), 12);
    assert_eq!(r.cursor(), 7);
    // one byte of the 8 is left: the u32 read advanced exactly 4 bytes
    assert_eq!(r.len(), 1);
    assert_eq!(r.read::<u8>().unwrap().inner(), 0);
    assert_eq!(r.len(), 0);
}

#[test]
fn test_cursor_invariant_through_operations() {
    let data = [9u8, 8, 7, 6, 5, 4, 3, 2, 1, 0];
    let mut r = ByteReader::new(&data, Endianness::Little);
    assert_eq!(r.cursor() + r.len(), r.size());
    r.read::<u16>().unwrap();
    assert_eq!(r.cursor() + r.len(), r.size());
    r.peek::<u32>().unwrap();
    assert_eq!(r.cursor() + r.len(), r.size());
    r.seek(7).unwrap();
    assert_eq!(r.cursor() + r.len(), r.size());
    assert!(r.read::<u32>().is_err());
    assert_eq!(r.cursor() + r.len(), r.size());
    r.seek(0).unwrap();
    r.read_n::<u16>(5).unwrap();
    assert_eq!(r.cursor() + r.len(), r.size());
    assert_eq!(r.len(), 0);
}

#[test]
fn test_peek_is_no_op_on_position() {
    let data = [0x2au8, 0, 0, 0, 9];
    let mut r = ByteReader::new(&data, Endianness::Little);
    let peeked = r.peek::<u32>().unwrap().inner();
    assert_eq!(r.cursor(), 0);
    let read = r.read::<u32>().unwrap().inner();
    assert_eq!(peeked, read);
    assert_eq!(read, 42);
    assert_eq!(r.cursor(), 4);
}

#[test]
fn test_batch_read_is_atomic() {
    // enough bytes for one u32, not for two
    let data = [1u8, 0, 0, 0, 2, 0, 0];
    let mut r = ByteReader::new(&data, Endianness::Little);
    r.seek(1).unwrap();
    let before = r.cursor();
    let e = r.read_n::<u32>(2).unwrap_err();
    assert_eq!(r.cursor(), before);
    assert_eq!(e.kind, ByteReaderErrorKind::NoBytes);
    assert_eq!(e.cursor, 1);
    r.seek(0).unwrap();
    // one element does fit
    assert_eq!(r.read_n::<u32>(1).unwrap().flatten(), vec![1]);
}

#[test]
fn test_peek_n_does_not_consume() {
    let data = [5u8, 6, 7, 8];
    let r = ByteReader::new(&data, Endianness::Little);
    assert_eq!(r.peek_n::<u8>(3).unwrap().flatten(), vec![5, 6, 7]);
    assert_eq!(r.cursor(), 0);
    assert!(r.peek_n::<u16>(3).is_err());
    assert_eq!(r.cursor(), 0);
}

#[test]
fn test_seek_bounds() {
    let data = [0u8; 4];
    let mut r = ByteReader::new(&data, Endianness::Little);
    assert!(r.seek(4).is_ok());
    assert_eq!(r.cursor(), 4);
    assert_eq!(r.len(), 0);
    let e = r.seek(5).unwrap_err();
    assert_eq!(e.kind, ByteReaderErrorKind::NoBytes);
    assert_eq!(e.cursor, 4);
    // a seek is reversible by a smaller seek
    assert!(r.seek(1).is_ok());
    assert_eq!(r.cursor(), 1);
}

#[test]
fn test_rebase_discards_history() {
    let data = [10u8, 11, 12, 13, 14, 15, 16, 17];
    let mut r = ByteReader::new(&data, Endianness::Little);
    r.read::<u32>().unwrap();
    r.rebase(4);
    // the cursor is at offset zero of the new, narrowed buffer
    assert_eq!(r.cursor(), 0);
    assert_eq!(r.size(), 4);
    assert_eq!(r.len(), 4);
    // seek(2) is within the new buffer, so it succeeds
    assert!(r.seek(2).is_ok());
    // an offset valid before the rebase but past the new end now fails
    assert!(r.seek(5).is_err());
    r.seek(0).unwrap();
    assert_eq!(r.read::<u8>().unwrap().inner(), 14);
}

#[test]
fn test_read_remaining_consumes_whole_elements() {
    let data = [1u8, 0, 2, 0, 3, 0, 99];
    let mut r = ByteReader::new(&data, Endianness::Little);
    let values = r.read_remaining::<u16>().unwrap().flatten();
    assert_eq!(values, vec![1, 2, 3]);
    // the trailing odd byte is left in place
    assert_eq!(r.len(), 1);
}

#[test]
fn test_read_string_and_content_error() {
    let data = [b'h', b'i', 0, 0xff, 0xfe, 0];
    let mut r = ByteReader::new(&data, Endianness::Little);
    assert_eq!(r.read_string().unwrap(), "hi");
    assert_eq!(r.cursor(), 3);
    let e = r.read_string().unwrap_err();
    assert_eq!(
        e.kind,
        ByteReaderErrorKind::TryFromBytesError(TryFromBytesError::StringFromBytes)
    );
    assert_eq!(e.cursor, 3);
    // the failed read consumed nothing
    assert_eq!(r.cursor(), 3);
}

#[test]
fn test_read_string_without_terminator() {
    let data = [b'a', b'b'];
    let mut r = ByteReader::new(&data, Endianness::Little);
    let s = r.read_string().unwrap();
    assert_eq!(s, "ab");
    assert_eq!(r.len(), 0);
}

#[test]
fn test_read_error_kinds_and_positions() {
    let data = [1u8, 2];
    let mut r = ByteReader::new(&data, Endianness::Little);
    r.read::<u8>().unwrap();
    let e = r.read::<u32>().unwrap_err();
    assert_eq!(e.kind, ByteReaderErrorKind::NoBytes);
    assert_eq!(e.cursor, 1);
    // byte_size reports the decoder's own error, with the same position
    let e = r.byte_size::<u32>().unwrap_err();
    assert_eq!(
        e.kind,
        ByteReaderErrorKind::TryFromBytesError(TryFromBytesError::OutOfBounds)
    );
    assert_eq!(e.cursor, 1);
}

#[test]
fn test_byte_size_reports_width_without_moving() {
    let data = [b'a', b'b', b'c', 0, 1, 0, 0, 0];
    let mut r = ByteReader::new(&data, Endianness::Little);
    assert_eq!(r.byte_size::<u32>().unwrap(), 4);
    assert_eq!(r.byte_size::<String>().unwrap(), 4);
    assert_eq!(r.cursor(), 0);
}

#[test]
fn test_err_constructor_carries_position() {
    let data = [0u8; 3];
    let mut r = ByteReader::new(&data, Endianness::Little);
    r.seek(2).unwrap();
    let e = r.err(ByteReaderErrorKind::NoBytes);
    assert_eq!(e.kind, ByteReaderErrorKind::NoBytes);
    assert_eq!(e.cursor, 2);
}

#[test]
fn test_iter_walks_values() {
    let data = [1u8, 0, 2, 0, 3, 0, 9];
    let r = ByteReader::new(&data, Endianness::Little);
    let mut it = r.iter::<u16>();
    assert_eq!(it.next(), Some(1));
    assert_eq!(it.next(), Some(2));
    assert_eq!(it.next(), Some(3));
    assert_eq!(it.next(), None);
    // the iterator walks its own copy: the reader has not moved
    assert_eq!(r.cursor(), 0);
}

#[test]
fn test_chomp_new_and_inner() {
    let c = bitchomp::Chomp::new(&7u32);
    assert_eq!(c.inner(), 7);
}
