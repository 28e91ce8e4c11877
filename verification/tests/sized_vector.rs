//! The length-prefixed vector read, including its committed-prefix
//! behaviour when the element batch does not fit.

use bitchomp::{ByteError, ByteReader, ByteReaderErrorKind, ChompFlatten, Endianness};

#[test]
fn test_bytereader_read_sized_vector() -> Result<(), ByteError> {
    let data = vec![
        1, 1, 1, 12, 0, 0, 0, 0, 16, 1, 0, 0, 0, 85, 85, 21, 0, 1, 16, 1, 0, 0, 0, 85, 85, 21, 0,
        2, 16, 1, 0, 0, 0, 85, 85, 21, 0, 3, 16, 1, 0, 0, 0, 85, 85, 21, 0, 4, 16, 1, 0, 0, 0, 85,
        85,
    ];
    let mut reader = ByteReader::new(&data, Endianness::Little);
    reader.peek_n::<u8>(3)?;
    assert_eq!(reader.read_n::<u8>(3)?.flatten(), vec![1, 1, 1]);

    reader.peek_n::<u32>(1)?;
    assert_eq!(reader.peek::<u32>()?.inner(), 12);
    let vec: Vec<u32> = reader.read_sized_vector::<u32>()?.flatten();
    assert_eq!(
        vec,
        vec![
            69632, 1431633920, 268501013, 1, 1398101, 69634, 1431633920, 268632085, 1, 1398101,
            69636, 1431633920
        ]
    );
    Ok(())
}

#[test]
fn test_sized_vector_prefix_is_committed() {
    // the count says four elements but only one fits: the element batch
    // fails atomically, yet the four count bytes stay consumed
    let data = [4u8, 0, 0, 0, 1, 0, 0, 0];
    let mut r = ByteReader::new(&data, Endianness::Little);
    let e = r.read_sized_vector::<u32>().unwrap_err();
    assert_eq!(e.kind, ByteReaderErrorKind::NoBytes);
    assert_eq!(e.cursor, 4);
    assert_eq!(r.cursor(), 4);
}

#[test]
fn test_sized_vector_empty() {
    let data = [0u8, 0, 0, 0, 9];
    let mut r = ByteReader::new(&data, Endianness::Little);
    let v = r.read_sized_vector::<u16>().unwrap().flatten();
    assert_eq!(v, Vec::<u16>::new());
    assert_eq!(r.cursor(), 4);
}

#[test]
fn test_sized_vector_missing_count() {
    let data = [1u8, 0];
    let mut r = ByteReader::new(&data, Endianness::Little);
    let e = r.read_sized_vector::<u8>().unwrap_err();
    assert_eq!(e.kind, ByteReaderErrorKind::NoBytes);
    assert_eq!(e.cursor, 0);
    assert_eq!(r.cursor(), 0);
}
