//! Writer behaviour: append, patch-in-place, plain and sized vector writes,
//! and the writer-to-reader round trip.

use bitchomp::{
    ByteError, ByteReader, ByteWriter, ByteWriterError, ChompFlatten, Endianness,
};

#[test]
fn test_bytewriter() -> Result<(), ByteError> {
    let mut writer = ByteWriter::new(Endianness::default());
    writer.append::<u16>(10);
    writer.append::<String>(String::from("testing"));
    writer.append::<i32>(-14);

    let b = writer.buf();
    let mut reader = ByteReader::new(b.as_slice(), Endianness::default());
    assert_eq!(reader.read::<u16>()?.inner(), 10);
    assert_eq!(reader.read_string()?, String::from("testing"));
    assert_eq!(reader.read::<i32>()?.inner(), -14);
    Ok(())
}

#[test]
fn test_append_reports_bytes_written() {
    let mut w = ByteWriter::new(Endianness::Little);
    assert_eq!(w.append::<u16>(10), 2);
    assert_eq!(w.append::<String>(String::from("hey")), 4);
    assert_eq!(w.append::<u128>(1), 16);
    assert_eq!(w.len(), 22);
}

#[test]
fn test_write_patches_in_place() {
    let mut w = ByteWriter::new(Endianness::Little);
    w.append::<u32>(0);
    w.append::<u32>(0xffff_ffff);
    assert_eq!(w.write::<u32>(7, 0), Ok(4));
    assert_eq!(w.len(), 8);
    assert_eq!(w.buf(), vec![7, 0, 0, 0, 0xff, 0xff, 0xff, 0xff]);
}

#[test]
fn test_write_cannot_grow() {
    let mut w = ByteWriter::new(Endianness::Little);
    w.append::<u32>(1);
    // a patch reaching one byte past the end is refused, buffer unchanged
    assert_eq!(w.write::<u32>(2, 1), Err(ByteWriterError::Fail));
    assert_eq!(w.buf(), vec![1, 0, 0, 0]);
    // patching at the very end of a 4-byte buffer works only for width 0..=0
    assert_eq!(w.write::<u8>(9, 4), Err(ByteWriterError::Fail));
    assert_eq!(w.write::<u8>(9, 3), Ok(1));
    assert_eq!(w.buf(), vec![1, 0, 0, 9]);
}

#[test]
fn test_write_vec_appends_in_order() {
    let mut w = ByteWriter::new(Endianness::Big);
    let written = w.write_vec::<u16>(vec![0x0102, 0x0304]);
    assert_eq!(written, 4);
    assert_eq!(w.buf(), vec![1, 2, 3, 4]);
}

#[test]
fn test_snapshot_keeps_writer_usable() {
    let mut w = ByteWriter::new(Endianness::Little);
    w.append::<u8>(1);
    let first = w.buf();
    assert_eq!(first, vec![1]);
    w.append::<u8>(2);
    assert_eq!(w.buf(), vec![1, 2]);
    // the snapshot was a copy: it did not grow with the writer
    assert_eq!(first, vec![1]);
}

#[test]
fn test_sized_vec_symmetry() {
    for e in [Endianness::Little, Endianness::Big] {
        for values in [vec![], vec![7u32], vec![1u32, 2, 3, 0xdead_beef]] {
            let mut w = ByteWriter::new(e);
            let written = w.write_sized_vec::<u32>(values.clone());
            assert_eq!(written, 4 + 4 * values.len());
            let b = w.buf();
            let mut r = ByteReader::new(&b, e);
            let back = r.read_sized_vector::<u32>().unwrap().flatten();
            assert_eq!(back, values);
            assert_eq!(r.len(), 0);
        }
    }
}

#[test]
fn test_byte_error_wraps_both_sides() {
    let data = [0u8];
    let mut r = ByteReader::new(&data, Endianness::Little);
    let re = r.read::<u32>().unwrap_err();
    assert!(matches!(ByteError::from(re), ByteError::ByteReaderError(_)));
    assert!(matches!(
        ByteError::from(ByteWriterError::Fail),
        ByteError::ByteWriterError(ByteWriterError::Fail)
    ));
}

#[test]
fn test_sized_vec_of_strings() {
    let mut w = ByteWriter::new(Endianness::Little);
    let written =
        w.write_sized_vec::<String>(vec![String::from("one"), String::from("two")]);
    assert_eq!(written, 4 + 4 + 4);
    let b = w.buf();
    assert_eq!(&b[..4], &[2, 0, 0, 0]);
    let mut r = ByteReader::new(&b, Endianness::Little);
    assert_eq!(r.read::<u32>().unwrap().inner(), 2);
    assert_eq!(r.read_string().unwrap(), "one");
    assert_eq!(r.read_string().unwrap(), "two");
    assert_eq!(r.len(), 0);
}
