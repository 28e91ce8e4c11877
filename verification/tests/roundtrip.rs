//! Round-trip tests: every fixed-width integer type, both byte orders,
//! boundary values; text including the empty string; exact wire bytes.

use bitchomp::{ByteReader, ByteWriter, Endianness, ToBytes, TryFromBytes};

fn roundtrip_u8(v: u8, e: Endianness) {
    let bytes = v.to_bytes(e);
    let (back, consumed) = u8::try_from_bytes(&bytes, e).unwrap();
    assert_eq!(back, v);
    assert_eq!(consumed, 1);
}

fn roundtrip_u16(v: u16, e: Endianness) {
    let bytes = v.to_bytes(e);
    let (back, consumed) = u16::try_from_bytes(&bytes, e).unwrap();
    assert_eq!(back, v);
    assert_eq!(consumed, 2);
}

fn roundtrip_u32(v: u32, e: Endianness) {
    let bytes = v.to_bytes(e);
    let (back, consumed) = u32::try_from_bytes(&bytes, e).unwrap();
    assert_eq!(back, v);
    assert_eq!(consumed, 4);
}

fn roundtrip_u64(v: u64, e: Endianness) {
    let bytes = v.to_bytes(e);
    let (back, consumed) = u64::try_from_bytes(&bytes, e).unwrap();
    assert_eq!(back, v);
    assert_eq!(consumed, 8);
}

fn roundtrip_u128(v: u128, e: Endianness) {
    let bytes = v.to_bytes(e);
    let (back, consumed) = u128::try_from_bytes(&bytes, e).unwrap();
    assert_eq!(back, v);
    assert_eq!(consumed, 16);
}

fn roundtrip_i8(v: i8, e: Endianness) {
    let bytes = v.to_bytes(e);
    let (back, consumed) = i8::try_from_bytes(&bytes, e).unwrap();
    assert_eq!(back, v);
    assert_eq!(consumed, 1);
}

fn roundtrip_i16(v: i16, e: Endianness) {
    let bytes = v.to_bytes(e);
    let (back, consumed) = i16::try_from_bytes(&bytes, e).unwrap();
    assert_eq!(back, v);
    assert_eq!(consumed, 2);
}

fn roundtrip_i32(v: i32, e: Endianness) {
    let bytes = v.to_bytes(e);
    let (back, consumed) = i32::try_from_bytes(&bytes, e).unwrap();
    assert_eq!(back, v);
    assert_eq!(consumed, 4);
}

fn roundtrip_i64(v: i64, e: Endianness) {
    let bytes = v.to_bytes(e);
    let (back, consumed) = i64::try_from_bytes(&bytes, e).unwrap();
    assert_eq!(back, v);
    assert_eq!(consumed, 8);
}

fn roundtrip_i128(v: i128, e: Endianness) {
    let bytes = v.to_bytes(e);
    let (back, consumed) = i128::try_from_bytes(&bytes, e).unwrap();
    assert_eq!(back, v);
    assert_eq!(consumed, 16);
}

#[test]
fn test_unsigned_roundtrip_boundaries() {
    for e in [Endianness::Little, Endianness::Big] {
        for v in [0u8, 1, 0x7f, 0x80, u8::MAX] {
            roundtrip_u8(v, e);
        }
        for v in [0u16, 1, 0x1234, u16::MAX] {
            roundtrip_u16(v, e);
        }
        for v in [0u32, 1, 0xdead_beef, u32::MAX] {
            roundtrip_u32(v, e);
        }
        for v in [0u64, 1, 0x0123_4567_89ab_cdef, u64::MAX] {
            roundtrip_u64(v, e);
        }
        for v in [0u128, 1, u128::MAX / 3, u128::MAX] {
            roundtrip_u128(v, e);
        }
    }
}

#[test]
fn test_signed_roundtrip_boundaries() {
    for e in [Endianness::Little, Endianness::Big] {
        for v in [0i8, 1, -1, i8::MIN, i8::MAX] {
            roundtrip_i8(v, e);
        }
        for v in [0i16, 1, -1, i16::MIN, i16::MAX] {
            roundtrip_i16(v, e);
        }
        for v in [0i32, 1, -1, -14, i32::MIN, i32::MAX] {
            roundtrip_i32(v, e);
        }
        for v in [0i64, 1, -1, i64::MIN, i64::MAX] {
            roundtrip_i64(v, e);
        }
        for v in [0i128, 1, -1, i128::MIN, i128::MAX] {
            roundtrip_i128(v, e);
        }
    }
}

#[test]
fn test_exact_wire_bytes() {
    assert_eq!(0x0102_0304u32.to_bytes(Endianness::Big), vec![1, 2, 3, 4]);
    assert_eq!(0x0102_0304u32.to_bytes(Endianness::Little), vec![4, 3, 2, 1]);
    assert_eq!(0x0102u16.to_bytes(Endianness::Big), vec![1, 2]);
    assert_eq!((-2i16).to_bytes(Endianness::Little), vec![0xfe, 0xff]);
    assert_eq!((-1i32).to_bytes(Endianness::Big), vec![0xff, 0xff, 0xff, 0xff]);
    assert_eq!(10u16.to_bytes(Endianness::Little), vec![10, 0]);

    let (v, n) = u32::try_from_bytes(&[0x0a, 0x00, 0x00, 0x00, 0x99], Endianness::Little).unwrap();
    assert_eq!((v, n), (10, 4));
    let (v, n) = u32::try_from_bytes(&[0x00, 0x00, 0x00, 0x0a], Endianness::Big).unwrap();
    assert_eq!((v, n), (10, 4));
    let (v, n) = i8::try_from_bytes(&[0xff], Endianness::Little).unwrap();
    assert_eq!((v, n), (-1, 1));
}

#[test]
fn test_text_roundtrip() {
    for e in [Endianness::Little, Endianness::Big] {
        for s in ["", "a", "testing", "h\u{e9}llo w\u{f6}rld", "\u{1f980} rust"] {
            let owned = String::from(s);
            let bytes = owned.to_bytes(e);
            assert_eq!(bytes.len(), s.len() + 1);
            assert_eq!(bytes.last(), Some(&0u8));
            let (back, consumed) = String::try_from_bytes(&bytes, e).unwrap();
            assert_eq!(back, owned);
            assert_eq!(consumed, s.len() + 1);
        }
    }
}

#[test]
fn test_text_multibyte_decodes_as_chars() {
    // A two-byte UTF-8 sequence comes back as one character: the decoder
    // interprets the bytes, it does not hand them through.
    let bytes = [0xc3u8, 0xa9, 0x00];
    let (s, consumed) = String::try_from_bytes(&bytes, Endianness::Little).unwrap();
    assert_eq!(s, "\u{e9}");
    assert_eq!(s.chars().count(), 1);
    assert_eq!(consumed, 3);
}

#[test]
fn test_reader_writer_roundtrip_both_orders() {
    for e in [Endianness::Little, Endianness::Big] {
        let mut w = ByteWriter::new(e);
        w.append::<u16>(0xbeef);
        w.append::<i64>(-42);
        w.append::<u128>(7);
        let buf = w.buf();
        let mut r = ByteReader::new(&buf, e);
        assert_eq!(r.read::<u16>().unwrap().inner(), 0xbeef);
        assert_eq!(r.read::<i64>().unwrap().inner(), -42);
        assert_eq!(r.read::<u128>().unwrap().inner(), 7);
        assert_eq!(r.len(), 0);
    }
}
