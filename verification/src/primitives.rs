//! Wire codecs for the fixed-width integer primitives: each decodes exactly
//! its width in bytes under the chosen byte order and fails with an
//! out-of-bounds error when fewer bytes remain; encoding is the exact
//! inverse. Signed types travel in two's complement.

use crate::base256::lemma_pow256_values;
use crate::base256::lemma_wire_roundtrip;
use crate::base256::nat_to_wire;
use crate::base256::wire_read_u128;
use crate::base256::wire_to_nat;
use crate::base256::wire_write_u128;
use crate::transmutable::Endianness;
use crate::transmutable::FixedSize;
use crate::transmutable::ToBytes;
use crate::transmutable::TryFromBytes;
use crate::transmutable::TryFromBytesError;
use vstd::prelude::*;

verus! {

impl TryFromBytes for u8 {
    open spec fn spec_try_from_bytes(bytes: Seq<u8>, endianness: Endianness) -> Result<
        (u8, int),
        TryFromBytesError,
    > {
        if bytes.len() < 1 {
            Err(TryFromBytesError::OutOfBounds)
        } else {
            Ok((wire_to_nat(bytes.take(1), endianness) as u8, 1))
        }
    }

    proof fn lemma_consumed_bounds(bytes: Seq<u8>, endianness: Endianness) {
    }

    fn try_from_bytes(bytes: &[u8], endianness: Endianness) -> (r: Result<
        (Self, usize),
        TryFromBytesError,
    >) {
        if bytes.len() < 1 {
            return Err(TryFromBytesError::OutOfBounds);
        }
        let v: u128 = wire_read_u128(bytes, 1, endianness);
        proof {
            lemma_pow256_values();
        }
        Ok(((v as u8), 1))
    }
}

impl ToBytes for u8 {
    open spec fn spec_to_bytes(v: u8, endianness: Endianness) -> Seq<u8> {
        nat_to_wire(v as nat, 1, endianness)
    }

    fn to_bytes(&self, endianness: Endianness) -> (r: Vec<u8>) {
        wire_write_u128(*self as u128, 1, endianness)
    }
}

impl FixedSize for u8 {
    open spec fn spec_size() -> int {
        1
    }

    fn fixed_size() -> (s: usize) {
        1
    }

    proof fn lemma_fixed_size(bytes: Seq<u8>, endianness: Endianness) {
        if bytes.len() >= 1 {
            assert(bytes.take(1).take(1) =~= bytes.take(1));
        }
    }

    proof fn lemma_roundtrip(v: u8, endianness: Endianness, rest: Seq<u8>) {
        lemma_pow256_values();
        lemma_wire_roundtrip(v as nat, 1, endianness, rest);
    }
}

impl TryFromBytes for u16 {
    open spec fn spec_try_from_bytes(bytes: Seq<u8>, endianness: Endianness) -> Result<
        (u16, int),
        TryFromBytesError,
    > {
        if bytes.len() < 2 {
            Err(TryFromBytesError::OutOfBounds)
        } else {
            Ok((wire_to_nat(bytes.take(2), endianness) as u16, 2))
        }
    }

    proof fn lemma_consumed_bounds(bytes: Seq<u8>, endianness: Endianness) {
    }

    fn try_from_bytes(bytes: &[u8], endianness: Endianness) -> (r: Result<
        (Self, usize),
        TryFromBytesError,
    >) {
        if bytes.len() < 2 {
            return Err(TryFromBytesError::OutOfBounds);
        }
        let v: u128 = wire_read_u128(bytes, 2, endianness);
        proof {
            lemma_pow256_values();
        }
        Ok(((v as u16), 2))
    }
}

impl ToBytes for u16 {
    open spec fn spec_to_bytes(v: u16, endianness: Endianness) -> Seq<u8> {
        nat_to_wire(v as nat, 2, endianness)
    }

    fn to_bytes(&self, endianness: Endianness) -> (r: Vec<u8>) {
        wire_write_u128(*self as u128, 2, endianness)
    }
}

impl FixedSize for u16 {
    open spec fn spec_size() -> int {
        2
    }

    fn fixed_size() -> (s: usize) {
        2
    }

    proof fn lemma_fixed_size(bytes: Seq<u8>, endianness: Endianness) {
        if bytes.len() >= 2 {
            assert(bytes.take(2).take(2) =~= bytes.take(2));
        }
    }

    proof fn lemma_roundtrip(v: u16, endianness: Endianness, rest: Seq<u8>) {
        lemma_pow256_values();
        lemma_wire_roundtrip(v as nat, 2, endianness, rest);
    }
}

impl TryFromBytes for u32 {
    open spec fn spec_try_from_bytes(bytes: Seq<u8>, endianness: Endianness) -> Result<
        (u32, int),
        TryFromBytesError,
    > {
        if bytes.len() < 4 {
            Err(TryFromBytesError::OutOfBounds)
        } else {
            Ok((wire_to_nat(bytes.take(4), endianness) as u32, 4))
        }
    }

    proof fn lemma_consumed_bounds(bytes: Seq<u8>, endianness: Endianness) {
    }

    fn try_from_bytes(bytes: &[u8], endianness: Endianness) -> (r: Result<
        (Self, usize),
        TryFromBytesError,
    >) {
        if bytes.len() < 4 {
            return Err(TryFromBytesError::OutOfBounds);
        }
        let v: u128 = wire_read_u128(bytes, 4, endianness);
        proof {
            lemma_pow256_values();
        }
        Ok(((v as u32), 4))
    }
}

impl ToBytes for u32 {
    open spec fn spec_to_bytes(v: u32, endianness: Endianness) -> Seq<u8> {
        nat_to_wire(v as nat, 4, endianness)
    }

    fn to_bytes(&self, endianness: Endianness) -> (r: Vec<u8>) {
        wire_write_u128(*self as u128, 4, endianness)
    }
}

impl FixedSize for u32 {
    open spec fn spec_size() -> int {
        4
    }

    fn fixed_size() -> (s: usize) {
        4
    }

    proof fn lemma_fixed_size(bytes: Seq<u8>, endianness: Endianness) {
        if bytes.len() >= 4 {
            assert(bytes.take(4).take(4) =~= bytes.take(4));
        }
    }

    proof fn lemma_roundtrip(v: u32, endianness: Endianness, rest: Seq<u8>) {
        lemma_pow256_values();
        lemma_wire_roundtrip(v as nat, 4, endianness, rest);
    }
}

impl TryFromBytes for u64 {
    open spec fn spec_try_from_bytes(bytes: Seq<u8>, endianness: Endianness) -> Result<
        (u64, int),
        TryFromBytesError,
    > {
        if bytes.len() < 8 {
            Err(TryFromBytesError::OutOfBounds)
        } else {
            Ok((wire_to_nat(bytes.take(8), endianness) as u64, 8))
        }
    }

    proof fn lemma_consumed_bounds(bytes: Seq<u8>, endianness: Endianness) {
    }

    fn try_from_bytes(bytes: &[u8], endianness: Endianness) -> (r: Result<
        (Self, usize),
        TryFromBytesError,
    >) {
        if bytes.len() < 8 {
            return Err(TryFromBytesError::OutOfBounds);
        }
        let v: u128 = wire_read_u128(bytes, 8, endianness);
        proof {
            lemma_pow256_values();
        }
        Ok(((v as u64), 8))
    }
}

impl ToBytes for u64 {
    open spec fn spec_to_bytes(v: u64, endianness: Endianness) -> Seq<u8> {
        nat_to_wire(v as nat, 8, endianness)
    }

    fn to_bytes(&self, endianness: Endianness) -> (r: Vec<u8>) {
        wire_write_u128(*self as u128, 8, endianness)
    }
}

impl FixedSize for u64 {
    open spec fn spec_size() -> int {
        8
    }

    fn fixed_size() -> (s: usize) {
        8
    }

    proof fn lemma_fixed_size(bytes: Seq<u8>, endianness: Endianness) {
        if bytes.len() >= 8 {
            assert(bytes.take(8).take(8) =~= bytes.take(8));
        }
    }

    proof fn lemma_roundtrip(v: u64, endianness: Endianness, rest: Seq<u8>) {
        lemma_pow256_values();
        lemma_wire_roundtrip(v as nat, 8, endianness, rest);
    }
}

impl TryFromBytes for u128 {
    open spec fn spec_try_from_bytes(bytes: Seq<u8>, endianness: Endianness) -> Result<
        (u128, int),
        TryFromBytesError,
    > {
        if bytes.len() < 16 {
            Err(TryFromBytesError::OutOfBounds)
        } else {
            Ok((wire_to_nat(bytes.take(16), endianness) as u128, 16))
        }
    }

    proof fn lemma_consumed_bounds(bytes: Seq<u8>, endianness: Endianness) {
    }

    fn try_from_bytes(bytes: &[u8], endianness: Endianness) -> (r: Result<
        (Self, usize),
        TryFromBytesError,
    >) {
        if bytes.len() < 16 {
            return Err(TryFromBytesError::OutOfBounds);
        }
        let v: u128 = wire_read_u128(bytes, 16, endianness);
        proof {
            lemma_pow256_values();
        }
        Ok((v, 16))
    }
}

impl ToBytes for u128 {
    open spec fn spec_to_bytes(v: u128, endianness: Endianness) -> Seq<u8> {
        nat_to_wire(v as nat, 16, endianness)
    }

    fn to_bytes(&self, endianness: Endianness) -> (r: Vec<u8>) {
        wire_write_u128(*self, 16, endianness)
    }
}

impl FixedSize for u128 {
    open spec fn spec_size() -> int {
        16
    }

    fn fixed_size() -> (s: usize) {
        16
    }

    proof fn lemma_fixed_size(bytes: Seq<u8>, endianness: Endianness) {
        if bytes.len() >= 16 {
            assert(bytes.take(16).take(16) =~= bytes.take(16));
        }
    }

    proof fn lemma_roundtrip(v: u128, endianness: Endianness, rest: Seq<u8>) {
        lemma_pow256_values();
        lemma_wire_roundtrip(v as nat, 16, endianness, rest);
    }
}

impl TryFromBytes for i8 {
    open spec fn spec_try_from_bytes(bytes: Seq<u8>, endianness: Endianness) -> Result<
        (i8, int),
        TryFromBytesError,
    > {
        if bytes.len() < 1 {
            Err(TryFromBytesError::OutOfBounds)
        } else {
            let u = wire_to_nat(bytes.take(1), endianness);
            Ok((((if u < 0x80 {
                u as int
            } else {
                u - 0x100
            }) as i8), 1))
        }
    }

    proof fn lemma_consumed_bounds(bytes: Seq<u8>, endianness: Endianness) {
    }

    fn try_from_bytes(bytes: &[u8], endianness: Endianness) -> (r: Result<
        (Self, usize),
        TryFromBytesError,
    >) {
        if bytes.len() < 1 {
            return Err(TryFromBytesError::OutOfBounds);
        }
        let v: u128 = wire_read_u128(bytes, 1, endianness);
        proof {
            lemma_pow256_values();
        }
        let val: i8 = if v < 0x80 {
            v as i8
        } else {
            ((v as i16) - 0x100) as i8
        };
        Ok((val, 1))
    }
}

impl ToBytes for i8 {
    open spec fn spec_to_bytes(v: i8, endianness: Endianness) -> Seq<u8> {
        nat_to_wire(
            (if v >= 0 {
                v as int
            } else {
                v + 0x100
            }) as nat,
            1,
            endianness,
        )
    }

    fn to_bytes(&self, endianness: Endianness) -> (r: Vec<u8>) {
        let u: u128 = if *self >= 0 {
            *self as u128
        } else {
            ((*self as i16) + 0x100) as u128
        };
        wire_write_u128(u, 1, endianness)
    }
}

impl FixedSize for i8 {
    open spec fn spec_size() -> int {
        1
    }

    fn fixed_size() -> (s: usize) {
        1
    }

    proof fn lemma_fixed_size(bytes: Seq<u8>, endianness: Endianness) {
        if bytes.len() >= 1 {
            assert(bytes.take(1).take(1) =~= bytes.take(1));
        }
    }

    proof fn lemma_roundtrip(v: i8, endianness: Endianness, rest: Seq<u8>) {
        lemma_pow256_values();
        let u: nat = (if v >= 0 {
            v as int
        } else {
            v + 0x100
        }) as nat;
        lemma_wire_roundtrip(u, 1, endianness, rest);
    }
}

impl TryFromBytes for i16 {
    open spec fn spec_try_from_bytes(bytes: Seq<u8>, endianness: Endianness) -> Result<
        (i16, int),
        TryFromBytesError,
    > {
        if bytes.len() < 2 {
            Err(TryFromBytesError::OutOfBounds)
        } else {
            let u = wire_to_nat(bytes.take(2), endianness);
            Ok((((if u < 0x8000 {
                u as int
            } else {
                u - 0x1_0000
            }) as i16), 2))
        }
    }

    proof fn lemma_consumed_bounds(bytes: Seq<u8>, endianness: Endianness) {
    }

    fn try_from_bytes(bytes: &[u8], endianness: Endianness) -> (r: Result<
        (Self, usize),
        TryFromBytesError,
    >) {
        if bytes.len() < 2 {
            return Err(TryFromBytesError::OutOfBounds);
        }
        let v: u128 = wire_read_u128(bytes, 2, endianness);
        proof {
            lemma_pow256_values();
        }
        let val: i16 = if v < 0x8000 {
            v as i16
        } else {
            ((v as i32) - 0x1_0000) as i16
        };
        Ok((val, 2))
    }
}

impl ToBytes for i16 {
    open spec fn spec_to_bytes(v: i16, endianness: Endianness) -> Seq<u8> {
        nat_to_wire(
            (if v >= 0 {
                v as int
            } else {
                v + 0x1_0000
            }) as nat,
            2,
            endianness,
        )
    }

    fn to_bytes(&self, endianness: Endianness) -> (r: Vec<u8>) {
        let u: u128 = if *self >= 0 {
            *self as u128
        } else {
            ((*self as i32) + 0x1_0000) as u128
        };
        wire_write_u128(u, 2, endianness)
    }
}

impl FixedSize for i16 {
    open spec fn spec_size() -> int {
        2
    }

    fn fixed_size() -> (s: usize) {
        2
    }

    proof fn lemma_fixed_size(bytes: Seq<u8>, endianness: Endianness) {
        if bytes.len() >= 2 {
            assert(bytes.take(2).take(2) =~= bytes.take(2));
        }
    }

    proof fn lemma_roundtrip(v: i16, endianness: Endianness, rest: Seq<u8>) {
        lemma_pow256_values();
        let u: nat = (if v >= 0 {
            v as int
        } else {
            v + 0x1_0000
        }) as nat;
        lemma_wire_roundtrip(u, 2, endianness, rest);
    }
}

impl TryFromBytes for i32 {
    open spec fn spec_try_from_bytes(bytes: Seq<u8>, endianness: Endianness) -> Result<
        (i32, int),
        TryFromBytesError,
    > {
        if bytes.len() < 4 {
            Err(TryFromBytesError::OutOfBounds)
        } else {
            let u = wire_to_nat(bytes.take(4), endianness);
            Ok((((if u < 0x8000_0000 {
                u as int
            } else {
                u - 0x1_0000_0000
            }) as i32), 4))
        }
    }

    proof fn lemma_consumed_bounds(bytes: Seq<u8>, endianness: Endianness) {
    }

    fn try_from_bytes(bytes: &[u8], endianness: Endianness) -> (r: Result<
        (Self, usize),
        TryFromBytesError,
    >) {
        if bytes.len() < 4 {
            return Err(TryFromBytesError::OutOfBounds);
        }
        let v: u128 = wire_read_u128(bytes, 4, endianness);
        proof {
            lemma_pow256_values();
        }
        let val: i32 = if v < 0x8000_0000 {
            v as i32
        } else {
            ((v as i64) - 0x1_0000_0000) as i32
        };
        Ok((val, 4))
    }
}

impl ToBytes for i32 {
    open spec fn spec_to_bytes(v: i32, endianness: Endianness) -> Seq<u8> {
        nat_to_wire(
            (if v >= 0 {
                v as int
            } else {
                v + 0x1_0000_0000
            }) as nat,
            4,
            endianness,
        )
    }

    fn to_bytes(&self, endianness: Endianness) -> (r: Vec<u8>) {
        let u: u128 = if *self >= 0 {
            *self as u128
        } else {
            ((*self as i64) + 0x1_0000_0000) as u128
        };
        wire_write_u128(u, 4, endianness)
    }
}

impl FixedSize for i32 {
    open spec fn spec_size() -> int {
        4
    }

    fn fixed_size() -> (s: usize) {
        4
    }

    proof fn lemma_fixed_size(bytes: Seq<u8>, endianness: Endianness) {
        if bytes.len() >= 4 {
            assert(bytes.take(4).take(4) =~= bytes.take(4));
        }
    }

    proof fn lemma_roundtrip(v: i32, endianness: Endianness, rest: Seq<u8>) {
        lemma_pow256_values();
        let u: nat = (if v >= 0 {
            v as int
        } else {
            v + 0x1_0000_0000
        }) as nat;
        lemma_wire_roundtrip(u, 4, endianness, rest);
    }
}

impl TryFromBytes for i64 {
    open spec fn spec_try_from_bytes(bytes: Seq<u8>, endianness: Endianness) -> Result<
        (i64, int),
        TryFromBytesError,
    > {
        if bytes.len() < 8 {
            Err(TryFromBytesError::OutOfBounds)
        } else {
            let u = wire_to_nat(bytes.take(8), endianness);
            Ok((((if u < 0x8000_0000_0000_0000 {
                u as int
            } else {
                u - 0x1_0000_0000_0000_0000
            }) as i64), 8))
        }
    }

    proof fn lemma_consumed_bounds(bytes: Seq<u8>, endianness: Endianness) {
    }

    fn try_from_bytes(bytes: &[u8], endianness: Endianness) -> (r: Result<
        (Self, usize),
        TryFromBytesError,
    >) {
        if bytes.len() < 8 {
            return Err(TryFromBytesError::OutOfBounds);
        }
        let v: u128 = wire_read_u128(bytes, 8, endianness);
        proof {
            lemma_pow256_values();
        }
        let val: i64 = if v < 0x8000_0000_0000_0000 {
            v as i64
        } else {
            ((v as i128) - 0x1_0000_0000_0000_0000) as i64
        };
        Ok((val, 8))
    }
}

impl ToBytes for i64 {
    open spec fn spec_to_bytes(v: i64, endianness: Endianness) -> Seq<u8> {
        nat_to_wire(
            (if v >= 0 {
                v as int
            } else {
                v + 0x1_0000_0000_0000_0000
            }) as nat,
            8,
            endianness,
        )
    }

    fn to_bytes(&self, endianness: Endianness) -> (r: Vec<u8>) {
        let u: u128 = if *self >= 0 {
            *self as u128
        } else {
            ((*self as i128) + 0x1_0000_0000_0000_0000) as u128
        };
        wire_write_u128(u, 8, endianness)
    }
}

impl FixedSize for i64 {
    open spec fn spec_size() -> int {
        8
    }

    fn fixed_size() -> (s: usize) {
        8
    }

    proof fn lemma_fixed_size(bytes: Seq<u8>, endianness: Endianness) {
        if bytes.len() >= 8 {
            assert(bytes.take(8).take(8) =~= bytes.take(8));
        }
    }

    proof fn lemma_roundtrip(v: i64, endianness: Endianness, rest: Seq<u8>) {
        lemma_pow256_values();
        let u: nat = (if v >= 0 {
            v as int
        } else {
            v + 0x1_0000_0000_0000_0000
        }) as nat;
        lemma_wire_roundtrip(u, 8, endianness, rest);
    }
}

impl TryFromBytes for i128 {
    open spec fn spec_try_from_bytes(bytes: Seq<u8>, endianness: Endianness) -> Result<
        (i128, int),
        TryFromBytesError,
    > {
        if bytes.len() < 16 {
            Err(TryFromBytesError::OutOfBounds)
        } else {
            let u = wire_to_nat(bytes.take(16), endianness);
            Ok((((if u < 0x8000_0000_0000_0000_0000_0000_0000_0000 {
                u as int
            } else {
                u - 0x1_0000_0000_0000_0000_0000_0000_0000_0000
            }) as i128), 16))
        }
    }

    proof fn lemma_consumed_bounds(bytes: Seq<u8>, endianness: Endianness) {
    }

    fn try_from_bytes(bytes: &[u8], endianness: Endianness) -> (r: Result<
        (Self, usize),
        TryFromBytesError,
    >) {
        if bytes.len() < 16 {
            return Err(TryFromBytesError::OutOfBounds);
        }
        let v: u128 = wire_read_u128(bytes, 16, endianness);
        proof {
            lemma_pow256_values();
        }
        let val: i128 = if v < 0x8000_0000_0000_0000_0000_0000_0000_0000 {
            v as i128
        } else {
            -((u128::MAX - v) as i128) - 1
        };
        Ok((val, 16))
    }
}

impl ToBytes for i128 {
    open spec fn spec_to_bytes(v: i128, endianness: Endianness) -> Seq<u8> {
        nat_to_wire(
            (if v >= 0 {
                v as int
            } else {
                v + 0x1_0000_0000_0000_0000_0000_0000_0000_0000
            }) as nat,
            16,
            endianness,
        )
    }

    fn to_bytes(&self, endianness: Endianness) -> (r: Vec<u8>) {
        let u: u128 = if *self >= 0 {
            *self as u128
        } else {
            u128::MAX - ((-(*self + 1)) as u128)
        };
        wire_write_u128(u, 16, endianness)
    }
}

impl FixedSize for i128 {
    open spec fn spec_size() -> int {
        16
    }

    fn fixed_size() -> (s: usize) {
        16
    }

    proof fn lemma_fixed_size(bytes: Seq<u8>, endianness: Endianness) {
        if bytes.len() >= 16 {
            assert(bytes.take(16).take(16) =~= bytes.take(16));
        }
    }

    proof fn lemma_roundtrip(v: i128, endianness: Endianness, rest: Seq<u8>) {
        lemma_pow256_values();
        let u: nat = (if v >= 0 {
            v as int
        } else {
            v + 0x1_0000_0000_0000_0000_0000_0000_0000_0000
        }) as nat;
        lemma_wire_roundtrip(u, 16, endianness, rest);
    }
}

} // verus!
