//! The library's laws: the properties that hold across operations, stated
//! once and proved for every input. Round-trips for single values live on
//! the codec traits themselves ([`FixedSize::lemma_roundtrip`]); this module
//! holds the laws that relate several operations.

use crate::bytereader::spec_decode_n_bytes;
use crate::bytereader::spec_skip_clamped;
use crate::bytereader::ByteReader;
use crate::bytewriter::spec_encode_vec;
use crate::transmutable::Endianness;
use crate::transmutable::FixedSize;
use crate::transmutable::ToBytes;
use crate::transmutable::TryFromBytes;
use crate::transmutable::TryFromBytesError;
use crate::transmutable::lemma_zero_scan_len_unique;
use vstd::prelude::*;
use vstd::utf8::encode_utf8;
use vstd::utf8::encode_utf8_decode_utf8;
use vstd::utf8::encode_utf8_valid_utf8;

verus! {

/// Text round-trip: decoding an encoded string, with anything at all after
/// it, recovers exactly that string and consumes its byte length plus one
/// (the terminator) — for every string whose encoding holds no zero byte.
pub proof fn lemma_string_roundtrip(chars: Seq<char>, endianness: Endianness, rest: Seq<u8>)
    requires
        forall|i: int| 0 <= i < encode_utf8(chars).len() ==> encode_utf8(chars)[i] != 0,
    ensures
        String::spec_try_from_bytes(
            String::spec_to_bytes(chars, endianness) + rest,
            endianness,
        ) == Ok::<(Seq<char>, int), TryFromBytesError>(
            (chars, encode_utf8(chars).len() as int + 1),
        ),
{
    let eb = encode_utf8(chars);
    let bytes = String::spec_to_bytes(chars, endianness) + rest;
    assert forall|j: int| 0 <= j < eb.len() implies bytes[j] != 0 by {
        assert(bytes[j] == eb[j]);
    }
    assert(bytes[eb.len() as int] == 0);
    lemma_zero_scan_len_unique(bytes, eb.len() as int);
    assert(bytes.take(eb.len() as int) =~= eb);
    encode_utf8_valid_utf8(chars);
    encode_utf8_decode_utf8(chars);
}

/// Peek is transparent: decoding is a pure function of the buffer, the
/// cursor and the byte order, so two readers that agree on those — in
/// particular a reader before a peek and the same reader after it, which
/// peek's contract leaves untouched — decode the same value; only the read
/// that follows advances the cursor, by exactly the consumed length.
pub proof fn lemma_peek_then_read<T: TryFromBytes>(r1: ByteReader, r2: ByteReader)
    requires
        r1.spec_buf() == r2.spec_buf(),
        r1.spec_cursor() == r2.spec_cursor(),
        r1.spec_endianness() == r2.spec_endianness(),
    ensures
        r1.spec_decode::<T>() == r2.spec_decode::<T>(),
{
}

/// Atomicity of batch reads: with enough bytes for `n - 1` whole elements
/// but not for `n`, decoding `n` elements fails outright (and `read_n`'s
/// contract then guarantees the cursor has not moved at all).
pub proof fn lemma_batch_atomicity<T: FixedSize>(r: ByteReader, n: nat)
    requires
        n * T::spec_size() > r.spec_remaining().len(),
    ensures
        r.spec_decode_n::<T>(n) == Err::<(Seq<T::V>, int), TryFromBytesError>(
            TryFromBytesError::OutOfBounds,
        ),
{
    crate::bytereader::lemma_decode_n_fixed::<T>(r.spec_remaining(), r.spec_endianness(), n);
}

/// Decoding a concatenation of encodings, with anything at all after it,
/// recovers exactly the encoded values and consumes exactly their widths.
pub proof fn lemma_decode_n_of_encode_vec<T: FixedSize>(
    values: Seq<T::V>,
    endianness: Endianness,
    rest: Seq<u8>,
)
    ensures
        spec_decode_n_bytes::<T>(
            spec_encode_vec::<T>(values, endianness) + rest,
            endianness,
            values.len(),
        ) == Ok::<(Seq<T::V>, int), TryFromBytesError>(
            (values, values.len() * T::spec_size()),
        ),
    decreases values.len(),
{
    let w = T::spec_size();
    let n = values.len();
    if n == 0 {
        vstd::arithmetic::mul::lemma_mul_basics(w);
        assert(spec_encode_vec::<T>(values, endianness) + rest =~= rest);
        assert(Seq::<T::V>::empty() =~= values);
    } else {
        let head = T::spec_to_bytes(values[0], endianness);
        let tail = spec_encode_vec::<T>(values.drop_first(), endianness);
        let bytes = spec_encode_vec::<T>(values, endianness) + rest;
        assert(bytes =~= head + (tail + rest));
        T::lemma_roundtrip(values[0], endianness, tail + rest);
        assert(spec_skip_clamped(bytes, w) =~= tail + rest);
        lemma_decode_n_of_encode_vec::<T>(values.drop_first(), endianness, rest);
        assert(seq![values[0]] + values.drop_first() =~= values);
        assert(n * w == w + (n - 1) * w) by (nonlinear_arith);
    }
}

/// Sized-vector symmetry: the bytes `write_sized_vec` appends — a 32-bit
/// element count followed by each value's encoding — read back, with
/// anything at all after them, as exactly that count and exactly those
/// values. This holds for every collection the count can describe,
/// including the empty one.
pub proof fn lemma_sized_vec_roundtrip<T: FixedSize>(
    values: Seq<T::V>,
    endianness: Endianness,
    rest: Seq<u8>,
)
    requires
        values.len() < 0x1_0000_0000,
    ensures
        ({
            let bytes = u32::spec_to_bytes(values.len() as u32, endianness) + spec_encode_vec::<T>(
                values,
                endianness,
            ) + rest;
            &&& u32::spec_try_from_bytes(bytes, endianness) == Ok::<
                (u32, int),
                TryFromBytesError,
            >((values.len() as u32, 4))
            &&& spec_decode_n_bytes::<T>(bytes.skip(4), endianness, values.len()) == Ok::<
                (Seq<T::V>, int),
                TryFromBytesError,
            >((values, values.len() * T::spec_size()))
        }),
{
    let prefix = u32::spec_to_bytes(values.len() as u32, endianness);
    let body = spec_encode_vec::<T>(values, endianness);
    let bytes = prefix + body + rest;
    assert(bytes =~= prefix + (body + rest));
    u32::lemma_roundtrip(values.len() as u32, endianness, body + rest);
    assert(bytes.skip(4) =~= body + rest);
    lemma_decode_n_of_encode_vec::<T>(values, endianness, rest);
}

} // verus!
