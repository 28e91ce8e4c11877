//! The per-type wire contract: how a value is decoded from, and encoded to,
//! raw bytes under a chosen byte order.

use vstd::prelude::*;

verus! {

/// Byte-order selection, fixed once per reader or writer instance and
/// applied uniformly to every multi-byte decode or encode made through it.
#[derive(Clone, Copy, PartialEq, Eq, Structural, Debug)]
pub enum Endianness {
    Little,
    Big,
}

impl Default for Endianness {
    /// The default byte order is little-endian.
    fn default() -> (r: Self)
        ensures
            r == Endianness::Little,
    {
        Endianness::Little
    }
}

/// Why a decode failed: fewer bytes available than the type requires, a
/// slice-to-array conversion that cannot fit, or bytes that do not form a
/// valid value of the type (malformed text).
#[derive(Clone, Copy, PartialEq, Eq, Structural, Debug)]
pub enum TryFromBytesError {
    StringFromBytes,
    ArrayFromSlice,
    OutOfBounds,
}

/// A type that can be decoded from the front of a byte buffer.
///
/// `spec_try_from_bytes` is the mathematical decode: given the bytes that
/// remain from the cursor onward (not necessarily all consumed) it yields
/// either the decoded value's view together with the exact number of bytes
/// the value occupied on the wire, or the error. The executable
/// `try_from_bytes` must agree with it exactly, so decoding is deterministic:
/// the same bytes always give the same value.
pub trait TryFromBytes: View + Sized {
    /// What decoding `bytes` under `endianness` yields: the decoded value's
    /// view and the consumed length, or the error.
    spec fn spec_try_from_bytes(bytes: Seq<u8>, endianness: Endianness) -> Result<
        (Self::V, int),
        TryFromBytesError,
    >;

    /// A successful decode consumes at least one byte, and at most one byte
    /// more than is available (a text run without its terminator reports the
    /// terminator as consumed even at the end of input).
    proof fn lemma_consumed_bounds(bytes: Seq<u8>, endianness: Endianness)
        ensures
            Self::spec_try_from_bytes(bytes, endianness) matches Ok((v, n)) ==> 0 < n <= bytes.len()
                + 1,
    ;

    /// Decode one value from the front of `bytes`, reporting the value and
    /// the number of bytes it occupied on the wire. The length bound leaves
    /// room for the consumed count, which can exceed the input by one, to be
    /// reported as a `usize`.
    fn try_from_bytes(bytes: &[u8], endianness: Endianness) -> (r: Result<
        (Self, usize),
        TryFromBytesError,
    >)
        requires
            bytes@.len() < usize::MAX,
        ensures
            match r {
                Ok((v, n)) => Self::spec_try_from_bytes(bytes@, endianness) == Ok::<
                    (Self::V, int),
                    TryFromBytesError,
                >((v@, n as int)),
                Err(e) => Self::spec_try_from_bytes(bytes@, endianness) == Err::<
                    (Self::V, int),
                    TryFromBytesError,
                >(e),
            },
    ;
}

/// A type that can be encoded to bytes. Encoding is total: a valid in-memory
/// value always has a wire representation.
pub trait ToBytes: View + Sized {
    /// The exact bytes that encoding a value with this view produces.
    spec fn spec_to_bytes(v: Self::V, endianness: Endianness) -> Seq<u8>;

    /// Encode the value under `endianness`.
    fn to_bytes(&self, endianness: Endianness) -> (r: Vec<u8>)
        ensures
            r@ == Self::spec_to_bytes(self@, endianness),
    ;
}

/// The integral-wire capability: a type whose wire form is always exactly
/// `spec_size()` bytes, decodable from any buffer holding at least that many
/// bytes, independent of content. Text and other variable-width types do not
/// have it; bulk reads that pre-compute byte budgets require it.
pub trait FixedSize: TryFromBytes + ToBytes {
    /// The fixed wire width, in bytes.
    spec fn spec_size() -> int;

    /// Executable wire width.
    fn fixed_size() -> (s: usize)
        ensures
            s == Self::spec_size(),
            s > 0,
    ;

    /// Decoding succeeds exactly when `spec_size()` bytes are available,
    /// always consumes exactly `spec_size()` bytes, and depends only on
    /// those bytes.
    proof fn lemma_fixed_size(bytes: Seq<u8>, endianness: Endianness)
        ensures
            0 < Self::spec_size(),
            bytes.len() < Self::spec_size() ==> Self::spec_try_from_bytes(bytes, endianness)
                == Err::<(Self::V, int), TryFromBytesError>(TryFromBytesError::OutOfBounds),
            bytes.len() >= Self::spec_size() ==> (Self::spec_try_from_bytes(bytes, endianness)
                matches Ok((v, n)) && n == Self::spec_size()),
            Self::spec_try_from_bytes(bytes, endianness) == Self::spec_try_from_bytes(
                bytes.take(Self::spec_size()),
                endianness,
            ) || bytes.len() < Self::spec_size(),
    ;

    /// Round-trip: decoding an encoded value, with anything at all after it,
    /// recovers exactly that value and consumes exactly its width.
    proof fn lemma_roundtrip(v: Self::V, endianness: Endianness, rest: Seq<u8>)
        ensures
            Self::spec_to_bytes(v, endianness).len() == Self::spec_size(),
            Self::spec_try_from_bytes(Self::spec_to_bytes(v, endianness) + rest, endianness)
                == Ok::<(Self::V, int), TryFromBytesError>((v, Self::spec_size())),
    ;
}

/// The length of the prefix of `s` before its first zero byte (all of `s`
/// when no byte is zero): the content of a null-terminated text run.
pub open spec fn zero_scan_len(s: Seq<u8>) -> int
    decreases s.len(),
{
    if s.len() == 0 {
        0
    } else if s[0] == 0 {
        0
    } else {
        1 + zero_scan_len(s.drop_first())
    }
}

/// `zero_scan_len` finds a prefix of `s` that holds no zero byte and, unless
/// it is all of `s`, stops exactly on a zero byte.
pub proof fn lemma_zero_scan_len_bounds(s: Seq<u8>)
    ensures
        0 <= zero_scan_len(s) <= s.len(),
        zero_scan_len(s) < s.len() ==> s[zero_scan_len(s)] == 0,
        forall|j: int| 0 <= j < zero_scan_len(s) ==> s[j] != 0,
    decreases s.len(),
{
    if s.len() > 0 && s[0] != 0 {
        lemma_zero_scan_len_bounds(s.drop_first());
        assert forall|j: int| 0 <= j < zero_scan_len(s) implies s[j] != 0 by {
            if j > 0 {
                assert(s.drop_first()[j - 1] != 0);
            }
        }
    }
}

/// Any zero-free prefix that ends at a zero byte or at the end of input is
/// exactly the prefix `zero_scan_len` finds.
pub proof fn lemma_zero_scan_len_unique(s: Seq<u8>, k: int)
    requires
        0 <= k <= s.len(),
        forall|j: int| 0 <= j < k ==> s[j] != 0,
        k == s.len() || s[k] == 0,
    ensures
        zero_scan_len(s) == k,
    decreases k,
{
    if k == 0 {
        if s.len() > 0 {
            assert(s[0] == 0);
        }
    } else {
        assert(s[0] != 0);
        let rest = s.drop_first();
        assert forall|j: int| 0 <= j < k - 1 implies rest[j] != 0 by {
            assert(rest[j] == s[j + 1]);
        }
        assert(k - 1 == rest.len() || rest[k - 1] == 0);
        lemma_zero_scan_len_unique(rest, k - 1);
    }
}

/// Relies on `String::from_utf8`: it succeeds exactly when the bytes are
/// valid UTF-8, and then returns the string those bytes encode.
#[verifier::external_body]
fn string_from_utf8(bytes: Vec<u8>) -> (r: Option<String>)
    ensures
        match r {
            Some(s) => vstd::utf8::valid_utf8(bytes@) && s@ == vstd::utf8::decode_utf8(bytes@),
            None => !vstd::utf8::valid_utf8(bytes@),
        },
{
    String::from_utf8(bytes).ok()
}

impl TryFromBytes for String {
    /// Decoding scans to the first zero byte (exclusive; the terminator is
    /// counted as consumed) and requires the content to be valid UTF-8.
    open spec fn spec_try_from_bytes(bytes: Seq<u8>, endianness: Endianness) -> Result<
        (Seq<char>, int),
        TryFromBytesError,
    > {
        let content = bytes.take(zero_scan_len(bytes));
        if vstd::utf8::valid_utf8(content) {
            Ok((vstd::utf8::decode_utf8(content), zero_scan_len(bytes) + 1))
        } else {
            Err(TryFromBytesError::StringFromBytes)
        }
    }

    proof fn lemma_consumed_bounds(bytes: Seq<u8>, endianness: Endianness) {
        lemma_zero_scan_len_bounds(bytes);
    }

    fn try_from_bytes(bytes: &[u8], endianness: Endianness) -> (r: Result<
        (Self, usize),
        TryFromBytesError,
    >) {
        let mut content: Vec<u8> = Vec::new();
        let mut i: usize = 0;
        while i < bytes.len() && bytes[i] != 0
            invariant
                i <= bytes@.len(),
                bytes@.len() < usize::MAX,
                content@ == bytes@.take(i as int),
                forall|j: int| 0 <= j < i ==> bytes@[j] != 0,
            decreases bytes@.len() - i,
        {
            let b: u8 = bytes[i];
            proof {
                assert(bytes@.take(i + 1) =~= bytes@.take(i as int).push(b));
            }
            content.push(b);
            i = i + 1;
        }
        proof {
            lemma_zero_scan_len_unique(bytes@, i as int);
        }
        match string_from_utf8(content) {
            Some(s) => Ok((s, i + 1)),
            None => Err(TryFromBytesError::StringFromBytes),
        }
    }
}

impl ToBytes for String {
    /// A string travels as its UTF-8 bytes followed by one zero terminator;
    /// byte order does not apply to text.
    open spec fn spec_to_bytes(v: Seq<char>, endianness: Endianness) -> Seq<u8> {
        vstd::utf8::encode_utf8(v) + seq![0u8]
    }

    fn to_bytes(&self, endianness: Endianness) -> (r: Vec<u8>) {
        let mut r: Vec<u8> = vstd::slice::slice_to_vec(self.as_str().as_bytes());
        r.push(0);
        proof {
            assert(r@ =~= vstd::utf8::encode_utf8(self@) + seq![0u8]);
        }
        r
    }
}

/// Any failure the toolkit can report: a reader-side or a writer-side error.
#[derive(Debug)]
pub enum ByteError {
    ByteReaderError(crate::bytereader::ByteReaderError),
    ByteWriterError(crate::bytewriter::ByteWriterError),
}

impl From<crate::bytereader::ByteReaderError> for ByteError {
    fn from(err: crate::bytereader::ByteReaderError) -> (r: Self) {
        ByteError::ByteReaderError(err)
    }
}

impl vstd::std_specs::convert::FromSpecImpl<crate::bytereader::ByteReaderError> for ByteError {
    open spec fn obeys_from_spec() -> bool {
        true
    }

    open spec fn from_spec(t: crate::bytereader::ByteReaderError) -> Self {
        ByteError::ByteReaderError(t)
    }
}

impl From<crate::bytewriter::ByteWriterError> for ByteError {
    fn from(err: crate::bytewriter::ByteWriterError) -> (r: Self) {
        ByteError::ByteWriterError(err)
    }
}

impl vstd::std_specs::convert::FromSpecImpl<crate::bytewriter::ByteWriterError> for ByteError {
    open spec fn obeys_from_spec() -> bool {
        true
    }

    open spec fn from_spec(t: crate::bytewriter::ByteWriterError) -> Self {
        ByteError::ByteWriterError(t)
    }
}

} // verus!
