//! The append/patch writer over a growable byte buffer.
//!
//! A [`ByteWriter`] owns a byte buffer that only grows: values are encoded
//! and appended at the end, or patched in place over bytes already written.
//! A patch never changes the buffer's length.

use crate::transmutable::Endianness;
use crate::transmutable::ToBytes;
use vstd::prelude::*;
use vstd::slice::SliceAdditionalExecFns;

verus! {

/// A writer failure: a patch that does not fit inside the already-written
/// bytes.
#[derive(Clone, Copy, PartialEq, Eq, Structural, Debug)]
pub enum ByteWriterError {
    Fail,
}

/// The concatenation of the encodings of `values`, in order.
pub open spec fn spec_encode_vec<T: ToBytes>(values: Seq<T::V>, endianness: Endianness) -> Seq<u8>
    decreases values.len(),
{
    if values.len() == 0 {
        Seq::empty()
    } else {
        T::spec_to_bytes(values[0], endianness) + spec_encode_vec::<T>(
            values.drop_first(),
            endianness,
        )
    }
}

/// A tool for writing typed values into a growable byte buffer.
pub struct ByteWriter {
    /// The bytes written so far.
    buf: Vec<u8>,
    /// The byte order every multi-byte encode made through this writer uses.
    endianness: Endianness,
}

impl ByteWriter {
    /// The bytes written so far.
    pub closed spec fn spec_buf(self) -> Seq<u8> {
        self.buf@
    }

    /// The writer's byte order.
    pub closed spec fn spec_endianness(self) -> Endianness {
        self.endianness
    }

    /// Returns a writer with an empty buffer.
    pub fn new(endianness: Endianness) -> (r: Self)
        ensures
            r.spec_buf() == Seq::<u8>::empty(),
            r.spec_endianness() == endianness,
    {
        ByteWriter { buf: Vec::new(), endianness }
    }

    /// Encodes `data` and appends its bytes at the end of the buffer,
    /// returning the number of bytes written.
    pub fn append<T: ToBytes>(&mut self, data: T) -> (r: usize)
        ensures
            final(self).spec_endianness() == old(self).spec_endianness(),
            final(self).spec_buf() == old(self).spec_buf() + T::spec_to_bytes(
                data@,
                old(self).spec_endianness(),
            ),
            r == T::spec_to_bytes(data@, old(self).spec_endianness()).len(),
    {
        let mut b: Vec<u8> = data.to_bytes(self.endianness);
        let written: usize = b.len();
        self.buf.append(&mut b);
        written
    }

    /// Encodes `data` and overwrites its bytes at `pos` inside the already
    /// written buffer. Fails, and changes nothing, exactly when the encoding
    /// would reach past the buffer's end: a patch is an in-place update, not
    /// an insert, and never grows the buffer.
    pub fn write<T: ToBytes>(&mut self, data: T, pos: usize) -> (r: Result<usize, ByteWriterError>)
        ensures
            final(self).spec_endianness() == old(self).spec_endianness(),
            ({
                let enc = T::spec_to_bytes(data@, old(self).spec_endianness());
                match r {
                    Ok(n) => (n == enc.len() && pos + enc.len() <= old(self).spec_buf().len()
                        && final(self).spec_buf() == old(self).spec_buf().take(pos as int) + enc
                        + old(self).spec_buf().skip(pos + enc.len())),
                    Err(e) => (pos + enc.len() > old(self).spec_buf().len() && *final(self)
                        == *old(self) && e == ByteWriterError::Fail),
                }
            }),
    {
        let b: Vec<u8> = data.to_bytes(self.endianness);
        let size: usize = b.len();
        if pos > self.buf.len() || size > self.buf.len() - pos {
            return Err(ByteWriterError::Fail);
        }
        let mut i: usize = 0;
        while i < size
            invariant
                i <= size,
                size == b@.len(),
                pos + size <= self.buf@.len(),
                self.buf@.len() <= usize::MAX,
                self.buf@.len() == old(self).spec_buf().len(),
                self.endianness == old(self).spec_endianness(),
                forall|j: int| 0 <= j < i ==> self.buf@[pos + j] == b@[j],
                forall|j: int| 0 <= j < pos ==> self.buf@[j] == old(self).spec_buf()[j],
                forall|j: int|
                    pos + i <= j < self.buf@.len() ==> self.buf@[j] == old(self).spec_buf()[j],
            decreases size - i,
        {
            let byte: u8 = b[i];
            self.buf.set(pos + i, byte);
            i = i + 1;
        }
        proof {
            assert(self.buf@ =~= old(self).spec_buf().take(pos as int) + b@ + old(
                self,
            ).spec_buf().skip(pos + size));
        }
        Ok(size)
    }

    /// The number of bytes written so far.
    pub fn len(&self) -> (r: usize)
        ensures
            r == self.spec_buf().len(),
    {
        self.buf.len()
    }

    /// Appends each value's encoding in sequence, with no length prefix,
    /// returning the number of bytes written.
    pub fn write_vec<T: ToBytes>(&mut self, data: Vec<T>) -> (r: usize)
        ensures
            final(self).spec_endianness() == old(self).spec_endianness(),
            final(self).spec_buf() == old(self).spec_buf() + spec_encode_vec::<T>(
                data@.map_values(|t: T| t@),
                old(self).spec_endianness(),
            ),
            r == spec_encode_vec::<T>(data@.map_values(|t: T| t@), old(self).spec_endianness()).len(),
    {
        let ghost views = data@.map_values(|t: T| t@);
        let ghost e = self.spec_endianness();
        let start: usize = self.buf.len();
        proof {
            assert(views.skip(0) =~= views);
        }
        let mut i: usize = 0;
        while i < data.len()
            invariant
                i <= data@.len(),
                views == data@.map_values(|t: T| t@),
                e == self.spec_endianness(),
                self.spec_endianness() == old(self).spec_endianness(),
                start == old(self).spec_buf().len(),
                start <= self.spec_buf().len(),
                old(self).spec_buf() + spec_encode_vec::<T>(views, e) == self.spec_buf()
                    + spec_encode_vec::<T>(views.skip(i as int), e),
            decreases data@.len() - i,
        {
            proof {
                let rest = views.skip(i as int);
                assert(rest[0] == data@[i as int]@);
                assert(rest.drop_first() =~= views.skip(i + 1));
            }
            let mut b: Vec<u8> = data[i].to_bytes(self.endianness);
            proof {
                assert(self.spec_buf() + spec_encode_vec::<T>(views.skip(i as int), e) =~= (
                self.spec_buf() + b@) + spec_encode_vec::<T>(views.skip(i + 1), e));
            }
            self.buf.append(&mut b);
            i = i + 1;
        }
        proof {
            assert(views.skip(data@.len() as int) =~= Seq::<T::V>::empty());
            assert(self.spec_buf() + spec_encode_vec::<T>(
                views.skip(data@.len() as int),
                e,
            ) =~= self.spec_buf());
        }
        self.buf.len() - start
    }

    /// Appends an unsigned 32-bit element count followed by each value's
    /// encoding — the exact inverse of reading a sized vector — and returns
    /// the number of bytes written.
    pub fn write_sized_vec<T: ToBytes>(&mut self, data: Vec<T>) -> (r: usize)
        requires
            data@.len() < 0x1_0000_0000,
        ensures
            final(self).spec_endianness() == old(self).spec_endianness(),
            final(self).spec_buf() == old(self).spec_buf() + u32::spec_to_bytes(
                data@.len() as u32,
                old(self).spec_endianness(),
            ) + spec_encode_vec::<T>(data@.map_values(|t: T| t@), old(self).spec_endianness()),
            r == 4 + spec_encode_vec::<T>(
                data@.map_values(|t: T| t@),
                old(self).spec_endianness(),
            ).len(),
    {
        proof {
            crate::base256::lemma_nat_to_wire_len(
                data@.len() as u32 as nat,
                4,
                self.spec_endianness(),
            );
        }
        let start: usize = self.buf.len();
        self.append::<u32>(data.len() as u32);
        self.write_vec::<T>(data);
        self.buf.len() - start
    }

    /// Returns a copy of the bytes written so far; the writer stays usable
    /// and keeps growing from its current state.
    pub fn buf(&self) -> (r: Vec<u8>)
        ensures
            r@ == self.spec_buf(),
    {
        vstd::slice::slice_to_vec(self.buf.as_slice())
    }
}

} // verus!
