//! The cursor-based reader over an immutable byte buffer.
//!
//! A [`ByteReader`] borrows a byte buffer and tracks a cursor into it. Every
//! read decodes a typed value at the cursor and advances by the consumed
//! length; peeks decode without advancing; batch reads are atomic (on any
//! failure the cursor is exactly where it was). Every failure carries the
//! absolute cursor position at which it occurred.

use crate::chomp::spec_chomp_views;
use crate::chomp::Chomp;
use crate::transmutable::Endianness;
use crate::transmutable::FixedSize;
use crate::transmutable::TryFromBytes;
use crate::transmutable::TryFromBytesError;
use vstd::arithmetic::div_mod::lemma_fundamental_div_mod;
use vstd::arithmetic::div_mod::lemma_mod_bound;
use vstd::prelude::*;
use vstd::slice::slice_subrange;

verus! {

/// The bytes left after `k` of them are consumed: consuming past the end
/// (a text run missing its terminator) leaves nothing.
pub open spec fn spec_skip_clamped(bytes: Seq<u8>, k: int) -> Seq<u8> {
    if 0 <= k <= bytes.len() {
        bytes.skip(k)
    } else {
        Seq::empty()
    }
}

/// What decoding `n` values of `T` in sequence from the front of `bytes`
/// yields: each decode starts where the previous one's consumed length
/// ended, and the first failure fails the whole batch.
pub open spec fn spec_decode_n_bytes<T: TryFromBytes>(
    bytes: Seq<u8>,
    endianness: Endianness,
    n: nat,
) -> Result<(Seq<T::V>, int), TryFromBytesError>
    decreases n,
{
    if n == 0 {
        Ok((Seq::empty(), 0))
    } else {
        match T::spec_try_from_bytes(bytes, endianness) {
            Err(e) => Err(e),
            Ok((v, k)) => match spec_decode_n_bytes::<T>(
                spec_skip_clamped(bytes, k),
                endianness,
                (n - 1) as nat,
            ) {
                Err(e) => Err(e),
                Ok((vs, m)) => Ok((seq![v] + vs, k + m)),
            },
        }
    }
}

/// For a fixed-size `T`, a batch decode of `n` values succeeds exactly when
/// `n` whole values fit in the input, consumes exactly `n` widths, and
/// otherwise reports the missing bytes.
pub proof fn lemma_decode_n_fixed<T: FixedSize>(bytes: Seq<u8>, endianness: Endianness, n: nat)
    ensures
        n * T::spec_size() <= bytes.len() ==> (spec_decode_n_bytes::<T>(bytes, endianness, n)
            matches Ok((vs, m)) && vs.len() == n && m == n * T::spec_size()),
        n * T::spec_size() > bytes.len() ==> spec_decode_n_bytes::<T>(bytes, endianness, n)
            == Err::<(Seq<T::V>, int), TryFromBytesError>(TryFromBytesError::OutOfBounds),
    decreases n,
{
    T::lemma_fixed_size(bytes, endianness);
    let w = T::spec_size();
    if n == 0 {
        vstd::arithmetic::mul::lemma_mul_basics(w);
    } else {
        assert(n * w == (n - 1) * w + w && (n - 1) * w >= 0) by (nonlinear_arith)
            requires
                n >= 1,
                w > 0,
        ;
        if bytes.len() < w {
            assert(n * w > bytes.len());
        } else {
            let rest = spec_skip_clamped(bytes, w);
            assert(rest =~= bytes.skip(w));
            lemma_decode_n_fixed::<T>(rest, endianness, (n - 1) as nat);
        }
    }
}

/// What went wrong inside the reader: no bytes left for the request, or a
/// per-type decode failure.
#[derive(Clone, Copy, PartialEq, Eq, Structural, Debug)]
pub enum ByteReaderErrorKind {
    NoBytes,
    TryFromBytesError(TryFromBytesError),
}

/// A reader failure, annotated with the absolute cursor position at the
/// moment it occurred.
#[derive(Clone, Copy, PartialEq, Eq, Structural, Debug)]
pub struct ByteReaderError {
    pub kind: ByteReaderErrorKind,
    pub cursor: usize,
}

/// The error kind a failed typed read reports: missing bytes surface as
/// `NoBytes`, anything else keeps the decoder's own error.
pub open spec fn spec_read_err_kind(e: TryFromBytesError) -> ByteReaderErrorKind {
    match e {
        TryFromBytesError::OutOfBounds => ByteReaderErrorKind::NoBytes,
        _ => ByteReaderErrorKind::TryFromBytesError(e),
    }
}

fn read_err_kind(e: TryFromBytesError) -> (k: ByteReaderErrorKind)
    ensures
        k == spec_read_err_kind(e),
{
    match e {
        TryFromBytesError::OutOfBounds => ByteReaderErrorKind::NoBytes,
        _ => ByteReaderErrorKind::TryFromBytesError(e),
    }
}

impl From<TryFromBytesError> for ByteReaderErrorKind {
    fn from(err: TryFromBytesError) -> (r: Self) {
        ByteReaderErrorKind::TryFromBytesError(err)
    }
}

impl vstd::std_specs::convert::FromSpecImpl<TryFromBytesError> for ByteReaderErrorKind {
    open spec fn obeys_from_spec() -> bool {
        true
    }

    open spec fn from_spec(t: TryFromBytesError) -> Self {
        ByteReaderErrorKind::TryFromBytesError(t)
    }
}

/// Cursor invariant: the cursor position plus the remaining length is
/// always exactly the buffer's total length. Every reader satisfies
/// `wf` (it is the type's invariant), so this holds after any sequence of
/// reads, peeks and seeks.
pub proof fn lemma_cursor_invariant(r: ByteReader)
    requires
        r.wf(),
    ensures
        r.spec_cursor() + r.spec_remaining().len() == r.spec_size(),
        0 <= r.spec_cursor() <= r.spec_size(),
{
}

/// A tool for reading typed values out of a byte buffer.
#[derive(Clone, Copy)]
pub struct ByteReader<'a> {
    /// The data being read.
    buf: &'a [u8],
    /// How many bytes of `buf` have been consumed: the cursor is the suffix
    /// of `buf` from this offset on.
    pos: usize,
    /// The byte order every multi-byte decode made through this reader uses.
    endianness: Endianness,
}

impl<'a> ByteReader<'a> {
    /// The cursor never leaves the buffer, and one more than the buffer's
    /// length still fits in `usize` (so a consumed count can always be
    /// reported).
    #[verifier::type_invariant]
    pub closed spec fn wf(self) -> bool {
        self.pos <= self.buf@.len() && self.buf@.len() < usize::MAX
    }

    /// The whole buffer.
    pub closed spec fn spec_buf(self) -> Seq<u8> {
        self.buf@
    }

    /// The cursor position: how many bytes have been consumed.
    pub closed spec fn spec_cursor(self) -> int {
        self.pos as int
    }

    /// The reader's byte order.
    pub closed spec fn spec_endianness(self) -> Endianness {
        self.endianness
    }

    /// The buffer's total length.
    pub open spec fn spec_size(self) -> int {
        self.spec_buf().len() as int
    }

    /// The bytes not yet consumed: the suffix of the buffer at the cursor.
    pub open spec fn spec_remaining(self) -> Seq<u8> {
        self.spec_buf().skip(self.spec_cursor())
    }

    /// How many bytes are not yet consumed.
    pub open spec fn spec_len(self) -> int {
        self.spec_size() - self.spec_cursor()
    }

    /// What decoding one `T` at the cursor yields.
    pub open spec fn spec_decode<T: TryFromBytes>(self) -> Result<
        (T::V, int),
        TryFromBytesError,
    > {
        T::spec_try_from_bytes(self.spec_remaining(), self.spec_endianness())
    }

    /// The cursor after consuming `n` more bytes, clamped to the buffer's
    /// end (a text run missing its terminator reports one byte more than
    /// remains).
    pub open spec fn spec_clamped(self, n: int) -> int {
        if self.spec_cursor() + n <= self.spec_size() {
            self.spec_cursor() + n
        } else {
            self.spec_size()
        }
    }

    /// The error the reader reports for `kind` at its current position.
    pub closed spec fn spec_err(self, kind: ByteReaderErrorKind) -> ByteReaderError {
        ByteReaderError { kind, cursor: self.pos }
    }

    /// Returns a `ByteReaderError` of the given kind, annotated with the
    /// current cursor position.
    pub fn err(&self, kind: ByteReaderErrorKind) -> (r: ByteReaderError)
        ensures
            r == self.spec_err(kind),
            r.kind == kind,
            r.cursor == self.spec_cursor(),
    {
        ByteReaderError { kind, cursor: self.pos }
    }

    /// Returns a reader over `buf` with the cursor at the start.
    pub fn new(buf: &'a [u8], endianness: Endianness) -> (r: Self)
        requires
            buf@.len() < usize::MAX,
        ensures
            r.spec_buf() == buf@,
            r.spec_cursor() == 0,
            r.spec_endianness() == endianness,
    {
        ByteReader { buf, pos: 0, endianness }
    }

    /// The length of the remaining buffer.
    pub fn len(&self) -> (r: usize)
        ensures
            r == self.spec_len(),
    {
        proof {
            use_type_invariant(&*self);
        }
        self.buf.len() - self.pos
    }

    /// The cursor position.
    pub fn cursor(&self) -> (r: usize)
        ensures
            r == self.spec_cursor(),
    {
        self.pos
    }

    /// The size of the whole buffer.
    pub fn size(&self) -> (r: usize)
        ensures
            r == self.spec_size(),
    {
        self.buf.len()
    }

    /// Moves the cursor to absolute offset `pos` within the buffer. Fails,
    /// and moves nothing, exactly when `pos` lies past the buffer's end.
    /// A seek is always reversible by another seek.
    pub fn seek(&mut self, pos: usize) -> (r: Result<(), ByteReaderError>)
        ensures
            final(self).spec_buf() == old(self).spec_buf(),
            final(self).spec_endianness() == old(self).spec_endianness(),
            match r {
                Ok(()) => pos <= old(self).spec_size() && final(self).spec_cursor() == pos,
                Err(e) => pos > old(self).spec_size() && *final(self) == *old(self) && e == old(
                    self,
                ).spec_err(ByteReaderErrorKind::NoBytes),
            },
    {
        proof {
            use_type_invariant(&*self);
        }
        if pos > self.buf.len() {
            return Err(self.err(ByteReaderErrorKind::NoBytes));
        }
        self.pos = pos;
        Ok(())
    }

    /// Discards every byte before absolute offset `pos`: buffer and cursor
    /// both become the suffix from `pos` on. All prior offsets become
    /// invalid; unlike a seek this cannot be undone.
    pub fn rebase(&mut self, pos: usize)
        requires
            pos <= old(self).spec_size(),
        ensures
            final(self).spec_buf() == old(self).spec_buf().skip(pos as int),
            final(self).spec_cursor() == 0,
            final(self).spec_endianness() == old(self).spec_endianness(),
    {
        proof {
            use_type_invariant(&*self);
        }
        self.pos = 0;
        let b: &'a [u8] = self.buf;
        self.buf = slice_subrange(b, pos, b.len());
        proof {
            assert(self.buf@ =~= b@.skip(pos as int));
        }
    }

    /// Decode one `T` at the cursor without moving it, returning what was
    /// decoded and leaving the error, if any, exactly as a read would report
    /// it.
    fn decode_one<T: TryFromBytes>(&self) -> (r: Result<(T, usize), ByteReaderError>)
        ensures
            match r {
                Ok((v, n)) => self.spec_decode::<T>() == Ok::<(T::V, int), TryFromBytesError>(
                    (v@, n as int),
                ),
                Err(e) => (self.spec_decode::<T>() matches Err(de) && e == self.spec_err(
                    spec_read_err_kind(de),
                )),
            },
    {
        proof {
            use_type_invariant(&*self);
        }
        let sub: &[u8] = slice_subrange(self.buf, self.pos, self.buf.len());
        proof {
            assert(sub@ =~= self.spec_remaining());
        }
        match T::try_from_bytes(sub, self.endianness) {
            Ok((v, n)) => Ok((v, n)),
            Err(de) => Err(self.err(read_err_kind(de))),
        }
    }

    /// Advance the cursor by `n` consumed bytes, clamped to the buffer's end.
    fn advance(&mut self, n: usize)
        ensures
            final(self).spec_buf() == old(self).spec_buf(),
            final(self).spec_endianness() == old(self).spec_endianness(),
            final(self).spec_cursor() == old(self).spec_clamped(n as int),
    {
        proof {
            use_type_invariant(&*self);
        }
        let rem: usize = self.buf.len() - self.pos;
        if n <= rem {
            self.pos = self.pos + n;
        } else {
            self.pos = self.buf.len();
        }
    }

    /// Reads one `T` from the buffer, advancing the cursor by exactly the
    /// decoded length. On failure the cursor does not move and the error
    /// carries the position at which decoding was attempted.
    pub fn read<T: TryFromBytes>(&mut self) -> (r: Result<crate::chomp::Chomp<T>, ByteReaderError>)
        ensures
            final(self).spec_buf() == old(self).spec_buf(),
            final(self).spec_endianness() == old(self).spec_endianness(),
            match r {
                Ok(c) => (old(self).spec_decode::<T>() matches Ok((v, n))
                    && c.spec_inner()@ == v && final(self).spec_cursor() == old(self).spec_clamped(
                    n,
                )),
                Err(e) => (old(self).spec_decode::<T>() matches Err(de)
                    && *final(self) == *old(self)
                    && e == old(self).spec_err(spec_read_err_kind(de))),
            },
    {
        match self.decode_one::<T>() {
            Ok((v, n)) => {
                self.advance(n);
                Ok(crate::chomp::Chomp::of(v))
            },
            Err(e) => Err(e),
        }
    }

    /// As [`Self::read`], but the cursor is left where it was whatever the
    /// outcome: no consumption is observable.
    pub fn peek<T: TryFromBytes>(&mut self) -> (r: Result<crate::chomp::Chomp<T>, ByteReaderError>)
        ensures
            *final(self) == *old(self),
            match r {
                Ok(c) => (old(self).spec_decode::<T>() matches Ok((v, n))
                    && c.spec_inner()@ == v),
                Err(e) => (old(self).spec_decode::<T>() matches Err(de) && e == old(self).spec_err(
                    spec_read_err_kind(de),
                )),
            },
    {
        match self.decode_one::<T>() {
            Ok((v, _)) => Ok(crate::chomp::Chomp::of(v)),
            Err(e) => Err(e),
        }
    }

    /// How many bytes the next `T` at the cursor would consume, without
    /// materialising a value or moving the cursor.
    pub fn byte_size<T: TryFromBytes>(&mut self) -> (r: Result<usize, ByteReaderError>)
        ensures
            *final(self) == *old(self),
            match r {
                Ok(n) => (old(self).spec_decode::<T>() matches Ok((v, m)) && n == m),
                Err(e) => (old(self).spec_decode::<T>() matches Err(de) && e == old(self).spec_err(
                    ByteReaderErrorKind::TryFromBytesError(de),
                )),
            },
    {
        proof {
            use_type_invariant(&*self);
        }
        let sub: &[u8] = slice_subrange(self.buf, self.pos, self.buf.len());
        proof {
            assert(sub@ =~= self.spec_remaining());
        }
        match T::try_from_bytes(sub, self.endianness) {
            Ok((_, n)) => Ok(n),
            Err(de) => Err(self.err(ByteReaderErrorKind::TryFromBytesError(de))),
        }
    }

    /// Reads one null-terminated string at the cursor: the bytes up to the
    /// first zero byte, which must be valid UTF-8. The terminator is
    /// consumed but excluded from the value; a run that reaches the end of
    /// input without a terminator consumes everything that remains.
    pub fn read_string(&mut self) -> (r: Result<String, ByteReaderError>)
        ensures
            final(self).spec_buf() == old(self).spec_buf(),
            final(self).spec_endianness() == old(self).spec_endianness(),
            match r {
                Ok(s) => (old(self).spec_decode::<String>() matches Ok((v, n)) && s@ == v
                    && final(self).spec_cursor() == old(self).spec_clamped(n)),
                Err(e) => (old(self).spec_decode::<String>() matches Err(de)
                    && *final(self) == *old(self)
                    && e == old(self).spec_err(ByteReaderErrorKind::TryFromBytesError(de))),
            },
    {
        proof {
            use_type_invariant(&*self);
        }
        let sub: &[u8] = slice_subrange(self.buf, self.pos, self.buf.len());
        proof {
            assert(sub@ =~= self.spec_remaining());
        }
        match String::try_from_bytes(sub, self.endianness) {
            Ok((s, n)) => {
                self.advance(n);
                Ok(s)
            },
            Err(de) => Err(self.err(ByteReaderErrorKind::TryFromBytesError(de))),
        }
    }

    /// What decoding `n` values of `T` in sequence at the cursor yields.
    pub open spec fn spec_decode_n<T: TryFromBytes>(self, n: nat) -> Result<
        (Seq<T::V>, int),
        TryFromBytesError,
    > {
        spec_decode_n_bytes::<T>(self.spec_remaining(), self.spec_endianness(), n)
    }

    /// Decode `n` values of `T` at the cursor without moving it, also
    /// reporting the buffer offset at which the batch ended.
    fn decode_n_from<T: TryFromBytes>(&self, n: usize) -> (r: Result<
        (Vec<Chomp<T>>, usize),
        ByteReaderError,
    >)
        ensures
            match r {
                Ok((out, off)) => (self.spec_decode_n::<T>(n as nat) matches Ok((vs, m))
                    && spec_chomp_views(out@) == vs
                    && out@.len() == n
                    && off == self.spec_clamped(m)),
                Err(e) => (self.spec_decode_n::<T>(n as nat) matches Err(de) && e == self.spec_err(
                    spec_read_err_kind(de),
                )),
            },
    {
        proof {
            use_type_invariant(&*self);
        }
        let mut out: Vec<Chomp<T>> = Vec::new();
        let mut off: usize = self.pos;
        let ghost mut consumed: int = 0;
        let mut i: usize = 0;
        while i < n
            invariant
                i <= n,
                self.wf(),
                self.spec_cursor() <= off <= self.spec_buf().len(),
                consumed >= 0,
                off == self.spec_clamped(consumed),
                out@.len() == i,
                (match spec_decode_n_bytes::<T>(
                    self.spec_buf().skip(off as int),
                    self.spec_endianness(),
                    (n - i) as nat,
                ) {
                    Ok((vs, m)) => (self.spec_decode_n::<T>(n as nat) matches Ok((vs0, m0))
                        && vs0 == spec_chomp_views(out@) + vs && m0 == consumed + m),
                    Err(de) => self.spec_decode_n::<T>(n as nat) == Err::<
                        (Seq<T::V>, int),
                        TryFromBytesError,
                    >(de),
                }),
            decreases n - i,
        {
            let sub: &[u8] = slice_subrange(self.buf, off, self.buf.len());
            proof {
                assert(sub@ =~= self.spec_buf().skip(off as int));
            }
            match T::try_from_bytes(sub, self.endianness) {
                Err(de) => {
                    return Err(self.err(read_err_kind(de)));
                },
                Ok((v, k)) => {
                    let ghost prev = out@;
                    let c: Chomp<T> = Chomp::of(v);
                    proof {
                        let rest = self.spec_buf().skip(off as int);
                        let new_off = if k as int <= rest.len() {
                            off + k
                        } else {
                            self.spec_buf().len() as int
                        };
                        assert(spec_skip_clamped(rest, k as int) =~= self.spec_buf().skip(new_off));
                    }
                    out.push(c);
                    let rem: usize = self.buf.len() - off;
                    if k <= rem {
                        off = off + k;
                    } else {
                        off = self.buf.len();
                    }
                    proof {
                        consumed = consumed + k as int;
                        assert(spec_chomp_views(out@) =~= spec_chomp_views(prev) + seq![v@]);
                        let tail = spec_decode_n_bytes::<T>(
                            self.spec_buf().skip(off as int),
                            self.spec_endianness(),
                            (n - i - 1) as nat,
                        );
                        if tail is Ok {
                            let (vs, m) = tail->Ok_0;
                            assert(spec_chomp_views(prev) + (seq![v@] + vs) =~= spec_chomp_views(
                                out@,
                            ) + vs);
                        }
                    }
                    i = i + 1;
                },
            }
        }
        proof {
            assert(spec_decode_n_bytes::<T>(
                self.spec_buf().skip(off as int),
                self.spec_endianness(),
                0,
            ) == Ok::<(Seq<T::V>, int), TryFromBytesError>((Seq::empty(), 0)));
            assert(spec_chomp_views(out@) + Seq::<T::V>::empty() =~= spec_chomp_views(out@));
        }
        Ok((out, off))
    }

    /// Reads `T` from the buffer `n` times in sequence, without consuming:
    /// the cursor is left where it was whatever the outcome. Offsets chain:
    /// each decode starts where the previous one ended; the whole batch
    /// fails on the first element that cannot be decoded.
    pub fn peek_n<T: TryFromBytes>(&self, n: usize) -> (r: Result<Vec<Chomp<T>>, ByteReaderError>)
        ensures
            match r {
                Ok(out) => (self.spec_decode_n::<T>(n as nat) matches Ok((vs, m))
                    && spec_chomp_views(out@) == vs && out@.len() == n),
                Err(e) => (self.spec_decode_n::<T>(n as nat) matches Err(de) && e == self.spec_err(
                    spec_read_err_kind(de),
                )),
            },
    {
        match self.decode_n_from::<T>(n) {
            Ok((out, _)) => Ok(out),
            Err(e) => Err(e),
        }
    }

    /// Reads `T` from the buffer `n` times in sequence, advancing the cursor
    /// past the whole batch. The batch is atomic: if any element fails, the
    /// cursor does not move at all.
    pub fn read_n<T: TryFromBytes>(&mut self, n: usize) -> (r: Result<
        Vec<Chomp<T>>,
        ByteReaderError,
    >)
        ensures
            final(self).spec_buf() == old(self).spec_buf(),
            final(self).spec_endianness() == old(self).spec_endianness(),
            match r {
                Ok(out) => (old(self).spec_decode_n::<T>(n as nat) matches Ok((vs, m))
                    && spec_chomp_views(out@) == vs
                    && out@.len() == n
                    && final(self).spec_cursor() == old(self).spec_clamped(m)),
                Err(e) => (old(self).spec_decode_n::<T>(n as nat) matches Err(de)
                    && *final(self) == *old(self)
                    && e == old(self).spec_err(spec_read_err_kind(de))),
            },
    {
        proof {
            use_type_invariant(&*self);
        }
        match self.decode_n_from::<T>(n) {
            Ok((out, off)) => {
                self.pos = off;
                Ok(out)
            },
            Err(e) => Err(e),
        }
    }

    /// Reads an unsigned 32-bit element count, then that many `T` in
    /// sequence. The count, once read, is a committed read of its own: if
    /// the element batch then fails, the cursor stays just after the count
    /// and is not rolled back.
    pub fn read_sized_vector<T: TryFromBytes>(&mut self) -> (r: Result<
        Vec<Chomp<T>>,
        ByteReaderError,
    >)
        ensures
            final(self).spec_buf() == old(self).spec_buf(),
            final(self).spec_endianness() == old(self).spec_endianness(),
            match old(self).spec_decode::<u32>() {
                Err(de) => (r matches Err(e) && *final(self) == *old(self) && e == old(
                    self,
                ).spec_err(spec_read_err_kind(de))),
                Ok((count, k)) => ({
                    let midcur = old(self).spec_clamped(k);
                    match spec_decode_n_bytes::<T>(
                        old(self).spec_buf().skip(midcur),
                        old(self).spec_endianness(),
                        count as nat,
                    ) {
                        Ok((vs, m)) => (r matches Ok(out) && spec_chomp_views(out@) == vs
                            && out@.len() == count
                            && final(self).spec_cursor() == (if midcur + m <= old(
                            self,
                        ).spec_size() {
                            midcur + m
                        } else {
                            old(self).spec_size()
                        })),
                        Err(de) => (r matches Err(e) && final(self).spec_cursor() == midcur && e
                            == (ByteReaderError {
                            kind: spec_read_err_kind(de),
                            cursor: midcur as usize,
                        })),
                    }
                }),
            },
    {
        let count: u32 = match self.read::<u32>() {
            Ok(c) => c.inner(),
            Err(e) => {
                return Err(e);
            },
        };
        self.read_n::<T>(count as usize)
    }

    /// Reads as many whole `T` as the remaining bytes hold: the remaining
    /// length divided by the type's fixed width. Never fails.
    pub fn read_remaining<T: FixedSize>(&mut self) -> (r: Result<Vec<Chomp<T>>, ByteReaderError>)
        ensures
            final(self).spec_buf() == old(self).spec_buf(),
            final(self).spec_endianness() == old(self).spec_endianness(),
            (r matches Ok(out) && ({
                let n = old(self).spec_len() / T::spec_size();
                &&& old(self).spec_decode_n::<T>(n as nat) matches Ok((vs, m))
                &&& spec_chomp_views(out@) == vs
                &&& out@.len() == n
                &&& m == n * T::spec_size()
                &&& final(self).spec_cursor() == old(self).spec_cursor() + m
            })),
    {
        proof {
            use_type_invariant(&*self);
        }
        let w: usize = T::fixed_size();
        let n: usize = (self.buf.len() - self.pos) / w;
        proof {
            let ws = T::spec_size();
            let rem = self.spec_len();
            lemma_fundamental_div_mod(rem, ws);
            lemma_mod_bound(rem, ws);
            let nn = rem / ws;
            assert(nn * ws == ws * nn) by (nonlinear_arith);
            assert(nn * ws <= rem);
            assert(self.spec_remaining().len() == rem);
            assert(n == nn);
            lemma_decode_n_fixed::<T>(self.spec_remaining(), self.spec_endianness(), nn as nat);
        }
        self.read_n::<T>(n)
    }

    /// Returns a `ByteReaderIterator<T>` that hands back one decoded `T` per
    /// step until a decode fails. The iterator walks its own copy of this
    /// reader; this reader's cursor does not move.
    pub fn iter<T: TryFromBytes>(&self) -> (r: ByteReaderIterator<'a, T>)
        ensures
            r.spec_reader() == *self,
    {
        ByteReaderIterator { reader: *self, resource_type: core::marker::PhantomData }
    }
}

/// Iterates over a reader, decoding one `T` per step.
pub struct ByteReaderIterator<'a, T: TryFromBytes> {
    reader: ByteReader<'a>,
    resource_type: core::marker::PhantomData<T>,
}

impl<'a, T: TryFromBytes> ByteReaderIterator<'a, T> {
    /// The reader this iterator walks.
    pub closed spec fn spec_reader(self) -> ByteReader<'a> {
        self.reader
    }
}

impl<'a, T: TryFromBytes + Copy> ByteReaderIterator<'a, T> {
    /// Decode the next value and advance past it; `None`, with nothing
    /// moved, when the next decode fails.
    pub fn next(&mut self) -> (r: Option<T>)
        ensures
            final(self).spec_reader().spec_buf() == old(self).spec_reader().spec_buf(),
            final(self).spec_reader().spec_endianness() == old(
                self,
            ).spec_reader().spec_endianness(),
            match r {
                Some(v) => (old(self).spec_reader().spec_decode::<T>() matches Ok((vv, n)) && v@
                    == vv && final(self).spec_reader().spec_cursor() == old(
                    self,
                ).spec_reader().spec_clamped(n)),
                None => (old(self).spec_reader().spec_decode::<T>() is Err && *final(self) == *old(
                    self,
                )),
            },
    {
        match self.reader.read::<T>() {
            Ok(c) => Some(c.inner()),
            Err(_) => None,
        }
    }
}

} // verus!
