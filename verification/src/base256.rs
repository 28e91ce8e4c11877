//! Base-256 positional arithmetic: the mathematical model of fixed-width
//! integer wire encodings, for both byte orders, together with the lemmas
//! and executable conversion helpers the primitive codecs are proved with.

use crate::transmutable::Endianness;
use vstd::arithmetic::power::*;
use vstd::prelude::*;

verus! {

/// `256 ^ n`, the number of distinct values of an `n`-byte wire field.
pub open spec fn pow256(n: nat) -> nat {
    pow(256, n) as nat
}

/// The value of `s` read as a little-endian base-256 numeral
/// (first byte least significant).
pub open spec fn le_to_nat(s: Seq<u8>) -> nat
    decreases s.len(),
{
    if s.len() == 0 {
        0
    } else {
        (s[0] + 256 * le_to_nat(s.subrange(1, s.len() as int))) as nat
    }
}

/// The value of `s` read as a big-endian base-256 numeral
/// (last byte least significant).
pub open spec fn be_to_nat(s: Seq<u8>) -> nat
    decreases s.len(),
{
    if s.len() == 0 {
        0
    } else {
        (256 * be_to_nat(s.subrange(0, s.len() - 1)) + s[s.len() - 1]) as nat
    }
}

/// The `n` little-endian base-256 digits of `v` (truncating above `256^n`).
pub open spec fn nat_to_le(v: nat, n: nat) -> Seq<u8>
    decreases n,
{
    if n == 0 {
        Seq::empty()
    } else {
        seq![(v % 256) as u8] + nat_to_le(v / 256, (n - 1) as nat)
    }
}

/// The `n` big-endian base-256 digits of `v` (truncating above `256^n`).
pub open spec fn nat_to_be(v: nat, n: nat) -> Seq<u8>
    decreases n,
{
    if n == 0 {
        Seq::empty()
    } else {
        nat_to_be(v / 256, (n - 1) as nat) + seq![(v % 256) as u8]
    }
}

pub proof fn lemma_nat_to_le_len(v: nat, n: nat)
    ensures
        nat_to_le(v, n).len() == n,
    decreases n,
{
    if n > 0 {
        lemma_nat_to_le_len(v / 256, (n - 1) as nat);
    }
}

pub proof fn lemma_nat_to_be_len(v: nat, n: nat)
    ensures
        nat_to_be(v, n).len() == n,
    decreases n,
{
    if n > 0 {
        lemma_nat_to_be_len(v / 256, (n - 1) as nat);
    }
}

/// A little-endian numeral of `n` bytes is below `256^n`.
pub proof fn lemma_le_to_nat_bound(s: Seq<u8>)
    ensures
        le_to_nat(s) < pow256(s.len()),
    decreases s.len(),
{
    broadcast use lemma_pow_positive;

    if s.len() == 0 {
        reveal(pow);
    } else {
        let rest = s.subrange(1, s.len() as int);
        lemma_le_to_nat_bound(rest);
        assert(pow256(s.len()) == 256 * pow256(rest.len())) by {
            reveal(pow);
        }
    }
}

/// A big-endian numeral of `n` bytes is below `256^n`.
pub proof fn lemma_be_to_nat_bound(s: Seq<u8>)
    ensures
        be_to_nat(s) < pow256(s.len()),
    decreases s.len(),
{
    broadcast use lemma_pow_positive;

    if s.len() == 0 {
        reveal(pow);
    } else {
        let rest = s.subrange(0, s.len() - 1);
        lemma_be_to_nat_bound(rest);
        assert(pow256(s.len()) == 256 * pow256(rest.len())) by {
            reveal(pow);
        }
    }
}

/// Reading back the little-endian digits of `v` recovers `v`.
pub proof fn lemma_le_roundtrip(v: nat, n: nat)
    requires
        v < pow256(n),
    ensures
        le_to_nat(nat_to_le(v, n)) == v,
    decreases n,
{
    broadcast use lemma_pow_positive;

    if n == 0 {
        reveal(pow);
    } else {
        let s = nat_to_le(v, n);
        assert(pow256(n) == 256 * pow256((n - 1) as nat)) by {
            reveal(pow);
        }
        lemma_le_roundtrip(v / 256, (n - 1) as nat);
        lemma_nat_to_le_len(v / 256, (n - 1) as nat);
        assert(s.subrange(1, s.len() as int) =~= nat_to_le(v / 256, (n - 1) as nat));
        assert(s[0] == v % 256);
        assert(v == 256 * (v / 256) + v % 256) by (nonlinear_arith);
    }
}

/// Reading back the big-endian digits of `v` recovers `v`.
pub proof fn lemma_be_roundtrip(v: nat, n: nat)
    requires
        v < pow256(n),
    ensures
        be_to_nat(nat_to_be(v, n)) == v,
    decreases n,
{
    broadcast use lemma_pow_positive;

    if n == 0 {
        reveal(pow);
    } else {
        let s = nat_to_be(v, n);
        assert(pow256(n) == 256 * pow256((n - 1) as nat)) by {
            reveal(pow);
        }
        lemma_be_roundtrip(v / 256, (n - 1) as nat);
        lemma_nat_to_be_len(v / 256, (n - 1) as nat);
        assert(s.subrange(0, s.len() - 1) =~= nat_to_be(v / 256, (n - 1) as nat));
        assert(s[s.len() - 1] == v % 256);
        assert(v == 256 * (v / 256) + v % 256) by (nonlinear_arith);
    }
}

/// The numeral value of a prefix is unchanged by what follows it:
/// appending `rest` after the first `n` bytes never alters `take(n)`.
pub proof fn lemma_take_of_append(s: Seq<u8>, rest: Seq<u8>)
    ensures
        (s + rest).take(s.len() as int) =~= s,
{
}

/// The powers of 256 at the wire widths the toolkit uses.
pub proof fn lemma_pow256_values()
    ensures
        pow256(0) == 1,
        pow256(1) == 0x100,
        pow256(2) == 0x1_0000,
        pow256(4) == 0x1_0000_0000,
        pow256(8) == 0x1_0000_0000_0000_0000,
        pow256(16) == 0x1_0000_0000_0000_0000_0000_0000_0000_0000,
{
    reveal_with_fuel(pow, 17);
}

pub proof fn lemma_pow256_increases(a: nat, b: nat)
    requires
        a <= b,
    ensures
        pow256(a) <= pow256(b),
{
    broadcast use lemma_pow_positive;

    lemma_pow_increases(256, a, b);
}

/// The value of `s` read as a base-256 numeral under byte order `e`.
pub open spec fn wire_to_nat(s: Seq<u8>, e: Endianness) -> nat {
    match e {
        Endianness::Little => le_to_nat(s),
        Endianness::Big => be_to_nat(s),
    }
}

/// The `n`-byte wire encoding of `v` under byte order `e`.
pub open spec fn nat_to_wire(v: nat, n: nat, e: Endianness) -> Seq<u8> {
    match e {
        Endianness::Little => nat_to_le(v, n),
        Endianness::Big => nat_to_be(v, n),
    }
}

pub proof fn lemma_nat_to_wire_len(v: nat, n: nat, e: Endianness)
    ensures
        nat_to_wire(v, n, e).len() == n,
{
    lemma_nat_to_le_len(v, n);
    lemma_nat_to_be_len(v, n);
}

pub proof fn lemma_wire_to_nat_bound(s: Seq<u8>, e: Endianness)
    ensures
        wire_to_nat(s, e) < pow256(s.len()),
{
    lemma_le_to_nat_bound(s);
    lemma_be_to_nat_bound(s);
}

/// Decoding the wire encoding of `v`, whatever follows it, recovers `v`.
pub proof fn lemma_wire_roundtrip(v: nat, n: nat, e: Endianness, rest: Seq<u8>)
    requires
        v < pow256(n),
    ensures
        nat_to_wire(v, n, e).len() == n,
        wire_to_nat((nat_to_wire(v, n, e) + rest).take(n as int), e) == v,
{
    lemma_nat_to_wire_len(v, n, e);
    lemma_take_of_append(nat_to_wire(v, n, e), rest);
    lemma_le_roundtrip(v, n);
    lemma_be_roundtrip(v, n);
}

/// Read the first `width` bytes of `s` as an unsigned value under byte
/// order `e`.
pub fn wire_read_u128(s: &[u8], width: usize, e: Endianness) -> (v: u128)
    requires
        width <= 16,
        s@.len() >= width,
    ensures
        v == wire_to_nat(s@.take(width as int), e),
        v < pow256(width as nat),
{
    proof {
        lemma_pow256_values();
        lemma_wire_to_nat_bound(s@.take(width as int), e);
    }
    match e {
        Endianness::Little => {
            let mut v: u128 = 0;
            let mut i: usize = width;
            while i > 0
                invariant
                    i <= width,
                    width <= 16,
                    s@.len() >= width,
                    v == le_to_nat(s@.subrange(i as int, width as int)),
                    v < pow256((width - i) as nat),
                decreases i,
            {
                let b: u8 = s[i - 1];
                proof {
                    broadcast use lemma_pow_positive;

                    lemma_pow256_values();
                    lemma_pow256_increases((width - i + 1) as nat, 16);
                    assert(pow256((width - i + 1) as nat) == 256 * pow256((width - i) as nat))
                        by {
                        reveal(pow);
                    }
                    let cur = s@.subrange(i - 1, width as int);
                    assert(cur.subrange(1, cur.len() as int) =~= s@.subrange(
                        i as int,
                        width as int,
                    ));
                    assert(cur[0] == b);
                }
                v = v * 256 + (b as u128);
                i = i - 1;
            }
            proof {
                assert(s@.subrange(0, width as int) =~= s@.take(width as int));
            }
            v
        },
        Endianness::Big => {
            let mut v: u128 = 0;
            let mut i: usize = 0;
            while i < width
                invariant
                    i <= width,
                    width <= 16,
                    s@.len() >= width,
                    v == be_to_nat(s@.take(i as int)),
                    v < pow256(i as nat),
                decreases width - i,
            {
                let b: u8 = s[i];
                proof {
                    broadcast use lemma_pow_positive;

                    lemma_pow256_values();
                    lemma_pow256_increases((i + 1) as nat, 16);
                    assert(pow256((i + 1) as nat) == 256 * pow256(i as nat)) by {
                        reveal(pow);
                    }
                    let cur = s@.take(i + 1);
                    assert(cur.subrange(0, cur.len() - 1) =~= s@.take(i as int));
                    assert(cur[cur.len() - 1] == b);
                }
                v = v * 256 + (b as u128);
                i = i + 1;
            }
            v
        },
    }
}

/// Encode `v` as `width` bytes under byte order `e`.
pub fn wire_write_u128(v: u128, width: usize, e: Endianness) -> (r: Vec<u8>)
    ensures
        r@ == nat_to_wire(v as nat, width as nat, e),
        r@.len() == width,
{
    proof {
        lemma_nat_to_wire_len(v as nat, width as nat, e);
    }
    match e {
        Endianness::Little => {
            let mut r: Vec<u8> = Vec::new();
            let mut cur: u128 = v;
            let mut i: usize = 0;
            while i < width
                invariant
                    i <= width,
                    r@.len() == i,
                    nat_to_le(v as nat, width as nat) == r@ + nat_to_le(
                        cur as nat,
                        (width - i) as nat,
                    ),
                decreases width - i,
            {
                let b: u8 = (cur % 256) as u8;
                proof {
                    let tail = nat_to_le(cur as nat, (width - i) as nat);
                    assert(tail == seq![b] + nat_to_le((cur / 256) as nat, (width - i - 1) as nat));
                    assert(r@ + tail =~= r@.push(b) + nat_to_le(
                        (cur / 256) as nat,
                        (width - i - 1) as nat,
                    ));
                }
                r.push(b);
                cur = cur / 256;
                i = i + 1;
            }
            proof {
                assert(r@ + nat_to_le(cur as nat, 0) =~= r@);
            }
            r
        },
        Endianness::Big => {
            let mut r: Vec<u8> = Vec::new();
            let mut cur: u128 = v;
            let mut i: usize = 0;
            while i < width
                invariant
                    i <= width,
                    r@.len() == i,
                    nat_to_be(v as nat, width as nat) == nat_to_be(cur as nat, (width - i) as nat)
                        + r@,
                decreases width - i,
            {
                let b: u8 = (cur % 256) as u8;
                proof {
                    let head = nat_to_be(cur as nat, (width - i) as nat);
                    assert(head == nat_to_be((cur / 256) as nat, (width - i - 1) as nat)
                        + seq![b]);
                    assert(head + r@ =~= nat_to_be((cur / 256) as nat, (width - i - 1) as nat) + (
                    seq![b] + r@));
                    assert((seq![b] + r@) =~= r@.insert(0, b));
                }
                r.insert(0, b);
                cur = cur / 256;
                i = i + 1;
            }
            proof {
                assert(nat_to_be(cur as nat, 0) + r@ =~= r@);
            }
            r
        },
    }
}

} // verus!
