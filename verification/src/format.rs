//! The wire format's primitive encodings, as specification functions.
//!
//! Everything here is ghost: these functions say, position by position, what
//! a byte sequence means.  The executable reader in [`crate::de`] is proved
//! to agree with them, and the round-trip lemmas at the bottom relate them
//! to the canonical encodings.

use vstd::prelude::*;
use crate::errors::Error;

verus! {

/// The outcome of parsing one item at a position of a byte sequence:
/// the item together with the position just past it, or the error.
pub enum Parsed<T> {
    Val(T, int),
    Fail(Error),
}

/// The value of a big-endian byte string.
pub open spec fn be_val(s: Seq<u8>) -> int
    decreases s.len(),
{
    if s.len() == 0 {
        0
    } else {
        be_val(s.drop_last()) * 256 + s.last()
    }
}

/// `256^n`, the number of values of an `n`-byte big-endian string.
pub open spec fn pow256(n: nat) -> int
    decreases n,
{
    if n == 0 {
        1
    } else {
        256 * pow256((n - 1) as nat)
    }
}

pub proof fn lemma_pow256_pos(n: nat)
    ensures
        pow256(n) >= 1,
    decreases n,
{
    if n > 0 {
        lemma_pow256_pos((n - 1) as nat);
    }
}

pub proof fn lemma_pow256_mono(a: nat, b: nat)
    requires
        a <= b,
    ensures
        pow256(a) <= pow256(b),
    decreases b,
{
    if a < b {
        lemma_pow256_mono(a, (b - 1) as nat);
        lemma_pow256_pos((b - 1) as nat);
    }
}

pub proof fn lemma_be_val_bound(s: Seq<u8>)
    ensures
        0 <= be_val(s) < pow256(s.len()),
    decreases s.len(),
{
    if s.len() > 0 {
        lemma_be_val_bound(s.drop_last());
    }
}

/// An unsigned variable-length integer at `pos`: a lead byte under 128 is
/// the value itself; otherwise the lead byte is the negated count of the
/// big-endian bytes that follow.  A count over 8 cannot fit the 64-bit
/// carrier, and a count of zero cannot be expressed by a two's-complement
/// lead byte at all.
pub open spec fn spec_uvarint(s: Seq<u8>, pos: int) -> Parsed<u64> {
    if !(0 <= pos < s.len()) {
        Parsed::Fail(Error::UnexpectedEof)
    } else if s[pos] < 128 {
        Parsed::Val(s[pos] as u64, pos + 1)
    } else {
        let n = 256 - s[pos] as int;
        if n > 8 {
            Parsed::Fail(Error::NumOutOfRange)
        } else if pos + 1 + n > s.len() {
            Parsed::Fail(Error::UnexpectedEof)
        } else {
            Parsed::Val(be_val(s.subrange(pos + 1, pos + 1 + n)) as u64, pos + 1 + n)
        }
    }
}

/// Undo the sign-in-the-low-bit convention: the low bit of the unsigned
/// carrier says whether the remaining bits are the bit-complement of the
/// value.
pub open spec fn zigzag(u: u64) -> i64 {
    if u & 1 == 1 {
        !((u >> 1) as i64)
    } else {
        (u >> 1) as i64
    }
}

/// A signed variable-length integer at `pos`.
pub open spec fn spec_varint(s: Seq<u8>, pos: int) -> Parsed<i64> {
    match spec_uvarint(s, pos) {
        Parsed::Val(u, p) => Parsed::Val(zigzag(u), p),
        Parsed::Fail(e) => Parsed::Fail(e),
    }
}

/// An unsigned variable-length integer that the caller demands as a
/// machine word; a value beyond the native word range is out of range.
pub open spec fn spec_uvarint_word(s: Seq<u8>, pos: int) -> Parsed<usize> {
    match spec_uvarint(s, pos) {
        Parsed::Val(u, p) => if u <= usize::MAX as u64 {
            Parsed::Val(u as usize, p)
        } else {
            Parsed::Fail(Error::NumOutOfRange)
        },
        Parsed::Fail(e) => Parsed::Fail(e),
    }
}

/// A signed variable-length integer demanded as a machine word.
pub open spec fn spec_varint_word(s: Seq<u8>, pos: int) -> Parsed<isize> {
    match spec_varint(s, pos) {
        Parsed::Val(i, p) => if isize::MIN as i64 <= i && i <= isize::MAX as i64 {
            Parsed::Val(i as isize, p)
        } else {
            Parsed::Fail(Error::NumOutOfRange)
        },
        Parsed::Fail(e) => Parsed::Fail(e),
    }
}

/// A boolean at `pos`: an unsigned carrier, zero or non-zero.
pub open spec fn spec_bool(s: Seq<u8>, pos: int) -> Parsed<bool> {
    match spec_uvarint(s, pos) {
        Parsed::Val(u, p) => Parsed::Val(u != 0, p),
        Parsed::Fail(e) => Parsed::Fail(e),
    }
}

/// The byte-reversal of a 64-bit word.
pub open spec fn swap8(u: u64) -> u64 {
    ((u & 0xff) << 56) | ((u & 0xff00) << 40) | ((u & 0xff_0000) << 24) | ((u & 0xff00_0000) << 8)
        | ((u >> 8) & 0xff00_0000) | ((u >> 24) & 0xff_0000) | ((u >> 40) & 0xff00) | (u >> 56)
}

/// A 64-bit float at `pos`, kept as its bit pattern: the format stores the
/// bits byte-reversed inside an unsigned carrier, so that small magnitudes
/// keep their zero bytes at the end and compress well.
pub open spec fn spec_f64_bits(s: Seq<u8>, pos: int) -> Parsed<u64> {
    match spec_uvarint(s, pos) {
        Parsed::Val(u, p) => Parsed::Val(swap8(u), p),
        Parsed::Fail(e) => Parsed::Fail(e),
    }
}

/// A length-prefixed byte string at `pos`.
pub open spec fn spec_bytes(s: Seq<u8>, pos: int) -> Parsed<Seq<u8>> {
    match spec_uvarint_word(s, pos) {
        Parsed::Val(n, p) => if p + n > s.len() {
            Parsed::Fail(Error::UnexpectedEof)
        } else {
            Parsed::Val(s.subrange(p, p + n), p + n)
        },
        Parsed::Fail(e) => Parsed::Fail(e),
    }
}

/// A successful read always moves forward and stays inside the input.
pub proof fn lemma_uvarint_word_pos(s: Seq<u8>, pos: int)
    ensures
        match spec_uvarint_word(s, pos) {
            Parsed::Val(_, p) => pos < p <= s.len(),
            Parsed::Fail(_) => true,
        },
{
}

/// As [`lemma_uvarint_word_pos`], for the signed read.
pub proof fn lemma_varint_word_pos(s: Seq<u8>, pos: int)
    ensures
        match spec_varint_word(s, pos) {
            Parsed::Val(_, p) => pos < p <= s.len(),
            Parsed::Fail(_) => true,
        },
{
}

// ------------------------------------------------------------------
// The canonical encodings, for the round-trip statements.
// ------------------------------------------------------------------

/// The least number of big-endian bytes that hold `u`.
pub open spec fn uvarint_nbytes(u: u64) -> nat
    decreases u,
{
    if u < 256 {
        1
    } else {
        1 + uvarint_nbytes(u / 256)
    }
}

/// The `n`-byte big-endian string holding `u % 256^n`.
pub open spec fn be_bytes(u: int, n: nat) -> Seq<u8>
    decreases n,
{
    if n == 0 {
        Seq::empty()
    } else {
        be_bytes(u / 256, (n - 1) as nat).push((u % 256) as u8)
    }
}

/// The canonical encoding of an unsigned variable-length integer: a value
/// under 128 is its own single byte; anything larger is the negated byte
/// count, then the value big-endian in as few bytes as possible.
pub open spec fn enc_uvarint(u: u64) -> Seq<u8> {
    if u < 128 {
        seq![u as u8]
    } else {
        seq![(256 - uvarint_nbytes(u)) as u8].add(be_bytes(u as int, uvarint_nbytes(u)))
    }
}

/// The canonical sign-in-the-low-bit carrier of a signed integer.
pub open spec fn enc_zigzag(i: i64) -> u64 {
    if i < 0 {
        (((!i) as u64) << 1) | 1
    } else {
        (i as u64) << 1
    }
}

/// The canonical encoding of a signed variable-length integer.
pub open spec fn enc_varint(i: i64) -> Seq<u8> {
    enc_uvarint(enc_zigzag(i))
}

/// The canonical encoding of a 64-bit float given by its bit pattern.
pub open spec fn enc_f64_bits(b: u64) -> Seq<u8> {
    enc_uvarint(swap8(b))
}

// ------------------------------------------------------------------
// Round-trip laws.
// ------------------------------------------------------------------

pub proof fn lemma_be_bytes_val(u: int, n: nat)
    requires
        0 <= u < pow256(n),
    ensures
        be_bytes(u, n).len() == n,
        be_val(be_bytes(u, n)) == u,
    decreases n,
{
    if n > 0 {
        assert(u / 256 < pow256((n - 1) as nat)) by {
            assert(pow256(n) == 256 * pow256((n - 1) as nat));
        };
        lemma_be_bytes_val(u / 256, (n - 1) as nat);
        assert(be_bytes(u, n).drop_last() =~= be_bytes(u / 256, (n - 1) as nat));
    }
}

pub proof fn lemma_uvarint_nbytes(u: u64)
    ensures
        1 <= uvarint_nbytes(u) <= 8,
        u < pow256(uvarint_nbytes(u)),
    decreases u,
{
    assert(pow256(8) == 0x1_0000_0000_0000_0000) by {
        reveal_with_fuel(pow256, 9);
    };
    if u < 256 {
        assert(pow256(1) == 256) by {
            reveal_with_fuel(pow256, 2);
        };
    } else {
        lemma_uvarint_nbytes(u / 256);
        let k = uvarint_nbytes(u / 256);
        assert(u < 256 * pow256(k)) by {
            assert(u == 256 * (u / 256) + u % 256);
            assert(256 * (u as int / 256) <= 256 * (pow256(k) - 1)) by (nonlinear_arith)
                requires
                    u as int / 256 <= pow256(k) - 1,
            ;
        };
        assert(pow256(7) == 0x100_0000_0000_0000) by {
            reveal_with_fuel(pow256, 8);
        };
        assert(u / 256 < 0x100_0000_0000_0000);
        lemma_pow256_strict(u / 256, 7);
    }
}

/// A value below `pow256(n)` needs at most `n` big-endian bytes.
proof fn lemma_pow256_strict(u: u64, n: nat)
    requires
        u < pow256(n),
        1 <= n,
    ensures
        uvarint_nbytes(u) <= n,
    decreases n,
{
    if u >= 256 {
        assert(u / 256 < pow256((n - 1) as nat)) by {
            assert(pow256(n) == 256 * pow256((n - 1) as nat));
        };
        assert(pow256(1) == 256) by {
            reveal_with_fuel(pow256, 2);
        };
        lemma_pow256_strict(u / 256, (n - 1) as nat);
    }
}

/// Law: decoding the canonical encoding of any unsigned 64-bit integer,
/// placed before any continuation, yields that integer and stops exactly
/// at the continuation.
pub proof fn lemma_uvarint_round_trip(u: u64, rest: Seq<u8>)
    ensures
        spec_uvarint(enc_uvarint(u).add(rest), 0) == Parsed::Val(u, enc_uvarint(u).len() as int),
{
    let e = enc_uvarint(u);
    let s = e.add(rest);
    if u < 128 {
        assert(s[0] == u as u8);
    } else {
        let n = uvarint_nbytes(u);
        lemma_uvarint_nbytes(u);
        lemma_be_bytes_val(u as int, n);
        assert(s[0] == (256 - n) as u8);
        assert(256 - s[0] as int == n);
        assert(s.subrange(1, 1 + n as int) =~= be_bytes(u as int, n));
    }
}

proof fn lemma_zigzag_enc(i: i64)
    ensures
        zigzag(enc_zigzag(i)) == i,
{
    if i < 0 {
        let u: u64 = (((!i) as u64) << 1) | 1;
        assert(u & 1 == 1 && !((u >> 1) as i64) == i) by (bit_vector)
            requires
                u == (((!i) as u64) << 1) | 1,
                i < 0,
        ;
    } else {
        let u: u64 = (i as u64) << 1;
        assert(u & 1 == 0 && (u >> 1) as i64 == i) by (bit_vector)
            requires
                u == (i as u64) << 1,
                0 <= i,
        ;
    }
}

/// Law: decoding the canonical encoding of any signed 64-bit integer,
/// placed before any continuation, yields that integer.
pub proof fn lemma_varint_round_trip(i: i64, rest: Seq<u8>)
    ensures
        spec_varint(enc_varint(i).add(rest), 0) == Parsed::Val(i, enc_varint(i).len() as int),
{
    lemma_uvarint_round_trip(enc_zigzag(i), rest);
    lemma_zigzag_enc(i);
}

pub proof fn lemma_swap8_involution(u: u64)
    ensures
        swap8(swap8(u)) == u,
{
    let v = swap8(u);
    assert(((v & 0xff) << 56) | ((v & 0xff00) << 40) | ((v & 0xff_0000) << 24) | ((v
        & 0xff00_0000) << 8) | ((v >> 8) & 0xff00_0000) | ((v >> 24) & 0xff_0000) | ((v >> 40)
        & 0xff00) | (v >> 56) == u) by (bit_vector)
        requires
            v == ((u & 0xff) << 56) | ((u & 0xff00) << 40) | ((u & 0xff_0000) << 24) | ((u
                & 0xff00_0000) << 8) | ((u >> 8) & 0xff00_0000) | ((u >> 24) & 0xff_0000) | ((u
                >> 40) & 0xff00) | (u >> 56),
    ;
}

/// Law: decoding the canonical encoding of any 64-bit float bit pattern,
/// placed before any continuation, yields that bit pattern unchanged.
pub proof fn lemma_f64_bits_round_trip(b: u64, rest: Seq<u8>)
    ensures
        spec_f64_bits(enc_f64_bits(b).add(rest), 0) == Parsed::Val(
            b,
            enc_f64_bits(b).len() as int,
        ),
{
    lemma_uvarint_round_trip(swap8(b), rest);
    lemma_swap8_involution(b);
}

} // verus!
