//! Little-endian integers as they stand in a property set.
//!
//! The model of a stored integer is plain arithmetic on the bytes: the byte
//! at the lowest position counts units, the next one 256s, and so on.
//! Signed values are stored in two's complement.
//!
//! The functions between numbers and bytes are opaque, so that the proofs
//! about whole sets see them as names and not as arithmetic.  What those
//! proofs need of them is in the lemmas below; a proof that needs the bytes
//! themselves writes `reveal(le_u32)`, and likewise for the others.

use vstd::prelude::*;

verus! {

/// The 16-bit number stored at position `at` of `s`.
#[verifier::opaque]
pub open spec fn le_u16(s: Seq<u8>, at: int) -> u16 {
    (s[at] as int + 0x100 * (s[at + 1] as int)) as u16
}

/// The 32-bit number stored at position `at` of `s`.
#[verifier::opaque]
pub open spec fn le_u32(s: Seq<u8>, at: int) -> u32 {
    (le_u16(s, at) as int + 0x1_0000 * (le_u16(s, at + 2) as int)) as u32
}

/// The 64-bit number stored at position `at` of `s`.
#[verifier::opaque]
pub open spec fn le_u64(s: Seq<u8>, at: int) -> u64 {
    (le_u32(s, at) as int + 0x1_0000_0000 * (le_u32(s, at + 4) as int)) as u64
}

/// The two bytes that store `x`.
#[verifier::opaque]
pub open spec fn u16_le(x: u16) -> Seq<u8> {
    seq![(x % 0x100) as u8, (x / 0x100) as u8]
}

/// The four bytes that store `x`.
#[verifier::opaque]
pub open spec fn u32_le(x: u32) -> Seq<u8> {
    u16_le((x % 0x1_0000) as u16) + u16_le((x / 0x1_0000) as u16)
}

/// The eight bytes that store `x`.
#[verifier::opaque]
pub open spec fn u64_le(x: u64) -> Seq<u8> {
    u32_le((x % 0x1_0000_0000) as u32) + u32_le((x / 0x1_0000_0000) as u32)
}

/// The two's complement pattern of a signed 16-bit number.
pub open spec fn i16_bits(v: i16) -> u16 {
    if v >= 0 {
        v as u16
    } else {
        (v + 0x1_0000) as u16
    }
}

/// The signed number that a 16-bit pattern stands for.
pub open spec fn i16_from_bits(u: u16) -> i16 {
    if u < 0x8000 {
        u as i16
    } else {
        (u - 0x1_0000) as i16
    }
}

/// The two's complement pattern of a signed 32-bit number.
pub open spec fn i32_bits(v: i32) -> u32 {
    if v >= 0 {
        v as u32
    } else {
        (v + 0x1_0000_0000) as u32
    }
}

/// The signed number that a 32-bit pattern stands for.
pub open spec fn i32_from_bits(u: u32) -> i32 {
    if u < 0x8000_0000 {
        u as i32
    } else {
        (u - 0x1_0000_0000) as i32
    }
}

/// Reading a stored number depends only on the bytes under it: where the
/// `width` bytes of `s` from `at` are those of `t` from `bt`, both hold the
/// same 16-, 32- and 64-bit numbers there, as far as `width` reaches.
pub proof fn lemma_le_same_bytes(s: Seq<u8>, at: int, t: Seq<u8>, bt: int, width: int)
    requires
        0 <= at,
        0 <= bt,
        0 <= width,
        at + width <= s.len(),
        bt + width <= t.len(),
        s.subrange(at, at + width) == t.subrange(bt, bt + width),
    ensures
        width >= 2 ==> le_u16(s, at) == le_u16(t, bt),
        width >= 4 ==> le_u32(s, at) == le_u32(t, bt),
        width >= 8 ==> le_u64(s, at) == le_u64(t, bt),
{
    reveal(le_u16);
    reveal(le_u32);
    reveal(le_u64);
    let a = s.subrange(at, at + width);
    let b = t.subrange(bt, bt + width);
    if width >= 2 {
        assert(a[0] == s[at + 0] && b[0] == t[bt + 0]);
        assert(a[1] == s[at + 1] && b[1] == t[bt + 1]);
    }
    if width >= 4 {
        assert(a[2] == s[at + 2] && b[2] == t[bt + 2]);
        assert(a[3] == s[at + 3] && b[3] == t[bt + 3]);
    }
    if width >= 8 {
        assert(a[4] == s[at + 4] && b[4] == t[bt + 4]);
        assert(a[5] == s[at + 5] && b[5] == t[bt + 5]);
        assert(a[6] == s[at + 6] && b[6] == t[bt + 6]);
        assert(a[7] == s[at + 7] && b[7] == t[bt + 7]);
    }
}

/// The number stored at `at` in `s` is the number stored at the start of the
/// piece of `s` that begins there.
pub proof fn lemma_le_of_piece(s: Seq<u8>, at: int, piece: Seq<u8>)
    requires
        0 <= at,
        at + piece.len() <= s.len(),
        s.subrange(at, at + piece.len()) == piece,
    ensures
        piece.len() >= 2 ==> le_u16(s, at) == le_u16(piece, 0),
        piece.len() >= 4 ==> le_u32(s, at) == le_u32(piece, 0),
        piece.len() >= 8 ==> le_u64(s, at) == le_u64(piece, 0),
{
    assert(piece.subrange(0, piece.len() as int) =~= piece);
    lemma_le_same_bytes(s, at, piece, 0, piece.len() as int);
}

/// A part of a piece of `s` is the part of `s` at the same place.
pub proof fn lemma_part_of_piece(s: Seq<u8>, at: int, piece: Seq<u8>, from: int, to: int)
    requires
        0 <= at,
        at + piece.len() <= s.len(),
        s.subrange(at, at + piece.len()) == piece,
        0 <= from <= to <= piece.len(),
    ensures
        s.subrange(at + from, at + to) == piece.subrange(from, to),
{
    let whole = s.subrange(at, at + piece.len());
    assert forall|i: int| 0 <= i < to - from implies s.subrange(at + from, at + to)[i]
        == piece.subrange(from, to)[i] by {
        assert(whole[from + i] == s[at + from + i]);
    }
    assert(s.subrange(at + from, at + to) =~= piece.subrange(from, to));
}

/// A 16-bit number is read back from the bytes that store it.
pub proof fn lemma_u16_round_trip(x: u16)
    ensures
        u16_le(x).len() == 2,
        le_u16(u16_le(x), 0) == x,
{
    reveal(le_u16);
    reveal(u16_le);
}

/// A 32-bit number is read back from the bytes that store it.
pub proof fn lemma_u32_round_trip(x: u32)
    ensures
        u32_le(x).len() == 4,
        le_u32(u32_le(x), 0) == x,
{
    reveal(le_u32);
    reveal(u32_le);
    let lo = (x % 0x1_0000) as u16;
    let hi = (x / 0x1_0000) as u16;
    lemma_u16_round_trip(lo);
    lemma_u16_round_trip(hi);
    let s = u32_le(x);
    assert(s.subrange(0, 2) =~= u16_le(lo));
    assert(s.subrange(2, 4) =~= u16_le(hi));
    lemma_le_of_piece(s, 0, u16_le(lo));
    lemma_le_of_piece(s, 2, u16_le(hi));
}

/// A 64-bit number is read back from the bytes that store it.
pub proof fn lemma_u64_round_trip(x: u64)
    ensures
        u64_le(x).len() == 8,
        le_u64(u64_le(x), 0) == x,
{
    reveal(le_u64);
    reveal(u64_le);
    let lo = (x % 0x1_0000_0000) as u32;
    let hi = (x / 0x1_0000_0000) as u32;
    lemma_u32_round_trip(lo);
    lemma_u32_round_trip(hi);
    let s = u64_le(x);
    assert(s.subrange(0, 4) =~= u32_le(lo));
    assert(s.subrange(4, 8) =~= u32_le(hi));
    lemma_le_of_piece(s, 0, u32_le(lo));
    lemma_le_of_piece(s, 4, u32_le(hi));
}

/// A signed number is recovered from its two's complement pattern.
pub proof fn lemma_signed_round_trip(a: i16, b: i32)
    ensures
        i16_from_bits(i16_bits(a)) == a,
        i32_from_bits(i32_bits(b)) == b,
{
}

/// Reads the 16-bit number stored at `at`.
pub fn read_u16(bytes: &[u8], at: usize) -> (x: u16)
    requires
        at + 2 <= bytes@.len(),
    ensures
        x == le_u16(bytes@, at as int),
{
    proof {
        reveal(le_u16);
    }
    // The length of a slice fits in `usize`, and so do the positions below.
    let _len: usize = bytes.len();
    let b0: u16 = bytes[at] as u16;
    let b1: u16 = bytes[at + 1] as u16;
    b0 + 0x100 * b1
}

/// Reads the 32-bit number stored at `at`.
pub fn read_u32(bytes: &[u8], at: usize) -> (x: u32)
    requires
        at + 4 <= bytes@.len(),
    ensures
        x == le_u32(bytes@, at as int),
{
    proof {
        reveal(le_u32);
    }
    // The length of a slice fits in `usize`, and so do the positions below.
    let _len: usize = bytes.len();
    let lo: u32 = read_u16(bytes, at) as u32;
    let hi: u32 = read_u16(bytes, at + 2) as u32;
    lo + 0x1_0000 * hi
}

/// Reads the 64-bit number stored at `at`.
pub fn read_u64(bytes: &[u8], at: usize) -> (x: u64)
    requires
        at + 8 <= bytes@.len(),
    ensures
        x == le_u64(bytes@, at as int),
{
    proof {
        reveal(le_u64);
    }
    // The length of a slice fits in `usize`, and so do the positions below.
    let _len: usize = bytes.len();
    let lo: u64 = read_u32(bytes, at) as u64;
    let hi: u64 = read_u32(bytes, at + 4) as u64;
    lo + 0x1_0000_0000 * hi
}

/// Appends the two bytes that store `x`.
pub fn push_u16(buf: &mut Vec<u8>, x: u16)
    ensures
        final(buf)@ == old(buf)@ + u16_le(x),
{
    proof {
        reveal(u16_le);
    }
    buf.push((x % 0x100) as u8);
    buf.push((x / 0x100) as u8);
    assert(buf@ =~= old(buf)@ + u16_le(x));
}

/// Appends the four bytes that store `x`.
pub fn push_u32(buf: &mut Vec<u8>, x: u32)
    ensures
        final(buf)@ == old(buf)@ + u32_le(x),
{
    proof {
        reveal(u32_le);
    }
    push_u16(buf, (x % 0x1_0000) as u16);
    push_u16(buf, (x / 0x1_0000) as u16);
    assert(buf@ =~= old(buf)@ + u32_le(x));
}

/// Appends the eight bytes that store `x`.
pub fn push_u64(buf: &mut Vec<u8>, x: u64)
    ensures
        final(buf)@ == old(buf)@ + u64_le(x),
{
    proof {
        reveal(u64_le);
    }
    push_u32(buf, (x % 0x1_0000_0000) as u32);
    push_u32(buf, (x / 0x1_0000_0000) as u32);
    assert(buf@ =~= old(buf)@ + u64_le(x));
}

/// The two's complement pattern of `v`.
pub fn bits_of_i16(v: i16) -> (u: u16)
    ensures
        u == i16_bits(v),
{
    if v >= 0 {
        v as u16
    } else {
        (v as i32 + 0x1_0000) as u16
    }
}

/// The signed number that the pattern `u` stands for.
pub fn i16_of_bits(u: u16) -> (v: i16)
    ensures
        v == i16_from_bits(u),
{
    if u < 0x8000 {
        u as i16
    } else {
        (u as i32 - 0x1_0000) as i16
    }
}

/// The two's complement pattern of `v`.
pub fn bits_of_i32(v: i32) -> (u: u32)
    ensures
        u == i32_bits(v),
{
    if v >= 0 {
        v as u32
    } else {
        (v as i64 + 0x1_0000_0000) as u32
    }
}

/// The signed number that the pattern `u` stands for.
pub fn i32_of_bits(u: u32) -> (v: i32)
    ensures
        v == i32_from_bits(u),
{
    if u < 0x8000_0000 {
        u as i32
    } else {
        (u as i64 - 0x1_0000_0000) as i32
    }
}

} // verus!
