//! The values that a property can hold, and how one value is laid out.
//!
//! A stored value is a 4-byte type tag followed by a payload, padded with
//! zero bytes to a multiple of four:
//!
//! | tag | payload                                                        |
//! |-----|----------------------------------------------------------------|
//! | 2   | a signed 16-bit number in the low half of a 4-byte field       |
//! | 3   | a signed 32-bit number                                         |
//! | 30  | a 4-byte count, then that many bytes: a text in the code page  |
//! |     | in effect, closed by a zero byte                               |
//! | 64  | a 64-bit count of 100-nanosecond ticks                         |

use crate::codepage::{lemma_decode_encode, CodePage};
use crate::error::Error;
use crate::wire::{
    bits_of_i16, bits_of_i32, i16_bits, i16_from_bits, i16_of_bits, i32_bits, i32_from_bits,
    i32_of_bits, le_u16, le_u32, le_u64, lemma_le_of_piece, lemma_part_of_piece, lemma_signed_round_trip,
    lemma_u16_round_trip, lemma_u32_round_trip, lemma_u64_round_trip, push_u16, push_u32,
    push_u64, read_u16, read_u32, read_u64, u16_le, u32_le, u64_le,
};
use vstd::prelude::*;
use vstd::slice::slice_subrange;

verus! {

/// The type tag of a signed 16-bit number.
pub const TAG_I2: u32 = 2;

/// The type tag of a signed 32-bit number.
pub const TAG_I4: u32 = 3;

/// The type tag of a text.
pub const TAG_LPSTR: u32 = 30;

/// The type tag of a tick count.
pub const TAG_FILETIME: u32 = 64;

/// The value of one property.
#[derive(Clone, Debug, PartialEq, Eq)]
pub enum PropertyValue {
    /// A signed 16-bit number.
    I2(i16),
    /// A signed 32-bit number.
    I4(i32),
    /// A text.  It is held decoded; the code page in effect matters only when
    /// the value is read from bytes or written to them.
    LpStr(String),
    /// A point in time, as the number of 100-nanosecond ticks since the
    /// start of the year 1601 (UTC).
    FileTime(u64),
}

/// The mathematical model of a [`PropertyValue`]: the same variants, with a
/// text as its sequence of characters.
pub enum PropertyValueView {
    /// A signed 16-bit number.
    I2(i16),
    /// A signed 32-bit number.
    I4(i32),
    /// A text, as its characters.
    LpStr(Seq<char>),
    /// A count of ticks.
    FileTime(u64),
}

impl View for PropertyValue {
    type V = PropertyValueView;

    open spec fn view(&self) -> PropertyValueView {
        match self {
            PropertyValue::I2(v) => PropertyValueView::I2(*v),
            PropertyValue::I4(v) => PropertyValueView::I4(*v),
            PropertyValue::LpStr(s) => PropertyValueView::LpStr(s@),
            PropertyValue::FileTime(t) => PropertyValueView::FileTime(*t),
        }
    }
}

/// `n` zero bytes.
pub open spec fn zeros(n: int) -> Seq<u8> {
    Seq::new(n as nat, |i: int| 0u8)
}

/// `n` rounded up to a multiple of four.
pub open spec fn padded_len(n: int) -> int {
    (n + 3) / 4 * 4
}

/// `k` is the position of the first zero byte of `s`.
pub open spec fn is_first_zero(s: Seq<u8>, k: int) -> bool {
    &&& 0 <= k < s.len()
    &&& s[k] == 0
    &&& forall|j: int| 0 <= j < k ==> s[j] != 0
}

/// The position of the first zero byte of `s`, where it has one.
pub open spec fn first_zero(s: Seq<u8>) -> int {
    choose|k: int| is_first_zero(s, k)
}

/// The stored form of `v`, where texts are encoded in `cp`.
///
/// Only a text can fail: with the error of the code page if it cannot be
/// encoded, with `EncodingError` if its bytes hold a zero (it would be cut
/// short when read), with `ValidationError` if they are too many to count in
/// 32 bits.
pub open spec fn encode_value(v: PropertyValueView, cp: CodePage) -> Result<Seq<u8>, Error> {
    match v {
        PropertyValueView::I2(x) => Ok(u32_le(TAG_I2) + u16_le(i16_bits(x)) + zeros(2)),
        PropertyValueView::I4(x) => Ok(u32_le(TAG_I4) + u32_le(i32_bits(x))),
        PropertyValueView::FileTime(t) => Ok(u32_le(TAG_FILETIME) + u64_le(t)),
        PropertyValueView::LpStr(t) => match cp.encode_spec(t) {
            Err(e) => Err(e),
            Ok(b) => if b.contains(0u8) {
                Err(Error::EncodingError)
            } else if b.len() + 1 > u32::MAX {
                Err(Error::ValidationError)
            } else {
                Ok(
                    u32_le(TAG_LPSTR) + u32_le((b.len() + 1) as u32) + b + zeros(
                        padded_len(b.len() + 1int) - b.len(),
                    ),
                )
            },
        },
    }
}

/// The value stored at position `off` of `section`, where texts are decoded
/// in `cp`.
///
/// `InvalidFormat` if the value does not lie within `section`, if its tag is
/// none of 2, 3, 30 and 64, or if a text has no closing zero byte among the
/// bytes that it counts; the error of the code page if the bytes before that
/// zero are no text in `cp`.
pub open spec fn parse_value(section: Seq<u8>, off: int, cp: CodePage) -> Result<
    PropertyValueView,
    Error,
> {
    if off + 8 > section.len() {
        Err(Error::InvalidFormat)
    } else {
        let tag = le_u32(section, off);
        if tag == TAG_I2 {
            Ok(PropertyValueView::I2(i16_from_bits(le_u16(section, off + 4))))
        } else if tag == TAG_I4 {
            Ok(PropertyValueView::I4(i32_from_bits(le_u32(section, off + 4))))
        } else if tag == TAG_FILETIME {
            if off + 12 > section.len() {
                Err(Error::InvalidFormat)
            } else {
                Ok(PropertyValueView::FileTime(le_u64(section, off + 4)))
            }
        } else if tag == TAG_LPSTR {
            let count = le_u32(section, off + 4);
            if off + 8 + count > section.len() {
                Err(Error::InvalidFormat)
            } else {
                let raw = section.subrange(off + 8, off + 8 + count);
                if !raw.contains(0u8) {
                    Err(Error::InvalidFormat)
                } else {
                    match cp.decode_spec(raw.take(first_zero(raw))) {
                        Err(e) => Err(e),
                        Ok(t) => Ok(PropertyValueView::LpStr(t)),
                    }
                }
            }
        } else {
            Err(Error::InvalidFormat)
        }
    }
}

/// A sequence has at most one first zero.
pub proof fn lemma_first_zero_unique(s: Seq<u8>, k: int)
    requires
        is_first_zero(s, k),
    ensures
        s.contains(0u8),
        first_zero(s) == k,
{
    let c = first_zero(s);
    assert(is_first_zero(s, c));
    if c < k {
        assert(s[c] != 0);
    }
    if k < c {
        assert(s[k] != 0);
    }
}

/// The stored form of a value is at least eight bytes long and a multiple of
/// four.
pub proof fn lemma_encoded_len(v: PropertyValueView, cp: CodePage)
    requires
        encode_value(v, cp) is Ok,
    ensures
        encode_value(v, cp)->Ok_0.len() >= 8,
        encode_value(v, cp)->Ok_0.len() % 4 == 0,
{
    lemma_u32_round_trip(TAG_I2);
    lemma_u32_round_trip(TAG_I4);
    lemma_u32_round_trip(TAG_LPSTR);
    lemma_u32_round_trip(TAG_FILETIME);
    match v {
        PropertyValueView::I2(x) => {
            lemma_u16_round_trip(i16_bits(x));
        },
        PropertyValueView::I4(x) => {
            lemma_u32_round_trip(i32_bits(x));
        },
        PropertyValueView::FileTime(t) => {
            lemma_u64_round_trip(t);
        },
        PropertyValueView::LpStr(t) => {
            let b = cp.encode_spec(t)->Ok_0;
            lemma_u32_round_trip((b.len() + 1) as u32);
        },
    }
}

/// Reading undoes writing, for one value: wherever the stored form of `v`
/// lies in a section, `v` is read from that position.
pub proof fn lemma_parse_encoded_value(
    v: PropertyValueView,
    cp: CodePage,
    section: Seq<u8>,
    off: int,
)
    requires
        encode_value(v, cp) is Ok,
        0 <= off,
        off + encode_value(v, cp)->Ok_0.len() <= section.len(),
        section.subrange(off, off + encode_value(v, cp)->Ok_0.len()) == encode_value(v, cp)->Ok_0,
    ensures
        parse_value(section, off, cp) == Ok::<PropertyValueView, Error>(v),
{
    let chunk = encode_value(v, cp)->Ok_0;
    lemma_encoded_len(v, cp);
    let tag: u32 = match v {
        PropertyValueView::I2(_) => TAG_I2,
        PropertyValueView::I4(_) => TAG_I4,
        PropertyValueView::FileTime(_) => TAG_FILETIME,
        PropertyValueView::LpStr(_) => TAG_LPSTR,
    };
    lemma_u32_round_trip(tag);
    lemma_part_of_piece(section, off, chunk, 0, 4);
    assert(chunk.subrange(0, 4) =~= u32_le(tag));
    lemma_le_of_piece(section, off, u32_le(tag));
    assert(le_u32(section, off) == tag);
    match v {
        PropertyValueView::I2(x) => {
            let u = i16_bits(x);
            lemma_u16_round_trip(u);
            lemma_signed_round_trip(x, 0);
            lemma_part_of_piece(section, off, chunk, 4, 6);
            assert(chunk.subrange(4, 6) =~= u16_le(u));
            lemma_le_of_piece(section, off + 4, u16_le(u));
        },
        PropertyValueView::I4(x) => {
            let u = i32_bits(x);
            lemma_u32_round_trip(u);
            lemma_signed_round_trip(0, x);
            lemma_part_of_piece(section, off, chunk, 4, 8);
            assert(chunk.subrange(4, 8) =~= u32_le(u));
            lemma_le_of_piece(section, off + 4, u32_le(u));
        },
        PropertyValueView::FileTime(t) => {
            lemma_u64_round_trip(t);
            lemma_part_of_piece(section, off, chunk, 4, 12);
            assert(chunk.subrange(4, 12) =~= u64_le(t));
            lemma_le_of_piece(section, off + 4, u64_le(t));
        },
        PropertyValueView::LpStr(t) => {
            let b = cp.encode_spec(t)->Ok_0;
            let count = (b.len() + 1) as u32;
            lemma_u32_round_trip(count);
            lemma_part_of_piece(section, off, chunk, 4, 8);
            assert(chunk.subrange(4, 8) =~= u32_le(count));
            lemma_le_of_piece(section, off + 4, u32_le(count));
            assert(le_u32(section, off + 4) == count);
            let raw = section.subrange(off + 8, off + 8 + count);
            lemma_part_of_piece(section, off, chunk, 8, 8 + count);
            assert(raw =~= b.push(0u8));
            assert(is_first_zero(raw, b.len() as int)) by {
                assert forall|j: int| 0 <= j < b.len() implies raw[j] != 0 by {
                    assert(raw[j] == b[j]);
                    assert(b.contains(b[j]));
                }
            }
            lemma_first_zero_unique(raw, b.len() as int);
            assert(raw.take(b.len() as int) =~= b);
            lemma_decode_encode(cp, t);
        },
    }
}

/// Whether one of `bytes` is zero.
fn has_zero(bytes: &Vec<u8>) -> (found: bool)
    ensures
        found == bytes@.contains(0u8),
{
    let mut i: usize = 0;
    while i < bytes.len()
        invariant
            i <= bytes@.len(),
            forall|j: int| 0 <= j < i ==> bytes@[j] != 0,
        decreases bytes@.len() - i,
    {
        if bytes[i] == 0 {
            assert(bytes@[i as int] == 0u8);
            return true;
        }
        i += 1;
    }
    false
}

/// Appends `n` zero bytes.
pub(crate) fn push_zeros(buf: &mut Vec<u8>, n: usize)
    ensures
        final(buf)@ == old(buf)@ + zeros(n as int),
{
    let mut i: usize = 0;
    assert(buf@ =~= old(buf)@ + zeros(0));
    while i < n
        invariant
            i <= n,
            buf@ == old(buf)@ + zeros(i as int),
        decreases n - i,
    {
        buf.push(0);
        i += 1;
        assert(buf@ =~= old(buf)@ + zeros(i as int));
    }
}

/// Appends the stored form of a text whose encoding is `bytes`.
fn push_text(buf: &mut Vec<u8>, bytes: &Vec<u8>)
    requires
        bytes@.len() + 1 <= u32::MAX,
    ensures
        final(buf)@ == old(buf)@ + (u32_le(TAG_LPSTR) + u32_le((bytes@.len() + 1) as u32) + bytes@
            + zeros(padded_len(bytes@.len() + 1int) - bytes@.len())),
{
    let count: u32 = (bytes.len() + 1) as u32;
    let rest: u32 = count % 4;
    let fill: usize = if rest == 0 {
        1
    } else {
        (5 - rest) as usize
    };
    assert(fill == padded_len(bytes@.len() + 1int) - bytes@.len());
    push_u32(buf, TAG_LPSTR);
    push_u32(buf, count);
    buf.extend_from_slice(bytes.as_slice());
    push_zeros(buf, fill);
    assert(buf@ =~= old(buf)@ + (u32_le(TAG_LPSTR) + u32_le(count) + bytes@ + zeros(fill as int)));
}

impl PropertyValue {
    /// Appends the stored form of the value to `buf`, with texts encoded in
    /// `cp`.  On failure `buf` is left as it was.
    pub fn write_to(&self, buf: &mut Vec<u8>, cp: CodePage) -> (r: Result<(), Error>)
        ensures
            match encode_value(self@, cp) {
                Ok(chunk) => r is Ok && final(buf)@ == old(buf)@ + chunk,
                Err(e) => r == Err::<(), Error>(e) && final(buf)@ == old(buf)@,
            },
    {
        match self {
            PropertyValue::I2(x) => {
                push_u32(buf, TAG_I2);
                push_u16(buf, bits_of_i16(*x));
                buf.push(0);
                buf.push(0);
                assert(buf@ =~= old(buf)@ + (u32_le(TAG_I2) + u16_le(i16_bits(*x)) + zeros(2)));
                Ok(())
            },
            PropertyValue::I4(x) => {
                push_u32(buf, TAG_I4);
                push_u32(buf, bits_of_i32(*x));
                assert(buf@ =~= old(buf)@ + (u32_le(TAG_I4) + u32_le(i32_bits(*x))));
                Ok(())
            },
            PropertyValue::FileTime(t) => {
                push_u32(buf, TAG_FILETIME);
                push_u64(buf, *t);
                assert(buf@ =~= old(buf)@ + (u32_le(TAG_FILETIME) + u64_le(*t)));
                Ok(())
            },
            PropertyValue::LpStr(text) => {
                let bytes = match cp.encode(text.as_str()) {
                    Ok(bytes) => bytes,
                    Err(e) => {
                        return Err(e);
                    },
                };
                if has_zero(&bytes) {
                    return Err(Error::EncodingError);
                }
                if bytes.len() >= 0xFFFF_FFFF {
                    return Err(Error::ValidationError);
                }
                push_text(buf, &bytes);
                Ok(())
            },
        }
    }

    /// Reads the value stored at position `off` of `section`, with texts
    /// decoded in `cp`.
    pub fn read_from(section: &[u8], off: usize, cp: CodePage) -> (r: Result<PropertyValue, Error>)
        ensures
            match parse_value(section@, off as int, cp) {
                Ok(v) => r is Ok && r->Ok_0@ == v,
                Err(e) => r == Err::<PropertyValue, Error>(e),
            },
    {
        let len: usize = section.len();
        if off > len || len - off < 8 {
            return Err(Error::InvalidFormat);
        }
        let tag: u32 = read_u32(section, off);
        if tag == TAG_I2 {
            Ok(PropertyValue::I2(i16_of_bits(read_u16(section, off + 4))))
        } else if tag == TAG_I4 {
            Ok(PropertyValue::I4(i32_of_bits(read_u32(section, off + 4))))
        } else if tag == TAG_FILETIME {
            if len - off < 12 {
                Err(Error::InvalidFormat)
            } else {
                Ok(PropertyValue::FileTime(read_u64(section, off + 4)))
            }
        } else if tag == TAG_LPSTR {
            let count: usize = read_u32(section, off + 4) as usize;
            if len - off - 8 < count {
                return Err(Error::InvalidFormat);
            }
            let raw = slice_subrange(section, off + 8, off + 8 + count);
            let mut k: usize = 0;
            while k < count && raw[k] != 0
                invariant
                    k <= count,
                    raw@.len() == count,
                    forall|j: int| 0 <= j < k ==> raw@[j] != 0,
                decreases count - k,
            {
                k += 1;
            }
            if k == count {
                assert(!raw@.contains(0u8));
                return Err(Error::InvalidFormat);
            }
            proof {
                lemma_first_zero_unique(raw@, k as int);
            }
            match cp.decode(slice_subrange(raw, 0, k)) {
                Ok(text) => Ok(PropertyValue::LpStr(text)),
                Err(e) => Err(e),
            }
        } else {
            Err(Error::InvalidFormat)
        }
    }
}

} // verus!
