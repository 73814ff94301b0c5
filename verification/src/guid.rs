//! Identifiers of 16 bytes and their text form in braces, such as
//! `{0000002A-000C-0005-0C03-0938362B0809}`.
//!
//! The text form is produced and read by the `uuid` crate; what it is, is
//! stated here: an opening brace, the 32 hexadecimal digits of the bytes in
//! order, in groups of 8, 4, 4, 4 and 12 separated by hyphens, and a
//! closing brace.

use uuid::Uuid;
use vstd::prelude::*;
use vstd::utf8::{encode_utf8, is_ascii_chars, is_ascii_chars_encode_utf8};

verus! {

/// The length of the text form.
pub const BRACED_LEN: usize = 38;

/// The upper-case hexadecimal digit of `n`, as an ASCII code.
pub open spec fn hex_upper(n: int) -> u8 {
    if n < 10 {
        (0x30 + n) as u8
    } else {
        (0x37 + n) as u8
    }
}

/// The value of the hexadecimal digit with ASCII code `c`, in either case.
pub open spec fn hex_value(c: u8) -> Option<int> {
    if 0x30 <= c <= 0x39 {
        Some(c - 0x30)
    } else if 0x41 <= c <= 0x46 {
        Some(c - 0x37)
    } else if 0x61 <= c <= 0x66 {
        Some(c - 0x57)
    } else {
        None
    }
}

/// The place, in the text form, of the `k`-th of the 32 digits.
pub open spec fn digit_place(k: int) -> int {
    if k < 8 {
        k + 1
    } else if k < 12 {
        k + 2
    } else if k < 16 {
        k + 3
    } else if k < 20 {
        k + 4
    } else {
        k + 5
    }
}

/// Which of the 32 digits stands at place `i` of the text form.
pub open spec fn digit_at_place(i: int) -> int {
    if i < 9 {
        i - 1
    } else if i < 14 {
        i - 2
    } else if i < 19 {
        i - 3
    } else if i < 24 {
        i - 4
    } else {
        i - 5
    }
}

/// The `k`-th of the 32 hexadecimal digits of the bytes `b`: the high half
/// of a byte comes before its low half.
pub open spec fn nibble(b: Seq<u8>, k: int) -> int {
    if k % 2 == 0 {
        b[k / 2] as int / 16
    } else {
        b[k / 2] as int % 16
    }
}

/// The text form of the 16 bytes `b`, in upper case, as ASCII codes.
pub open spec fn braced_upper_bytes(b: Seq<u8>) -> Seq<u8> {
    Seq::new(
        38,
        |i: int|
            if i == 0 {
                0x7Bu8
            } else if i == 37 {
                0x7Du8
            } else if i == 9 || i == 14 || i == 19 || i == 24 {
                0x2Du8
            } else {
                hex_upper(nibble(b, digit_at_place(i)))
            },
    )
}

/// The text form of the 16 bytes `b`, in upper case.
pub open spec fn braced_upper(b: Seq<u8>) -> Seq<char> {
    Seq::new(38, |i: int| braced_upper_bytes(b)[i] as char)
}

/// Whether the ASCII codes `s` are a text form: 38 of them, the braces and
/// hyphens in their places, and a hexadecimal digit of either case in every
/// other place.
pub open spec fn is_braced(s: Seq<u8>) -> bool {
    &&& s.len() == 38
    &&& s[0] == 0x7B
    &&& s[37] == 0x7D
    &&& s[9] == 0x2D
    &&& s[14] == 0x2D
    &&& s[19] == 0x2D
    &&& s[24] == 0x2D
    &&& forall|k: int| 0 <= k < 32 ==> hex_value(s[#[trigger] digit_place(k)]) is Some
}

/// The 16 bytes that the text form `s` stands for.
pub open spec fn braced_value(s: Seq<u8>) -> Seq<u8> {
    Seq::new(
        16,
        |j: int|
            (hex_value(s[digit_place(2 * j)])->0 * 16 + hex_value(
                s[digit_place(2 * j + 1)],
            )->0) as u8,
    )
}

/// The bytes that `s` is the text form of, if it is one.
pub open spec fn parse_braced(s: Seq<u8>) -> Option<Seq<u8>> {
    if is_braced(s) {
        Some(braced_value(s))
    } else {
        None
    }
}

/// `uuid::fmt::Braced::encode_upper` on the identifier that
/// `Uuid::from_bytes` makes of `bytes`: the text form in upper case.
#[verifier::external_body]
fn uuid_encode_braced_upper(bytes: &[u8; 16]) -> (text: String)
    ensures
        text@ == braced_upper(bytes@),
{
    let mut buffer = Uuid::encode_buffer();
    let text: &str = Uuid::from_bytes(*bytes).braced().encode_upper(&mut buffer);
    String::from(text)
}

/// `Uuid::try_parse_ascii`, with the bytes of the identifier it found.  Of an
/// input of 38 bytes it accepts the text form in braces and nothing else;
/// this contract says nothing of inputs of other lengths, where it accepts
/// other forms.
#[verifier::external_body]
fn uuid_try_parse_ascii(input: &[u8]) -> (r: Option<[u8; 16]>)
    ensures
        input@.len() == 38 ==> match parse_braced(input@) {
            Some(bytes) => r is Some && r->0@ == bytes,
            None => r is None,
        },
{
    match Uuid::try_parse_ascii(input) {
        Ok(id) => Some(id.into_bytes()),
        Err(_) => None,
    }
}

/// An identifier of 16 bytes.
#[derive(Clone, Copy, Debug, PartialEq, Eq, Hash)]
pub struct Guid {
    bytes: [u8; 16],
}

impl View for Guid {
    type V = Seq<u8>;

    closed spec fn view(&self) -> Seq<u8> {
        self.bytes@
    }
}

impl Guid {
    /// The identifier made of `bytes`, in the order in which its text form
    /// shows them.
    pub fn from_bytes(bytes: [u8; 16]) -> (id: Guid)
        ensures
            id@ == bytes@,
    {
        Guid { bytes }
    }

    /// The bytes of the identifier.
    pub fn to_bytes(&self) -> (bytes: [u8; 16])
        ensures
            bytes@ == self@,
    {
        self.bytes
    }

    /// An identifier has 16 bytes.
    pub proof fn lemma_len(&self)
        ensures
            self@.len() == 16,
    {
    }

    /// The text form of the identifier, in braces and upper case.  It is read
    /// back as the identifier.
    pub fn to_braced_upper(&self) -> (text: String)
        ensures
            text@ == braced_upper(self@),
            parse_braced(encode_utf8(text@)) == Some(self@),
    {
        proof {
            lemma_parse_braced_upper(self@);
        }
        uuid_encode_braced_upper(&self.bytes)
    }

    /// Reads the text form of an identifier: braces, hyphens and 32
    /// hexadecimal digits of either case.  Any other text gives `None`.
    pub fn parse_braced(text: &str) -> (id: Option<Guid>)
        ensures
            match parse_braced(encode_utf8(text@)) {
                Some(bytes) => id is Some && id->0@ == bytes,
                None => id is None,
            },
    {
        let input = text.as_bytes();
        if input.len() != BRACED_LEN {
            return None;
        }
        match uuid_try_parse_ascii(input) {
            Some(bytes) => Some(Guid { bytes }),
            None => None,
        }
    }
}

/// The text form is made of ASCII characters, so its UTF-8 bytes are its
/// ASCII codes.
pub proof fn lemma_braced_upper_ascii(b: Seq<u8>)
    requires
        b.len() == 16,
    ensures
        encode_utf8(braced_upper(b)) == braced_upper_bytes(b),
{
    let text = braced_upper(b);
    let codes = braced_upper_bytes(b);
    assert forall|i: int| 0 <= i < 38 implies codes[i] < 0x80 by {
        lemma_place(i);
    }
    assert(is_ascii_chars(text)) by {
        assert forall|i: int| 0 <= i < text.len() implies '\0' <= #[trigger] text[i]
            <= '\u{7f}' by {
            assert(codes[i] < 0x80);
        }
    }
    is_ascii_chars_encode_utf8(text);
    let bytes = encode_utf8(text);
    assert forall|i: int| 0 <= i < 38 implies bytes[i] == codes[i] by {
        assert(text[i] as u8 == bytes[i]);
        assert(codes[i] < 0x80);
    }
    assert(bytes =~= codes);
}

/// Places and digits correspond: each place that is not a brace or a hyphen
/// holds one of the 32 digits, and is the place of that digit.
proof fn lemma_place(i: int)
    requires
        0 <= i < 38,
    ensures
        i == 0 || i == 37 || i == 9 || i == 14 || i == 19 || i == 24 || (0 <= digit_at_place(i) < 32
            && digit_place(digit_at_place(i)) == i),
{
}

/// Reading undoes writing: the text form of 16 bytes is read back as those
/// bytes.
pub proof fn lemma_parse_braced_upper(b: Seq<u8>)
    requires
        b.len() == 16,
    ensures
        parse_braced(encode_utf8(braced_upper(b))) == Some(b),
{
    lemma_braced_upper_ascii(b);
    let s = braced_upper_bytes(b);
    assert forall|k: int| 0 <= k < 32 implies hex_value(s[#[trigger] digit_place(k)]) == Some(
        nibble(b, k),
    ) by {
        let i = digit_place(k);
        assert(digit_at_place(i) == k);
        assert(0 <= nibble(b, k) < 16);
    }
    assert(is_braced(s));
    let v = braced_value(s);
    assert forall|j: int| 0 <= j < 16 implies v[j] == b[j] by {
        assert(hex_value(s[digit_place(2 * j)]) == Some(nibble(b, 2 * j)));
        assert(hex_value(s[digit_place(2 * j + 1)]) == Some(nibble(b, 2 * j + 1)));
        assert((2 * j) / 2 == j && (2 * j + 1) / 2 == j);
        assert((2 * j) % 2 == 0 && (2 * j + 1) % 2 == 1);
    }
    assert(v =~= b);
}

} // verus!
