//! Code pages: the text encodings that a property set can name.
//!
//! A code page turns text into bytes and back.  UTF-8 is specified by
//! `vstd::utf8`; the single-byte pages are specified here by one table each,
//! from byte to character, and encoding is by definition the inverse of that
//! table.

use crate::error::Error;
use crate::text::push_char;
use vstd::prelude::*;
use vstd::slice::slice_to_vec;
use vstd::utf8::{decode_utf8, encode_utf8, valid_utf8};

verus! {

/// The characters of Windows-1252 for the bytes 0x80 to 0x9F, in order.
/// U+0000 marks the five bytes that the code page leaves undefined.
pub const WINDOWS_1252_C1: [char; 32] = [
    '\u{20AC}', '\u{0}', '\u{201A}', '\u{0192}', '\u{201E}', '\u{2026}', '\u{2020}', '\u{2021}',
    '\u{02C6}', '\u{2030}', '\u{0160}', '\u{2039}', '\u{0152}', '\u{0}', '\u{017D}', '\u{0}',
    '\u{0}', '\u{2018}', '\u{2019}', '\u{201C}', '\u{201D}', '\u{2022}', '\u{2013}', '\u{2014}',
    '\u{02DC}', '\u{2122}', '\u{0161}', '\u{203A}', '\u{0153}', '\u{0}', '\u{017E}', '\u{0178}',
];

/// A text encoding, identified by its Windows code page number.
#[derive(Clone, Copy, Debug, PartialEq, Eq, Structural)]
pub enum CodePage {
    /// UTF-8 (65001).  A property set that names no code page, or names
    /// code page 0, is read and written in UTF-8.
    Utf8,
    /// US-ASCII (20127): the bytes 0x00 to 0x7F.
    UsAscii,
    /// ISO 8859-1, Latin-1 (28591): byte `b` is the character U+00`b`.
    Iso88591,
    /// Windows-1252, Western European (1252).
    Windows1252,
}

/// What `String::from_utf8_lossy` makes of bytes that are not UTF-8: a text
/// in which U+FFFD stands for each malformed part.
pub uninterp spec fn utf8_lossy(bytes: Seq<u8>) -> Seq<char>;

/// The text read from `bytes` as UTF-8: the text that they encode where they
/// are well formed, and the repaired text otherwise.
pub open spec fn utf8_text(bytes: Seq<u8>) -> Seq<char> {
    if valid_utf8(bytes) {
        decode_utf8(bytes)
    } else {
        utf8_lossy(bytes)
    }
}

/// `String::from_utf8_lossy`, made into an owned `String`.  For bytes that
/// are UTF-8, as `vstd` defines it, the result is the text that they
/// encode; for other bytes it is a function of the bytes alone.
#[verifier::external_body]
fn text_from_utf8_lossy(bytes: &[u8]) -> (text: String)
    ensures
        valid_utf8(bytes@) ==> text@ == decode_utf8(bytes@),
        !valid_utf8(bytes@) ==> text@ == utf8_lossy(bytes@),
{
    String::from_utf8_lossy(bytes).into_owned()
}

impl Default for CodePage {
    /// The code page of a property set that names none: UTF-8.
    fn default() -> (cp: CodePage)
        ensures
            cp == CodePage::Utf8,
    {
        CodePage::Utf8
    }
}

impl CodePage {
    /// The code page that `id` names, if this crate knows it.
    pub open spec fn from_id_spec(id: i32) -> Option<CodePage> {
        if id == 0 || id == 65001 {
            Some(CodePage::Utf8)
        } else if id == 20127 {
            Some(CodePage::UsAscii)
        } else if id == 28591 {
            Some(CodePage::Iso88591)
        } else if id == 1252 {
            Some(CodePage::Windows1252)
        } else {
            None
        }
    }

    /// The Windows number of the code page.
    pub open spec fn id_spec(self) -> i32 {
        match self {
            CodePage::Utf8 => 65001,
            CodePage::UsAscii => 20127,
            CodePage::Iso88591 => 28591,
            CodePage::Windows1252 => 1252,
        }
    }

    /// The character that byte `b` stands for in a single-byte code page,
    /// if it stands for one.  UTF-8 has no such table.
    pub open spec fn byte_to_char(self, b: u8) -> Option<char> {
        match self {
            CodePage::Utf8 => None,
            CodePage::UsAscii => if b < 0x80 {
                Some(b as char)
            } else {
                None
            },
            CodePage::Iso88591 => Some(b as char),
            CodePage::Windows1252 => if b < 0x80 || b >= 0xA0 {
                Some(b as char)
            } else if WINDOWS_1252_C1[b - 0x80] == '\u{0}' {
                None
            } else {
                Some(WINDOWS_1252_C1[b - 0x80])
            },
        }
    }

    /// The byte that stands for `c` in a single-byte code page, if there is
    /// one: the inverse of [`byte_to_char`](Self::byte_to_char).
    pub open spec fn char_to_byte(self, c: char) -> Option<u8> {
        if exists|b: u8| self.byte_to_char(b) == Some(c) {
            Some(choose|b: u8| self.byte_to_char(b) == Some(c))
        } else {
            None
        }
    }

    /// The bytes of `text` in this code page.  UTF-8 encodes every text; a
    /// single-byte page fails with `EncodingError` where a character has no
    /// byte.
    pub open spec fn encode_spec(self, text: Seq<char>) -> Result<Seq<u8>, Error> {
        if self == CodePage::Utf8 {
            Ok(encode_utf8(text))
        } else if forall|i: int| 0 <= i < text.len() ==> (#[trigger] self.char_to_byte(text[i])) is Some {
            Ok(Seq::new(text.len(), |i: int| self.char_to_byte(text[i])->0))
        } else {
            Err(Error::EncodingError)
        }
    }

    /// The text that `bytes` stand for in this code page.  UTF-8 decodes
    /// every byte string, replacing what is malformed; a single-byte page
    /// fails with `EncodingError` where a byte stands for no character.
    pub open spec fn decode_spec(self, bytes: Seq<u8>) -> Result<Seq<char>, Error> {
        if self == CodePage::Utf8 {
            Ok(utf8_text(bytes))
        } else if forall|i: int| 0 <= i < bytes.len() ==> (#[trigger] self.byte_to_char(bytes[i])) is Some {
            Ok(Seq::new(bytes.len(), |i: int| self.byte_to_char(bytes[i])->0))
        } else {
            Err(Error::EncodingError)
        }
    }

    /// Looks a code page up by its Windows number.  The number 0 is not a
    /// code page of its own: it asks for the default, UTF-8.  A number that
    /// this crate does not know gives `None`.
    pub fn from_id(id: i32) -> (cp: Option<CodePage>)
        ensures
            cp == Self::from_id_spec(id),
    {
        if id == 0 || id == 65001 {
            Some(CodePage::Utf8)
        } else if id == 20127 {
            Some(CodePage::UsAscii)
        } else if id == 28591 {
            Some(CodePage::Iso88591)
        } else if id == 1252 {
            Some(CodePage::Windows1252)
        } else {
            None
        }
    }

    /// The Windows number of the code page.
    pub fn id(&self) -> (id: i32)
        ensures
            id == self.id_spec(),
    {
        match self {
            CodePage::Utf8 => 65001,
            CodePage::UsAscii => 20127,
            CodePage::Iso88591 => 28591,
            CodePage::Windows1252 => 1252,
        }
    }

    /// The usual name of the code page.
    pub fn name(&self) -> (name: &'static str)
        ensures
            name@ == match *self {
                CodePage::Utf8 => "UTF-8"@,
                CodePage::UsAscii => "US-ASCII"@,
                CodePage::Iso88591 => "ISO 8859-1"@,
                CodePage::Windows1252 => "Windows-1252"@,
            },
    {
        match self {
            CodePage::Utf8 => "UTF-8",
            CodePage::UsAscii => "US-ASCII",
            CodePage::Iso88591 => "ISO 8859-1",
            CodePage::Windows1252 => "Windows-1252",
        }
    }

    /// Decodes one byte of a single-byte code page.
    pub fn decode_byte(&self, b: u8) -> (c: Option<char>)
        ensures
            c == self.byte_to_char(b),
    {
        match self {
            CodePage::Utf8 => None,
            CodePage::UsAscii => if b < 0x80 {
                Some(b as char)
            } else {
                None
            },
            CodePage::Iso88591 => Some(b as char),
            CodePage::Windows1252 => if b < 0x80 || b >= 0xA0 {
                Some(b as char)
            } else {
                let c = WINDOWS_1252_C1[(b - 0x80) as usize];
                if c == '\u{0}' {
                    None
                } else {
                    Some(c)
                }
            },
        }
    }

    /// Encodes one character in a single-byte code page.
    pub fn encode_char(&self, c: char) -> (b: Option<u8>)
        ensures
            b == self.char_to_byte(c),
    {
        let n: u32 = c as u32;
        match self {
            CodePage::Utf8 => {
                assert(forall|x: u8| self.byte_to_char(x) is None);
                None
            },
            CodePage::UsAscii => {
                if n < 0x80 {
                    let b: u8 = n as u8;
                    assert(self.byte_to_char(b) == Some(c));
                    assert(forall|x: u8| self.byte_to_char(x) == Some(c) ==> x == b);
                    Some(b)
                } else {
                    assert(forall|x: u8| self.byte_to_char(x) != Some(c));
                    None
                }
            },
            CodePage::Iso88591 => {
                if n < 0x100 {
                    let b: u8 = n as u8;
                    assert(self.byte_to_char(b) == Some(c));
                    assert(forall|x: u8| self.byte_to_char(x) == Some(c) ==> x == b);
                    Some(b)
                } else {
                    assert(forall|x: u8| self.byte_to_char(x) != Some(c));
                    None
                }
            },
            CodePage::Windows1252 => {
                proof {
                    lemma_windows_1252_table();
                }
                if n < 0x80 || (0xA0 <= n && n < 0x100) {
                    let b: u8 = n as u8;
                    assert(self.byte_to_char(b) == Some(c));
                    assert(forall|x: u8| self.byte_to_char(x) == Some(c) ==> x == b);
                    Some(b)
                } else {
                    let mut i: usize = 0;
                    while i < 32
                        invariant
                            i <= 32,
                            *self == CodePage::Windows1252,
                            n == c as u32,
                            0x80 <= n < 0xA0 || 0x100 <= n,
                            forall|j: int| 0 <= j < i ==> WINDOWS_1252_C1[j] != c,
                        decreases 32 - i,
                    {
                        if WINDOWS_1252_C1[i] == c {
                            let b: u8 = (0x80 + i) as u8;
                            assert(self.byte_to_char(b) == Some(c));
                            assert(forall|x: u8| self.byte_to_char(x) == Some(c) ==> x == b) by {
                                assert forall|x: u8| self.byte_to_char(x) == Some(c) implies x
                                    == b by {
                                    assert(0x80 <= x < 0xA0);
                                    assert(WINDOWS_1252_C1[x - 0x80] == c);
                                }
                            }
                            return Some(b);
                        }
                        i += 1;
                    }
                    assert forall|x: u8| self.byte_to_char(x) != Some(c) by {
                        if 0x80 <= x < 0xA0 {
                            assert(WINDOWS_1252_C1[x - 0x80] != c);
                        }
                    }
                    None
                }
            },
        }
    }

    /// Encodes `text` in this code page.
    ///
    /// UTF-8 encodes every text.  A single-byte code page gives
    /// `EncodingError` if some character of `text` has no byte in it.  The
    /// bytes of a text that is encoded decode to that text.
    pub fn encode(&self, text: &str) -> (r: Result<Vec<u8>, Error>)
        ensures
            match self.encode_spec(text@) {
                Ok(bytes) => r is Ok && r->Ok_0@ == bytes && self.decode_spec(bytes) == Ok::<
                    Seq<char>,
                    Error,
                >(text@),
                Err(e) => r == Err::<Vec<u8>, Error>(e),
            },
    {
        proof {
            if self.encode_spec(text@) is Ok {
                lemma_decode_encode(*self, text@);
            }
        }
        match self {
            CodePage::Utf8 => Ok(slice_to_vec(text.as_bytes())),
            _ => {
                let mut out: Vec<u8> = Vec::new();
                for c in it: text.chars()
                    invariant
                        *self != CodePage::Utf8,
                        it.seq() == text@,
                        out@.len() == it.index@,
                        forall|j: int|
                            #![trigger out@[j]]
                            #![trigger self.char_to_byte(text@[j])]
                            0 <= j < it.index@ ==> self.char_to_byte(text@[j]) == Some(out@[j]),
                {
                    match self.encode_char(c) {
                        Some(b) => {
                            out.push(b);
                        },
                        None => {
                            assert(self.char_to_byte(text@[it.index@ as int]) is None);
                            return Err(Error::EncodingError);
                        },
                    }
                }
                assert(out@ =~= Seq::new(text@.len(), |i: int| self.char_to_byte(text@[i])->0));
                Ok(out)
            },
        }
    }

    /// Decodes `bytes` in this code page.
    ///
    /// UTF-8 decodes every byte string: what is not UTF-8 comes out as
    /// U+FFFD.  A single-byte code page gives `EncodingError` if some byte
    /// stands for no character in it.
    pub fn decode(&self, bytes: &[u8]) -> (r: Result<String, Error>)
        ensures
            match self.decode_spec(bytes@) {
                Ok(text) => r is Ok && r->Ok_0@ == text,
                Err(e) => r == Err::<String, Error>(e),
            },
    {
        match self {
            CodePage::Utf8 => Ok(text_from_utf8_lossy(bytes)),
            _ => {
                let mut out = String::new();
                let mut i: usize = 0;
                while i < bytes.len()
                    invariant
                        *self != CodePage::Utf8,
                        i <= bytes@.len(),
                        out@.len() == i,
                        forall|j: int|
                            #![trigger out@[j]]
                            #![trigger self.byte_to_char(bytes@[j])]
                            0 <= j < i ==> self.byte_to_char(bytes@[j]) == Some(out@[j]),
                    decreases bytes@.len() - i,
                {
                    match self.decode_byte(bytes[i]) {
                        Some(c) => {
                            push_char(&mut out, c);
                        },
                        None => {
                            return Err(Error::EncodingError);
                        },
                    }
                    i += 1;
                }
                assert(out@ =~= Seq::new(bytes@.len(), |i: int| self.byte_to_char(bytes@[i])->0));
                Ok(out)
            },
        }
    }
}

/// No character stands twice in the table of Windows-1252, and none of its
/// characters is one that the rest of the code page already holds.
proof fn lemma_windows_1252_table()
    ensures
        forall|i: int|
            0 <= i < 32 ==> (#[trigger] WINDOWS_1252_C1[i]) == '\u{0}' || WINDOWS_1252_C1[i] as u32
                >= 0x100,
        forall|i: int, j: int|
            0 <= i < j < 32 && #[trigger] WINDOWS_1252_C1[i] != '\u{0}'
                ==> WINDOWS_1252_C1[i] != #[trigger] WINDOWS_1252_C1[j],
{
}

/// Decoding undoes encoding: a text that a code page can encode is read
/// back unchanged from its bytes.
pub proof fn lemma_decode_encode(cp: CodePage, text: Seq<char>)
    requires
        cp.encode_spec(text) is Ok,
    ensures
        cp.decode_spec(cp.encode_spec(text)->Ok_0) == Ok::<Seq<char>, Error>(text),
{
    let bytes = cp.encode_spec(text)->Ok_0;
    if cp == CodePage::Utf8 {
        vstd::utf8::encode_utf8_valid_utf8(text);
        vstd::utf8::encode_utf8_decode_utf8(text);
    } else {
        assert forall|i: int| 0 <= i < bytes.len() implies cp.byte_to_char(bytes[i]) == Some(
            text[i],
        ) by {
            assert(cp.char_to_byte(text[i]) is Some);
        }
        assert(cp.decode_spec(bytes)->Ok_0 =~= text);
    }
}

} // verus!
