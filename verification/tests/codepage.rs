use msi::{CodePage, Error};

#[test]
fn codepages_are_found_by_their_numbers() {
    assert_eq!(CodePage::from_id(65001), Some(CodePage::Utf8));
    assert_eq!(CodePage::from_id(0), Some(CodePage::Utf8));
    assert_eq!(CodePage::from_id(20127), Some(CodePage::UsAscii));
    assert_eq!(CodePage::from_id(28591), Some(CodePage::Iso88591));
    assert_eq!(CodePage::from_id(1252), Some(CodePage::Windows1252));
    assert_eq!(CodePage::from_id(1251), None);
    assert_eq!(CodePage::from_id(-1), None);
    assert_eq!(CodePage::from_id(932), None);
    for cp in [CodePage::Utf8, CodePage::UsAscii, CodePage::Iso88591, CodePage::Windows1252] {
        assert_eq!(CodePage::from_id(cp.id()), Some(cp));
    }
    assert_eq!(CodePage::Utf8.id(), 65001);
    assert_eq!(CodePage::Windows1252.id(), 1252);
    assert_eq!(CodePage::default(), CodePage::Utf8);
    assert_eq!(CodePage::Windows1252.name(), "Windows-1252");
}

#[test]
fn utf8_encodes_and_decodes_every_text() {
    let text = "Zo\u{eb} \u{20ac} \u{4e2d}\u{6587} \u{1f600}\0";
    let bytes = CodePage::Utf8.encode(text).unwrap();
    assert_eq!(bytes, text.as_bytes());
    assert_eq!(CodePage::Utf8.decode(&bytes).unwrap(), text);
    assert_eq!(CodePage::Utf8.decode(&[]).unwrap(), "");
    // Malformed bytes are replaced, not refused.
    assert_eq!(CodePage::Utf8.decode(&[b'a', 0xFF, b'b']).unwrap(), "a\u{fffd}b");
    assert_eq!(CodePage::Utf8.decode(&[0xC3]).unwrap(), "\u{fffd}");
}

#[test]
fn ascii_holds_the_first_128_characters() {
    assert_eq!(CodePage::UsAscii.encode("Jane Doe~\u{7f}").unwrap(), b"Jane Doe~\x7f");
    assert_eq!(CodePage::UsAscii.encode("\u{80}").err(), Some(Error::EncodingError));
    assert_eq!(CodePage::UsAscii.encode("caf\u{e9}").err(), Some(Error::EncodingError));
    assert_eq!(CodePage::UsAscii.decode(b"abc").unwrap(), "abc");
    assert_eq!(CodePage::UsAscii.decode(&[b'a', 0x80]).err(), Some(Error::EncodingError));
    assert_eq!(CodePage::UsAscii.decode_byte(0x7F), Some('\u{7f}'));
    assert_eq!(CodePage::UsAscii.encode_char('\u{7f}'), Some(0x7F));
}

#[test]
fn latin_1_holds_the_first_256_characters() {
    let all: Vec<u8> = (0..=255).collect();
    let text = CodePage::Iso88591.decode(&all).unwrap();
    assert_eq!(text.chars().count(), 256);
    assert!(text.chars().enumerate().all(|(i, c)| c as usize == i));
    assert_eq!(CodePage::Iso88591.encode(&text).unwrap(), all);
    assert_eq!(CodePage::Iso88591.encode("\u{100}").err(), Some(Error::EncodingError));
    assert_eq!(CodePage::Iso88591.encode("\u{20ac}").err(), Some(Error::EncodingError));
}

#[test]
fn windows_1252_has_its_own_characters_from_0x80_to_0x9f() {
    let cp = CodePage::Windows1252;
    assert_eq!(cp.encode("\u{20ac}").unwrap(), vec![0x80]);
    assert_eq!(cp.encode("\u{201a}\u{0192}\u{2026}").unwrap(), vec![0x82, 0x83, 0x85]);
    assert_eq!(cp.encode("\u{0152}\u{017d}").unwrap(), vec![0x8C, 0x8E]);
    assert_eq!(cp.encode("\u{2018}\u{2019}\u{201c}\u{201d}").unwrap(), vec![0x91, 0x92, 0x93, 0x94]);
    assert_eq!(cp.encode("\u{2122}\u{0161}\u{0153}\u{017e}\u{0178}").unwrap(), vec![0x99, 0x9A, 0x9C, 0x9E, 0x9F]);
    assert_eq!(cp.encode("caf\u{e9} \u{a0}\u{ff}").unwrap(), vec![b'c', b'a', b'f', 0xE9, b' ', 0xA0, 0xFF]);
    assert_eq!(cp.decode(&[0x80, 0x99, 0xE9, b'!']).unwrap(), "\u{20ac}\u{2122}\u{e9}!");
    assert_eq!(cp.decode_byte(0x9F), Some('\u{178}'));
    assert_eq!(cp.decode_byte(0x88), Some('\u{2c6}'));
    assert_eq!(cp.decode_byte(0x98), Some('\u{2dc}'));
    assert_eq!(cp.encode_char('\u{2014}'), Some(0x97));
}

#[test]
fn windows_1252_leaves_five_bytes_undefined() {
    let cp = CodePage::Windows1252;
    for byte in [0x81u8, 0x8D, 0x8F, 0x90, 0x9D] {
        assert_eq!(cp.decode_byte(byte), None);
        assert_eq!(cp.decode(&[b'a', byte]).err(), Some(Error::EncodingError));
    }
    // Nor are the control characters of those places encoded.
    for c in ['\u{80}', '\u{81}', '\u{9f}', '\u{100}', '\u{4e2d}', '\u{fffd}'] {
        assert_eq!(cp.encode_char(c), None);
        assert_eq!(cp.encode(&c.to_string()).err(), Some(Error::EncodingError));
    }
    assert_eq!(cp.encode_char('\0'), Some(0));
}

#[test]
fn every_byte_of_a_single_byte_page_round_trips() {
    for cp in [CodePage::UsAscii, CodePage::Iso88591, CodePage::Windows1252] {
        let mut count = 0;
        for byte in 0..=255u8 {
            if let Some(c) = cp.decode_byte(byte) {
                assert_eq!(cp.encode_char(c), Some(byte));
                count += 1;
            }
        }
        let expected = match cp {
            CodePage::UsAscii => 128,
            CodePage::Iso88591 => 256,
            _ => 251,
        };
        assert_eq!(count, expected);
        assert_eq!(cp.encode("").unwrap(), Vec::<u8>::new());
        assert_eq!(cp.decode(&[]).unwrap(), "");
    }
    assert_eq!(CodePage::Utf8.decode_byte(b'a'), None);
    assert_eq!(CodePage::Utf8.encode_char('a'), None);
}

#[test]
fn errors_describe_themselves() {
    assert_eq!(Error::InvalidFormat.describe(), "invalid property set format");
    assert_eq!(Error::UnsupportedValue.describe(), "unsupported value");
    assert_eq!(Error::ValidationError.describe(), "value out of range");
    assert_eq!(Error::EncodingError.describe(), "text cannot be encoded or decoded");
}
