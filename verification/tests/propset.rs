use msi::{CodePage, Error, OperatingSystem, PropertySet, PropertyValue};

const IDENT: [u8; 16] = [1, 2, 3, 4, 5, 6, 7, 8, 9, 10, 11, 12, 13, 14, 15, 16];

fn bytes_of(set: &PropertySet) -> Vec<u8> {
    let mut bytes = Vec::new();
    set.write(&mut bytes).unwrap();
    bytes
}

fn header() -> Vec<u8> {
    let mut bytes: Vec<u8> = vec![0xFE, 0xFF, 0, 0, 0x0A, 0, 2, 0];
    bytes.extend_from_slice(&[0u8; 16]);
    bytes.extend_from_slice(&[1, 0, 0, 0]);
    bytes.extend_from_slice(&IDENT);
    bytes.extend_from_slice(&[48, 0, 0, 0]);
    bytes
}

/// A set with the one property `id`, whose value is stored as `value`.
fn with_value(id: u32, value: &[u8]) -> Vec<u8> {
    let mut bytes = header();
    bytes.extend_from_slice(&(16 + value.len() as u32).to_le_bytes());
    bytes.extend_from_slice(&1u32.to_le_bytes());
    bytes.extend_from_slice(&id.to_le_bytes());
    bytes.extend_from_slice(&16u32.to_le_bytes());
    bytes.extend_from_slice(value);
    bytes
}

#[test]
fn an_empty_set_is_56_bytes() {
    let set = PropertySet::new(OperatingSystem::Win32, 10, IDENT);
    let mut expected = header();
    expected.extend_from_slice(&[8, 0, 0, 0, 0, 0, 0, 0]);
    assert_eq!(bytes_of(&set), expected);
    let read = PropertySet::read(&expected).unwrap();
    assert_eq!(read, set);
    assert!(read.is_empty());
    assert_eq!(read.os(), OperatingSystem::Win32);
    assert_eq!(read.os_version(), 10);
    assert_eq!(read.format_identifier(), &IDENT);
}

#[test]
fn values_are_laid_out_in_order_of_id_and_padded() {
    let mut set = PropertySet::new(OperatingSystem::Macintosh, 0x0102, IDENT);
    set.set(12, PropertyValue::FileTime(0x0102_0304_0506_0708));
    set.set(4, PropertyValue::LpStr("Jane Doe".to_string()));
    set.set(3, PropertyValue::I4(-2));
    set.set(1, PropertyValue::I2(1252));
    set.set(6, PropertyValue::LpStr("abc".to_string()));
    let mut expected: Vec<u8> = vec![0xFE, 0xFF, 0, 0, 0x02, 0x01, 1, 0];
    expected.extend_from_slice(&[0u8; 16]);
    expected.extend_from_slice(&[1, 0, 0, 0]);
    expected.extend_from_slice(&IDENT);
    expected.extend_from_slice(&[48, 0, 0, 0]);
    // 8 + 5 * 8 = 48 bytes of counts and directory, then 8 + 8 + 20 + 12 + 12.
    expected.extend_from_slice(&[108, 0, 0, 0, 5, 0, 0, 0]);
    expected.extend_from_slice(&[1, 0, 0, 0, 48, 0, 0, 0]);
    expected.extend_from_slice(&[3, 0, 0, 0, 56, 0, 0, 0]);
    expected.extend_from_slice(&[4, 0, 0, 0, 64, 0, 0, 0]);
    expected.extend_from_slice(&[6, 0, 0, 0, 84, 0, 0, 0]);
    expected.extend_from_slice(&[12, 0, 0, 0, 96, 0, 0, 0]);
    expected.extend_from_slice(&[2, 0, 0, 0, 0xE4, 0x04, 0, 0]);
    expected.extend_from_slice(&[3, 0, 0, 0, 0xFE, 0xFF, 0xFF, 0xFF]);
    expected.extend_from_slice(&[30, 0, 0, 0, 9, 0, 0, 0]);
    expected.extend_from_slice(b"Jane Doe\0\0\0\0");
    expected.extend_from_slice(&[30, 0, 0, 0, 4, 0, 0, 0]);
    expected.extend_from_slice(b"abc\0");
    expected.extend_from_slice(&[64, 0, 0, 0, 8, 7, 6, 5, 4, 3, 2, 1]);
    assert_eq!(bytes_of(&set), expected);
    assert_eq!(PropertySet::read(&expected).unwrap(), set);
}

#[test]
fn get_set_and_remove_are_those_of_a_map() {
    let mut set = PropertySet::new(OperatingSystem::Win16, 0, IDENT);
    assert_eq!(set.get(5), None);
    assert!(!set.contains(5));
    set.set(5, PropertyValue::I4(1));
    set.set(2, PropertyValue::I2(2));
    set.set(9, PropertyValue::I4(3));
    set.set(5, PropertyValue::I4(4));
    assert_eq!(set.len(), 3);
    assert_eq!(set.ids(), vec![2, 5, 9]);
    assert_eq!(set.get(5), Some(&PropertyValue::I4(4)));
    assert_eq!(set.get(2), Some(&PropertyValue::I2(2)));
    assert_eq!(set.get(3), None);
    assert_eq!(set.remove(3), None);
    assert_eq!(set.len(), 3);
    assert_eq!(set.remove(5), Some(PropertyValue::I4(4)));
    assert_eq!(set.remove(5), None);
    assert_eq!(set.ids(), vec![2, 9]);
    assert!(set.contains(9));
    assert_eq!(set.os(), OperatingSystem::Win16);
}

#[test]
fn setting_in_any_order_gives_the_same_set() {
    let mut a = PropertySet::new(OperatingSystem::Win32, 10, IDENT);
    let mut b = PropertySet::new(OperatingSystem::Win32, 10, IDENT);
    for id in [7u32, 2, 0xFFFF_FFFF, 0, 3] {
        a.set(id, PropertyValue::I4(id as i32));
    }
    for id in [0u32, 3, 0xFFFF_FFFF, 7, 2] {
        b.set(id, PropertyValue::I4(id as i32));
    }
    assert_eq!(a, b);
    assert_eq!(bytes_of(&a), bytes_of(&b));
}

#[test]
fn read_takes_the_low_half_of_a_16_bit_field() {
    let read = PropertySet::read(&with_value(5, &[2, 0, 0, 0, 0xFF, 0xFF, 0xAA, 0xBB])).unwrap();
    assert_eq!(read.get(5), Some(&PropertyValue::I2(-1)));
    let read = PropertySet::read(&with_value(5, &[3, 0, 0, 0, 0, 0, 0, 0x80])).unwrap();
    assert_eq!(read.get(5), Some(&PropertyValue::I4(i32::MIN)));
}

#[test]
fn read_honours_the_section_offset_and_the_directory_order() {
    let mut bytes = header();
    bytes[44] = 52;
    bytes.extend_from_slice(&[0xEE; 4]);
    // Two properties, the second stored before the first.
    bytes.extend_from_slice(&[40, 0, 0, 0, 2, 0, 0, 0]);
    bytes.extend_from_slice(&[9, 0, 0, 0, 32, 0, 0, 0]);
    bytes.extend_from_slice(&[4, 0, 0, 0, 24, 0, 0, 0]);
    bytes.extend_from_slice(&[3, 0, 0, 0, 44, 0, 0, 0]);
    bytes.extend_from_slice(&[3, 0, 0, 0, 99, 0, 0, 0]);
    bytes.extend_from_slice(&[0xDD; 7]);
    let read = PropertySet::read(&bytes).unwrap();
    assert_eq!(read.ids(), vec![4, 9]);
    assert_eq!(read.get(4), Some(&PropertyValue::I4(44)));
    assert_eq!(read.get(9), Some(&PropertyValue::I4(99)));
}

#[test]
fn read_decodes_texts_in_the_codepage_named_before_them() {
    // Property 1 names Windows-1252; the text after it holds the byte 0x80.
    let mut bytes = header();
    bytes.extend_from_slice(&[44, 0, 0, 0, 2, 0, 0, 0]);
    bytes.extend_from_slice(&[1, 0, 0, 0, 24, 0, 0, 0]);
    bytes.extend_from_slice(&[2, 0, 0, 0, 32, 0, 0, 0]);
    bytes.extend_from_slice(&[2, 0, 0, 0, 0xE4, 0x04, 0, 0]);
    bytes.extend_from_slice(&[30, 0, 0, 0, 2, 0, 0, 0, 0x80, 0, 0, 0]);
    let read = PropertySet::read(&bytes).unwrap();
    assert_eq!(read.get(2), Some(&PropertyValue::LpStr("\u{20ac}".to_string())));
    // With the directory the other way round the text is read before the
    // code page is known, as UTF-8, in which the byte is malformed.
    bytes[56] = 2;
    bytes[60] = 32;
    bytes[64] = 1;
    bytes[68] = 24;
    let read = PropertySet::read(&bytes).unwrap();
    assert_eq!(read.get(2), Some(&PropertyValue::LpStr("\u{fffd}".to_string())));
    assert_eq!(read.get(1), Some(&PropertyValue::I2(1252)));
    // The byte 0x81 stands for nothing in Windows-1252.
    bytes[56] = 1;
    bytes[60] = 24;
    bytes[64] = 2;
    bytes[68] = 32;
    bytes[88] = 0x81;
    assert_eq!(PropertySet::read(&bytes).err(), Some(Error::EncodingError));
}

#[test]
fn read_cuts_a_text_at_its_first_zero() {
    let read =
        PropertySet::read(&with_value(2, &[30, 0, 0, 0, 8, 0, 0, 0, b'a', b'b', 0, b'c', 0, 0, 0, 0]))
            .unwrap();
    assert_eq!(read.get(2), Some(&PropertyValue::LpStr("ab".to_string())));
    let read = PropertySet::read(&with_value(2, &[30, 0, 0, 0, 1, 0, 0, 0, 0])).unwrap();
    assert_eq!(read.get(2), Some(&PropertyValue::LpStr(String::new())));
}

#[test]
fn read_rejects_a_malformed_header() {
    let good = bytes_of(&PropertySet::new(OperatingSystem::Win32, 10, IDENT));
    assert!(PropertySet::read(&good).is_ok());
    for (at, byte) in [(0usize, 0xFFu8), (1, 0xFE), (2, 1), (3, 1), (6, 3), (7, 1), (24, 2), (24, 0), (27, 1)] {
        let mut bad = good.clone();
        bad[at] = byte;
        assert_eq!(PropertySet::read(&bad).err(), Some(Error::InvalidFormat), "byte {}", at);
    }
    for len in [0usize, 1, 47, 48, 55] {
        assert_eq!(PropertySet::read(&good[..len]).err(), Some(Error::InvalidFormat), "{}", len);
    }
    // The class id is not looked at.
    let mut other = good.clone();
    other[8] = 0x77;
    assert_eq!(PropertySet::read(&other).unwrap(), PropertySet::read(&good).unwrap());
}

#[test]
fn read_rejects_a_section_that_leaves_its_bounds() {
    let good = with_value(5, &[3, 0, 0, 0, 1, 0, 0, 0]);
    assert!(PropertySet::read(&good).is_ok());
    // The section offset points past the end.
    let mut bad = good.clone();
    bad[44] = 70;
    assert_eq!(PropertySet::read(&bad).err(), Some(Error::InvalidFormat));
    bad[44..48].copy_from_slice(&[0xFF; 4]);
    assert_eq!(PropertySet::read(&bad).err(), Some(Error::InvalidFormat));
    // The declared size is larger than what is there.
    let mut bad = good.clone();
    bad[48] = 25;
    assert_eq!(PropertySet::read(&bad).err(), Some(Error::InvalidFormat));
    // The directory does not fit in the declared size.
    let mut bad = good.clone();
    bad[52] = 3;
    assert_eq!(PropertySet::read(&bad).err(), Some(Error::InvalidFormat));
    bad[52..56].copy_from_slice(&[0xFF; 4]);
    assert_eq!(PropertySet::read(&bad).err(), Some(Error::InvalidFormat));
    // The value lies outside the declared size.
    let mut bad = good.clone();
    bad[60] = 17;
    assert_eq!(PropertySet::read(&bad).err(), Some(Error::InvalidFormat));
    bad[60..64].copy_from_slice(&[0xFF; 4]);
    assert_eq!(PropertySet::read(&bad).err(), Some(Error::InvalidFormat));
    // A tick count needs twelve bytes.
    let mut bad = good.clone();
    bad[64] = 64;
    assert_eq!(PropertySet::read(&bad).err(), Some(Error::InvalidFormat));
    // A text must not count more bytes than the section has.
    assert_eq!(
        PropertySet::read(&with_value(5, &[30, 0, 0, 0, 5, 0, 0, 0, b'a', b'b', b'c', 0])).err(),
        Some(Error::InvalidFormat)
    );
}

#[test]
fn read_rejects_a_text_without_its_closing_zero() {
    assert_eq!(
        PropertySet::read(&with_value(5, &[30, 0, 0, 0, 3, 0, 0, 0, b'a', b'b', b'c', 0])).err(),
        Some(Error::InvalidFormat)
    );
    assert_eq!(
        PropertySet::read(&with_value(5, &[30, 0, 0, 0, 0, 0, 0, 0])).err(),
        Some(Error::InvalidFormat)
    );
}

#[test]
fn read_rejects_a_repeated_id() {
    let mut bytes = header();
    bytes.extend_from_slice(&[32, 0, 0, 0, 2, 0, 0, 0]);
    bytes.extend_from_slice(&[5, 0, 0, 0, 24, 0, 0, 0]);
    bytes.extend_from_slice(&[5, 0, 0, 0, 24, 0, 0, 0]);
    bytes.extend_from_slice(&[3, 0, 0, 0, 1, 0, 0, 0]);
    assert_eq!(PropertySet::read(&bytes).err(), Some(Error::InvalidFormat));
    bytes[64] = 6;
    assert_eq!(PropertySet::read(&bytes).unwrap().ids(), vec![5, 6]);
}

#[test]
fn read_rejects_an_unknown_type_tag() {
    for tag in [0u8, 1, 4, 16, 31, 65, 255] {
        assert_eq!(
            PropertySet::read(&with_value(5, &[tag, 0, 0, 0, 1, 0, 0, 0, 0, 0, 0, 0])).err(),
            Some(Error::InvalidFormat),
            "tag {}",
            tag
        );
    }
    assert_eq!(
        PropertySet::read(&with_value(5, &[3, 1, 0, 0, 1, 0, 0, 0])).err(),
        Some(Error::InvalidFormat)
    );
}

#[test]
fn an_unknown_codepage_is_an_unsupported_value() {
    // Code page 932 is not one that the library knows.
    let bytes = with_value(1, &[2, 0, 0, 0, 0xA4, 0x03, 0, 0]);
    assert_eq!(PropertySet::read(&bytes).err(), Some(Error::UnsupportedValue));
    let bytes = with_value(1, &[3, 0, 0, 0, 0xE4, 0x04, 0, 0]);
    assert_eq!(PropertySet::read(&bytes).err(), Some(Error::UnsupportedValue));
    let mut set = PropertySet::new(OperatingSystem::Win32, 10, IDENT);
    set.set(1, PropertyValue::I2(932));
    let mut sink = vec![7u8];
    assert_eq!(set.write(&mut sink), Err(Error::UnsupportedValue));
    assert_eq!(sink, vec![7u8]);
    set.set(1, PropertyValue::LpStr("1252".to_string()));
    assert_eq!(set.write(&mut sink), Err(Error::UnsupportedValue));
    // Code page 0 asks for the default.
    set.set(1, PropertyValue::I2(0));
    set.set(2, PropertyValue::LpStr("\u{4e2d}".to_string()));
    assert_eq!(PropertySet::read(&bytes_of(&set)).unwrap(), set);
    assert_eq!(CodePage::from_id(0), Some(CodePage::Utf8));
}

#[test]
fn texts_are_written_in_the_codepage_of_the_set() {
    let mut set = PropertySet::new(OperatingSystem::Win32, 10, IDENT);
    set.set(2, PropertyValue::LpStr("\u{e9}".to_string()));
    let utf8 = bytes_of(&set);
    assert_eq!(&utf8[64..], &[30, 0, 0, 0, 3, 0, 0, 0, 0xC3, 0xA9, 0, 0]);
    set.set(1, PropertyValue::I2(1252));
    let latin = bytes_of(&set);
    assert_eq!(&latin[80..], &[30, 0, 0, 0, 2, 0, 0, 0, 0xE9, 0, 0, 0]);
    assert_eq!(PropertySet::read(&latin).unwrap(), set);
    // The text itself did not change when the code page did.
    assert_eq!(set.get(2), Some(&PropertyValue::LpStr("\u{e9}".to_string())));
    // A text that stands before property 1 is written in the default.
    set.set(0, PropertyValue::LpStr("\u{e9}".to_string()));
    let mixed = bytes_of(&set);
    assert_eq!(&mixed[80..92], &[30, 0, 0, 0, 3, 0, 0, 0, 0xC3, 0xA9, 0, 0]);
    assert_eq!(PropertySet::read(&mixed).unwrap(), set);
}

#[test]
fn a_text_of_every_residue_is_padded_to_four() {
    for (text, stored) in [("", 12usize), ("a", 12), ("ab", 12), ("abc", 12), ("abcd", 16), ("abcdefg", 16)] {
        let mut set = PropertySet::new(OperatingSystem::Win32, 10, IDENT);
        set.set(2, PropertyValue::LpStr(text.to_string()));
        let bytes = bytes_of(&set);
        assert_eq!(bytes.len(), 64 + stored, "{:?}", text);
        assert_eq!(bytes[68] as usize, text.len() + 1);
        assert_eq!(PropertySet::read(&bytes).unwrap(), set);
    }
}

#[test]
fn operating_systems_have_the_numbers_0_to_2() {
    assert_eq!(OperatingSystem::Win16.number(), 0);
    assert_eq!(OperatingSystem::Macintosh.number(), 1);
    assert_eq!(OperatingSystem::Win32.number(), 2);
    assert_eq!(OperatingSystem::from_number(2), Some(OperatingSystem::Win32));
    assert_eq!(OperatingSystem::from_number(1), Some(OperatingSystem::Macintosh));
    assert_eq!(OperatingSystem::from_number(0), Some(OperatingSystem::Win16));
    assert_eq!(OperatingSystem::from_number(3), None);
}
