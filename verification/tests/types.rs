use msi::text::{chars_of, parse_u16, push_decimal, same_chars, same_text, text_of};
use msi::wire::{
    bits_of_i16, bits_of_i32, i16_of_bits, i32_of_bits, push_u16, push_u32, push_u64, read_u16,
    read_u32, read_u64,
};
use msi::{
    Architecture, CodePage, ElevatedPrivileges, Error, FilenameLength, Guid, Language,
    PropertyValue, SourceCompression, SourceMedia, Template, Timestamp, WordCount,
};
use time::UtcDateTime;
use uuid::Uuid;

#[test]
fn languages_are_equal_when_their_codes_are() {
    assert_eq!(Language::from_tag("en-US"), Language::from_code(1033));
    assert_eq!(Language::from_tag("en-US").code(), 0x0409);
    assert_eq!(Language::from_tag("en-CA").code(), 0x1009);
    assert_eq!(Language::from_tag("fr-CA").code(), 0x0C0C);
    assert_eq!(Language::from_tag("es-MX").code(), 0x080A);
    assert_eq!(Language::from_tag("en").code(), 9);
    assert_eq!(Language::from_tag("de-DE").code(), 1031);
    assert_eq!(Language::from_tag("ja-JP").code(), 1041);
    assert_eq!(Language::from_tag("zh-CN").code(), 2052);
    assert_ne!(Language::from_tag("en-US"), Language::from_tag("en-GB"));
    assert_eq!(Language::from_code(1036).tag(), "fr-FR");
    assert_eq!(Language::from_code(9).tag(), "en");
    assert_eq!(Language::from_code(0x540A).tag(), "es-US");
}

#[test]
fn an_unknown_tag_is_the_neutral_language() {
    assert_eq!(Language::from_tag("tlh").code(), 0);
    assert_eq!(Language::from_tag("").code(), 0);
    assert_eq!(Language::from_tag("EN-us").code(), 0);
    assert_eq!(Language::from_tag("und").code(), 0);
    assert_eq!(Language::from_tag("tlh"), Language::from_tag("xx-YY"));
    assert_eq!(Language::from_code(0).tag(), "und");
    assert_eq!(Language::from_code(0xFFFF).tag(), "und");
    assert_eq!(Language::from_code(0xFFFF).code(), 0xFFFF);
}

#[test]
fn every_tag_of_the_table_names_its_code() {
    for (code, tag) in msi::language::LANGUAGE_TABLE {
        assert_eq!(Language::from_tag(tag).code(), code);
        assert_eq!(Language::from_code(code).tag(), tag);
    }
    assert_eq!(msi::language::LANGUAGE_TABLE.len(), msi::language::LANGUAGE_COUNT);
}

#[test]
fn timestamps_count_ticks_since_1601() {
    let epoch = Timestamp::from_unix_nanos(0).unwrap();
    assert_eq!(epoch.to_tick_count(), 116_444_736_000_000_000);
    assert_eq!(epoch.to_unix_nanos(), 0);
    let t = Timestamp::from_unix_nanos(12_345_678_000_000_000).unwrap();
    assert_eq!(t.to_tick_count(), 116_568_192_780_000_000);
    assert_eq!(Timestamp::from_tick_count(0).unwrap().to_unix_nanos(), -11_644_473_600_000_000_000);
    assert_eq!(Timestamp::from_tick_count(1).unwrap().to_tick_count(), 1);
    let first = UtcDateTime::from_unix_timestamp_nanos(Timestamp::from_tick_count(0).unwrap().to_unix_nanos()).unwrap();
    assert_eq!((first.year(), first.ordinal(), first.hour()), (1601, 1, 0));
}

#[test]
fn timestamps_are_cut_down_to_whole_ticks() {
    assert_eq!(Timestamp::from_unix_nanos(199).unwrap().to_unix_nanos(), 100);
    assert_eq!(Timestamp::from_unix_nanos(100).unwrap().to_unix_nanos(), 100);
    assert_eq!(Timestamp::from_unix_nanos(99).unwrap().to_unix_nanos(), 0);
    assert_eq!(Timestamp::from_unix_nanos(-1).unwrap().to_unix_nanos(), -100);
    assert_eq!(Timestamp::from_unix_nanos(-100).unwrap().to_unix_nanos(), -100);
    assert_eq!(Timestamp::from_unix_nanos(-101).unwrap().to_unix_nanos(), -200);
}

#[test]
fn timestamps_end_with_the_year_9999() {
    let last: u64 = 2_650_467_743_999_999_999;
    assert_eq!(Timestamp::from_tick_count(last).map(|t| t.to_tick_count()), Some(last));
    assert_eq!(Timestamp::from_tick_count(last + 1), None);
    assert_eq!(Timestamp::from_tick_count(u64::MAX), None);
    let max = UtcDateTime::MAX.unix_timestamp_nanos();
    assert_eq!(Timestamp::from_unix_nanos(max).map(|t| t.to_tick_count()), Some(last));
    assert_eq!(Timestamp::from_unix_nanos(max + 1), None);
    assert_eq!(Timestamp::from_unix_nanos(-11_644_473_600_000_000_000).map(|t| t.to_tick_count()), Some(0));
    assert_eq!(Timestamp::from_unix_nanos(-11_644_473_600_000_000_001), None);
    assert_eq!(Timestamp::from_unix_nanos(i128::MAX), None);
    assert_eq!(Timestamp::from_unix_nanos(i128::MIN), None);
    assert_eq!(Timestamp::nearest(i128::MAX).to_tick_count(), last);
    assert_eq!(Timestamp::nearest(i128::MIN).to_tick_count(), 0);
    assert_eq!(Timestamp::nearest(250).to_unix_nanos(), 200);
    let last_moment = UtcDateTime::from_unix_timestamp_nanos(Timestamp::nearest(i128::MAX).to_unix_nanos()).unwrap();
    assert_eq!((last_moment.year(), last_moment.ordinal(), last_moment.hour()), (9999, 365, 23));
}

#[test]
fn now_is_close_to_the_clock() {
    let before = UtcDateTime::now().unix_timestamp_nanos();
    let now = Timestamp::now().to_unix_nanos();
    let after = UtcDateTime::now().unix_timestamp_nanos();
    assert!(before - 100 < now && now <= after);
    assert_eq!(now % 100, 0);
}

#[test]
fn an_identifier_has_its_text_in_braces_and_upper_case() {
    let uuid = Uuid::parse_str("0000002a-000c-0005-0c03-0938362b0809").unwrap();
    let id = Guid::from_bytes(uuid.into_bytes());
    assert_eq!(id.to_braced_upper(), "{0000002A-000C-0005-0C03-0938362B0809}");
    assert_eq!(id.to_bytes(), uuid.into_bytes());
    let all = Guid::from_bytes([0x01, 0x23, 0x45, 0x67, 0x89, 0xAB, 0xCD, 0xEF, 0xFE, 0xDC, 0xBA, 0x98, 0x76, 0x54, 0x32, 0x10]);
    assert_eq!(all.to_braced_upper(), "{01234567-89AB-CDEF-FEDC-BA9876543210}");
    assert_eq!(Guid::parse_braced("{01234567-89AB-CDEF-FEDC-BA9876543210}"), Some(all));
    assert_eq!(Guid::parse_braced("{01234567-89ab-cdef-fedc-ba9876543210}"), Some(all));
    assert_eq!(Guid::parse_braced("{01234567-89aB-cDeF-fedc-ba9876543210}"), Some(all));
}

#[test]
fn only_the_braced_form_is_an_identifier() {
    for text in [
        "",
        "{}",
        "01234567-89AB-CDEF-FEDC-BA9876543210",
        "0123456789ABCDEFFEDCBA9876543210",
        "{0123456789ABCDEFFEDCBA9876543210}",
        "{0123456789ABCDEFFEDCBA9876543210}1234",
        "urn:uuid:01234567-89AB-CDEF-FEDC-BA9876543210",
        "{01234567-89AB-CDEF-FEDC-BA987654321}",
        "{01234567-89AB-CDEF-FEDC-BA98765432100}",
        "{01234567-89AB-CDEF-FEDC-BA987654321G}",
        "{01234567+89AB-CDEF-FEDC-BA9876543210}",
        "{01234567-89AB-CDEF-FEDC-BA9876543210]",
        "[01234567-89AB-CDEF-FEDC-BA9876543210}",
        " {01234567-89AB-CDEF-FEDC-BA9876543210}",
        "{01234567-89AB-CDEF-FEDC-BA98765432\u{e9}}",
        "{0123456-789AB-CDEF-FEDC-BA9876543210}",
    ] {
        assert_eq!(Guid::parse_braced(text), None, "{:?}", text);
    }
}

#[test]
fn every_identifier_is_read_back_from_its_text() {
    let mut bytes = [0u8; 16];
    for round in 0..=255u8 {
        for (i, b) in bytes.iter_mut().enumerate() {
            *b = round.wrapping_mul(31).wrapping_add((i as u8).wrapping_mul(17));
        }
        let id = Guid::from_bytes(bytes);
        let text = id.to_braced_upper();
        assert_eq!(text.len(), 38);
        assert_eq!(text, text.to_uppercase());
        assert_eq!(Guid::parse_braced(&text), Some(id));
        assert_eq!(format!("{{{}}}", Uuid::from_bytes(bytes).hyphenated()).to_uppercase(), text);
    }
}

#[test]
fn a_word_count_is_four_flags_and_twelve_other_bits() {
    let flags = WordCount::from_bits(2);
    assert_eq!(flags.filename_length(), FilenameLength::LongFilenames);
    assert_eq!(flags.compressions(), SourceCompression::Compressed);
    assert_eq!(flags.source(), SourceMedia::Original);
    assert_eq!(flags.elevated_privileges(), ElevatedPrivileges::Required);
    let flags = WordCount::from_bits(0xFFF5);
    assert_eq!(flags.filename_length(), FilenameLength::ShortFilenames);
    assert_eq!(flags.compressions(), SourceCompression::Uncompressed);
    assert_eq!(flags.source(), SourceMedia::AdminImage);
    assert_eq!(flags.elevated_privileges(), ElevatedPrivileges::Required);
    assert_eq!(flags.bits(), 0xFFF5);
    assert_eq!(WordCount::from_bits(8).elevated_privileges(), ElevatedPrivileges::NotRequired);
    let built = WordCount::new(
        FilenameLength::ShortFilenames,
        SourceCompression::Compressed,
        SourceMedia::AdminImage,
        ElevatedPrivileges::NotRequired,
    );
    assert_eq!(built.bits(), 15);
    assert_eq!(built, WordCount::from_bits(15));
    let plain = WordCount::new(
        FilenameLength::LongFilenames,
        SourceCompression::Uncompressed,
        SourceMedia::Original,
        ElevatedPrivileges::Required,
    );
    assert_eq!(plain.bits(), 0);
}

#[test]
fn every_word_count_keeps_its_bits() {
    for bits in 0..=u16::MAX {
        assert_eq!(WordCount::from_bits(bits).bits(), bits);
    }
}

#[test]
fn platforms_have_their_names() {
    let all = [
        (Architecture::X64, "x64"),
        (Architecture::Intel, "Intel"),
        (Architecture::Intel64, "Intel64"),
        (Architecture::Arm, "Arm"),
        (Architecture::Arm64, "Arm64"),
    ];
    for (arch, token) in all {
        assert_eq!(arch.token(), token);
        assert_eq!(Architecture::from_token(token), Ok(arch));
    }
    for token in ["", "X64", "intel", "Intel;", "x86", "Arm6", "Intel644"] {
        assert_eq!(Architecture::from_token(token), Err(Error::UnsupportedValue));
    }
}

#[test]
fn templates_have_their_texts() {
    let en = Language::from_code(1033);
    let fr = Language::from_code(1036);
    let text = |arch, languages: &[Language]| {
        Template::Installation { arch, languages: languages.to_vec() }.to_text()
    };
    assert_eq!(text(Some(Architecture::X64), &[en, fr]), "x64;1033,1036");
    assert_eq!(text(Some(Architecture::Intel), &[en]), "Intel;1033");
    assert_eq!(text(Some(Architecture::Arm64), &[]), "Arm64;");
    assert_eq!(text(None, &[en]), ";1033");
    assert_eq!(text(None, &[]), ";");
    assert_eq!(text(None, &[Language::from_code(0), Language::from_code(65535)]), ";0,65535");
    assert_eq!(
        Template::Transform { arch: Some(Architecture::Intel64), language: Some(fr) }.to_text(),
        "Intel64;1036"
    );
    assert_eq!(Template::Transform { arch: None, language: None }.to_text(), ";");
    assert_eq!(Template::Patch { product_codes: vec![] }.to_text(), "");
    let a = Guid::from_bytes([0x11; 16]);
    let b = Guid::from_bytes([0xAB; 16]);
    assert_eq!(
        Template::Patch { product_codes: vec![a] }.to_text(),
        "{11111111-1111-1111-1111-111111111111}"
    );
    assert_eq!(
        Template::Patch { product_codes: vec![a, b] }.to_text(),
        "{11111111-1111-1111-1111-111111111111};{ABABABAB-ABAB-ABAB-ABAB-ABABABABABAB}"
    );
}

#[test]
fn an_installation_template_is_read_from_any_text() {
    let en = Language::from_code(1033);
    let read = |text: &str| match Template::parse_installation(text) {
        Template::Installation { arch, languages } => (arch, languages),
        other => panic!("{:?}", other),
    };
    assert_eq!(read("x64;1033"), (Some(Architecture::X64), vec![en]));
    assert_eq!(read("Intel;1033,1036,0"), (Some(Architecture::Intel), vec![en, Language::from_code(1036), Language::from_code(0)]));
    assert_eq!(read(""), (None, vec![]));
    assert_eq!(read(";"), (None, vec![]));
    assert_eq!(read("Arm"), (Some(Architecture::Arm), vec![]));
    assert_eq!(read("Arm;"), (Some(Architecture::Arm), vec![]));
    assert_eq!(read(";1033"), (None, vec![en]));
    // What is no platform and no numeral is passed over.
    assert_eq!(read("Alpha;1033"), (None, vec![en]));
    assert_eq!(read("Intel,x64;1033"), (None, vec![en]));
    assert_eq!(read("x64;,1033,,abc, 7,+5,65536,001033,"), (Some(Architecture::X64), vec![en, en]));
    assert_eq!(read("x64;1033;1036"), (Some(Architecture::X64), vec![]));
    assert_eq!(read("x64;65535,99999"), (Some(Architecture::X64), vec![Language::from_code(65535)]));
    for arch in [None, Some(Architecture::Intel64)] {
        for languages in [vec![], vec![en], vec![en, Language::from_code(7), Language::from_code(40000)]] {
            let template = Template::Installation { arch, languages: languages.clone() };
            assert_eq!(Template::parse_installation(&template.to_text()), template);
        }
    }
}

#[test]
fn numerals_and_texts() {
    let mut out = vec!['#'];
    push_decimal(&mut out, 0);
    push_decimal(&mut out, 65535);
    push_decimal(&mut out, 1033);
    assert_eq!(text_of(&out), "#0655351033");
    assert_eq!(parse_u16(&chars_of("1033")), Some(1033));
    assert_eq!(parse_u16(&chars_of("0")), Some(0));
    assert_eq!(parse_u16(&chars_of("65535")), Some(65535));
    assert_eq!(parse_u16(&chars_of("65536")), None);
    assert_eq!(parse_u16(&chars_of("0000065535")), Some(65535));
    assert_eq!(parse_u16(&chars_of("99999999999999999999")), None);
    assert_eq!(parse_u16(&chars_of("")), None);
    assert_eq!(parse_u16(&chars_of("12a")), None);
    assert_eq!(parse_u16(&chars_of("-1")), None);
    assert_eq!(parse_u16(&chars_of("\u{661}")), None);
    assert_eq!(chars_of("a\u{e9}\u{1f600}"), vec!['a', '\u{e9}', '\u{1f600}']);
    assert_eq!(text_of(&['a', '\u{e9}', '\u{1f600}']), "a\u{e9}\u{1f600}");
    assert!(same_text("a\u{e9}", "a\u{e9}"));
    assert!(!same_text("a\u{e9}", "a\u{e8}"));
    assert!(!same_text("a", "ab"));
    assert!(same_chars(&['a'], &['a']));
    assert!(!same_chars(&['a'], &['b']));
    assert!(!same_chars(&['a'], &[]));
}

#[test]
fn numbers_are_stored_least_byte_first() {
    let mut buf = vec![0xAAu8];
    push_u16(&mut buf, 0x1234);
    push_u32(&mut buf, 0x89AB_CDEF);
    push_u64(&mut buf, 0x0102_0304_0506_0708);
    assert_eq!(buf, vec![0xAA, 0x34, 0x12, 0xEF, 0xCD, 0xAB, 0x89, 8, 7, 6, 5, 4, 3, 2, 1]);
    assert_eq!(read_u16(&buf, 1), 0x1234);
    assert_eq!(read_u32(&buf, 3), 0x89AB_CDEF);
    assert_eq!(read_u64(&buf, 7), 0x0102_0304_0506_0708);
    assert_eq!(bits_of_i16(-1), 0xFFFF);
    assert_eq!(bits_of_i16(i16::MIN), 0x8000);
    assert_eq!(bits_of_i16(1252), 1252);
    assert_eq!(i16_of_bits(65001), -535);
    assert_eq!(i16_of_bits(0x7FFF), i16::MAX);
    assert_eq!(bits_of_i32(-2), 0xFFFF_FFFE);
    assert_eq!(bits_of_i32(i32::MAX), 0x7FFF_FFFF);
    assert_eq!(i32_of_bits(0x8000_0000), i32::MIN);
    assert_eq!(i32_of_bits(5), 5);
}

#[test]
fn a_transform_template_has_at_most_one_language() {
    let fr = Language::from_code(1036);
    assert_eq!(
        Template::parse_transform("Intel64;1036"),
        Template::Transform { arch: Some(Architecture::Intel64), language: Some(fr) }
    );
    assert_eq!(
        Template::parse_transform("x64;abc,1036,1033"),
        Template::Transform { arch: Some(Architecture::X64), language: Some(fr) }
    );
    assert_eq!(Template::parse_transform(";"), Template::Transform { arch: None, language: None });
    assert_eq!(Template::parse_transform(""), Template::Transform { arch: None, language: None });
    assert_eq!(
        Template::parse_transform("Arm"),
        Template::Transform { arch: Some(Architecture::Arm), language: None }
    );
    for arch in [None, Some(Architecture::Arm64)] {
        for language in [None, Some(Language::from_code(0)), Some(fr)] {
            let template = Template::Transform { arch, language };
            assert_eq!(Template::parse_transform(&template.to_text()), template);
        }
    }
}

#[test]
fn a_patch_template_lists_product_codes() {
    let a = Guid::from_bytes([0x11; 16]);
    let b = Guid::from_bytes([0xAB; 16]);
    assert_eq!(Template::parse_patch(""), Template::Patch { product_codes: vec![] });
    assert_eq!(Template::parse_patch(";;"), Template::Patch { product_codes: vec![] });
    assert_eq!(Template::parse_patch("x64;1033"), Template::Patch { product_codes: vec![] });
    assert_eq!(
        Template::parse_patch("{11111111-1111-1111-1111-111111111111}"),
        Template::Patch { product_codes: vec![a] }
    );
    assert_eq!(
        Template::parse_patch(
            "{abababab-abab-abab-abab-abababababab};junk;;{11111111-1111-1111-1111-111111111111};"
        ),
        Template::Patch { product_codes: vec![b, a] }
    );
    for product_codes in [vec![], vec![a], vec![a, b], vec![b, b, a]] {
        let template = Template::Patch { product_codes };
        assert_eq!(Template::parse_patch(&template.to_text()), template);
    }
}

#[test]
fn one_flag_of_a_word_count_changes_alone() {
    let start = WordCount::from_bits(0xABC0);
    assert_eq!(start.with_filename_length(FilenameLength::ShortFilenames).bits(), 0xABC1);
    assert_eq!(start.with_compressions(SourceCompression::Compressed).bits(), 0xABC2);
    assert_eq!(start.with_source(SourceMedia::AdminImage).bits(), 0xABC4);
    assert_eq!(start.with_elevated_privileges(ElevatedPrivileges::NotRequired).bits(), 0xABC8);
    let full = WordCount::from_bits(0xFFFF);
    assert_eq!(full.with_filename_length(FilenameLength::LongFilenames).bits(), 0xFFFE);
    assert_eq!(full.with_compressions(SourceCompression::Uncompressed).bits(), 0xFFFD);
    assert_eq!(full.with_source(SourceMedia::Original).bits(), 0xFFFB);
    assert_eq!(full.with_elevated_privileges(ElevatedPrivileges::Required).bits(), 0xFFF7);
    assert_eq!(full.with_source(SourceMedia::AdminImage), full);
}

#[test]
fn one_value_is_written_and_read_alone() {
    let mut buf = vec![0xEEu8; 3];
    PropertyValue::I2(-2).write_to(&mut buf, CodePage::Utf8).unwrap();
    assert_eq!(&buf[3..], &[2, 0, 0, 0, 0xFE, 0xFF, 0, 0]);
    PropertyValue::LpStr("\u{20ac}".to_string()).write_to(&mut buf, CodePage::Windows1252).unwrap();
    assert_eq!(&buf[11..], &[30, 0, 0, 0, 2, 0, 0, 0, 0x80, 0, 0, 0]);
    let before = buf.clone();
    assert_eq!(
        PropertyValue::LpStr("\u{20ac}".to_string()).write_to(&mut buf, CodePage::Iso88591),
        Err(Error::EncodingError)
    );
    assert_eq!(buf, before);
    assert_eq!(PropertyValue::read_from(&buf, 3, CodePage::Utf8), Ok(PropertyValue::I2(-2)));
    assert_eq!(
        PropertyValue::read_from(&buf, 11, CodePage::Windows1252),
        Ok(PropertyValue::LpStr("\u{20ac}".to_string()))
    );
    assert_eq!(PropertyValue::read_from(&buf, 11, CodePage::UsAscii), Err(Error::EncodingError));
    assert_eq!(PropertyValue::read_from(&buf, 16, CodePage::Utf8), Err(Error::InvalidFormat));
    assert_eq!(PropertyValue::read_from(&buf, 23, CodePage::Utf8), Err(Error::InvalidFormat));
    assert_eq!(PropertyValue::read_from(&buf, usize::MAX, CodePage::Utf8), Err(Error::InvalidFormat));
    assert_eq!(msi::text::find_char(&['a', ';', 'b', ';'], 0, ';'), 1);
    assert_eq!(msi::text::find_char(&['a', ';', 'b', ';'], 2, ';'), 3);
    assert_eq!(msi::text::find_char(&['a', ';', 'b', ';'], 4, ';'), 4);
    assert_eq!(msi::text::find_char(&['a', 'b'], 0, ';'), 2);
}
