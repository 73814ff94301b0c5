use msi::{
    Architecture, CodePage, Guid, Language, OperatingSystem, PropertySet, PropertyValue,
    SummaryInfo, Timestamp, WindowsInstallerVersion, WordCount,
};

/// A small generator of numbers, the same on every run.
struct Numbers(u64);

impl Numbers {
    fn next(&mut self) -> u64 {
        self.0 = self.0.wrapping_mul(6364136223846793005).wrapping_add(1442695040888963407);
        self.0 >> 16
    }

    fn below(&mut self, n: u64) -> u64 {
        self.next() % n
    }

    fn text(&mut self, cp: CodePage) -> String {
        let len = self.below(12);
        let mut text = String::new();
        while (text.chars().count() as u64) < len {
            let c = match cp {
                CodePage::Utf8 => char::from_u32(1 + self.below(0x2FFF) as u32),
                CodePage::UsAscii => char::from_u32(1 + self.below(0x7F) as u32),
                CodePage::Iso88591 => char::from_u32(1 + self.below(0xFF) as u32),
                CodePage::Windows1252 => cp.decode_byte(1 + self.below(0xFF) as u8),
            };
            if let Some(c) = c {
                text.push(c);
            }
        }
        text
    }
}

#[test]
fn random_sets_are_read_back_from_their_bytes() {
    let mut numbers = Numbers(2024);
    let pages = [CodePage::Utf8, CodePage::UsAscii, CodePage::Iso88591, CodePage::Windows1252];
    for round in 0..300 {
        let mut ident = [0u8; 16];
        for b in ident.iter_mut() {
            *b = numbers.below(256) as u8;
        }
        let os = OperatingSystem::from_number(numbers.below(3) as u16).unwrap();
        let mut set = PropertySet::new(os, numbers.below(0x10000) as u16, ident);
        let cp = pages[numbers.below(4) as usize];
        if numbers.below(4) != 0 {
            set.set(1, PropertyValue::I2(cp.id() as u16 as i16));
        }
        let effective = if set.contains(1) { cp } else { CodePage::Utf8 };
        for _ in 0..numbers.below(12) {
            let id = 2 + numbers.below(40) as u32;
            let value = match numbers.below(4) {
                0 => PropertyValue::I2(numbers.next() as i16),
                1 => PropertyValue::I4(numbers.next() as i32),
                2 => PropertyValue::FileTime(numbers.next()),
                _ => PropertyValue::LpStr(numbers.text(effective)),
            };
            set.set(id, value);
            if numbers.below(5) == 0 {
                set.remove(2 + numbers.below(40) as u32);
            }
        }
        let mut bytes = Vec::new();
        set.write(&mut bytes).unwrap();
        assert_eq!(bytes.len() % 4, 0, "round {}", round);
        let read = PropertySet::read(&bytes).unwrap();
        assert_eq!(read, set, "round {}", round);
        let mut again = Vec::new();
        read.write(&mut again).unwrap();
        assert_eq!(again, bytes, "round {}", round);
    }
}

#[test]
fn damaged_bytes_are_read_or_refused() {
    let mut info = SummaryInfo::new();
    info.set_codepage(CodePage::Windows1252);
    info.set_title("Installation Database");
    info.set_author("Jane Doe");
    info.set_arch(Architecture::X64);
    info.set_languages(&[Language::from_code(1033)]);
    info.set_revision_id(Guid::from_bytes([0x5A; 16]));
    info.set_creation_time(Timestamp::from_tick_count(116_444_736_000_000_000).unwrap());
    info.set_page_count(WindowsInstallerVersion::V2_0);
    info.set_word_count(WordCount::from_bits(2));
    let mut good = Vec::new();
    info.write(&mut good).unwrap();
    let mut refused = 0;
    for at in 0..good.len() {
        for byte in [0x00u8, 0x01, 0x1E, 0x7F, 0x80, 0xFF] {
            let mut bytes = good.clone();
            bytes[at] = byte;
            match PropertySet::read(&bytes) {
                Ok(set) => {
                    let mut back = Vec::new();
                    if set.write(&mut back).is_ok() {
                        assert_eq!(PropertySet::read(&back).unwrap(), set);
                    }
                },
                Err(_) => refused += 1,
            }
            let _ = SummaryInfo::read(&bytes).map(|read| {
                let _ = read.title();
                let _ = read.arch();
                let _ = read.languages();
                let _ = read.revision_id();
                let _ = read.creation_time();
                let _ = read.page_count();
                let _ = read.word_count();
                let _ = read.codepage();
            });
        }
    }
    assert!(refused > 0);
    for len in 0..good.len() {
        assert!(PropertySet::read(&good[..len]).is_err(), "{}", len);
    }
    let mut longer = good.clone();
    longer.extend_from_slice(&[0xAA; 9]);
    assert_eq!(SummaryInfo::read(&longer).unwrap(), info);
}

#[test]
fn random_bytes_are_read_or_refused() {
    let mut numbers = Numbers(7);
    let mut header: Vec<u8> = vec![0xFE, 0xFF, 0, 0, 0x0A, 0, 2, 0];
    header.extend_from_slice(&[0u8; 16]);
    header.extend_from_slice(&[1, 0, 0, 0]);
    header.extend_from_slice(&msi::FMTID);
    header.extend_from_slice(&[48, 0, 0, 0]);
    for _ in 0..2000 {
        let mut bytes = header.clone();
        let len = numbers.below(120) as usize;
        let count = numbers.below(6) as u32;
        bytes.extend_from_slice(&((len as u32 + 8).to_le_bytes()));
        bytes.extend_from_slice(&count.to_le_bytes());
        for i in 0..len {
            let b = if i % 4 == 0 {
                [2u8, 3, 30, 64, 1, 8, 16, 24][numbers.below(8) as usize]
            } else if numbers.below(3) == 0 {
                numbers.below(256) as u8
            } else {
                0
            };
            bytes.push(b);
        }
        if let Ok(set) = PropertySet::read(&bytes) {
            assert!(set.len() as u32 == count);
            assert!(set.ids().windows(2).all(|pair| pair[0] < pair[1]));
        }
    }
}
