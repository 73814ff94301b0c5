//! The layout of a property set, as a pair of functions on bytes, and the
//! proof that the second undoes the first.
//!
//! A set is written as a 48-byte header and one section:
//!
//! | at | size | field                                              |
//! |----|------|----------------------------------------------------|
//! | 0  | 2    | byte-order marker, `0xFFFE`                        |
//! | 2  | 2    | format version, `0`                                |
//! | 4  | 2    | version of the operating system                    |
//! | 6  | 2    | kind of operating system: `0`, `1` or `2`          |
//! | 8  | 16   | class id, written as zeros and not read            |
//! | 24 | 4    | number of sections, `1`                            |
//! | 28 | 16   | format identifier                                  |
//! | 44 | 4    | offset of the section                              |
//!
//! The section holds its own size, the number of properties, a directory of
//! (id, offset) pairs with offsets counted from the start of the section,
//! and the values.  All numbers are little-endian.
//!
//! Texts are encoded in the code page that the set names in property 1.
//! Both directions walk the properties in the order of the directory and
//! switch to that code page once they have passed property 1; until then
//! the default, UTF-8, is in effect.

use crate::codepage::CodePage;
use crate::error::Error;
use crate::model::{ascending, contains_id, lemma_upsert_last, upsert};
use crate::value::{
    encode_value, lemma_encoded_len, lemma_parse_encoded_value, parse_value, zeros,
    PropertyValueView,
};
use crate::wire::{
    i16_bits, le_u16, le_u32, lemma_le_of_piece, lemma_part_of_piece, lemma_u16_round_trip,
    lemma_u32_round_trip, u16_le, u32_le,
};
use vstd::prelude::*;

verus! {

/// The byte-order marker that opens every property set.
pub const BYTE_ORDER_MARK: u16 = 0xFFFE;

/// The one format version that this crate reads and writes.
pub const FORMAT_VERSION: u16 = 0;

/// The length of the header, and so the offset at which the section of a
/// written set begins.
pub const HEADER_LEN: u32 = 48;

/// The id of the property that names the code page of a set.
pub const PROPERTY_CODEPAGE: u32 = 1;

/// The family of operating systems that a property set was written on.
#[derive(Clone, Copy, Debug, PartialEq, Eq, Structural)]
pub enum OperatingSystem {
    /// 16-bit Windows (0).
    Win16,
    /// Macintosh (1).
    Macintosh,
    /// 32-bit Windows (2).
    Win32,
}

impl OperatingSystem {
    /// The number that stands for the family in a header.
    pub open spec fn number_spec(self) -> u16 {
        match self {
            OperatingSystem::Win16 => 0,
            OperatingSystem::Macintosh => 1,
            OperatingSystem::Win32 => 2,
        }
    }

    /// The family that `n` stands for, if any.
    pub open spec fn from_number_spec(n: u16) -> Option<OperatingSystem> {
        if n == 0 {
            Some(OperatingSystem::Win16)
        } else if n == 1 {
            Some(OperatingSystem::Macintosh)
        } else if n == 2 {
            Some(OperatingSystem::Win32)
        } else {
            None
        }
    }

    /// The number that stands for the family in a header.
    pub fn number(&self) -> (n: u16)
        ensures
            n == self.number_spec(),
    {
        match self {
            OperatingSystem::Win16 => 0,
            OperatingSystem::Macintosh => 1,
            OperatingSystem::Win32 => 2,
        }
    }

    /// The family that `n` stands for, if any.
    pub fn from_number(n: u16) -> (os: Option<OperatingSystem>)
        ensures
            os == Self::from_number_spec(n),
    {
        if n == 0 {
            Some(OperatingSystem::Win16)
        } else if n == 1 {
            Some(OperatingSystem::Macintosh)
        } else if n == 2 {
            Some(OperatingSystem::Win32)
        } else {
            None
        }
    }
}

/// The mathematical model of a property set.
pub struct PropertySetView {
    /// The family of operating systems named in the header.
    pub os: OperatingSystem,
    /// The version of the operating system named in the header.
    pub os_version: u16,
    /// The 16 bytes that say what kind of set this is.
    pub format_identifier: Seq<u8>,
    /// The properties, in ascending order of id.
    pub entries: Seq<(u32, PropertyValueView)>,
}

impl PropertySetView {
    /// What holds of the model of every property set: the format identifier
    /// has 16 bytes, and the entries ascend.
    pub open spec fn wf(self) -> bool {
        &&& self.format_identifier.len() == 16
        &&& ascending(self.entries)
    }
}

/// The code page that a value names when it is the value of property 1: a
/// 16-bit number, read as unsigned, that is the id of a known code page.
pub open spec fn codepage_of_value(v: PropertyValueView) -> Option<CodePage> {
    match v {
        PropertyValueView::I2(x) => CodePage::from_id_spec(i16_bits(x) as i32),
        _ => None,
    }
}

/// The code page in effect after the property (`id`, `v`), where `cp` was in
/// effect before it.  Property 1 switches to the code page that it names,
/// and is an `UnsupportedValue` if it names none; any other property
/// changes nothing.
pub open spec fn codepage_after(id: u32, v: PropertyValueView, cp: CodePage) -> Result<
    CodePage,
    Error,
> {
    if id != PROPERTY_CODEPAGE {
        Ok(cp)
    } else {
        match codepage_of_value(v) {
            Some(named) => Ok(named),
            None => Err(Error::UnsupportedValue),
        }
    }
}

/// The code page in effect before entry `k` of `e`.
pub open spec fn codepage_before(e: Seq<(u32, PropertyValueView)>, k: int) -> CodePage
    decreases k,
{
    if k <= 0 {
        CodePage::Utf8
    } else {
        match codepage_after(e[k - 1].0, e[k - 1].1, codepage_before(e, k - 1)) {
            Ok(cp) => cp,
            Err(_) => codepage_before(e, k - 1),
        }
    }
}

/// The stored forms of the first `k` values of `e`, one after the other.
///
/// The first entry that cannot be written decides the error: that of its
/// value (see [`encode_value`]), `UnsupportedValue` if it is property 1 and
/// names no code page, `ValidationError` if with it the section would
/// outgrow what 32 bits can count.
pub open spec fn encode_values(e: Seq<(u32, PropertyValueView)>, k: int) -> Result<Seq<u8>, Error>
    decreases k,
{
    if k <= 0 {
        Ok(Seq::empty())
    } else {
        match encode_values(e, k - 1) {
            Err(err) => Err(err),
            Ok(blob) => match encode_value(e[k - 1].1, codepage_before(e, k - 1)) {
                Err(err) => Err(err),
                Ok(chunk) => if codepage_after(e[k - 1].0, e[k - 1].1, CodePage::Utf8) is Err {
                    Err(Error::UnsupportedValue)
                } else if 8 + 8 * e.len() + blob.len() + chunk.len() > u32::MAX {
                    Err(Error::ValidationError)
                } else {
                    Ok(blob + chunk)
                },
            },
        }
    }
}

/// The offset, from the start of the section, of the value of entry `k`.
pub open spec fn value_offset(e: Seq<(u32, PropertyValueView)>, k: int) -> int {
    (8 + 8 * e.len() + encode_values(e, k)->Ok_0.len()) as int
}

/// The first `k` entries of the directory of `e`.
pub open spec fn directory(e: Seq<(u32, PropertyValueView)>, k: int) -> Seq<u8>
    decreases k,
{
    if k <= 0 {
        Seq::empty()
    } else {
        directory(e, k - 1) + u32_le(e[k - 1].0) + u32_le(value_offset(e, k - 1) as u32)
    }
}

/// The section that holds the properties `e`.
pub open spec fn serialize_section(e: Seq<(u32, PropertyValueView)>) -> Result<Seq<u8>, Error> {
    if 8 + 8 * e.len() > u32::MAX {
        Err(Error::ValidationError)
    } else {
        match encode_values(e, e.len() as int) {
            Err(err) => Err(err),
            Ok(blob) => Ok(
                u32_le((8 + 8 * e.len() + blob.len()) as u32) + u32_le(e.len() as u32) + directory(
                    e,
                    e.len() as int,
                ) + blob,
            ),
        }
    }
}

/// The header of the set `v`.
pub open spec fn header(v: PropertySetView) -> Seq<u8> {
    u16_le(BYTE_ORDER_MARK) + u16_le(FORMAT_VERSION) + u16_le(v.os_version) + u16_le(
        v.os.number_spec(),
    ) + zeros(16) + u32_le(1) + v.format_identifier + u32_le(HEADER_LEN)
}

/// The bytes of the set `v`, or why it cannot be written.
pub open spec fn serialize(v: PropertySetView) -> Result<Seq<u8>, Error> {
    match serialize_section(v.entries) {
        Err(err) => Err(err),
        Ok(section) => Ok(header(v) + section),
    }
}

/// The properties that entries `k` and later of the directory of `section`
/// add to `acc`, where `count` is the number of entries and `cp` the code
/// page in effect before entry `k`.
///
/// The first entry that cannot be read decides the error: `InvalidFormat` if
/// its id came before, then the error of its value (see [`parse_value`]),
/// then `UnsupportedValue` if it is property 1 and names no code page.
pub open spec fn parse_entries(
    section: Seq<u8>,
    count: int,
    k: int,
    cp: CodePage,
    acc: Seq<(u32, PropertyValueView)>,
) -> Result<Seq<(u32, PropertyValueView)>, Error>
    decreases count - k,
{
    if k >= count {
        Ok(acc)
    } else {
        let id = le_u32(section, 8 + 8 * k);
        let off = le_u32(section, 12 + 8 * k);
        if contains_id(acc, id) {
            Err(Error::InvalidFormat)
        } else {
            match parse_value(section, off as int, cp) {
                Err(err) => Err(err),
                Ok(v) => match codepage_after(id, v, cp) {
                    Err(err) => Err(err),
                    Ok(next) => parse_entries(section, count, k + 1, next, upsert(acc, id, v)),
                },
            }
        }
    }
}

/// The set that `bytes` hold, or why they hold none.
///
/// `InvalidFormat` if the header is cut short or does not start with the
/// marker `0xFFFE` and version 0, if it names an unknown kind of operating
/// system or a number of sections other than 1, if the section or its
/// directory does not lie within the bytes; otherwise as
/// [`parse_entries`] says.
pub open spec fn parse(bytes: Seq<u8>) -> Result<PropertySetView, Error> {
    if bytes.len() < HEADER_LEN {
        Err(Error::InvalidFormat)
    } else if le_u16(bytes, 0) != BYTE_ORDER_MARK || le_u16(bytes, 2) != FORMAT_VERSION {
        Err(Error::InvalidFormat)
    } else if OperatingSystem::from_number_spec(le_u16(bytes, 6)) is None {
        Err(Error::InvalidFormat)
    } else if le_u32(bytes, 24) != 1 {
        Err(Error::InvalidFormat)
    } else {
        let start = le_u32(bytes, 44) as int;
        if start + 8 > bytes.len() {
            Err(Error::InvalidFormat)
        } else {
            let size = le_u32(bytes, start) as int;
            let count = le_u32(bytes, start + 4) as int;
            if start + size > bytes.len() || 8 + 8 * count > size {
                Err(Error::InvalidFormat)
            } else {
                match parse_entries(
                    bytes.subrange(start, start + size),
                    count,
                    0,
                    CodePage::Utf8,
                    Seq::empty(),
                ) {
                    Err(err) => Err(err),
                    Ok(entries) => Ok(
                        PropertySetView {
                            os: OperatingSystem::from_number_spec(le_u16(bytes, 6))->0,
                            os_version: le_u16(bytes, 4),
                            format_identifier: bytes.subrange(28, 44),
                            entries,
                        },
                    ),
                }
            }
        }
    }
}

/// What is written of the first `k` values stays in place when more values
/// follow: the blob of the first `k` values is the start of the blob of the
/// first `m`.
pub proof fn lemma_encode_values_prefix(e: Seq<(u32, PropertyValueView)>, m: int, k: int)
    requires
        encode_values(e, m) is Ok,
        0 <= k <= m,
    ensures
        encode_values(e, k) is Ok,
        encode_values(e, k)->Ok_0.len() <= encode_values(e, m)->Ok_0.len(),
        encode_values(e, m)->Ok_0.subrange(0, encode_values(e, k)->Ok_0.len() as int)
            == encode_values(e, k)->Ok_0,
    decreases m,
{
    let whole = encode_values(e, m)->Ok_0;
    if k == m {
        assert(whole.subrange(0, whole.len() as int) =~= whole);
    } else {
        lemma_encode_values_prefix(e, m - 1, k);
        let front = encode_values(e, m - 1)->Ok_0;
        let part = encode_values(e, k)->Ok_0;
        assert(whole.subrange(0, part.len() as int) =~= front.subrange(0, part.len() as int));
    }
}

/// Every value that is written is written whole, at its offset: within the
/// blob of the first `m` values, the stored form of value `k` begins where
/// the blob of the first `k` values ends.
pub proof fn lemma_value_in_blob(e: Seq<(u32, PropertyValueView)>, m: int, k: int)
    requires
        encode_values(e, m) is Ok,
        0 <= k < m,
    ensures
        encode_values(e, k) is Ok,
        encode_value(e[k].1, codepage_before(e, k)) is Ok,
        codepage_after(e[k].0, e[k].1, codepage_before(e, k)) == Ok::<CodePage, Error>(
            codepage_before(e, k + 1),
        ),
        value_offset(e, k) + encode_value(e[k].1, codepage_before(e, k))->Ok_0.len() <= 8 + 8
            * e.len() + encode_values(e, m)->Ok_0.len() <= u32::MAX,
        encode_values(e, m)->Ok_0.subrange(
            encode_values(e, k)->Ok_0.len() as int,
            encode_values(e, k)->Ok_0.len() as int + encode_value(
                e[k].1,
                codepage_before(e, k),
            )->Ok_0.len(),
        ) == encode_value(e[k].1, codepage_before(e, k))->Ok_0,
{
    lemma_encode_values_prefix(e, m, k + 1);
    lemma_encode_values_prefix(e, m, k);
    lemma_encode_values_prefix(e, m, m - 1);
    let whole = encode_values(e, m)->Ok_0;
    let upto = encode_values(e, k + 1)->Ok_0;
    let before = encode_values(e, k)->Ok_0;
    let chunk = encode_value(e[k].1, codepage_before(e, k))->Ok_0;
    assert(upto == before + chunk);
    assert(whole.subrange(before.len() as int, before.len() as int + chunk.len()) =~= upto.subrange(
        before.len() as int,
        before.len() as int + chunk.len(),
    ));
    assert(upto.subrange(before.len() as int, before.len() as int + chunk.len()) =~= chunk);
}

/// In a written section the values follow the directory and one another:
/// the first stands right behind the directory, and each offset of the
/// directory is larger than the one before it.
pub proof fn lemma_offsets_ascend(e: Seq<(u32, PropertyValueView)>, i: int, j: int)
    requires
        encode_values(e, e.len() as int) is Ok,
        0 <= i < j < e.len(),
    ensures
        value_offset(e, 0) == 8 + 8 * e.len(),
        value_offset(e, i) + 8 <= value_offset(e, j) <= u32::MAX,
{
    lemma_encode_values_prefix(e, e.len() as int, j);
    lemma_value_in_blob(e, e.len() as int, j);
    lemma_value_in_blob(e, j, i);
    lemma_encoded_len(e[i].1, codepage_before(e, i));
}

/// The directory holds eight bytes for each entry: the id, then the offset
/// of the value.
pub proof fn lemma_directory_entry(e: Seq<(u32, PropertyValueView)>, m: int, k: int)
    requires
        0 <= k < m,
    ensures
        directory(e, m).len() == 8 * m,
        directory(e, m).subrange(8 * k, 8 * k + 4) == u32_le(e[k].0),
        directory(e, m).subrange(8 * k + 4, 8 * k + 8) == u32_le(value_offset(e, k) as u32),
    decreases m,
{
    lemma_directory_len(e, m - 1);
    lemma_u32_round_trip(e[m - 1].0);
    lemma_u32_round_trip(value_offset(e, m - 1) as u32);
    let whole = directory(e, m);
    let front = directory(e, m - 1);
    if k == m - 1 {
        assert(whole.subrange(8 * k, 8 * k + 4) =~= u32_le(e[k].0));
        assert(whole.subrange(8 * k + 4, 8 * k + 8) =~= u32_le(value_offset(e, k) as u32));
    } else {
        lemma_directory_entry(e, m - 1, k);
        assert(whole.subrange(8 * k, 8 * k + 4) =~= front.subrange(8 * k, 8 * k + 4));
        assert(whole.subrange(8 * k + 4, 8 * k + 8) =~= front.subrange(8 * k + 4, 8 * k + 8));
    }
}

/// The directory of `m` entries has `8 * m` bytes.
pub proof fn lemma_directory_len(e: Seq<(u32, PropertyValueView)>, m: int)
    requires
        0 <= m,
    ensures
        directory(e, m).len() == 8 * m,
    decreases m,
{
    if m > 0 {
        lemma_directory_len(e, m - 1);
        lemma_u32_round_trip(e[m - 1].0);
        lemma_u32_round_trip(value_offset(e, m - 1) as u32);
    }
}

/// Reading the entries of a written section from entry `k` on, with the
/// first `k` entries already read, gives back all the entries.
pub proof fn lemma_parse_written_entries(
    e: Seq<(u32, PropertyValueView)>,
    section: Seq<u8>,
    k: int,
)
    requires
        ascending(e),
        serialize_section(e) == Ok::<Seq<u8>, Error>(section),
        0 <= k <= e.len(),
    ensures
        parse_entries(section, e.len() as int, k, codepage_before(e, k), e.take(k)) == Ok::<
            Seq<(u32, PropertyValueView)>,
            Error,
        >(e),
    decreases e.len() - k,
{
    let n = e.len() as int;
    if k >= n {
        assert(e.take(k) =~= e);
    } else {
        let blob = encode_values(e, n)->Ok_0;
        let dir = directory(e, n);
        let size = (8 + 8 * n + blob.len() as int) as u32;
        let cp = codepage_before(e, k);
        let (id, v) = e[k];
        let chunk = encode_value(v, cp)->Ok_0;
        let before = encode_values(e, k)->Ok_0;
        lemma_value_in_blob(e, n, k);
        lemma_directory_entry(e, n, k);
        lemma_u32_round_trip(size);
        lemma_u32_round_trip(n as u32);
        lemma_u32_round_trip(id);
        let off = value_offset(e, k) as u32;
        lemma_u32_round_trip(off);
        assert(section.len() == 8 + 8 * n + blob.len() as int);
        // The directory entry is read back.
        assert(section.subrange(8, 8 + dir.len() as int) =~= dir);
        lemma_part_of_piece(section, 8, dir, 8 * k, 8 * k + 4);
        lemma_part_of_piece(section, 8, dir, 8 * k + 4, 8 * k + 8);
        lemma_le_of_piece(section, 8 + 8 * k, u32_le(id));
        lemma_le_of_piece(section, 12 + 8 * k, u32_le(off));
        assert(le_u32(section, 8 + 8 * k) == id);
        assert(le_u32(section, 12 + 8 * k) == off);
        // The value is read back from its offset.
        assert(section.subrange(8 + 8 * n, 8 + 8 * n + blob.len() as int) =~= blob);
        lemma_part_of_piece(
            section,
            8 + 8 * n,
            blob,
            before.len() as int,
            before.len() as int + chunk.len(),
        );
        lemma_parse_encoded_value(v, cp, section, off as int);
        // Its id is new and larger than all before it.
        let acc = e.take(k);
        assert forall|i: int| 0 <= i < acc.len() implies (#[trigger] acc[i]).0 < id by {
            assert(acc[i] == e[i]);
        }
        lemma_upsert_last(acc, id, v);
        assert(acc.push((id, v)) =~= e.take(k + 1));
        lemma_parse_written_entries(e, section, k + 1);
    }
}

/// Reading undoes writing: the bytes of a set that can be written are read
/// back as that set.
pub proof fn lemma_parse_serialized(v: PropertySetView)
    requires
        v.wf(),
        serialize(v) is Ok,
    ensures
        parse(serialize(v)->Ok_0) == Ok::<PropertySetView, Error>(v),
{
    let e = v.entries;
    let n = e.len() as int;
    let head = header(v);
    let section = serialize_section(e)->Ok_0;
    let bytes = serialize(v)->Ok_0;
    let blob = encode_values(e, n)->Ok_0;
    lemma_u16_round_trip(BYTE_ORDER_MARK);
    lemma_u16_round_trip(FORMAT_VERSION);
    lemma_u16_round_trip(v.os_version);
    lemma_u16_round_trip(v.os.number_spec());
    lemma_u32_round_trip(1);
    lemma_u32_round_trip(HEADER_LEN);
    assert(head.len() == 48);
    assert(bytes.subrange(0, 48) =~= head);
    // The fields of the header are read back.
    lemma_part_of_piece(bytes, 0, head, 0, 2);
    assert(head.subrange(0, 2) =~= u16_le(BYTE_ORDER_MARK));
    lemma_le_of_piece(bytes, 0, u16_le(BYTE_ORDER_MARK));
    lemma_part_of_piece(bytes, 0, head, 2, 4);
    assert(head.subrange(2, 4) =~= u16_le(FORMAT_VERSION));
    lemma_le_of_piece(bytes, 2, u16_le(FORMAT_VERSION));
    lemma_part_of_piece(bytes, 0, head, 4, 6);
    assert(head.subrange(4, 6) =~= u16_le(v.os_version));
    lemma_le_of_piece(bytes, 4, u16_le(v.os_version));
    lemma_part_of_piece(bytes, 0, head, 6, 8);
    assert(head.subrange(6, 8) =~= u16_le(v.os.number_spec()));
    lemma_le_of_piece(bytes, 6, u16_le(v.os.number_spec()));
    lemma_part_of_piece(bytes, 0, head, 24, 28);
    assert(head.subrange(24, 28) =~= u32_le(1));
    lemma_le_of_piece(bytes, 24, u32_le(1));
    lemma_part_of_piece(bytes, 0, head, 28, 44);
    assert(head.subrange(28, 44) =~= v.format_identifier);
    lemma_part_of_piece(bytes, 0, head, 44, 48);
    assert(head.subrange(44, 48) =~= u32_le(HEADER_LEN));
    lemma_le_of_piece(bytes, 44, u32_le(HEADER_LEN));
    // So are the size of the section and the number of its entries.
    if n > 0 {
        lemma_value_in_blob(e, n, n - 1);
    }
    let size = (8 + 8 * n + blob.len() as int) as u32;
    lemma_u32_round_trip(size);
    lemma_u32_round_trip(n as u32);
    lemma_directory_len(e, n);
    assert(section.len() == size);
    assert(bytes.subrange(48, 48 + section.len() as int) =~= section);
    lemma_part_of_piece(bytes, 48, section, 0, 4);
    assert(section.subrange(0, 4) =~= u32_le(size));
    lemma_le_of_piece(bytes, 48, u32_le(size));
    lemma_part_of_piece(bytes, 48, section, 4, 8);
    assert(section.subrange(4, 8) =~= u32_le(n as u32));
    lemma_le_of_piece(bytes, 52, u32_le(n as u32));
    // And the entries.
    assert(e.take(0) =~= Seq::<(u32, PropertyValueView)>::empty());
    lemma_parse_written_entries(e, section, 0);
    let read = parse(bytes)->Ok_0;
    assert(read.format_identifier =~= v.format_identifier);
}

} // verus!
