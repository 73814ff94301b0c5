//! The summary information of an installer package: a property set with a
//! fixed format identifier, seen through its typed fields.
//!
//! A [`SummaryInfo`] keeps its fields in the property set itself.  A getter
//! reads the property of its field and gives `None` where the property is
//! absent or holds something that is not a value of the field; a setter
//! stores the property; a clearer removes it.  Properties that have no
//! field here, such as the character count, stay in the set untouched.

use crate::codepage::CodePage;
use crate::error::Error;
use crate::format::{codepage_of_value, parse, serialize, OperatingSystem, PropertySetView};
use crate::guid::{braced_upper, lemma_parse_braced_upper, parse_braced, Guid};
use crate::language::Language;
use crate::model::{lookup, only_changed, remove_id, upsert};
use crate::propset::PropertySet;
use crate::template::{
    arch_of_text, codes_of, installation_text, languages_of_text, lemma_parse_installation_text,
    parse_installation, read_arch, read_languages, template_text, write_installation,
    Architecture, Template,
};
use crate::timestamp::{Timestamp, MAX_TICK_COUNT};
use crate::value::{PropertyValue, PropertyValueView};
use crate::wire::{bits_of_i16, i16_bits, i16_from_bits, i16_of_bits};
use crate::wordcount::WordCount;
use vstd::prelude::*;
use vstd::utf8::encode_utf8;

verus! {

/// The format identifier of a summary information set: the identifier
/// `F29F85E0-4FF9-1068-AB91-08002B27B3D9`, with its first three fields in
/// little-endian byte order and its last two in big-endian order.
pub const FMTID: [u8; 16] = [
    0xe0, 0x85, 0x9f, 0xf2, 0xf9, 0x4f, 0x68, 0x10, 0xab, 0x91, 0x08, 0x00, 0x2b, 0x27, 0xb3, 0xd9,
];

/// The version of the operating system that a new set names.
pub const OS_VERSION: u16 = 10;

/// The fields of a summary information set.  Each is held by the property
/// whose id is the place of the field in this list, counted from 1.
#[derive(Clone, Copy, Debug, PartialEq, Eq, Structural)]
pub enum SummaryInfoField {
    /// The code page of the texts of the set (1).
    Codepage,
    /// The title (2).
    Title,
    /// The subject (3).
    Subject,
    /// The author (4).
    Author,
    /// The keywords (5).
    Keywords,
    /// The comments (6).
    Comments,
    /// The template: platform and languages (7).
    Template,
    /// The name of whoever last saved the package (8).
    LastSavedBy,
    /// The revision id: the package code (9).
    RevisionNumber,
    /// The time of the last printing (10).
    LastPrinted,
    /// The time of creation (11).
    CreateDateTime,
    /// The time of the last saving (12).
    LastSaveDateTime,
    /// The page count: the least version of Windows Installer (13).
    PageCount,
    /// The word count: the flags of the source files (14).
    WordCount,
    /// The character count (15).  It has no accessor here and is kept as it
    /// is found.
    CharacterCount,
    /// The name of the application that created the package (16).
    CreatingApplication,
    /// The security level (17).
    Security,
}

impl SummaryInfoField {
    /// The id of the property that holds the field.
    pub open spec fn id_spec(self) -> u32 {
        match self {
            SummaryInfoField::Codepage => 1,
            SummaryInfoField::Title => 2,
            SummaryInfoField::Subject => 3,
            SummaryInfoField::Author => 4,
            SummaryInfoField::Keywords => 5,
            SummaryInfoField::Comments => 6,
            SummaryInfoField::Template => 7,
            SummaryInfoField::LastSavedBy => 8,
            SummaryInfoField::RevisionNumber => 9,
            SummaryInfoField::LastPrinted => 10,
            SummaryInfoField::CreateDateTime => 11,
            SummaryInfoField::LastSaveDateTime => 12,
            SummaryInfoField::PageCount => 13,
            SummaryInfoField::WordCount => 14,
            SummaryInfoField::CharacterCount => 15,
            SummaryInfoField::CreatingApplication => 16,
            SummaryInfoField::Security => 17,
        }
    }

    /// The id of the property that holds the field.
    pub fn id(&self) -> (id: u32)
        ensures
            id == self.id_spec(),
            1 <= id <= 17,
    {
        match self {
            SummaryInfoField::Codepage => 1,
            SummaryInfoField::Title => 2,
            SummaryInfoField::Subject => 3,
            SummaryInfoField::Author => 4,
            SummaryInfoField::Keywords => 5,
            SummaryInfoField::Comments => 6,
            SummaryInfoField::Template => 7,
            SummaryInfoField::LastSavedBy => 8,
            SummaryInfoField::RevisionNumber => 9,
            SummaryInfoField::LastPrinted => 10,
            SummaryInfoField::CreateDateTime => 11,
            SummaryInfoField::LastSaveDateTime => 12,
            SummaryInfoField::PageCount => 13,
            SummaryInfoField::WordCount => 14,
            SummaryInfoField::CharacterCount => 15,
            SummaryInfoField::CreatingApplication => 16,
            SummaryInfoField::Security => 17,
        }
    }

    /// The field that the property `id` holds; `UnsupportedValue` for an id
    /// outside 1 to 17.
    pub fn from_id(id: u32) -> (r: Result<SummaryInfoField, Error>)
        ensures
            1 <= id <= 17 ==> r is Ok && r->Ok_0.id_spec() == id,
            !(1 <= id <= 17) ==> r == Err::<SummaryInfoField, Error>(Error::UnsupportedValue),
    {
        match id {
            1 => Ok(SummaryInfoField::Codepage),
            2 => Ok(SummaryInfoField::Title),
            3 => Ok(SummaryInfoField::Subject),
            4 => Ok(SummaryInfoField::Author),
            5 => Ok(SummaryInfoField::Keywords),
            6 => Ok(SummaryInfoField::Comments),
            7 => Ok(SummaryInfoField::Template),
            8 => Ok(SummaryInfoField::LastSavedBy),
            9 => Ok(SummaryInfoField::RevisionNumber),
            10 => Ok(SummaryInfoField::LastPrinted),
            11 => Ok(SummaryInfoField::CreateDateTime),
            12 => Ok(SummaryInfoField::LastSaveDateTime),
            13 => Ok(SummaryInfoField::PageCount),
            14 => Ok(SummaryInfoField::WordCount),
            15 => Ok(SummaryInfoField::CharacterCount),
            16 => Ok(SummaryInfoField::CreatingApplication),
            17 => Ok(SummaryInfoField::Security),
            _ => Err(Error::UnsupportedValue),
        }
    }
}

/// The versions of Windows Installer that a package can ask for.  The page
/// count of a package holds the number of the least version that can
/// install it: the major version times 100, plus the minor version.
#[derive(Clone, Copy, Debug, PartialEq, Eq, Structural)]
pub enum WindowsInstallerVersion {
    /// Version 2.0 (200).
    V2_0,
    /// Version 3.0 (300).
    V3_0,
    /// Version 3.1 (301).
    V3_1,
    /// Version 4.5 (405).
    V4_5,
    /// Version 5.0 (500).
    V5_0,
}

impl WindowsInstallerVersion {
    /// The number that stands for the version.
    pub open spec fn number_spec(self) -> i32 {
        match self {
            WindowsInstallerVersion::V2_0 => 200,
            WindowsInstallerVersion::V3_0 => 300,
            WindowsInstallerVersion::V3_1 => 301,
            WindowsInstallerVersion::V4_5 => 405,
            WindowsInstallerVersion::V5_0 => 500,
        }
    }

    /// The version that `n` stands for, if any.
    pub open spec fn from_number_spec(n: i32) -> Option<WindowsInstallerVersion> {
        if n == 200 {
            Some(WindowsInstallerVersion::V2_0)
        } else if n == 300 {
            Some(WindowsInstallerVersion::V3_0)
        } else if n == 301 {
            Some(WindowsInstallerVersion::V3_1)
        } else if n == 405 {
            Some(WindowsInstallerVersion::V4_5)
        } else if n == 500 {
            Some(WindowsInstallerVersion::V5_0)
        } else {
            None
        }
    }

    /// The number that stands for the version.
    pub fn number(&self) -> (n: i32)
        ensures
            n == self.number_spec(),
    {
        match self {
            WindowsInstallerVersion::V2_0 => 200,
            WindowsInstallerVersion::V3_0 => 300,
            WindowsInstallerVersion::V3_1 => 301,
            WindowsInstallerVersion::V4_5 => 405,
            WindowsInstallerVersion::V5_0 => 500,
        }
    }

    /// The version that `n` stands for; `UnsupportedValue` if it stands for
    /// none.
    pub fn from_number(n: i32) -> (r: Result<WindowsInstallerVersion, Error>)
        ensures
            match Self::from_number_spec(n) {
                Some(v) => r == Ok::<WindowsInstallerVersion, Error>(v),
                None => r == Err::<WindowsInstallerVersion, Error>(Error::UnsupportedValue),
            },
    {
        if n == 200 {
            Ok(WindowsInstallerVersion::V2_0)
        } else if n == 300 {
            Ok(WindowsInstallerVersion::V3_0)
        } else if n == 301 {
            Ok(WindowsInstallerVersion::V3_1)
        } else if n == 405 {
            Ok(WindowsInstallerVersion::V4_5)
        } else if n == 500 {
            Ok(WindowsInstallerVersion::V5_0)
        } else {
            Err(Error::UnsupportedValue)
        }
    }
}

/// The value of the property that holds `field`, if the set has it.
pub open spec fn value_at(v: PropertySetView, field: SummaryInfoField) -> Option<
    PropertyValueView,
> {
    lookup(v.entries, field.id_spec())
}

/// The set `v` with the property of `field` set to `value`.
pub open spec fn with_field(
    v: PropertySetView,
    field: SummaryInfoField,
    value: PropertyValueView,
) -> PropertySetView {
    PropertySetView { entries: upsert(v.entries, field.id_spec(), value), ..v }
}

/// The set `v` without the property of `field`.
pub open spec fn without_field(v: PropertySetView, field: SummaryInfoField) -> PropertySetView {
    PropertySetView { entries: remove_id(v.entries, field.id_spec()), ..v }
}

/// The text that `field` holds: `None` if its property is absent or is not a
/// text.
pub open spec fn text_at(v: PropertySetView, field: SummaryInfoField) -> Option<Seq<char>> {
    match value_at(v, field) {
        Some(PropertyValueView::LpStr(t)) => Some(t),
        _ => None,
    }
}

/// The number that `field` holds: `None` if its property is absent or is not
/// a number.  A 16-bit number counts as the 32-bit number of the same value.
pub open spec fn number_at(v: PropertySetView, field: SummaryInfoField) -> Option<i32> {
    match value_at(v, field) {
        Some(PropertyValueView::I4(n)) => Some(n),
        Some(PropertyValueView::I2(n)) => Some(n as i32),
        _ => None,
    }
}

/// The tick count that `field` holds: `None` if its property is absent, is
/// not a tick count, or is larger than any that a [`Timestamp`] holds.
pub open spec fn ticks_at(v: PropertySetView, field: SummaryInfoField) -> Option<u64> {
    match value_at(v, field) {
        Some(PropertyValueView::FileTime(t)) => if t <= MAX_TICK_COUNT {
            Some(t)
        } else {
            None
        },
        _ => None,
    }
}

/// The value that names the code page `cp` in property 1: its number as a
/// 16-bit pattern.
pub open spec fn codepage_value(cp: CodePage) -> PropertyValueView {
    PropertyValueView::I2(i16_from_bits(cp.id_spec() as u16))
}

/// The code page that the set names: `None` if property 1 is absent or names
/// no code page that this crate knows.
pub open spec fn codepage_of(v: PropertySetView) -> Option<CodePage> {
    match value_at(v, SummaryInfoField::Codepage) {
        Some(value) => codepage_of_value(value),
        None => None,
    }
}

/// The platform that the template names: `None` if the template is absent or
/// names no platform that this crate knows.
pub open spec fn arch_of(v: PropertySetView) -> Option<Architecture> {
    match text_at(v, SummaryInfoField::Template) {
        Some(t) => arch_of_text(t),
        None => None,
    }
}

/// The codes of the languages that the template lists: none if the template
/// is absent.
pub open spec fn languages_of(v: PropertySetView) -> Seq<u16> {
    match text_at(v, SummaryInfoField::Template) {
        Some(t) => languages_of_text(t),
        None => Seq::empty(),
    }
}

/// The set `v` with its template rewritten to name the given platform and
/// languages.
pub open spec fn with_template(
    v: PropertySetView,
    arch: Option<Architecture>,
    languages: Seq<u16>,
) -> PropertySetView {
    with_field(
        v,
        SummaryInfoField::Template,
        PropertyValueView::LpStr(installation_text(arch, languages)),
    )
}

/// The set after `set_arch`: the template names `arch` and lists the
/// languages that it listed.
pub open spec fn after_set_arch(v: PropertySetView, arch: Architecture) -> PropertySetView {
    with_template(v, Some(arch), languages_of(v))
}

/// The set after `set_languages`: the template lists `languages` and names
/// the platform that it named.
pub open spec fn after_set_languages(v: PropertySetView, languages: Seq<u16>) -> PropertySetView {
    with_template(v, arch_of(v), languages)
}

/// The set after `clear_arch`: unchanged if the template named no platform;
/// otherwise the template lists the languages that it listed, or is removed
/// if it listed none.
pub open spec fn after_clear_arch(v: PropertySetView) -> PropertySetView {
    if arch_of(v) is None {
        v
    } else if languages_of(v).len() == 0 {
        without_field(v, SummaryInfoField::Template)
    } else {
        with_template(v, None, languages_of(v))
    }
}

/// The set after `clear_languages`: unchanged if the template listed no
/// language; otherwise the template names the platform that it named, or is
/// removed if it named none.
pub open spec fn after_clear_languages(v: PropertySetView) -> PropertySetView {
    if languages_of(v).len() == 0 {
        v
    } else if arch_of(v) is None {
        without_field(v, SummaryInfoField::Template)
    } else {
        with_template(v, arch_of(v), Seq::empty())
    }
}

/// The bytes of the revision id: `None` if the property is absent or is not
/// the text form of an identifier.
pub open spec fn revision_id_of(v: PropertySetView) -> Option<Seq<u8>> {
    match text_at(v, SummaryInfoField::RevisionNumber) {
        Some(t) => parse_braced(encode_utf8(t)),
        None => None,
    }
}

/// The 16-bit field of the word count: the pattern of a 16-bit number, or a
/// 32-bit number from 0 to 65535.  `None` if the property is absent or holds
/// anything else.
pub open spec fn word_count_of(v: PropertySetView) -> Option<u16> {
    match value_at(v, SummaryInfoField::WordCount) {
        Some(PropertyValueView::I4(n)) => if 0 <= n <= 0xFFFF {
            Some(n as u16)
        } else {
            None
        },
        Some(PropertyValueView::I2(n)) => Some(i16_bits(n)),
        _ => None,
    }
}

/// The version of Windows Installer that the page count names: `None` if the
/// property is absent or names none.
pub open spec fn page_count_of(v: PropertySetView) -> Option<WindowsInstallerVersion> {
    match number_at(v, SummaryInfoField::PageCount) {
        Some(n) => WindowsInstallerVersion::from_number_spec(n),
        None => None,
    }
}

/// Whether `level` is one of the security levels of a package: 0 (no
/// restriction), 2 (read-only recommended) or 4 (read-only enforced).
pub open spec fn is_security_level(level: i32) -> bool {
    level == 0 || level == 2 || level == 4
}

/// The security level of the package: `None` if the property is absent or is
/// not one of the levels.
pub open spec fn doc_security_of(v: PropertySetView) -> Option<i32> {
    match number_at(v, SummaryInfoField::Security) {
        Some(n) => if is_security_level(n) {
            Some(n)
        } else {
            None
        },
        None => None,
    }
}

/// The summary information set that `bytes` hold, or why they hold none.
///
/// `InvalidFormat` if the bytes are too few to hold a header or if their
/// format identifier, the 16 bytes from position 28, is not [`FMTID`];
/// otherwise as [`parse`] says.  The identifier is looked at first: bytes
/// with another identifier are `InvalidFormat` whatever else they hold.
pub open spec fn parse_summary(bytes: Seq<u8>) -> Result<PropertySetView, Error> {
    if bytes.len() < 48 || bytes.subrange(28, 44) != FMTID@ {
        Err(Error::InvalidFormat)
    } else {
        parse(bytes)
    }
}

/// The model of a new summary information set: it names 32-bit Windows,
/// version 10, and the code page UTF-8, and has no other property.
pub open spec fn new_summary() -> PropertySetView {
    with_field(
        PropertySetView {
            os: OperatingSystem::Win32,
            os_version: OS_VERSION,
            format_identifier: FMTID@,
            entries: Seq::empty(),
        },
        SummaryInfoField::Codepage,
        codepage_value(CodePage::Utf8),
    )
}

/// Summary information about an installer package.
#[derive(Clone, Debug, PartialEq, Eq)]
pub struct SummaryInfo {
    properties: PropertySet,
}

impl View for SummaryInfo {
    type V = PropertySetView;

    closed spec fn view(&self) -> PropertySetView {
        self.properties@
    }
}

impl SummaryInfo {
    /// The invariant of the type: the property set is well formed and has
    /// the format identifier [`FMTID`].
    pub closed spec fn wf(&self) -> bool {
        self.properties.wf() && self.properties@.format_identifier == FMTID@
    }

    /// The model of a well-formed summary information set is well formed
    /// and has the format identifier [`FMTID`].
    pub proof fn lemma_wf(&self)
        requires
            self.wf(),
        ensures
            self@.wf(),
            self@.format_identifier == FMTID@,
    {
        self.properties.lemma_wf();
    }

    /// Creates a summary information set that holds nothing but the code
    /// page UTF-8.
    pub fn new() -> (info: SummaryInfo)
        ensures
            info.wf(),
            info@ == new_summary(),
            codepage_of(info@) == Some(CodePage::Utf8),
            forall|id: u32|
                id != SummaryInfoField::Codepage.id_spec() ==> (#[trigger] lookup(
                    info@.entries,
                    id,
                )) is None,
    {
        let properties = PropertySet::new(OperatingSystem::Win32, OS_VERSION, FMTID);
        let mut info = SummaryInfo { properties };
        info.set_codepage(CodePage::Utf8);
        info
    }

    /// Parses a summary information set.
    ///
    /// The result is what [`parse_summary`] defines: the property set that
    /// the bytes hold, if their format identifier is [`FMTID`] and they hold
    /// one.
    pub fn read(source: &[u8]) -> (r: Result<SummaryInfo, Error>)
        ensures
            match parse_summary(source@) {
                Ok(v) => r is Ok && r->Ok_0@ == v && r->Ok_0.wf(),
                Err(e) => r is Err && r->Err_0 == e,
            },
    {
        if source.len() < 48 {
            return Err(Error::InvalidFormat);
        }
        let mut i: usize = 0;
        while i < 16
            invariant
                i <= 16,
                source@.len() >= 48,
                forall|j: int| 0 <= j < i ==> source@[28 + j] == FMTID@[j],
            decreases 16 - i,
        {
            if source[28 + i] != FMTID[i] {
                assert(source@.subrange(28, 44)[i as int] != FMTID@[i as int]);
                return Err(Error::InvalidFormat);
            }
            i += 1;
        }
        assert(source@.subrange(28, 44) =~= FMTID@);
        match PropertySet::read(source) {
            Ok(properties) => Ok(SummaryInfo { properties }),
            Err(e) => Err(e),
        }
    }

    /// Serialises the set and appends its bytes to `sink`: the bytes that
    /// [`serialize`] defines, which [`read`](Self::read) reads back as this
    /// set.  On an error `sink` is left as it was.
    pub fn write(&self, sink: &mut Vec<u8>) -> (r: Result<(), Error>)
        requires
            self.wf(),
        ensures
            match serialize(self@) {
                Ok(bytes) => r is Ok && final(sink)@ == old(sink)@ + bytes && parse_summary(bytes)
                    == Ok::<PropertySetView, Error>(self@),
                Err(e) => r == Err::<(), Error>(e) && final(sink)@ == old(sink)@,
            },
    {
        self.properties.write(sink)
    }

    /// The property set that holds the fields.
    pub fn properties(&self) -> (properties: &PropertySet)
        requires
            self.wf(),
        ensures
            properties.wf(),
            properties@ == self@,
    {
        &self.properties
    }

    /// Gives up the typed view and returns the property set that holds the
    /// fields: each field that is present is the property of its id, and no
    /// property stands for a field that is absent.
    pub fn into_property_set(self) -> (properties: PropertySet)
        requires
            self.wf(),
        ensures
            properties.wf(),
            properties@ == self@,
            properties@.format_identifier == FMTID@,
    {
        self.properties
    }

    /// The text that `field` holds.
    fn get_text(&self, field: SummaryInfoField) -> (text: Option<String>)
        requires
            self.wf(),
        ensures
            match text_at(self@, field) {
                Some(t) => text is Some && text->0@ == t,
                None => text is None,
            },
    {
        match self.properties.get(field.id()) {
            Some(PropertyValue::LpStr(text)) => Some(text.clone()),
            _ => None,
        }
    }

    /// Sets `field` to a text.
    fn set_text(&mut self, field: SummaryInfoField, text: &str)
        requires
            old(self).wf(),
        ensures
            final(self).wf(),
            final(self)@ == with_field(old(self)@, field, PropertyValueView::LpStr(text@)),
            only_changed(
                old(self)@.entries,
                final(self)@.entries,
                field.id_spec(),
                Some(PropertyValueView::LpStr(text@)),
            ),
    {
        self.properties.set(field.id(), PropertyValue::LpStr(text.to_owned()));
    }

    /// The number that `field` holds.
    fn get_number(&self, field: SummaryInfoField) -> (number: Option<i32>)
        requires
            self.wf(),
        ensures
            number == number_at(self@, field),
    {
        match self.properties.get(field.id()) {
            Some(PropertyValue::I4(n)) => Some(*n),
            Some(PropertyValue::I2(n)) => Some(*n as i32),
            _ => None,
        }
    }

    /// The timestamp that `field` holds.
    fn get_time(&self, field: SummaryInfoField) -> (time: Option<Timestamp>)
        requires
            self.wf(),
        ensures
            match ticks_at(self@, field) {
                Some(t) => time is Some && time->0@ == t && time->0.wf(),
                None => time is None,
            },
    {
        match self.properties.get(field.id()) {
            Some(PropertyValue::FileTime(ticks)) => Timestamp::from_tick_count(*ticks),
            _ => None,
        }
    }

    /// Removes the property of `field`.
    fn clear(&mut self, field: SummaryInfoField)
        requires
            old(self).wf(),
        ensures
            final(self).wf(),
            final(self)@ == without_field(old(self)@, field),
            only_changed(old(self)@.entries, final(self)@.entries, field.id_spec(), None),
            value_at(old(self)@, field) is None ==> final(self)@ == old(self)@,
    {
        let _ = self.properties.remove(field.id());
    }

    /// The code page in which the texts of the set are written to bytes.
    /// `None` if the set names none, or one that this crate does not know.
    pub fn codepage(&self) -> (cp: Option<CodePage>)
        requires
            self.wf(),
        ensures
            cp == codepage_of(self@),
    {
        match self.properties.get(SummaryInfoField::Codepage.id()) {
            Some(PropertyValue::I2(n)) => CodePage::from_id(bits_of_i16(*n) as i32),
            _ => None,
        }
    }

    /// Sets the code page in which the texts of the set are written to
    /// bytes.  The texts that the set holds do not change; one that the new
    /// code page cannot encode makes the next `write` fail.
    pub fn set_codepage(&mut self, cp: CodePage)
        requires
            old(self).wf(),
        ensures
            final(self).wf(),
            final(self)@ == with_field(old(self)@, SummaryInfoField::Codepage, codepage_value(cp)),
            only_changed(
                old(self)@.entries,
                final(self)@.entries,
                SummaryInfoField::Codepage.id_spec(),
                Some(codepage_value(cp)),
            ),
            codepage_of(final(self)@) == Some(cp),
    {
        let pattern: u16 = cp.id() as u16;
        assert(i16_bits(i16_from_bits(pattern)) == pattern);
        self.properties.set(
            SummaryInfoField::Codepage.id(),
            PropertyValue::I2(i16_of_bits(pattern)),
        );
    }

    /// Removes the code page: the set is then written in UTF-8.  Nothing
    /// changes if it is absent.
    pub fn clear_codepage(&mut self)
        requires
            old(self).wf(),
        ensures
            final(self).wf(),
            final(self)@ == without_field(old(self)@, SummaryInfoField::Codepage),
            only_changed(old(self)@.entries, final(self)@.entries, SummaryInfoField::Codepage.id_spec(), None),
            value_at(old(self)@, SummaryInfoField::Codepage) is None ==> final(self)@ == old(self)@,
    {
        self.clear(SummaryInfoField::Codepage);
    }

    /// The title of the package, such as `Installation Database`.  `None` if the property is absent or is not a text.
    pub fn title(&self) -> (text: Option<String>)
        requires
            self.wf(),
        ensures
            match text_at(self@, SummaryInfoField::Title) {
                Some(t) => text is Some && text->0@ == t,
                None => text is None,
            },
    {
        self.get_text(SummaryInfoField::Title)
    }

    /// Sets the title.
    pub fn set_title(&mut self, text: &str)
        requires
            old(self).wf(),
        ensures
            final(self).wf(),
            final(self)@ == with_field(
                old(self)@,
                SummaryInfoField::Title,
                PropertyValueView::LpStr(text@),
            ),
            only_changed(
                old(self)@.entries,
                final(self)@.entries,
                SummaryInfoField::Title.id_spec(),
                Some(PropertyValueView::LpStr(text@)),
            ),
    {
        self.set_text(SummaryInfoField::Title, text);
    }

    /// Removes the title.  Nothing changes if it is absent.
    pub fn clear_title(&mut self)
        requires
            old(self).wf(),
        ensures
            final(self).wf(),
            final(self)@ == without_field(old(self)@, SummaryInfoField::Title),
            only_changed(old(self)@.entries, final(self)@.entries, SummaryInfoField::Title.id_spec(), None),
            value_at(old(self)@, SummaryInfoField::Title) is None ==> final(self)@ == old(self)@,
    {
        self.clear(SummaryInfoField::Title);
    }

    /// The subject: usually the name of the product.  `None` if the property is absent or is not a text.
    pub fn subject(&self) -> (text: Option<String>)
        requires
            self.wf(),
        ensures
            match text_at(self@, SummaryInfoField::Subject) {
                Some(t) => text is Some && text->0@ == t,
                None => text is None,
            },
    {
        self.get_text(SummaryInfoField::Subject)
    }

    /// Sets the subject.
    pub fn set_subject(&mut self, text: &str)
        requires
            old(self).wf(),
        ensures
            final(self).wf(),
            final(self)@ == with_field(
                old(self)@,
                SummaryInfoField::Subject,
                PropertyValueView::LpStr(text@),
            ),
            only_changed(
                old(self)@.entries,
                final(self)@.entries,
                SummaryInfoField::Subject.id_spec(),
                Some(PropertyValueView::LpStr(text@)),
            ),
    {
        self.set_text(SummaryInfoField::Subject, text);
    }

    /// Removes the subject.  Nothing changes if it is absent.
    pub fn clear_subject(&mut self)
        requires
            old(self).wf(),
        ensures
            final(self).wf(),
            final(self)@ == without_field(old(self)@, SummaryInfoField::Subject),
            only_changed(old(self)@.entries, final(self)@.entries, SummaryInfoField::Subject.id_spec(), None),
            value_at(old(self)@, SummaryInfoField::Subject) is None ==> final(self)@ == old(self)@,
    {
        self.clear(SummaryInfoField::Subject);
    }

    /// The author: usually the manufacturer of the product.  `None` if the property is absent or is not a text.
    pub fn author(&self) -> (text: Option<String>)
        requires
            self.wf(),
        ensures
            match text_at(self@, SummaryInfoField::Author) {
                Some(t) => text is Some && text->0@ == t,
                None => text is None,
            },
    {
        self.get_text(SummaryInfoField::Author)
    }

    /// Sets the author.
    pub fn set_author(&mut self, text: &str)
        requires
            old(self).wf(),
        ensures
            final(self).wf(),
            final(self)@ == with_field(
                old(self)@,
                SummaryInfoField::Author,
                PropertyValueView::LpStr(text@),
            ),
            only_changed(
                old(self)@.entries,
                final(self)@.entries,
                SummaryInfoField::Author.id_spec(),
                Some(PropertyValueView::LpStr(text@)),
            ),
    {
        self.set_text(SummaryInfoField::Author, text);
    }

    /// Removes the author.  Nothing changes if it is absent.
    pub fn clear_author(&mut self)
        requires
            old(self).wf(),
        ensures
            final(self).wf(),
            final(self)@ == without_field(old(self)@, SummaryInfoField::Author),
            only_changed(old(self)@.entries, final(self)@.entries, SummaryInfoField::Author.id_spec(), None),
            value_at(old(self)@, SummaryInfoField::Author) is None ==> final(self)@ == old(self)@,
    {
        self.clear(SummaryInfoField::Author);
    }

    /// The keywords, as one text.  `None` if the property is absent or is not a text.
    pub fn keywords(&self) -> (text: Option<String>)
        requires
            self.wf(),
        ensures
            match text_at(self@, SummaryInfoField::Keywords) {
                Some(t) => text is Some && text->0@ == t,
                None => text is None,
            },
    {
        self.get_text(SummaryInfoField::Keywords)
    }

    /// Sets the keywords.
    pub fn set_keywords(&mut self, text: &str)
        requires
            old(self).wf(),
        ensures
            final(self).wf(),
            final(self)@ == with_field(
                old(self)@,
                SummaryInfoField::Keywords,
                PropertyValueView::LpStr(text@),
            ),
            only_changed(
                old(self)@.entries,
                final(self)@.entries,
                SummaryInfoField::Keywords.id_spec(),
                Some(PropertyValueView::LpStr(text@)),
            ),
    {
        self.set_text(SummaryInfoField::Keywords, text);
    }

    /// Removes the keywords.  Nothing changes if it is absent.
    pub fn clear_keywords(&mut self)
        requires
            old(self).wf(),
        ensures
            final(self).wf(),
            final(self)@ == without_field(old(self)@, SummaryInfoField::Keywords),
            only_changed(old(self)@.entries, final(self)@.entries, SummaryInfoField::Keywords.id_spec(), None),
            value_at(old(self)@, SummaryInfoField::Keywords) is None ==> final(self)@ == old(self)@,
    {
        self.clear(SummaryInfoField::Keywords);
    }

    /// The comments: usually a sentence on what the package installs.  `None` if the property is absent or is not a text.
    pub fn comments(&self) -> (text: Option<String>)
        requires
            self.wf(),
        ensures
            match text_at(self@, SummaryInfoField::Comments) {
                Some(t) => text is Some && text->0@ == t,
                None => text is None,
            },
    {
        self.get_text(SummaryInfoField::Comments)
    }

    /// Sets the comments.
    pub fn set_comments(&mut self, text: &str)
        requires
            old(self).wf(),
        ensures
            final(self).wf(),
            final(self)@ == with_field(
                old(self)@,
                SummaryInfoField::Comments,
                PropertyValueView::LpStr(text@),
            ),
            only_changed(
                old(self)@.entries,
                final(self)@.entries,
                SummaryInfoField::Comments.id_spec(),
                Some(PropertyValueView::LpStr(text@)),
            ),
    {
        self.set_text(SummaryInfoField::Comments, text);
    }

    /// Removes the comments.  Nothing changes if it is absent.
    pub fn clear_comments(&mut self)
        requires
            old(self).wf(),
        ensures
            final(self).wf(),
            final(self)@ == without_field(old(self)@, SummaryInfoField::Comments),
            only_changed(old(self)@.entries, final(self)@.entries, SummaryInfoField::Comments.id_spec(), None),
            value_at(old(self)@, SummaryInfoField::Comments) is None ==> final(self)@ == old(self)@,
    {
        self.clear(SummaryInfoField::Comments);
    }

    /// The name of whoever last saved the package.  `None` if the property is absent or is not a text.
    pub fn last_saved_by(&self) -> (text: Option<String>)
        requires
            self.wf(),
        ensures
            match text_at(self@, SummaryInfoField::LastSavedBy) {
                Some(t) => text is Some && text->0@ == t,
                None => text is None,
            },
    {
        self.get_text(SummaryInfoField::LastSavedBy)
    }

    /// Sets the name of whoever last saved the package.
    pub fn set_last_saved_by(&mut self, text: &str)
        requires
            old(self).wf(),
        ensures
            final(self).wf(),
            final(self)@ == with_field(
                old(self)@,
                SummaryInfoField::LastSavedBy,
                PropertyValueView::LpStr(text@),
            ),
            only_changed(
                old(self)@.entries,
                final(self)@.entries,
                SummaryInfoField::LastSavedBy.id_spec(),
                Some(PropertyValueView::LpStr(text@)),
            ),
    {
        self.set_text(SummaryInfoField::LastSavedBy, text);
    }

    /// Removes the name of whoever last saved the package.  Nothing changes if it is absent.
    pub fn clear_last_saved_by(&mut self)
        requires
            old(self).wf(),
        ensures
            final(self).wf(),
            final(self)@ == without_field(old(self)@, SummaryInfoField::LastSavedBy),
            only_changed(old(self)@.entries, final(self)@.entries, SummaryInfoField::LastSavedBy.id_spec(), None),
            value_at(old(self)@, SummaryInfoField::LastSavedBy) is None ==> final(self)@ == old(self)@,
    {
        self.clear(SummaryInfoField::LastSavedBy);
    }

    /// The name of the application that created the package.  `None` if the property is absent or is not a text.
    pub fn creating_application(&self) -> (text: Option<String>)
        requires
            self.wf(),
        ensures
            match text_at(self@, SummaryInfoField::CreatingApplication) {
                Some(t) => text is Some && text->0@ == t,
                None => text is None,
            },
    {
        self.get_text(SummaryInfoField::CreatingApplication)
    }

    /// Sets the creating application.
    pub fn set_creating_application(&mut self, text: &str)
        requires
            old(self).wf(),
        ensures
            final(self).wf(),
            final(self)@ == with_field(
                old(self)@,
                SummaryInfoField::CreatingApplication,
                PropertyValueView::LpStr(text@),
            ),
            only_changed(
                old(self)@.entries,
                final(self)@.entries,
                SummaryInfoField::CreatingApplication.id_spec(),
                Some(PropertyValueView::LpStr(text@)),
            ),
    {
        self.set_text(SummaryInfoField::CreatingApplication, text);
    }

    /// Removes the creating application.  Nothing changes if it is absent.
    pub fn clear_creating_application(&mut self)
        requires
            old(self).wf(),
        ensures
            final(self).wf(),
            final(self)@ == without_field(old(self)@, SummaryInfoField::CreatingApplication),
            only_changed(old(self)@.entries, final(self)@.entries, SummaryInfoField::CreatingApplication.id_spec(), None),
            value_at(old(self)@, SummaryInfoField::CreatingApplication) is None ==> final(self)@ == old(self)@,
    {
        self.clear(SummaryInfoField::CreatingApplication);
    }

    /// The time at which the package was last printed.  `None` if the property is absent, is not a tick count,
    /// or is a tick count that no [`Timestamp`] holds.
    pub fn last_printed(&self) -> (time: Option<Timestamp>)
        requires
            self.wf(),
        ensures
            match ticks_at(self@, SummaryInfoField::LastPrinted) {
                Some(t) => time is Some && time->0@ == t && time->0.wf(),
                None => time is None,
            },
    {
        self.get_time(SummaryInfoField::LastPrinted)
    }

    /// Sets the time at which the package was last printed.
    pub fn set_last_printed(&mut self, time: Timestamp)
        requires
            old(self).wf(),
        ensures
            final(self).wf(),
            final(self)@ == with_field(
                old(self)@,
                SummaryInfoField::LastPrinted,
                PropertyValueView::FileTime(time@),
            ),
            only_changed(
                old(self)@.entries,
                final(self)@.entries,
                SummaryInfoField::LastPrinted.id_spec(),
                Some(PropertyValueView::FileTime(time@)),
            ),
            ticks_at(final(self)@, SummaryInfoField::LastPrinted) == Some(time@),
    {
        self.properties.set(
            SummaryInfoField::LastPrinted.id(),
            PropertyValue::FileTime(time.to_tick_count()),
        );
    }

    /// Removes the time at which the package was last printed.  Nothing changes if it is absent.
    pub fn clear_last_printed(&mut self)
        requires
            old(self).wf(),
        ensures
            final(self).wf(),
            final(self)@ == without_field(old(self)@, SummaryInfoField::LastPrinted),
            only_changed(old(self)@.entries, final(self)@.entries, SummaryInfoField::LastPrinted.id_spec(), None),
            value_at(old(self)@, SummaryInfoField::LastPrinted) is None ==> final(self)@ == old(self)@,
    {
        self.clear(SummaryInfoField::LastPrinted);
    }

    /// The time at which the package was created.  `None` if the property is absent, is not a tick count,
    /// or is a tick count that no [`Timestamp`] holds.
    pub fn creation_time(&self) -> (time: Option<Timestamp>)
        requires
            self.wf(),
        ensures
            match ticks_at(self@, SummaryInfoField::CreateDateTime) {
                Some(t) => time is Some && time->0@ == t && time->0.wf(),
                None => time is None,
            },
    {
        self.get_time(SummaryInfoField::CreateDateTime)
    }

    /// Sets the time at which the package was created.
    pub fn set_creation_time(&mut self, time: Timestamp)
        requires
            old(self).wf(),
        ensures
            final(self).wf(),
            final(self)@ == with_field(
                old(self)@,
                SummaryInfoField::CreateDateTime,
                PropertyValueView::FileTime(time@),
            ),
            only_changed(
                old(self)@.entries,
                final(self)@.entries,
                SummaryInfoField::CreateDateTime.id_spec(),
                Some(PropertyValueView::FileTime(time@)),
            ),
            ticks_at(final(self)@, SummaryInfoField::CreateDateTime) == Some(time@),
    {
        self.properties.set(
            SummaryInfoField::CreateDateTime.id(),
            PropertyValue::FileTime(time.to_tick_count()),
        );
    }

    /// Removes the time at which the package was created.  Nothing changes if it is absent.
    pub fn clear_creation_time(&mut self)
        requires
            old(self).wf(),
        ensures
            final(self).wf(),
            final(self)@ == without_field(old(self)@, SummaryInfoField::CreateDateTime),
            only_changed(old(self)@.entries, final(self)@.entries, SummaryInfoField::CreateDateTime.id_spec(), None),
            value_at(old(self)@, SummaryInfoField::CreateDateTime) is None ==> final(self)@ == old(self)@,
    {
        self.clear(SummaryInfoField::CreateDateTime);
    }

    /// The time at which the package was last saved.  `None` if the property is absent, is not a tick count,
    /// or is a tick count that no [`Timestamp`] holds.
    pub fn last_save_time(&self) -> (time: Option<Timestamp>)
        requires
            self.wf(),
        ensures
            match ticks_at(self@, SummaryInfoField::LastSaveDateTime) {
                Some(t) => time is Some && time->0@ == t && time->0.wf(),
                None => time is None,
            },
    {
        self.get_time(SummaryInfoField::LastSaveDateTime)
    }

    /// Sets the time at which the package was last saved.
    pub fn set_last_save_time(&mut self, time: Timestamp)
        requires
            old(self).wf(),
        ensures
            final(self).wf(),
            final(self)@ == with_field(
                old(self)@,
                SummaryInfoField::LastSaveDateTime,
                PropertyValueView::FileTime(time@),
            ),
            only_changed(
                old(self)@.entries,
                final(self)@.entries,
                SummaryInfoField::LastSaveDateTime.id_spec(),
                Some(PropertyValueView::FileTime(time@)),
            ),
            ticks_at(final(self)@, SummaryInfoField::LastSaveDateTime) == Some(time@),
    {
        self.properties.set(
            SummaryInfoField::LastSaveDateTime.id(),
            PropertyValue::FileTime(time.to_tick_count()),
        );
    }

    /// Removes the time at which the package was last saved.  Nothing changes if it is absent.
    pub fn clear_last_save_time(&mut self)
        requires
            old(self).wf(),
        ensures
            final(self).wf(),
            final(self)@ == without_field(old(self)@, SummaryInfoField::LastSaveDateTime),
            only_changed(old(self)@.entries, final(self)@.entries, SummaryInfoField::LastSaveDateTime.id_spec(), None),
            value_at(old(self)@, SummaryInfoField::LastSaveDateTime) is None ==> final(self)@ == old(self)@,
    {
        self.clear(SummaryInfoField::LastSaveDateTime);
    }

    /// The template, read as that of an installation package.  `None` if
    /// the property is absent or is not a text.
    pub fn template(&self) -> (template: Option<Template>)
        requires
            self.wf(),
        ensures
            match text_at(self@, SummaryInfoField::Template) {
                Some(t) => template is Some && template->0@ == parse_installation(t),
                None => template is None,
            },
    {
        match self.get_text(SummaryInfoField::Template) {
            Some(text) => Some(Template::parse_installation(text.as_str())),
            None => None,
        }
    }

    /// Sets the template, of whichever kind, to the text of `template`.
    pub fn set_template(&mut self, template: &Template)
        requires
            old(self).wf(),
        ensures
            final(self).wf(),
            final(self)@ == with_field(
                old(self)@,
                SummaryInfoField::Template,
                PropertyValueView::LpStr(template_text(template@)),
            ),
            only_changed(
                old(self)@.entries,
                final(self)@.entries,
                SummaryInfoField::Template.id_spec(),
                Some(PropertyValueView::LpStr(template_text(template@))),
            ),
    {
        let text = template.to_text();
        self.properties.set(SummaryInfoField::Template.id(), PropertyValue::LpStr(text));
    }

    /// Removes the template.  Nothing changes if it is absent.
    pub fn clear_template(&mut self)
        requires
            old(self).wf(),
        ensures
            final(self).wf(),
            final(self)@ == without_field(old(self)@, SummaryInfoField::Template),
            only_changed(old(self)@.entries, final(self)@.entries, SummaryInfoField::Template.id_spec(), None),
            value_at(old(self)@, SummaryInfoField::Template) is None ==> final(self)@ == old(self)@,
    {
        self.clear(SummaryInfoField::Template);
    }

    /// The platform that the package is meant for.  `None` if the template
    /// is absent or names no platform that this crate knows.
    pub fn arch(&self) -> (arch: Option<Architecture>)
        requires
            self.wf(),
        ensures
            arch == arch_of(self@),
    {
        match self.get_text(SummaryInfoField::Template) {
            Some(text) => read_arch(text.as_str()),
            None => None,
        }
    }

    /// Sets the platform that the package is meant for.  The template is
    /// written anew, with this platform and the languages that it listed.
    pub fn set_arch(&mut self, arch: Architecture)
        requires
            old(self).wf(),
        ensures
            final(self).wf(),
            final(self)@ == after_set_arch(old(self)@, arch),
            only_changed(
                old(self)@.entries,
                final(self)@.entries,
                SummaryInfoField::Template.id_spec(),
                Some(
                    PropertyValueView::LpStr(
                        installation_text(Some(arch), languages_of(old(self)@)),
                    ),
                ),
            ),
            arch_of(final(self)@) == Some(arch),
            languages_of(final(self)@) == languages_of(old(self)@),
    {
        proof {
            lemma_parse_installation_text(Some(arch), languages_of(self@));
        }
        let languages = self.languages();
        let text = write_installation(Some(arch), languages.as_slice());
        self.properties.set(SummaryInfoField::Template.id(), PropertyValue::LpStr(text));
    }

    /// Removes the platform from the template.  Nothing changes if the
    /// template names none.  Otherwise the template is written anew with
    /// the languages that it listed, or removed if it listed none.
    pub fn clear_arch(&mut self)
        requires
            old(self).wf(),
        ensures
            final(self).wf(),
            final(self)@ == after_clear_arch(old(self)@),
            arch_of(final(self)@) is None,
            languages_of(final(self)@) == languages_of(old(self)@),
            only_changed(
                old(self)@.entries,
                final(self)@.entries,
                SummaryInfoField::Template.id_spec(),
                lookup(final(self)@.entries, SummaryInfoField::Template.id_spec()),
            ),
    {
        proof {
            lemma_parse_installation_text(None, languages_of(self@));
        }
        if self.arch().is_none() {
            return;
        }
        let languages = self.languages();
        if languages.len() == 0 {
            self.clear(SummaryInfoField::Template);
        } else {
            let text = write_installation(None, languages.as_slice());
            self.properties.set(SummaryInfoField::Template.id(), PropertyValue::LpStr(text));
        }
    }

    /// The languages that the package is meant for: none if the template is
    /// absent.
    pub fn languages(&self) -> (languages: Vec<Language>)
        requires
            self.wf(),
        ensures
            codes_of(languages@) == languages_of(self@),
            languages@.len() == languages_of(self@).len(),
    {
        match self.get_text(SummaryInfoField::Template) {
            Some(text) => read_languages(text.as_str()),
            None => {
                let none: Vec<Language> = Vec::new();
                assert(codes_of(none@) =~= Seq::<u16>::empty());
                none
            },
        }
    }

    /// Sets the languages that the package is meant for.  The template is
    /// written anew, with these languages and the platform that it named.
    pub fn set_languages(&mut self, languages: &[Language])
        requires
            old(self).wf(),
        ensures
            final(self).wf(),
            final(self)@ == after_set_languages(old(self)@, codes_of(languages@)),
            only_changed(
                old(self)@.entries,
                final(self)@.entries,
                SummaryInfoField::Template.id_spec(),
                Some(
                    PropertyValueView::LpStr(
                        installation_text(arch_of(old(self)@), codes_of(languages@)),
                    ),
                ),
            ),
            arch_of(final(self)@) == arch_of(old(self)@),
            languages_of(final(self)@) == codes_of(languages@),
    {
        proof {
            lemma_parse_installation_text(arch_of(self@), codes_of(languages@));
        }
        let arch = self.arch();
        let text = write_installation(arch, languages);
        self.properties.set(SummaryInfoField::Template.id(), PropertyValue::LpStr(text));
    }

    /// Removes the languages from the template.  Nothing changes if the
    /// template lists none.  Otherwise the template is written anew with
    /// the platform that it named, or removed if it named none.
    pub fn clear_languages(&mut self)
        requires
            old(self).wf(),
        ensures
            final(self).wf(),
            final(self)@ == after_clear_languages(old(self)@),
            languages_of(final(self)@).len() == 0,
            arch_of(final(self)@) == arch_of(old(self)@),
            only_changed(
                old(self)@.entries,
                final(self)@.entries,
                SummaryInfoField::Template.id_spec(),
                lookup(final(self)@.entries, SummaryInfoField::Template.id_spec()),
            ),
    {
        proof {
            lemma_parse_installation_text(arch_of(self@), Seq::empty());
        }
        let languages = self.languages();
        if languages.len() == 0 {
            return;
        }
        let arch = self.arch();
        if arch.is_none() {
            self.clear(SummaryInfoField::Template);
        } else {
            let none: Vec<Language> = Vec::new();
            assert(codes_of(none@) =~= Seq::<u16>::empty());
            let text = write_installation(arch, none.as_slice());
            self.properties.set(SummaryInfoField::Template.id(), PropertyValue::LpStr(text));
        }
    }

    /// The revision id: for an installation package, its package code.
    /// `None` if the property is absent or is not the text form of an
    /// identifier, in braces.
    pub fn revision_id(&self) -> (id: Option<Guid>)
        requires
            self.wf(),
        ensures
            match revision_id_of(self@) {
                Some(bytes) => id is Some && id->0@ == bytes,
                None => id is None,
            },
    {
        match self.get_text(SummaryInfoField::RevisionNumber) {
            Some(text) => Guid::parse_braced(text.as_str()),
            None => None,
        }
    }

    /// Sets the revision id.  It is stored as its text form, in braces and
    /// upper case.
    pub fn set_revision_id(&mut self, id: Guid)
        requires
            old(self).wf(),
        ensures
            final(self).wf(),
            final(self)@ == with_field(
                old(self)@,
                SummaryInfoField::RevisionNumber,
                PropertyValueView::LpStr(braced_upper(id@)),
            ),
            only_changed(
                old(self)@.entries,
                final(self)@.entries,
                SummaryInfoField::RevisionNumber.id_spec(),
                Some(PropertyValueView::LpStr(braced_upper(id@))),
            ),
            revision_id_of(final(self)@) == Some(id@),
    {
        proof {
            id.lemma_len();
            lemma_parse_braced_upper(id@);
        }
        let text = id.to_braced_upper();
        self.properties.set(SummaryInfoField::RevisionNumber.id(), PropertyValue::LpStr(text));
    }

    /// Removes the revision id.  Nothing changes if it is absent.
    pub fn clear_revision_id(&mut self)
        requires
            old(self).wf(),
        ensures
            final(self).wf(),
            final(self)@ == without_field(old(self)@, SummaryInfoField::RevisionNumber),
            only_changed(old(self)@.entries, final(self)@.entries, SummaryInfoField::RevisionNumber.id_spec(), None),
            value_at(old(self)@, SummaryInfoField::RevisionNumber) is None ==> final(self)@ == old(self)@,
    {
        self.clear(SummaryInfoField::RevisionNumber);
    }

    /// The least version of Windows Installer that can install the package.
    /// `None` if the property is absent or names no version of
    /// [`WindowsInstallerVersion`].
    pub fn page_count(&self) -> (version: Option<WindowsInstallerVersion>)
        requires
            self.wf(),
        ensures
            version == page_count_of(self@),
    {
        match self.get_number(SummaryInfoField::PageCount) {
            Some(n) => match WindowsInstallerVersion::from_number(n) {
                Ok(version) => Some(version),
                Err(_) => None,
            },
            None => None,
        }
    }

    /// Sets the least version of Windows Installer that can install the
    /// package.
    pub fn set_page_count(&mut self, version: WindowsInstallerVersion)
        requires
            old(self).wf(),
        ensures
            final(self).wf(),
            final(self)@ == with_field(
                old(self)@,
                SummaryInfoField::PageCount,
                PropertyValueView::I4(version.number_spec()),
            ),
            only_changed(
                old(self)@.entries,
                final(self)@.entries,
                SummaryInfoField::PageCount.id_spec(),
                Some(PropertyValueView::I4(version.number_spec())),
            ),
            page_count_of(final(self)@) == Some(version),
    {
        self.properties.set(SummaryInfoField::PageCount.id(), PropertyValue::I4(version.number()));
    }

    /// Removes the page count.  Nothing changes if it is absent.
    pub fn clear_page_count(&mut self)
        requires
            old(self).wf(),
        ensures
            final(self).wf(),
            final(self)@ == without_field(old(self)@, SummaryInfoField::PageCount),
            only_changed(old(self)@.entries, final(self)@.entries, SummaryInfoField::PageCount.id_spec(), None),
            value_at(old(self)@, SummaryInfoField::PageCount) is None ==> final(self)@ == old(self)@,
    {
        self.clear(SummaryInfoField::PageCount);
    }

    /// The word count: the flags that say how the source files are kept.
    /// Every bit of the stored field is kept in the result.  `None` if the
    /// property is absent or is no 16-bit field.
    pub fn word_count(&self) -> (flags: Option<WordCount>)
        requires
            self.wf(),
        ensures
            match word_count_of(self@) {
                Some(bits) => flags is Some && flags->0@ == bits && flags->0.wf(),
                None => flags is None,
            },
    {
        match self.properties.get(SummaryInfoField::WordCount.id()) {
            Some(PropertyValue::I4(n)) => if 0 <= *n && *n <= 0xFFFF {
                Some(WordCount::from_bits(*n as u16))
            } else {
                None
            },
            Some(PropertyValue::I2(n)) => Some(WordCount::from_bits(bits_of_i16(*n))),
            _ => None,
        }
    }

    /// Sets the word count.  Every bit of `flags` is stored.
    pub fn set_word_count(&mut self, flags: WordCount)
        requires
            old(self).wf(),
        ensures
            final(self).wf(),
            final(self)@ == with_field(
                old(self)@,
                SummaryInfoField::WordCount,
                PropertyValueView::I4(flags@ as i32),
            ),
            only_changed(
                old(self)@.entries,
                final(self)@.entries,
                SummaryInfoField::WordCount.id_spec(),
                Some(PropertyValueView::I4(flags@ as i32)),
            ),
            word_count_of(final(self)@) == Some(flags@),
    {
        self.properties.set(
            SummaryInfoField::WordCount.id(),
            PropertyValue::I4(flags.bits() as i32),
        );
    }

    /// Removes the word count.  Nothing changes if it is absent.
    pub fn clear_word_count(&mut self)
        requires
            old(self).wf(),
        ensures
            final(self).wf(),
            final(self)@ == without_field(old(self)@, SummaryInfoField::WordCount),
            only_changed(old(self)@.entries, final(self)@.entries, SummaryInfoField::WordCount.id_spec(), None),
            value_at(old(self)@, SummaryInfoField::WordCount) is None ==> final(self)@ == old(self)@,
    {
        self.clear(SummaryInfoField::WordCount);
    }

    /// The security level of the package: 0, 2 or 4.  `None` if the property
    /// is absent or holds anything else.
    pub fn doc_security(&self) -> (level: Option<i32>)
        requires
            self.wf(),
        ensures
            level == doc_security_of(self@),
    {
        match self.get_number(SummaryInfoField::Security) {
            Some(n) => if n == 0 || n == 2 || n == 4 {
                Some(n)
            } else {
                None
            },
            None => None,
        }
    }

    /// Sets the security level of the package: 0 (no restriction), 2
    /// (read-only recommended) or 4 (read-only enforced).  Any other level
    /// is a `ValidationError` and changes nothing.
    pub fn set_doc_security(&mut self, level: i32) -> (r: Result<(), Error>)
        requires
            old(self).wf(),
        ensures
            final(self).wf(),
            is_security_level(level) ==> r is Ok && final(self)@ == with_field(
                old(self)@,
                SummaryInfoField::Security,
                PropertyValueView::I4(level),
            ) && only_changed(
                old(self)@.entries,
                final(self)@.entries,
                SummaryInfoField::Security.id_spec(),
                Some(PropertyValueView::I4(level)),
            ) && doc_security_of(final(self)@) == Some(level),
            !is_security_level(level) ==> r == Err::<(), Error>(Error::ValidationError)
                && final(self)@ == old(self)@,
    {
        if level == 0 || level == 2 || level == 4 {
            self.properties.set(SummaryInfoField::Security.id(), PropertyValue::I4(level));
            Ok(())
        } else {
            Err(Error::ValidationError)
        }
    }

    /// Removes the security level.  Nothing changes if it is absent.
    pub fn clear_doc_security(&mut self)
        requires
            old(self).wf(),
        ensures
            final(self).wf(),
            final(self)@ == without_field(old(self)@, SummaryInfoField::Security),
            only_changed(old(self)@.entries, final(self)@.entries, SummaryInfoField::Security.id_spec(), None),
            value_at(old(self)@, SummaryInfoField::Security) is None ==> final(self)@ == old(self)@,
    {
        self.clear(SummaryInfoField::Security);
    }
}

} // verus!
