//! Laws of the summary information set: what holds of its functions taken
//! together.
//!
//! Each law is stated over the models and the functions on models in which
//! the contracts of [`SummaryInfo`] are written, so that it applies to what
//! the methods do.

use crate::codepage::CodePage;
use crate::error::Error;
use crate::format::{lemma_parse_serialized, parse, serialize, PropertySetView};
use crate::guid::{braced_upper, lemma_parse_braced_upper, Guid};
use crate::model::{
    lemma_lookup_remove, lemma_lookup_upsert, lemma_remove_ascending, lemma_same_lookups,
    lemma_upsert_ascending, lemma_upsert_last, lookup,
};
use crate::summary::{
    after_clear_arch, after_clear_languages, after_set_arch, after_set_languages, arch_of,
    codepage_of, codepage_value, doc_security_of, is_security_level, languages_of, new_summary,
    page_count_of, parse_summary, revision_id_of, text_at, ticks_at, value_at, with_field,
    with_template, without_field, word_count_of, SummaryInfo, SummaryInfoField,
    WindowsInstallerVersion, FMTID,
};
use crate::template::{installation_text, lemma_parse_installation_text, Architecture};
use crate::timestamp::Timestamp;
use crate::value::PropertyValueView;
use crate::wire::{i16_bits, i16_from_bits};
use vstd::prelude::*;

verus! {

/// Reading undoes writing: the bytes that `write` appends for a summary
/// information set are read back by `read` as a set with the same model,
/// and so with the same value in every field.
pub proof fn lemma_read_written(info: SummaryInfo)
    requires
        info.wf(),
        serialize(info@) is Ok,
    ensures
        parse_summary(serialize(info@)->Ok_0) == Ok::<PropertySetView, Error>(info@),
{
    info.lemma_wf();
    let v = info@;
    lemma_parse_serialized(v);
    let bytes = serialize(v)->Ok_0;
    assert(parse(bytes)->Ok_0.format_identifier == bytes.subrange(28, 44));
}

/// Bytes whose format identifier is not [`FMTID`] are not a summary
/// information set: `read` fails on them with `InvalidFormat`, whatever
/// else they hold.
pub proof fn lemma_format_identifier_guard(bytes: Seq<u8>)
    requires
        bytes.len() < 44 || bytes.subrange(28, 44) != FMTID@,
    ensures
        parse_summary(bytes) == Err::<PropertySetView, Error>(Error::InvalidFormat),
{
}

/// Getting after setting: a field holds what was last set, and setting one
/// field changes no other.
pub proof fn lemma_value_after_set(
    info: SummaryInfo,
    field: SummaryInfoField,
    value: PropertyValueView,
    other: SummaryInfoField,
)
    requires
        info.wf(),
    ensures
        with_field(info@, field, value).wf(),
        value_at(with_field(info@, field, value), other) == if other == field {
            Some(value)
        } else {
            value_at(info@, other)
        },
{
    info.lemma_wf();
    lemma_upsert_ascending(info@.entries, field.id_spec(), value);
    lemma_lookup_upsert(info@.entries, field.id_spec(), value, other.id_spec());
}

/// Getting after clearing: a cleared field is absent, and clearing one
/// field changes no other.
pub proof fn lemma_value_after_clear(
    info: SummaryInfo,
    field: SummaryInfoField,
    other: SummaryInfoField,
)
    requires
        info.wf(),
    ensures
        without_field(info@, field).wf(),
        value_at(without_field(info@, field), other) == if other == field {
            None
        } else {
            value_at(info@, other)
        },
{
    info.lemma_wf();
    lemma_remove_ascending(info@.entries, field.id_spec());
    lemma_lookup_remove(info@.entries, field.id_spec(), other.id_spec());
}

/// Clearing a field that is absent changes nothing.
pub proof fn lemma_clear_absent(info: SummaryInfo, field: SummaryInfoField)
    requires
        info.wf(),
        value_at(info@, field) is None,
    ensures
        without_field(info@, field) == info@,
{
}

/// Clearing is idempotent: a second clearing of the same field changes
/// nothing.
pub proof fn lemma_clear_twice(info: SummaryInfo, field: SummaryInfoField)
    requires
        info.wf(),
    ensures
        without_field(without_field(info@, field), field) == without_field(info@, field),
{
    lemma_value_after_clear(info, field, field);
}

/// Setting a field twice is setting it once, to the second value.
pub proof fn lemma_set_twice(
    v: PropertySetView,
    field: SummaryInfoField,
    first: PropertyValueView,
    second: PropertyValueView,
)
    requires
        v.wf(),
    ensures
        with_field(with_field(v, field, first), field, second) == with_field(v, field, second),
{
    let id = field.id_spec();
    let once = with_field(v, field, first);
    let twice = with_field(once, field, second);
    let direct = with_field(v, field, second);
    lemma_upsert_ascending(v.entries, id, first);
    lemma_upsert_ascending(once.entries, id, second);
    lemma_upsert_ascending(v.entries, id, second);
    assert forall|other: u32| lookup(twice.entries, other) == lookup(direct.entries, other) by {
        lemma_lookup_upsert(v.entries, id, first, other);
        lemma_lookup_upsert(once.entries, id, second, other);
        lemma_lookup_upsert(v.entries, id, second, other);
    }
    lemma_same_lookups(twice.entries, direct.entries);
}

/// What the template says after it was written anew.
pub proof fn lemma_template_after_write(
    v: PropertySetView,
    arch: Option<Architecture>,
    languages: Seq<u16>,
)
    requires
        v.wf(),
    ensures
        with_template(v, arch, languages).wf(),
        text_at(with_template(v, arch, languages), SummaryInfoField::Template) == Some(
            installation_text(arch, languages),
        ),
        arch_of(with_template(v, arch, languages)) == arch,
        languages_of(with_template(v, arch, languages)) == languages,
{
    let id = SummaryInfoField::Template.id_spec();
    let value = PropertyValueView::LpStr(installation_text(arch, languages));
    lemma_upsert_ascending(v.entries, id, value);
    lemma_lookup_upsert(v.entries, id, value, id);
    lemma_parse_installation_text(arch, languages);
}

/// The two setters of the template commute: setting the languages and then
/// the platform leaves the same set, and so the same template text, as
/// setting the platform and then the languages.  Either way the template
/// names that platform and lists those languages.
pub proof fn lemma_template_setters_commute(
    info: SummaryInfo,
    arch: Architecture,
    languages: Seq<u16>,
)
    requires
        info.wf(),
    ensures
        after_set_arch(after_set_languages(info@, languages), arch) == after_set_languages(
            after_set_arch(info@, arch),
            languages,
        ),
        after_set_arch(after_set_languages(info@, languages), arch) == with_template(
            info@,
            Some(arch),
            languages,
        ),
{
    info.lemma_wf();
    let v = info@;
    let field = SummaryInfoField::Template;
    lemma_template_after_write(v, arch_of(v), languages);
    lemma_template_after_write(v, Some(arch), languages_of(v));
    lemma_set_twice(
        v,
        field,
        PropertyValueView::LpStr(installation_text(arch_of(v), languages)),
        PropertyValueView::LpStr(installation_text(Some(arch), languages)),
    );
    lemma_set_twice(
        v,
        field,
        PropertyValueView::LpStr(installation_text(Some(arch), languages_of(v))),
        PropertyValueView::LpStr(installation_text(Some(arch), languages)),
    );
}

/// After `set_arch` the template names that platform, and lists the
/// languages that it listed.
pub proof fn lemma_arch_after_set(info: SummaryInfo, arch: Architecture)
    requires
        info.wf(),
    ensures
        arch_of(after_set_arch(info@, arch)) == Some(arch),
        languages_of(after_set_arch(info@, arch)) == languages_of(info@),
{
    info.lemma_wf();
    lemma_template_after_write(info@, Some(arch), languages_of(info@));
}

/// After `set_languages` the template lists those languages, and names the
/// platform that it named.
pub proof fn lemma_languages_after_set(info: SummaryInfo, languages: Seq<u16>)
    requires
        info.wf(),
    ensures
        languages_of(after_set_languages(info@, languages)) == languages,
        arch_of(after_set_languages(info@, languages)) == arch_of(info@),
{
    info.lemma_wf();
    lemma_template_after_write(info@, arch_of(info@), languages);
}

/// After `clear_arch` the template names no platform, so that a second
/// `clear_arch` changes nothing; the languages are as they were.
pub proof fn lemma_arch_after_clear(info: SummaryInfo)
    requires
        info.wf(),
    ensures
        arch_of(after_clear_arch(info@)) is None,
        languages_of(after_clear_arch(info@)) == languages_of(info@),
        after_clear_arch(after_clear_arch(info@)) == after_clear_arch(info@),
{
    info.lemma_wf();
    let v = info@;
    if arch_of(v) is Some {
        if languages_of(v).len() == 0 {
            lemma_value_after_clear(info, SummaryInfoField::Template, SummaryInfoField::Template);
            assert(languages_of(v) =~= Seq::<u16>::empty());
        } else {
            lemma_template_after_write(v, None, languages_of(v));
        }
    }
}

/// After `clear_languages` the template lists no language, so that a second
/// `clear_languages` changes nothing; the platform is as it was.
pub proof fn lemma_languages_after_clear(info: SummaryInfo)
    requires
        info.wf(),
    ensures
        languages_of(after_clear_languages(info@)).len() == 0,
        arch_of(after_clear_languages(info@)) == arch_of(info@),
        after_clear_languages(after_clear_languages(info@)) == after_clear_languages(info@),
{
    info.lemma_wf();
    let v = info@;
    if languages_of(v).len() > 0 {
        if arch_of(v) is None {
            lemma_value_after_clear(info, SummaryInfoField::Template, SummaryInfoField::Template);
        } else {
            lemma_template_after_write(v, arch_of(v), Seq::empty());
        }
    }
}

/// Every bit of a word count is kept: after the 16-bit field `bits` was
/// stored, whatever bits it has set, the word count of the set is `bits`;
/// and it still is in the set read back from the bytes of that set.
pub proof fn lemma_word_count_kept(info: SummaryInfo, bits: u16)
    requires
        info.wf(),
    ensures
        word_count_of(
            with_field(info@, SummaryInfoField::WordCount, PropertyValueView::I4(bits as i32)),
        ) == Some(bits),
        serialize(
            with_field(info@, SummaryInfoField::WordCount, PropertyValueView::I4(bits as i32)),
        ) is Ok ==> word_count_of(
            parse_summary(
                serialize(
                    with_field(
                        info@,
                        SummaryInfoField::WordCount,
                        PropertyValueView::I4(bits as i32),
                    ),
                )->Ok_0,
            )->Ok_0,
        ) == Some(bits),
{
    info.lemma_wf();
    let field = SummaryInfoField::WordCount;
    let value = PropertyValueView::I4(bits as i32);
    let after = with_field(info@, field, value);
    lemma_value_after_set(info, field, value, field);
    if serialize(after) is Ok {
        lemma_parse_serialized(after);
        let bytes = serialize(after)->Ok_0;
        assert(parse(bytes)->Ok_0.format_identifier == bytes.subrange(28, 44));
    }
}

/// The revision id is read back as it was set, and is stored as its text
/// form in braces and upper case.
pub proof fn lemma_revision_id_kept(info: SummaryInfo, id: Guid)
    requires
        info.wf(),
    ensures
        text_at(
            with_field(
                info@,
                SummaryInfoField::RevisionNumber,
                PropertyValueView::LpStr(braced_upper(id@)),
            ),
            SummaryInfoField::RevisionNumber,
        ) == Some(braced_upper(id@)),
        revision_id_of(
            with_field(
                info@,
                SummaryInfoField::RevisionNumber,
                PropertyValueView::LpStr(braced_upper(id@)),
            ),
        ) == Some(id@),
{
    let field = SummaryInfoField::RevisionNumber;
    lemma_value_after_set(info, field, PropertyValueView::LpStr(braced_upper(id@)), field);
    id.lemma_len();
    lemma_parse_braced_upper(id@);
}

/// The code page is read back as it was set.
pub proof fn lemma_codepage_kept(info: SummaryInfo, cp: CodePage)
    requires
        info.wf(),
    ensures
        codepage_of(with_field(info@, SummaryInfoField::Codepage, codepage_value(cp))) == Some(cp),
{
    let field = SummaryInfoField::Codepage;
    lemma_value_after_set(info, field, codepage_value(cp), field);
    let pattern = cp.id_spec() as u16;
    assert(i16_bits(i16_from_bits(pattern)) == pattern);
}

/// A text is read back as it was set.
pub proof fn lemma_text_kept(info: SummaryInfo, field: SummaryInfoField, text: Seq<char>)
    requires
        info.wf(),
    ensures
        text_at(with_field(info@, field, PropertyValueView::LpStr(text)), field) == Some(text),
{
    lemma_value_after_set(info, field, PropertyValueView::LpStr(text), field);
}

/// A timestamp is read back as it was set.
pub proof fn lemma_time_kept(info: SummaryInfo, field: SummaryInfoField, time: Timestamp)
    requires
        info.wf(),
        time.wf(),
    ensures
        ticks_at(with_field(info@, field, PropertyValueView::FileTime(time@)), field) == Some(
            time@,
        ),
{
    lemma_value_after_set(info, field, PropertyValueView::FileTime(time@), field);
    time.lemma_wf();
}

/// The version of Windows Installer is read back as it was set.
pub proof fn lemma_page_count_kept(info: SummaryInfo, version: WindowsInstallerVersion)
    requires
        info.wf(),
    ensures
        page_count_of(
            with_field(
                info@,
                SummaryInfoField::PageCount,
                PropertyValueView::I4(version.number_spec()),
            ),
        ) == Some(version),
{
    let field = SummaryInfoField::PageCount;
    lemma_value_after_set(info, field, PropertyValueView::I4(version.number_spec()), field);
}

/// A security level is read back as it was set.
pub proof fn lemma_doc_security_kept(info: SummaryInfo, level: i32)
    requires
        info.wf(),
        is_security_level(level),
    ensures
        doc_security_of(
            with_field(info@, SummaryInfoField::Security, PropertyValueView::I4(level)),
        ) == Some(level),
{
    let field = SummaryInfoField::Security;
    lemma_value_after_set(info, field, PropertyValueView::I4(level), field);
}

/// A new set holds the code page UTF-8 and nothing else.
pub proof fn lemma_new_summary()
    ensures
        new_summary().wf(),
        new_summary().entries == seq![(1u32, codepage_value(CodePage::Utf8))],
        codepage_of(new_summary()) == Some(CodePage::Utf8),
        codepage_value(CodePage::Utf8) == PropertyValueView::I2(-535i16),
{
    let empty = Seq::<(u32, PropertyValueView)>::empty();
    let value = codepage_value(CodePage::Utf8);
    lemma_upsert_last(empty, 1, value);
    lemma_upsert_ascending(empty, 1, value);
    lemma_lookup_upsert(empty, 1, value, 1);
    assert(empty.push((1u32, value)) =~= seq![(1u32, value)]);
    let pattern = CodePage::Utf8.id_spec() as u16;
    assert(i16_bits(i16_from_bits(pattern)) == pattern);
}

} // verus!
