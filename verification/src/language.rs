//! Languages, identified by their Windows language code, with a table of
//! the usual tags.

use crate::text::same_text;
use vstd::prelude::*;

verus! {

/// The number of entries of [`LANGUAGE_TABLE`].
pub const LANGUAGE_COUNT: usize = 146;

/// The code of the neutral language, which also stands for every tag that
/// the table does not hold.
pub const NEUTRAL_CODE: u16 = 0;

/// The languages that this crate knows by tag: the Windows language code
/// and the tag of each, in ascending order of code.  No code and no tag
/// stands twice.
pub const LANGUAGE_TABLE: [(u16, &'static str); 146] = [
    (0x0001, "ar"), (0x0002, "bg"), (0x0003, "ca"), (0x0004, "zh"), (0x0005, "cs"),
    (0x0006, "da"), (0x0007, "de"), (0x0008, "el"), (0x0009, "en"), (0x000A, "es"),
    (0x000B, "fi"), (0x000C, "fr"), (0x000D, "he"), (0x000E, "hu"), (0x000F, "is"),
    (0x0010, "it"), (0x0011, "ja"), (0x0012, "ko"), (0x0013, "nl"), (0x0014, "no"),
    (0x0015, "pl"), (0x0016, "pt"), (0x0017, "rm"), (0x0018, "ro"), (0x0019, "ru"),
    (0x001A, "hr"), (0x001B, "sk"), (0x001C, "sq"), (0x001D, "sv"), (0x001E, "th"),
    (0x001F, "tr"), (0x0020, "ur"), (0x0021, "id"), (0x0022, "uk"), (0x0023, "be"),
    (0x0024, "sl"), (0x0025, "et"), (0x0026, "lv"), (0x0027, "lt"), (0x0029, "fa"),
    (0x002A, "vi"), (0x002B, "hy"), (0x002D, "eu"), (0x002F, "mk"), (0x0036, "af"),
    (0x0037, "ka"), (0x0038, "fo"), (0x0039, "hi"), (0x003E, "ms"), (0x003F, "kk"),
    (0x0041, "sw"), (0x0401, "ar-SA"), (0x0402, "bg-BG"), (0x0403, "ca-ES"), (0x0404, "zh-TW"),
    (0x0405, "cs-CZ"), (0x0406, "da-DK"), (0x0407, "de-DE"), (0x0408, "el-GR"),
    (0x0409, "en-US"), (0x040A, "es-ES_tradnl"), (0x040B, "fi-FI"), (0x040C, "fr-FR"),
    (0x040D, "he-IL"), (0x040E, "hu-HU"), (0x040F, "is-IS"), (0x0410, "it-IT"),
    (0x0411, "ja-JP"), (0x0412, "ko-KR"), (0x0413, "nl-NL"), (0x0414, "nb-NO"),
    (0x0415, "pl-PL"), (0x0416, "pt-BR"), (0x0417, "rm-CH"), (0x0418, "ro-RO"),
    (0x0419, "ru-RU"), (0x041A, "hr-HR"), (0x041B, "sk-SK"), (0x041C, "sq-AL"),
    (0x041D, "sv-SE"), (0x041E, "th-TH"), (0x041F, "tr-TR"), (0x0420, "ur-PK"),
    (0x0421, "id-ID"), (0x0422, "uk-UA"), (0x0423, "be-BY"), (0x0424, "sl-SI"),
    (0x0425, "et-EE"), (0x0426, "lv-LV"), (0x0427, "lt-LT"), (0x0429, "fa-IR"),
    (0x042A, "vi-VN"), (0x042B, "hy-AM"), (0x042D, "eu-ES"), (0x042F, "mk-MK"),
    (0x0436, "af-ZA"), (0x0437, "ka-GE"), (0x0438, "fo-FO"), (0x0439, "hi-IN"),
    (0x043E, "ms-MY"), (0x043F, "kk-KZ"), (0x0441, "sw-KE"), (0x0804, "zh-CN"),
    (0x0807, "de-CH"), (0x0809, "en-GB"), (0x080A, "es-MX"), (0x080C, "fr-BE"),
    (0x0810, "it-CH"), (0x0813, "nl-BE"), (0x0814, "nn-NO"), (0x0816, "pt-PT"),
    (0x081D, "sv-FI"), (0x0C04, "zh-HK"), (0x0C07, "de-AT"), (0x0C09, "en-AU"),
    (0x0C0A, "es-ES"), (0x0C0C, "fr-CA"), (0x1004, "zh-SG"), (0x1007, "de-LU"),
    (0x1009, "en-CA"), (0x100A, "es-GT"), (0x100C, "fr-CH"), (0x1407, "de-LI"),
    (0x1409, "en-NZ"), (0x140A, "es-CR"), (0x140C, "fr-LU"), (0x1809, "en-IE"),
    (0x180A, "es-PA"), (0x180C, "fr-MC"), (0x1C09, "en-ZA"), (0x1C0A, "es-DO"),
    (0x2009, "en-JM"), (0x200A, "es-VE"), (0x240A, "es-CO"), (0x280A, "es-PE"),
    (0x2C0A, "es-AR"), (0x300A, "es-EC"), (0x340A, "es-CL"), (0x380A, "es-UY"),
    (0x3C0A, "es-PY"), (0x400A, "es-BO"), (0x440A, "es-SV"), (0x480A, "es-HN"),
    (0x4C0A, "es-NI"), (0x500A, "es-PR"), (0x540A, "es-US"),
];

/// A language, identified by its Windows language code.  Two languages are
/// equal when their codes are.
#[derive(Clone, Copy, Debug, PartialEq, Eq, Structural, Hash)]
pub struct Language {
    code: u16,
}

/// Whether `i` is the first place of the table whose tag is `tag`, or the
/// length of the table if no entry has that tag.
pub open spec fn is_tag_index(tag: Seq<char>, i: int) -> bool {
    &&& 0 <= i <= LANGUAGE_COUNT
    &&& i < LANGUAGE_COUNT ==> LANGUAGE_TABLE[i].1@ == tag
    &&& forall|j: int| 0 <= j < i ==> (#[trigger] LANGUAGE_TABLE[j]).1@ != tag
}

/// Whether `i` is the first place of the table whose code is `code`, or the
/// length of the table if no entry has that code.
pub open spec fn is_code_index(code: u16, i: int) -> bool {
    &&& 0 <= i <= LANGUAGE_COUNT
    &&& i < LANGUAGE_COUNT ==> LANGUAGE_TABLE[i].0 == code
    &&& forall|j: int| 0 <= j < i ==> (#[trigger] LANGUAGE_TABLE[j]).0 != code
}

/// The code that the table gives for `tag`, or the neutral code if it holds
/// no such tag.
pub open spec fn code_of_tag(tag: Seq<char>) -> u16 {
    let i = choose|i: int| is_tag_index(tag, i);
    if i < LANGUAGE_COUNT {
        LANGUAGE_TABLE[i].0
    } else {
        NEUTRAL_CODE
    }
}

/// The tag that the table gives for `code`, or `und` if it holds no such
/// code.
pub open spec fn tag_of_code(code: u16) -> Seq<char> {
    let i = choose|i: int| is_code_index(code, i);
    if i < LANGUAGE_COUNT {
        LANGUAGE_TABLE[i].1@
    } else {
        "und"@
    }
}

impl View for Language {
    type V = u16;

    /// The Windows language code.
    closed spec fn view(&self) -> u16 {
        self.code
    }
}

impl Language {
    /// The language with the given code.
    pub fn from_code(code: u16) -> (language: Language)
        ensures
            language@ == code,
    {
        Language { code }
    }

    /// The language with the given tag, such as `en-US`.  A tag that the
    /// table does not hold gives the neutral language, code 0: the mapping
    /// loses such tags and never fails.
    pub fn from_tag(tag: &str) -> (language: Language)
        ensures
            language@ == code_of_tag(tag@),
    {
        let mut i: usize = 0;
        while i < LANGUAGE_COUNT
            invariant
                i <= LANGUAGE_COUNT,
                forall|j: int| 0 <= j < i ==> (#[trigger] LANGUAGE_TABLE[j]).1@ != tag@,
            decreases LANGUAGE_COUNT - i,
        {
            if same_text(LANGUAGE_TABLE[i].1, tag) {
                proof {
                    lemma_tag_index(tag@, i as int);
                }
                return Language { code: LANGUAGE_TABLE[i].0 };
            }
            i += 1;
        }
        proof {
            lemma_tag_index(tag@, LANGUAGE_COUNT as int);
        }
        Language { code: NEUTRAL_CODE }
    }

    /// The Windows language code.
    pub fn code(&self) -> (code: u16)
        ensures
            code == self@,
    {
        self.code
    }

    /// The tag of the language, or `und` if the table does not hold its
    /// code.
    pub fn tag(&self) -> (tag: &'static str)
        ensures
            tag@ == tag_of_code(self@),
    {
        let mut i: usize = 0;
        while i < LANGUAGE_COUNT
            invariant
                i <= LANGUAGE_COUNT,
                forall|j: int| 0 <= j < i ==> (#[trigger] LANGUAGE_TABLE[j]).0 != self.code,
            decreases LANGUAGE_COUNT - i,
        {
            if LANGUAGE_TABLE[i].0 == self.code {
                proof {
                    lemma_code_index(self.code, i as int);
                }
                return LANGUAGE_TABLE[i].1;
            }
            i += 1;
        }
        proof {
            lemma_code_index(self.code, LANGUAGE_COUNT as int);
        }
        "und"
    }
}

/// A tag has one first place in the table.
proof fn lemma_tag_index(tag: Seq<char>, i: int)
    requires
        is_tag_index(tag, i),
    ensures
        (choose|k: int| is_tag_index(tag, k)) == i,
{
    let k = choose|k: int| is_tag_index(tag, k);
    assert(is_tag_index(tag, k));
    if k < i {
        assert(LANGUAGE_TABLE[k].1@ != tag);
    }
    if i < k {
        assert(LANGUAGE_TABLE[i].1@ != tag);
    }
}

/// A code has one first place in the table.
proof fn lemma_code_index(code: u16, i: int)
    requires
        is_code_index(code, i),
    ensures
        (choose|k: int| is_code_index(code, k)) == i,
{
    let k = choose|k: int| is_code_index(code, k);
    assert(is_code_index(code, k));
    if k < i {
        assert(LANGUAGE_TABLE[k].0 != code);
    }
    if i < k {
        assert(LANGUAGE_TABLE[i].0 != code);
    }
}

/// The code at place `i` of the table.
#[verifier::opaque]
pub open spec fn table_code(i: int) -> u16 {
    LANGUAGE_TABLE[i].0
}

/// The codes of the table ascend, so that no code stands twice in it.
pub proof fn lemma_codes_ascend()
    ensures
        forall|i: int, j: int|
            0 <= i < j < LANGUAGE_COUNT ==> #[trigger] table_code(i) < #[trigger] table_code(j),
{
    reveal(table_code);
}

/// The tag of a code of the table is the tag that stands beside it.
pub proof fn lemma_tag_of_table_code(i: int)
    requires
        0 <= i < LANGUAGE_COUNT,
    ensures
        tag_of_code(LANGUAGE_TABLE[i].0) == LANGUAGE_TABLE[i].1@,
{
    let code = LANGUAGE_TABLE[i].0;
    lemma_codes_ascend();
    assert forall|j: int| 0 <= j < i implies (#[trigger] LANGUAGE_TABLE[j]).0 != code by {
        assert(table_code(j) < table_code(i));
        reveal(table_code);
    }
    lemma_code_index(code, i);
}

} // verus!
