//! The template of a package: the platform and the languages that it is
//! meant for, held as one text.
//!
//! The text of an installation package is the name of the platform, a
//! semicolon, and the language codes in decimal, separated by commas, such
//! as `x64;1033,1036`.  A part that is absent is left empty.  A transform
//! has at most one language; a patch lists, separated by semicolons, the
//! product codes that it applies to.

use crate::error::Error;
use crate::guid::{
    braced_upper, braced_upper_bytes, lemma_parse_braced_upper, parse_braced, Guid,
};
use crate::language::Language;
use crate::text::{
    chars_of, decimal, find_char, first_index, is_digit, is_first_index, join, lemma_decimal,
    lemma_first_index, lemma_join_first, lemma_join_from, lemma_parse_decimal, parse_u16,
    parse_u16_spec, push_decimal, same_text, text_of,
};
use vstd::prelude::*;
use vstd::slice::slice_subrange;
use vstd::utf8::encode_utf8;

verus! {

/// A platform that a package can be meant for.
#[derive(Clone, Copy, Debug, PartialEq, Eq, Structural)]
pub enum Architecture {
    /// `x64`
    X64,
    /// `Intel`
    Intel,
    /// `Intel64`
    Intel64,
    /// `Arm`
    Arm,
    /// `Arm64`
    Arm64,
}

/// What a template says, by the kind of package.
#[derive(Clone, Debug, PartialEq, Eq)]
pub enum Template {
    /// For an installation package: the platform and the languages that the
    /// database is compatible with.
    Installation { arch: Option<Architecture>, languages: Vec<Language> },
    /// For a transform: the platform and the one language that the transform
    /// is compatible with.
    Transform { arch: Option<Architecture>, language: Option<Language> },
    /// For a patch: the product codes that can accept the patch.
    Patch { product_codes: Vec<Guid> },
}

/// The mathematical model of a [`Template`]: languages as their codes,
/// product codes as their bytes.
pub enum TemplateView {
    /// The platform and the codes of the languages of an installation
    /// package.
    Installation { arch: Option<Architecture>, languages: Seq<u16> },
    /// The platform and the code of the language of a transform.
    Transform { arch: Option<Architecture>, language: Option<u16> },
    /// The bytes of the product codes of a patch.
    Patch { product_codes: Seq<Seq<u8>> },
}

/// The codes of a sequence of languages.
pub open spec fn codes_of(languages: Seq<Language>) -> Seq<u16> {
    languages.map_values(|l: Language| l@)
}

/// The bytes of a sequence of identifiers.
pub open spec fn bytes_of(ids: Seq<Guid>) -> Seq<Seq<u8>> {
    ids.map_values(|id: Guid| id@)
}

impl View for Template {
    type V = TemplateView;

    open spec fn view(&self) -> TemplateView {
        match self {
            Template::Installation { arch, languages } => TemplateView::Installation {
                arch: *arch,
                languages: codes_of(languages@),
            },
            Template::Transform { arch, language } => TemplateView::Transform {
                arch: *arch,
                language: match language {
                    Some(l) => Some(l@),
                    None => None,
                },
            },
            Template::Patch { product_codes } => TemplateView::Patch {
                product_codes: bytes_of(product_codes@),
            },
        }
    }
}

impl Architecture {
    /// The name of the platform in a template.
    pub open spec fn token_spec(self) -> Seq<char> {
        match self {
            Architecture::X64 => "x64"@,
            Architecture::Intel => "Intel"@,
            Architecture::Intel64 => "Intel64"@,
            Architecture::Arm => "Arm"@,
            Architecture::Arm64 => "Arm64"@,
        }
    }

    /// The platform with the given name, if there is one.
    pub open spec fn from_token_spec(token: Seq<char>) -> Option<Architecture> {
        if token == "x64"@ {
            Some(Architecture::X64)
        } else if token == "Intel"@ {
            Some(Architecture::Intel)
        } else if token == "Intel64"@ {
            Some(Architecture::Intel64)
        } else if token == "Arm"@ {
            Some(Architecture::Arm)
        } else if token == "Arm64"@ {
            Some(Architecture::Arm64)
        } else {
            None
        }
    }

    /// The name of the platform in a template.
    pub fn token(&self) -> (token: &'static str)
        ensures
            token@ == self.token_spec(),
    {
        match self {
            Architecture::X64 => "x64",
            Architecture::Intel => "Intel",
            Architecture::Intel64 => "Intel64",
            Architecture::Arm => "Arm",
            Architecture::Arm64 => "Arm64",
        }
    }

    /// The platform with the given name.  The names are matched exactly;
    /// any other text is an `UnsupportedValue`.
    pub fn from_token(token: &str) -> (r: Result<Architecture, Error>)
        ensures
            match Self::from_token_spec(token@) {
                Some(a) => r == Ok::<Architecture, Error>(a),
                None => r == Err::<Architecture, Error>(Error::UnsupportedValue),
            },
    {
        if same_text(token, "x64") {
            Ok(Architecture::X64)
        } else if same_text(token, "Intel") {
            Ok(Architecture::Intel)
        } else if same_text(token, "Intel64") {
            Ok(Architecture::Intel64)
        } else if same_text(token, "Arm") {
            Ok(Architecture::Arm)
        } else if same_text(token, "Arm64") {
            Ok(Architecture::Arm64)
        } else {
            Err(Error::UnsupportedValue)
        }
    }
}

/// The platform part of a template text: the name of the platform, or
/// nothing.
pub open spec fn platform_text(arch: Option<Architecture>) -> Seq<char> {
    match arch {
        Some(a) => a.token_spec(),
        None => Seq::empty(),
    }
}

/// The decimal numerals of `codes`.
pub open spec fn numerals(codes: Seq<u16>) -> Seq<Seq<char>> {
    codes.map_values(|c: u16| decimal(c as nat))
}

/// The language part of a template text: the codes in decimal, separated by
/// commas.
pub open spec fn codes_text(codes: Seq<u16>) -> Seq<char> {
    join(numerals(codes), ',')
}

/// The text of a patch template: the product codes in braces, separated by
/// semicolons.
pub open spec fn product_codes_text(ids: Seq<Seq<u8>>) -> Seq<char> {
    join(ids.map_values(|b: Seq<u8>| braced_upper(b)), ';')
}

/// The text of an installation template.
pub open spec fn installation_text(arch: Option<Architecture>, languages: Seq<u16>) -> Seq<char> {
    platform_text(arch) + seq![';'] + codes_text(languages)
}

/// The text that a template is stored as.
pub open spec fn template_text(t: TemplateView) -> Seq<char> {
    match t {
        TemplateView::Installation { arch, languages } => installation_text(arch, languages),
        TemplateView::Transform { arch, language } => installation_text(
            arch,
            match language {
                Some(code) => seq![code],
                None => Seq::empty(),
            },
        ),
        TemplateView::Patch { product_codes } => product_codes_text(product_codes),
    }
}

/// The codes that a language part lists.  A piece between two commas that
/// is no decimal numeral of a 16-bit number is passed over.
pub open spec fn parse_codes(s: Seq<char>) -> Seq<u16>
    decreases s.len(),
{
    let i = first_index(s, ',');
    let head = match parse_u16_spec(s.take(i)) {
        Some(code) => seq![code],
        None => Seq::empty(),
    };
    if 0 <= i < s.len() {
        head + parse_codes(s.skip(i + 1))
    } else {
        head
    }
}

/// The platform part of a template text: what stands before the first
/// semicolon, or the whole text if it has none.
pub open spec fn platform_part(s: Seq<char>) -> Seq<char> {
    s.take(first_index(s, ';'))
}

/// The language part of a template text: what follows the first semicolon,
/// or nothing if it has none.
pub open spec fn language_part(s: Seq<char>) -> Seq<char> {
    let i = first_index(s, ';');
    if 0 <= i < s.len() {
        s.skip(i + 1)
    } else {
        Seq::empty()
    }
}

/// The platform that a template text names, if it names one that this crate
/// knows.
pub open spec fn arch_of_text(s: Seq<char>) -> Option<Architecture> {
    Architecture::from_token_spec(platform_part(s))
}

/// The codes of the languages that a template text lists.
pub open spec fn languages_of_text(s: Seq<char>) -> Seq<u16> {
    parse_codes(language_part(s))
}

/// What a template text says, read as the template of an installation
/// package.
pub open spec fn parse_installation(s: Seq<char>) -> TemplateView {
    TemplateView::Installation { arch: arch_of_text(s), languages: languages_of_text(s) }
}

/// What a template text says, read as the template of a transform: the
/// platform, and the first of the languages if it lists any.
pub open spec fn parse_transform(s: Seq<char>) -> TemplateView {
    TemplateView::Transform {
        arch: arch_of_text(s),
        language: if languages_of_text(s).len() > 0 {
            Some(languages_of_text(s)[0])
        } else {
            None
        },
    }
}

/// The identifiers that a text lists, separated by semicolons.  A piece
/// between two semicolons that is not the text form of an identifier is
/// passed over.
pub open spec fn parse_ids(s: Seq<char>) -> Seq<Seq<u8>>
    decreases s.len(),
{
    let i = first_index(s, ';');
    let head = match parse_braced(encode_utf8(s.take(i))) {
        Some(bytes) => seq![bytes],
        None => Seq::empty(),
    };
    if 0 <= i < s.len() {
        head + parse_ids(s.skip(i + 1))
    } else {
        head
    }
}

/// What a template text says, read as the template of a patch.
pub open spec fn parse_patch(s: Seq<char>) -> TemplateView {
    TemplateView::Patch { product_codes: parse_ids(s) }
}

/// What a template text says, read as a template of the same kind as `t`.
pub open spec fn parse_like(t: TemplateView, s: Seq<char>) -> TemplateView {
    match t {
        TemplateView::Installation { .. } => parse_installation(s),
        TemplateView::Transform { .. } => parse_transform(s),
        TemplateView::Patch { .. } => parse_patch(s),
    }
}

/// Appends the decimal numerals of the codes of `languages`, separated by
/// commas.
fn push_codes(out: &mut Vec<char>, languages: &[Language])
    ensures
        final(out)@ == old(out)@ + codes_text(codes_of(languages@)),
{
    let ghost parts = numerals(codes_of(languages@));
    let n = languages.len();
    let mut i: usize = 0;
    assert(parts.skip(0) =~= parts);
    while i < n
        invariant
            i <= n,
            n == languages@.len(),
            parts == numerals(codes_of(languages@)),
            old(out)@ + join(parts, ',') == out@ + (if 0 < i < n {
                seq![',']
            } else {
                Seq::<char>::empty()
            }) + join(parts.skip(i as int), ','),
        decreases n - i,
    {
        let ghost before = out@;
        if i > 0 {
            out.push(',');
        }
        push_decimal(out, languages[i].code());
        proof {
            lemma_join_from(parts, ',', i as int);
            assert(parts[i as int] == decimal(languages@[i as int]@ as nat));
            let rest = join(parts.skip(i + 1), ',');
            if i + 1 < n {
                assert(before + (if 0 < i {
                    seq![',']
                } else {
                    Seq::<char>::empty()
                }) + (parts[i as int] + seq![','] + rest) =~= out@ + seq![','] + rest);
            } else {
                assert(parts.skip(i + 1) =~= Seq::<Seq<char>>::empty());
                assert(before + (if 0 < i {
                    seq![',']
                } else {
                    Seq::<char>::empty()
                }) + parts[i as int] =~= out@ + Seq::<char>::empty() + rest);
            }
        }
        i += 1;
    }
    assert(parts.skip(n as int) =~= Seq::<Seq<char>>::empty());
    assert(out@ =~= old(out)@ + join(parts, ','));
}

/// Appends the text forms of `ids`, separated by semicolons.
fn push_product_codes(out: &mut Vec<char>, ids: &[Guid])
    ensures
        final(out)@ == old(out)@ + product_codes_text(bytes_of(ids@)),
{
    let ghost parts = bytes_of(ids@).map_values(|b: Seq<u8>| braced_upper(b));
    let n = ids.len();
    let mut i: usize = 0;
    assert(parts.skip(0) =~= parts);
    while i < n
        invariant
            i <= n,
            n == ids@.len(),
            parts == bytes_of(ids@).map_values(|b: Seq<u8>| braced_upper(b)),
            old(out)@ + join(parts, ';') == out@ + (if 0 < i < n {
                seq![';']
            } else {
                Seq::<char>::empty()
            }) + join(parts.skip(i as int), ';'),
        decreases n - i,
    {
        let ghost before = out@;
        if i > 0 {
            out.push(';');
        }
        let text = ids[i].to_braced_upper();
        let chars = chars_of(text.as_str());
        out.extend_from_slice(chars.as_slice());
        proof {
            lemma_join_from(parts, ';', i as int);
            assert(parts[i as int] == braced_upper(ids@[i as int]@));
            let rest = join(parts.skip(i + 1), ';');
            if i + 1 < n {
                assert(before + (if 0 < i {
                    seq![';']
                } else {
                    Seq::<char>::empty()
                }) + (parts[i as int] + seq![';'] + rest) =~= out@ + seq![';'] + rest);
            } else {
                assert(parts.skip(i + 1) =~= Seq::<Seq<char>>::empty());
                assert(before + (if 0 < i {
                    seq![';']
                } else {
                    Seq::<char>::empty()
                }) + parts[i as int] =~= out@ + Seq::<char>::empty() + rest);
            }
        }
        i += 1;
    }
    assert(parts.skip(n as int) =~= Seq::<Seq<char>>::empty());
    assert(out@ =~= old(out)@ + join(parts, ';'));
}

/// Reads the language codes that `s` lists.
fn read_codes(s: &[char]) -> (languages: Vec<Language>)
    ensures
        codes_of(languages@) == parse_codes(s@),
{
    let mut languages: Vec<Language> = Vec::new();
    let mut start: usize = 0;
    let mut done = false;
    assert(s@.skip(0) =~= s@);
    assert(codes_of(languages@) =~= Seq::<u16>::empty());
    while !done
        invariant
            start <= s@.len(),
            done ==> codes_of(languages@) == parse_codes(s@),
            !done ==> parse_codes(s@) == codes_of(languages@) + parse_codes(
                s@.skip(start as int),
            ),
        decreases s@.len() - start + (if done {
            0int
        } else {
            1int
        }),
    {
        let ghost rest = s@.skip(start as int);
        let ghost found = codes_of(languages@);
        let i = find_char(s, start, ',');
        let piece = slice_subrange(s, start, i);
        assert(piece@ =~= rest.take(i - start));
        match parse_u16(piece) {
            Some(code) => {
                languages.push(Language::from_code(code));
                assert(codes_of(languages@) =~= found + seq![code]);
            },
            None => {
                assert(codes_of(languages@) =~= found + Seq::<u16>::empty());
            },
        }
        if i < s.len() {
            assert(rest.skip(i - start + 1) =~= s@.skip(i + 1));
            start = i + 1;
            assert(parse_codes(s@) =~= codes_of(languages@) + parse_codes(s@.skip(start as int)));
        } else {
            done = true;
            assert(parse_codes(s@) =~= codes_of(languages@));
        }
    }
    languages
}

/// Reads the identifiers that `s` lists.
fn read_ids(s: &[char]) -> (ids: Vec<Guid>)
    ensures
        bytes_of(ids@) == parse_ids(s@),
{
    let mut ids: Vec<Guid> = Vec::new();
    let mut start: usize = 0;
    let mut done = false;
    assert(s@.skip(0) =~= s@);
    assert(bytes_of(ids@) =~= Seq::<Seq<u8>>::empty());
    while !done
        invariant
            start <= s@.len(),
            done ==> bytes_of(ids@) == parse_ids(s@),
            !done ==> parse_ids(s@) == bytes_of(ids@) + parse_ids(s@.skip(start as int)),
        decreases s@.len() - start + (if done {
            0int
        } else {
            1int
        }),
    {
        let ghost rest = s@.skip(start as int);
        let ghost found = bytes_of(ids@);
        let i = find_char(s, start, ';');
        let piece = text_of(slice_subrange(s, start, i));
        assert(piece@ =~= rest.take(i - start));
        match Guid::parse_braced(piece.as_str()) {
            Some(id) => {
                ids.push(id);
                assert(bytes_of(ids@) =~= found + seq![id@]);
            },
            None => {
                assert(bytes_of(ids@) =~= found + Seq::<Seq<u8>>::empty());
            },
        }
        if i < s.len() {
            assert(rest.skip(i - start + 1) =~= s@.skip(i + 1));
            start = i + 1;
            assert(parse_ids(s@) =~= bytes_of(ids@) + parse_ids(s@.skip(start as int)));
        } else {
            done = true;
            assert(parse_ids(s@) =~= bytes_of(ids@));
        }
    }
    ids
}

/// The platform that a template text names, if it names one that this crate
/// knows.
pub fn read_arch(text: &str) -> (arch: Option<Architecture>)
    ensures
        arch == arch_of_text(text@),
{
    let chars = chars_of(text);
    let s = chars.as_slice();
    let i = find_char(s, 0, ';');
    assert(s@.skip(0) =~= s@);
    let platform = text_of(slice_subrange(s, 0, i));
    match Architecture::from_token(platform.as_str()) {
        Ok(a) => Some(a),
        Err(_) => None,
    }
}

/// The languages that a template text lists.
pub fn read_languages(text: &str) -> (languages: Vec<Language>)
    ensures
        codes_of(languages@) == languages_of_text(text@),
        languages@.len() == languages_of_text(text@).len(),
{
    let chars = chars_of(text);
    let s = chars.as_slice();
    let i = find_char(s, 0, ';');
    assert(s@.skip(0) =~= s@);
    if i < s.len() {
        read_codes(slice_subrange(s, i + 1, s.len()))
    } else {
        let none: Vec<Language> = Vec::new();
        proof {
            lemma_parse_codes_text(Seq::empty());
            assert(numerals(Seq::<u16>::empty()) =~= Seq::<Seq<char>>::empty());
            assert(codes_of(none@) =~= Seq::<u16>::empty());
        }
        none
    }
}

/// The text of the installation template with the given platform and
/// languages.
pub fn write_installation(arch: Option<Architecture>, languages: &[Language]) -> (text: String)
    ensures
        text@ == installation_text(arch, codes_of(languages@)),
{
    let mut out: Vec<char> = Vec::new();
    push_platform(&mut out, &arch);
    out.push(';');
    push_codes(&mut out, languages);
    assert(out@ =~= installation_text(arch, codes_of(languages@)));
    text_of(out.as_slice())
}

impl Template {
    /// The text that the template is stored as.  Read as a template of the
    /// same kind, it gives the template back.
    pub fn to_text(&self) -> (text: String)
        ensures
            text@ == template_text(self@),
            parse_like(self@, text@) == self@,
    {
        proof {
            match self {
                Template::Installation { arch, languages } => {
                    lemma_parse_installation_text(*arch, codes_of(languages@));
                },
                Template::Transform { arch, language } => {
                    lemma_parse_transform_text(
                        *arch,
                        match language {
                            Some(l) => Some(l@),
                            None => None,
                        },
                    );
                },
                Template::Patch { product_codes } => {
                    let ids = bytes_of(product_codes@);
                    assert forall|i: int| 0 <= i < ids.len() implies (#[trigger] ids[i]).len()
                        == 16 by {
                        product_codes@[i].lemma_len();
                    }
                    lemma_parse_patch_text(ids);
                },
            }
        }
        let mut out: Vec<char> = Vec::new();
        match self {
            Template::Installation { arch, languages } => {
                return write_installation(*arch, languages.as_slice());
            },
            Template::Transform { arch, language } => {
                push_platform(&mut out, arch);
                out.push(';');
                let ghost codes: Seq<u16> = match language {
                    Some(l) => seq![l@],
                    None => Seq::empty(),
                };
                match language {
                    Some(l) => {
                        push_decimal(&mut out, l.code());
                        assert(numerals(codes) =~= seq![decimal(l@ as nat)]);
                    },
                    None => {
                        assert(numerals(codes) =~= Seq::<Seq<char>>::empty());
                    },
                }
                assert(out@ =~= installation_text(*arch, codes));
            },
            Template::Patch { product_codes } => {
                push_product_codes(&mut out, product_codes.as_slice());
                assert(out@ =~= template_text(self@));
            },
        }
        text_of(out.as_slice())
    }

    /// Reads a template text as the template of an installation package.
    ///
    /// Every text is read: the platform is what stands before the first
    /// semicolon, if it is the name of a platform, and the languages are
    /// the numerals among the pieces that follow, separated by commas.
    /// What is neither is passed over.
    pub fn parse_installation(text: &str) -> (template: Template)
        ensures
            template@ == parse_installation(text@),
    {
        Template::Installation { arch: read_arch(text), languages: read_languages(text) }
    }

    /// Reads a template text as the template of a transform: the platform
    /// as for an installation package, and the first language that the text
    /// lists, if it lists any.
    pub fn parse_transform(text: &str) -> (template: Template)
        ensures
            template@ == parse_transform(text@),
    {
        let languages = read_languages(text);
        let language = if languages.len() > 0 {
            Some(languages[0])
        } else {
            None
        };
        Template::Transform { arch: read_arch(text), language }
    }

    /// Reads a template text as the template of a patch: the identifiers
    /// among the pieces of the text, separated by semicolons.  What is no
    /// identifier in braces is passed over.
    pub fn parse_patch(text: &str) -> (template: Template)
        ensures
            template@ == parse_patch(text@),
    {
        let chars = chars_of(text);
        Template::Patch { product_codes: read_ids(chars.as_slice()) }
    }
}

/// Appends the name of the platform, if there is one.
fn push_platform(out: &mut Vec<char>, arch: &Option<Architecture>)
    ensures
        final(out)@ == old(out)@ + platform_text(*arch),
{
    match arch {
        Some(a) => {
            let token = chars_of(a.token());
            out.extend_from_slice(token.as_slice());
        },
        None => {
            assert(out@ =~= old(out)@ + Seq::<char>::empty());
        },
    }
}

/// The name of a platform names that platform, and holds no semicolon.
pub proof fn lemma_token(a: Architecture)
    ensures
        Architecture::from_token_spec(a.token_spec()) == Some(a),
        !a.token_spec().contains(';'),
        a.token_spec().len() > 0,
{
    reveal_strlit("x64");
    reveal_strlit("Intel");
    reveal_strlit("Intel64");
    reveal_strlit("Arm");
    reveal_strlit("Arm64");
    let t = a.token_spec();
    assert("x64"@.len() == 3 && "Intel"@.len() == 5 && "Intel64"@.len() == 7 && "Arm"@.len() == 3
        && "Arm64"@.len() == 5);
    assert("x64"@[0] == 'x' && "Intel"@[0] == 'I' && "Arm"@[0] == 'A' && "Arm64"@[0] == 'A');
    assert("x64"@ != "Arm"@);
    assert("Intel"@ != "Arm64"@);
    assert("x64"@ != "Intel"@ && "x64"@ != "Intel64"@ && "x64"@ != "Arm64"@);
    assert("Intel"@ != "Intel64"@ && "Intel"@ != "Arm"@);
    assert("Intel64"@ != "Arm"@ && "Intel64"@ != "Arm64"@ && "Arm"@ != "Arm64"@);
    assert forall|i: int| 0 <= i < t.len() implies t[i] != ';' by {
        if a == Architecture::X64 {
            assert("x64"@[0] == 'x' && "x64"@[1] == '6' && "x64"@[2] == '4');
        } else if a == Architecture::Intel {
            assert("Intel"@[0] == 'I' && "Intel"@[1] == 'n' && "Intel"@[2] == 't' && "Intel"@[3]
                == 'e' && "Intel"@[4] == 'l');
        } else if a == Architecture::Intel64 {
            assert("Intel64"@[0] == 'I' && "Intel64"@[1] == 'n' && "Intel64"@[2] == 't'
                && "Intel64"@[3] == 'e' && "Intel64"@[4] == 'l' && "Intel64"@[5] == '6'
                && "Intel64"@[6] == '4');
        } else if a == Architecture::Arm {
            assert("Arm"@[0] == 'A' && "Arm"@[1] == 'r' && "Arm"@[2] == 'm');
        } else {
            assert("Arm64"@[0] == 'A' && "Arm64"@[1] == 'r' && "Arm64"@[2] == 'm' && "Arm64"@[3]
                == '6' && "Arm64"@[4] == '4');
        }
    }
}

/// A list of codes is read back from its text.
pub proof fn lemma_parse_codes_text(codes: Seq<u16>)
    ensures
        parse_codes(codes_text(codes)) == codes,
    decreases codes.len(),
{
    let parts = numerals(codes);
    let text = codes_text(codes);
    if codes.len() == 0 {
        assert(is_first_index(text, ',', 0));
        lemma_first_index(text, ',', 0);
        assert(text.take(0) =~= Seq::<char>::empty());
        assert(parse_codes(text) =~= codes);
    } else {
        let head = decimal(codes[0] as nat);
        lemma_decimal(codes[0] as nat);
        lemma_parse_decimal(codes[0]);
        assert(parts[0] == head);
        assert(!head.contains(',')) by {
            if head.contains(',') {
                let j = choose|j: int| 0 <= j < head.len() && head[j] == ',';
                assert(is_digit(head[j]));
            }
        }
        lemma_join_first(parts, ',');
        if codes.len() == 1 {
            assert(parse_codes(text) =~= codes);
        } else {
            assert(parts.skip(1) =~= numerals(codes.skip(1)));
            lemma_parse_codes_text(codes.skip(1));
            assert(seq![codes[0]] + codes.skip(1) =~= codes);
        }
    }
}

/// Reading undoes writing: the text of an installation template is read
/// back as its platform and its languages.
pub proof fn lemma_parse_installation_text(arch: Option<Architecture>, languages: Seq<u16>)
    ensures
        parse_installation(installation_text(arch, languages)) == (TemplateView::Installation {
            arch,
            languages,
        }),
{
    let platform = platform_text(arch);
    let text = installation_text(arch, languages);
    let at = platform.len() as int;
    match arch {
        Some(a) => {
            lemma_token(a);
        },
        None => {
            reveal_strlit("x64");
            reveal_strlit("Intel");
            reveal_strlit("Intel64");
            reveal_strlit("Arm");
            reveal_strlit("Arm64");
        },
    }
    assert forall|j: int| 0 <= j < at implies text[j] != ';' by {
        assert(text[j] == platform[j]);
        assert(platform.contains(platform[j]));
    }
    assert(text[at] == ';');
    assert(is_first_index(text, ';', at));
    lemma_first_index(text, ';', at);
    assert(text.take(at) =~= platform);
    assert(text.skip(at + 1) =~= codes_text(languages));
    lemma_parse_codes_text(languages);
}

/// The text of a transform template is read back as its platform and its
/// language.
pub proof fn lemma_parse_transform_text(arch: Option<Architecture>, language: Option<u16>)
    ensures
        parse_transform(template_text(TemplateView::Transform { arch, language }))
            == (TemplateView::Transform { arch, language }),
{
    let codes: Seq<u16> = match language {
        Some(code) => seq![code],
        None => Seq::empty(),
    };
    lemma_parse_installation_text(arch, codes);
}

/// The text form of an identifier holds no semicolon.
proof fn lemma_braced_upper_no_semicolon(b: Seq<u8>)
    requires
        b.len() == 16,
    ensures
        !braced_upper(b).contains(';'),
        braced_upper(b).len() == 38,
{
    let text = braced_upper(b);
    assert forall|j: int| 0 <= j < text.len() implies text[j] != ';' by {
        let code = braced_upper_bytes(b)[j];
        assert(text[j] == code as char);
        assert(code != 0x3B);
    }
}

/// A list of identifiers is read back from its text.
pub proof fn lemma_parse_ids_text(ids: Seq<Seq<u8>>)
    requires
        forall|i: int| 0 <= i < ids.len() ==> (#[trigger] ids[i]).len() == 16,
    ensures
        parse_ids(product_codes_text(ids)) == ids,
    decreases ids.len(),
{
    let parts = ids.map_values(|b: Seq<u8>| braced_upper(b));
    let text = product_codes_text(ids);
    if ids.len() == 0 {
        assert(is_first_index(text, ';', 0));
        lemma_first_index(text, ';', 0);
        assert(text.take(0) =~= Seq::<char>::empty());
        assert(encode_utf8(Seq::<char>::empty()).len() == 0) by {
            vstd::utf8::is_ascii_chars_encode_utf8(Seq::<char>::empty());
        }
        assert(parse_ids(text) =~= ids);
    } else {
        let head = braced_upper(ids[0]);
        assert(parts[0] == head);
        lemma_braced_upper_no_semicolon(ids[0]);
        lemma_parse_braced_upper(ids[0]);
        lemma_join_first(parts, ';');
        if ids.len() == 1 {
            assert(parse_ids(text) =~= ids);
        } else {
            let rest = ids.skip(1);
            assert(parts.skip(1) =~= rest.map_values(|b: Seq<u8>| braced_upper(b)));
            assert forall|i: int| 0 <= i < rest.len() implies (#[trigger] rest[i]).len() == 16 by {
                assert(rest[i] == ids[i + 1]);
            }
            lemma_parse_ids_text(rest);
            assert(seq![ids[0]] + rest =~= ids);
        }
    }
}

/// The text of a patch template is read back as its product codes.
pub proof fn lemma_parse_patch_text(product_codes: Seq<Seq<u8>>)
    requires
        forall|i: int| 0 <= i < product_codes.len() ==> (#[trigger] product_codes[i]).len() == 16,
    ensures
        parse_patch(template_text(TemplateView::Patch { product_codes })) == (TemplateView::Patch {
            product_codes,
        }),
{
    lemma_parse_ids_text(product_codes);
}

} // verus!
