//! Texts as sequences of characters: conversion between `String` and
//! `Vec<char>`, decimal numbers, and lists of numbers separated by commas.

use vstd::prelude::*;
use vstd::utf8::encode_utf8;

verus! {

/// `String::push`: appends one character.
#[verifier::external_body]
pub(crate) fn push_char(text: &mut String, c: char)
    ensures
        final(text)@ == old(text)@.push(c),
{
    text.push(c)
}

/// The characters of `text`.
pub fn chars_of(text: &str) -> (chars: Vec<char>)
    ensures
        chars@ == text@,
{
    let mut chars: Vec<char> = Vec::new();
    for c in it: text.chars()
        invariant
            chars@ == it.seq().take(it.index@),
    {
        chars.push(c);
    }
    chars
}

/// The text made of `chars`.
pub fn text_of(chars: &[char]) -> (text: String)
    ensures
        text@ == chars@,
{
    let mut text = String::new();
    let mut i: usize = 0;
    while i < chars.len()
        invariant
            i <= chars@.len(),
            text@ == chars@.take(i as int),
        decreases chars@.len() - i,
    {
        push_char(&mut text, chars[i]);
        i += 1;
        assert(chars@.take(i as int) =~= chars@.take(i - 1).push(chars@[i - 1]));
    }
    assert(chars@.take(chars@.len() as int) =~= chars@);
    text
}

/// Whether two texts are the same.
pub fn same_text(a: &str, b: &str) -> (same: bool)
    ensures
        same == (a@ == b@),
{
    let x = a.as_bytes();
    let y = b.as_bytes();
    if x.len() != y.len() {
        return false;
    }
    let mut i: usize = 0;
    while i < x.len()
        invariant
            i <= x@.len(),
            x@.len() == y@.len(),
            x@ == encode_utf8(a@),
            y@ == encode_utf8(b@),
            forall|j: int| 0 <= j < i ==> x@[j] == y@[j],
        decreases x@.len() - i,
    {
        if x[i] != y[i] {
            return false;
        }
        i += 1;
    }
    proof {
        // Equal bytes decode to equal texts.
        assert(x@ =~= y@);
        vstd::utf8::encode_utf8_decode_utf8(a@);
        vstd::utf8::encode_utf8_decode_utf8(b@);
    }
    true
}

/// Whether two sequences of characters are the same.
pub fn same_chars(a: &[char], b: &[char]) -> (same: bool)
    ensures
        same == (a@ == b@),
{
    if a.len() != b.len() {
        return false;
    }
    let mut i: usize = 0;
    while i < a.len()
        invariant
            i <= a@.len(),
            a@.len() == b@.len(),
            forall|j: int| 0 <= j < i ==> a@[j] == b@[j],
        decreases a@.len() - i,
    {
        if a[i] != b[i] {
            return false;
        }
        i += 1;
    }
    assert(a@ =~= b@);
    true
}

/// Whether `i` is the place of the first `c` in `s`, or the length of `s`
/// if it holds no `c`.
pub open spec fn is_first_index(s: Seq<char>, c: char, i: int) -> bool {
    &&& 0 <= i <= s.len()
    &&& i < s.len() ==> s[i] == c
    &&& forall|j: int| 0 <= j < i ==> s[j] != c
}

/// The place of the first `c` in `s`, or the length of `s` if it holds no
/// `c`.
pub open spec fn first_index(s: Seq<char>, c: char) -> int {
    choose|i: int| is_first_index(s, c, i)
}

/// There is one such place, and `first_index` is it.
pub proof fn lemma_first_index(s: Seq<char>, c: char, i: int)
    requires
        is_first_index(s, c, i),
    ensures
        first_index(s, c) == i,
{
    let f = first_index(s, c);
    assert(is_first_index(s, c, f));
    if f < i {
        assert(s[f] != c);
    }
    if i < f {
        assert(s[i] != c);
    }
}

/// Every sequence has such a place.
pub proof fn lemma_first_index_exists(s: Seq<char>, c: char)
    ensures
        is_first_index(s, c, first_index(s, c)),
    decreases s.len(),
{
    if s.len() == 0 {
        assert(is_first_index(s, c, 0));
    } else {
        let front = s.drop_last();
        lemma_first_index_exists(front, c);
        let f = first_index(front, c);
        if f < front.len() {
            assert(s[f] == front[f]);
            assert forall|j: int| 0 <= j < f implies s[j] != c by {
                assert(s[j] == front[j]);
            }
            assert(is_first_index(s, c, f));
        } else {
            assert forall|j: int| 0 <= j < front.len() implies s[j] != c by {
                assert(s[j] == front[j]);
            }
            if s.last() == c {
                assert(is_first_index(s, c, s.len() - 1));
            } else {
                assert(is_first_index(s, c, s.len() as int));
            }
        }
    }
}

/// Finds the first `c` in `s` at or after `from`.
pub fn find_char(s: &[char], from: usize, c: char) -> (i: usize)
    requires
        from <= s@.len(),
    ensures
        from <= i <= s@.len(),
        i - from == first_index(s@.skip(from as int), c),
        is_first_index(s@.skip(from as int), c, i - from),
{
    let mut i: usize = from;
    while i < s.len() && s[i] != c
        invariant
            from <= i <= s@.len(),
            forall|j: int| from <= j < i ==> s@[j] != c,
        decreases s@.len() - i,
    {
        i += 1;
    }
    proof {
        let rest = s@.skip(from as int);
        assert forall|j: int| 0 <= j < i - from implies rest[j] != c by {
            assert(rest[j] == s@[from + j]);
        }
        lemma_first_index(rest, c, i - from);
    }
    i
}

/// The character of the decimal digit `d`.
pub open spec fn digit_char(d: int) -> char {
    ((0x30 + d) as u8) as char
}

/// Whether `c` is one of the digits `0` to `9`.
pub open spec fn is_digit(c: char) -> bool {
    0x30 <= c as u32 <= 0x39
}

/// The decimal numeral of `n`, without leading zeros.
pub open spec fn decimal(n: nat) -> Seq<char>
    decreases n,
{
    if n < 10 {
        seq![digit_char(n as int)]
    } else {
        decimal(n / 10).push(digit_char((n % 10) as int))
    }
}

/// The number that a sequence of digits stands for.
pub open spec fn digits_value(s: Seq<char>) -> nat
    decreases s.len(),
{
    if s.len() == 0 {
        0
    } else {
        digits_value(s.drop_last()) * 10 + (s.last() as u32 - 0x30) as nat
    }
}

/// The 16-bit number that `s` is a decimal numeral of: `s` is not empty,
/// holds digits only, and the number fits.  Leading zeros are accepted.
pub open spec fn parse_u16_spec(s: Seq<char>) -> Option<u16> {
    if s.len() > 0 && (forall|i: int| 0 <= i < s.len() ==> is_digit(#[trigger] s[i]))
        && digits_value(s) <= 0xFFFF {
        Some(digits_value(s) as u16)
    } else {
        None
    }
}

/// The numeral of a number is made of digits and stands for that number.
pub proof fn lemma_decimal(n: nat)
    ensures
        decimal(n).len() > 0,
        forall|i: int| 0 <= i < decimal(n).len() ==> is_digit(#[trigger] decimal(n)[i]),
        digits_value(decimal(n)) == n,
    decreases n,
{
    if n < 10 {
        let s = decimal(n);
        assert(s.drop_last() =~= Seq::<char>::empty());
        assert(digits_value(s.drop_last()) == 0);
    } else {
        lemma_decimal(n / 10);
        let s = decimal(n);
        assert(s.drop_last() =~= decimal(n / 10));
    }
}

/// A numeral is read back as its number.
pub proof fn lemma_parse_decimal(n: u16)
    ensures
        parse_u16_spec(decimal(n as nat)) == Some(n),
{
    lemma_decimal(n as nat);
}

/// A sequence of digits stands for at least as much as each of its
/// beginnings.
proof fn lemma_digits_value_grows(s: Seq<char>, k: int)
    requires
        0 <= k <= s.len(),
    ensures
        digits_value(s.take(k)) <= digits_value(s),
    decreases s.len() - k,
{
    if k == s.len() {
        assert(s.take(k) =~= s);
    } else {
        lemma_digits_value_grows(s, k + 1);
        assert(s.take(k + 1).drop_last() =~= s.take(k));
    }
}

/// Appends the decimal numeral of `n`.
pub fn push_decimal(out: &mut Vec<char>, n: u16)
    ensures
        final(out)@ == old(out)@ + decimal(n as nat),
    decreases n,
{
    if n >= 10 {
        push_decimal(out, n / 10);
    }
    let d: u8 = (n % 10) as u8;
    out.push((0x30 + d) as char);
    if n >= 10 {
        assert(out@ =~= old(out)@ + decimal(n as nat));
    } else {
        assert(out@ =~= old(out)@ + decimal(n as nat));
    }
}

/// Reads a decimal numeral of a 16-bit number.
pub fn parse_u16(s: &[char]) -> (r: Option<u16>)
    ensures
        r == parse_u16_spec(s@),
{
    if s.len() == 0 {
        return None;
    }
    let mut acc: u32 = 0;
    let mut i: usize = 0;
    while i < s.len()
        invariant
            i <= s@.len(),
            s@.len() > 0,
            acc <= 0xFFFF,
            acc == digits_value(s@.take(i as int)),
            forall|j: int| 0 <= j < i ==> is_digit(#[trigger] s@[j]),
        decreases s@.len() - i,
    {
        let c: u32 = s[i] as u32;
        if c < 0x30 || c > 0x39 {
            return None;
        }
        acc = acc * 10 + (c - 0x30);
        proof {
            assert(s@.take(i + 1).drop_last() =~= s@.take(i as int));
            assert(acc == digits_value(s@.take(i + 1)));
        }
        if acc > 0xFFFF {
            proof {
                lemma_digits_value_grows(s@, i + 1);
            }
            return None;
        }
        i += 1;
    }
    assert(s@.take(s@.len() as int) =~= s@);
    Some(acc as u16)
}

/// The texts `parts` one after the other, with `sep` between each two.
pub open spec fn join(parts: Seq<Seq<char>>, sep: char) -> Seq<char>
    decreases parts.len(),
{
    if parts.len() == 0 {
        Seq::empty()
    } else if parts.len() == 1 {
        parts[0]
    } else {
        parts[0] + seq![sep] + join(parts.skip(1), sep)
    }
}

/// What is joined from part `i` on is part `i`, and after it, if more parts
/// follow, a separator and what is joined from part `i + 1` on.
pub proof fn lemma_join_from(parts: Seq<Seq<char>>, sep: char, i: int)
    requires
        0 <= i < parts.len(),
    ensures
        join(parts.skip(i), sep) == if i + 1 < parts.len() {
            parts[i] + seq![sep] + join(parts.skip(i + 1), sep)
        } else {
            parts[i]
        },
{
    assert(parts.skip(i).skip(1) =~= parts.skip(i + 1));
    assert(parts.skip(i)[0] == parts[i]);
}

/// Where the first part holds no separator, it ends at the first separator
/// of the joined text, and what follows that separator is the other parts
/// joined.
pub proof fn lemma_join_first(parts: Seq<Seq<char>>, sep: char)
    requires
        parts.len() > 0,
        !parts[0].contains(sep),
    ensures
        first_index(join(parts, sep), sep) == parts[0].len(),
        join(parts, sep).take(parts[0].len() as int) == parts[0],
        parts.len() == 1 ==> join(parts, sep).len() == parts[0].len(),
        parts.len() > 1 ==> parts[0].len() < join(parts, sep).len() && join(parts, sep).skip(
            parts[0].len() as int + 1,
        ) == join(parts.skip(1), sep),
{
    let text = join(parts, sep);
    let head = parts[0];
    assert forall|j: int| 0 <= j < head.len() implies text[j] != sep by {
        assert(text[j] == head[j]);
        assert(head.contains(head[j]));
    }
    assert(is_first_index(text, sep, head.len() as int));
    lemma_first_index(text, sep, head.len() as int);
    assert(text.take(head.len() as int) =~= head);
    if parts.len() > 1 {
        assert(text.skip(head.len() as int + 1) =~= join(parts.skip(1), sep));
    }
}

} // verus!
