//! Character sequences of strings, and text built from them.

use vstd::prelude::*;
use vstd::utf8::{decode_utf8, encode_utf8, valid_utf8};

verus! {

/// `String::push` appends one character to the end of the string.
pub assume_specification[ String::push ](text: &mut String, c: char)
    ensures
        final(text)@ == old(text)@.push(c),
;

/// Number of bytes of a character sequence in UTF-8.
pub open spec fn byte_len(text: Seq<char>) -> nat {
    encode_utf8(text).len()
}

/// The characters of a string, in order.
pub fn characters(text: &str) -> (result: Vec<char>)
    ensures
        result@ == text@,
{
    let mut result: Vec<char> = Vec::new();
    for c in it: text.chars()
        invariant
            it.seq() == text@,
            result@ == it.seq().take(it.index()),
    {
        result.push(c);
    }
    result
}

/// Whether two strings have the same characters.
pub fn same_text(a: &str, b: &str) -> (result: bool)
    ensures
        result == (a@ == b@),
{
    let left = characters(a);
    let right = characters(b);
    if left.len() != right.len() {
        return false;
    }
    let mut i: usize = 0;
    while i < left.len()
        invariant
            i <= left@.len(),
            left@.len() == right@.len(),
            left@ == a@,
            right@ == b@,
            forall|j: int| 0 <= j < i ==> left@[j] == right@[j],
        decreases left@.len() - i,
    {
        if left[i] != right[i] {
            assert(a@[i as int] != b@[i as int]);
            return false;
        }
        i = i + 1;
    }
    assert(left@ =~= right@);
    true
}

/// Some of the characters, as a string.
pub fn collect(chars: &Vec<char>, from: usize, to: usize) -> (result: String)
    requires
        from <= to <= chars@.len(),
    ensures
        result@ == chars@.subrange(from as int, to as int),
{
    let mut text = String::new();
    let mut i: usize = from;
    assert(text@ =~= chars@.subrange(from as int, from as int));
    while i < to
        invariant
            from <= i <= to <= chars@.len(),
            text@ == chars@.subrange(from as int, i as int),
        decreases to - i,
    {
        text.push(chars[i]);
        assert(text@ =~= chars@.subrange(from as int, i + 1));
        i = i + 1;
    }
    text
}

/// The text that bytes hold, from `std::str::from_utf8`: it takes exactly what is valid UTF-8,
/// and gives its characters.
#[verifier::external_body]
pub(crate) fn utf8_text(bytes: &[u8]) -> (result: Option<String>)
    ensures
        result is Some <==> valid_utf8(bytes@),
        result is Some ==> (result->0)@ == decode_utf8(bytes@),
{
    match std::str::from_utf8(bytes) {
        Ok(text) => Some(text.to_owned()),
        Err(_) => None,
    }
}

/// Whether a character is white space in the sense of Unicode.
pub open spec fn is_whitespace(c: char) -> bool {
    ||| '\u{9}' <= c <= '\u{d}'
    ||| c == ' '
    ||| c == '\u{85}'
    ||| c == '\u{a0}'
    ||| c == '\u{1680}'
    ||| '\u{2000}' <= c <= '\u{200a}'
    ||| c == '\u{2028}'
    ||| c == '\u{2029}'
    ||| c == '\u{202f}'
    ||| c == '\u{205f}'
    ||| c == '\u{3000}'
}

/// Whether a character is white space in the sense of Unicode.
pub fn whitespace(c: char) -> (result: bool)
    ensures
        result == is_whitespace(c),
{
    ('\u{9}' <= c && c <= '\u{d}') || c == ' ' || c == '\u{85}' || c == '\u{a0}' || c == '\u{1680}'
        || ('\u{2000}' <= c && c <= '\u{200a}') || c == '\u{2028}' || c == '\u{2029}' || c
        == '\u{202f}' || c == '\u{205f}' || c == '\u{3000}'
}

/// What `{:?}` writes for a string: quoted, with special characters escaped.
pub uninterp spec fn debug_form(text: Seq<char>) -> Seq<char>;

/// The `Debug` form of a string, from `<str as std::fmt::Debug>` through `format!`. The
/// contract only names it: which characters are escaped is left to the standard library.
#[verifier::external_body]
pub(crate) fn debug_text(text: &str) -> (result: String)
    ensures
        result@ == debug_form(text@),
{
    format!("{:?}", text)
}

pub open spec fn decimal_digit(d: int) -> char {
    (('0' as u8) + d) as char
}

/// The decimal digits of a number, without leading zeros.
pub open spec fn decimal(value: nat) -> Seq<char>
    decreases value,
{
    if value < 10 {
        seq![decimal_digit(value as int)]
    } else {
        decimal(value / 10).push(decimal_digit(value as int % 10))
    }
}

/// Writes a number in decimal, as `Display` does for unsigned integers.
pub fn decimal_text(value: u64) -> (result: String)
    ensures
        result@ == decimal(value as nat),
    decreases value,
{
    let digit: u8 = (value % 10) as u8;
    let c: char = (48u8 + digit) as char;
    if value < 10 {
        let mut text = String::new();
        text.push(c);
        text
    } else {
        let mut text = decimal_text(value / 10);
        text.push(c);
        text
    }
}

/// The number that decimal digits stand for.
pub open spec fn decimal_value(digits: Seq<char>) -> int
    decreases digits.len(),
{
    if digits.len() == 0 {
        0
    } else {
        decimal_value(digits.drop_last()) * 10 + (digits.last() as int - '0' as int)
    }
}

/// Decimal text holds digits alone, without leading zeros, and reads back as the number.
pub proof fn decimals_read_back(value: nat)
    ensures
        decimal_value(decimal(value)) == value,
        decimal(value).len() > 0,
        forall|i: int| 0 <= i < decimal(value).len() ==> '0' <= (#[trigger] decimal(value)[i]) <= '9',
        decimal(value).len() > 1 ==> decimal(value)[0] != '0',
    decreases value,
{
    if value >= 10 {
        decimals_read_back(value / 10);
        let rest = decimal(value / 10);
        assert(decimal(value).drop_last() =~= rest);
        assert forall|i: int| 0 <= i < decimal(value).len() implies '0' <= (#[trigger] decimal(
            value,
        )[i]) <= '9' by {
            if i < rest.len() {
                assert(decimal(value)[i] == rest[i]);
            }
        }
        assert(decimal(value)[0] == rest[0]);
        if rest.len() == 1 {
            assert(decimal_value(rest.drop_last()) == 0);
        }
    } else {
        assert(decimal(value).drop_last() =~= Seq::<char>::empty());
        assert(decimal_value(Seq::<char>::empty()) == 0);
    }
}

/// White space is what Unicode counts as such: the blanks and line breaks of ASCII, and the spaces and
/// separators beyond it.
pub proof fn white_space_is_blank(c: char, result: bool)
    requires
        call_ensures(whitespace, (c,), result),
    ensures
        ({
            let code = c as u32;
            result <==> 9 <= code <= 13 || code == 32 || code == 0x85 || code == 0xa0 || code == 0x1680
                || 0x2000 <= code <= 0x200a || code == 0x2028 || code == 0x2029 || code == 0x202f
                || code == 0x205f || code == 0x3000
        }),
{
}

} // verus!
