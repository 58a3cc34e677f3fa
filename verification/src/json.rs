//! JSON text of strings.

use vstd::prelude::*;

verus! {

/// A hexadecimal digit, in lower case.
pub open spec fn json_hex(value: int) -> char {
    if value < 10 {
        (48 + value) as char
    } else {
        (87 + value) as char
    }
}

/// How a character is written inside a JSON string: quotes, backslashes and control characters
/// are escaped, everything else stands for itself.
pub open spec fn json_escape(c: char) -> Seq<char> {
    if c == '"' {
        seq!['\\', '"']
    } else if c == '\\' {
        seq!['\\', '\\']
    } else if c == '\u{8}' {
        seq!['\\', 'b']
    } else if c == '\t' {
        seq!['\\', 't']
    } else if c == '\n' {
        seq!['\\', 'n']
    } else if c == '\u{c}' {
        seq!['\\', 'f']
    } else if c == '\r' {
        seq!['\\', 'r']
    } else if (c as int) < 32 {
        seq!['\\', 'u', '0', '0', json_hex(c as int / 16), json_hex(c as int % 16)]
    } else {
        seq![c]
    }
}

/// The characters of a JSON string between its quotes.
pub open spec fn json_contents(text: Seq<char>) -> Seq<char>
    decreases text.len(),
{
    if text.len() == 0 {
        Seq::empty()
    } else {
        json_contents(text.drop_last()) + json_escape(text.last())
    }
}

/// A string as JSON text.
pub open spec fn json_text(text: Seq<char>) -> Seq<char> {
    seq!['"'] + json_contents(text) + seq!['"']
}

/// `serde_json::to_string` of a string: the quoted and escaped text. Writing to memory does not
/// fail, so there always is one.
#[verifier::external_body]
fn to_string(text: &str) -> (result: Option<String>)
    ensures
        result is Some,
        (result->0)@ == json_text(text@),
{
    match serde_json::to_string(text) {
        Ok(written) => Some(written),
        Err(_) => None,
    }
}

/// A string as JSON text.
pub fn json_string(text: &str) -> (result: String)
    ensures
        result@ == json_text(text@),
{
    match to_string(text) {
        Some(written) => written,
        None => {
            assert(false);
            String::new()
        },
    }
}

proof fn lemma_escape_is_plain(c: char, k: int)
    requires
        0 <= k < json_escape(c).len(),
    ensures
        json_escape(c)[k] >= ' ',
{
    if (c as int) < 32 && c != '\u{8}' && c != '\t' && c != '\n' && c != '\u{c}' && c != '\r' {
        let high = json_hex(c as int / 16);
        let low = json_hex(c as int % 16);
        assert(high >= ' ');
        assert(low >= ' ');
        assert(json_escape(c) == seq!['\\', 'u', '0', '0', high, low]);
        assert(k == 0 || k == 1 || k == 2 || k == 3 || k == 4 || k == 5);
    } else {
        assert(k == 0 || k == 1);
    }
}

/// No line break or other control character stands for itself inside a JSON string.
pub proof fn escapes_are_plain(text: Seq<char>)
    ensures
        forall|i: int| 0 <= i < json_contents(text).len() ==> (#[trigger] json_contents(text)[i]) >= ' ',
    decreases text.len(),
{
    if text.len() > 0 {
        escapes_are_plain(text.drop_last());
        let rest = json_contents(text.drop_last());
        let last = json_escape(text.last());
        assert forall|i: int| 0 <= i < json_contents(text).len() implies (
        #[trigger] json_contents(text)[i]) >= ' ' by {
            if i < rest.len() {
                assert(json_contents(text)[i] == rest[i]);
            } else {
                assert(json_contents(text)[i] == last[i - rest.len()]);
                lemma_escape_is_plain(text.last(), i - rest.len());
            }
        }
    }
}

} // verus!
