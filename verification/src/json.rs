//! JSON text of strings and string lists, as serde_json writes them.
use vstd::prelude::*;
use crate::build::digest::hex_digit;
use crate::report::join_seqs;
use crate::text::{push_str};

verus! {

/// How a JSON string writes one character: the quote, the backslash and
/// the control characters are escaped; every other character stands as
/// it is.
pub open spec fn json_escape(c: char) -> Seq<char> {
    if c == '"' {
        seq!['\\', '"']
    } else if c == '\\' {
        seq!['\\', '\\']
    } else if c == '\x08' {
        seq!['\\', 'b']
    } else if c == '\t' {
        seq!['\\', 't']
    } else if c == '\n' {
        seq!['\\', 'n']
    } else if c == '\x0c' {
        seq!['\\', 'f']
    } else if c == '\r' {
        seq!['\\', 'r']
    } else if (c as u32) < 0x20 {
        seq!['\\', 'u', '0', '0', hex_digit(((c as u32) / 16) as u8), hex_digit(((c as u32) % 16) as u8)]
    } else {
        seq![c]
    }
}

/// The characters of `s`, each escaped.
pub open spec fn json_escaped(s: Seq<char>) -> Seq<char>
    decreases s.len(),
{
    if s.len() == 0 {
        Seq::empty()
    } else {
        json_escaped(s.drop_last()) + json_escape(s.last())
    }
}

/// A JSON string literal: `"`, the escaped characters, `"`.
pub open spec fn json_quoted(s: Seq<char>) -> Seq<char> {
    seq!['"'] + json_escaped(s) + seq!['"']
}

/// A JSON array of strings, without spaces: `["a","b"]`.
pub open spec fn json_string_array(items: Seq<Seq<char>>) -> Seq<char> {
    "["@ + join_seqs(items.map_values(|s: Seq<char>| json_quoted(s)), ","@) + "]"@
}

/// `serde_json::to_string` of a string slice.
///
/// Trusted: serde_json's serializer writes a string as a quote, then every
/// byte through its escape table (`ser.rs`: `ESCAPE`,
/// `format_escaped_str_contents`, `write_char_escape`) — quote and
/// backslash escaped, `\b \t \n \f \r` by letter, the other bytes below
/// 0x20 as `\u00` and two lower-case hex digits, all others as they are —
/// then a quote. Serializing a string into a `Vec` cannot fail.
#[verifier::external_body]
pub(crate) fn json_string(s: &str) -> (r: String)
    ensures
        r@ == json_quoted(s@),
{
    serde_json::to_string(s).unwrap_or_default()
}

/// Appends the JSON string literal of `s`.
pub fn push_json_string(out: &mut String, s: &str)
    ensures
        final(out)@ == old(out)@ + json_quoted(s@),
{
    let q = json_string(s);
    push_str(out, q.as_str());
}

/// Appends the JSON array of the strings.
pub fn push_json_string_array(out: &mut String, items: &Vec<String>)
    ensures
        final(out)@ == old(out)@ + json_string_array(crate::cli::parser::strings_view(items@)),
{
    let ghost start = out@;
    let ghost quoted = crate::cli::parser::strings_view(items@).map_values(|s: Seq<char>| json_quoted(s));
    push_str(out, "[");
    let mut i: usize = 0;
    while i < items.len()
        invariant
            i <= items@.len(),
            quoted == crate::cli::parser::strings_view(items@).map_values(|s: Seq<char>| json_quoted(s)),
            out@ == start + "["@ + join_seqs(quoted.take(i as int), ","@),
        decreases items.len() - i,
    {
        let ghost before = out@;
        if i > 0 {
            push_str(out, ",");
        }
        push_json_string(out, items[i].as_str());
        proof {
            let t = quoted.take(i + 1);
            assert(t.drop_last() =~= quoted.take(i as int));
            assert(t.last() == json_quoted(items@[i as int]@));
        }
        i += 1;
    }
    assert(quoted.take(i as int) =~= quoted);
    push_str(out, "]");
}

} // verus!
