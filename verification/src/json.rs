use vstd::prelude::*;

use crate::digest::hex_digit;

verus! {

/// How `serde_json` writes one character inside a JSON string: `"` and `\`
/// are escaped, the control characters below U+0020 become a short escape
/// (`\b \t \n \f \r`) or `\u00XX` with lower-case hex, anything else is
/// written as it is.
pub open spec fn json_escape_char(c: char) -> Seq<char> {
    if c == '"' {
        seq!['\\', '"']
    } else if c == '\\' {
        seq!['\\', '\\']
    } else if c == '\u{8}' {
        seq!['\\', 'b']
    } else if c == '\t' {
        seq!['\\', 't']
    } else if c == '\n' {
        seq!['\\', 'n']
    } else if c == '\u{c}' {
        seq!['\\', 'f']
    } else if c == '\r' {
        seq!['\\', 'r']
    } else if (c as int) < 32 {
        seq!['\\', 'u', '0', '0', hex_digit((c as int) / 16), hex_digit((c as int) % 16)]
    } else {
        seq![c]
    }
}

/// The escaped contents of a JSON string.
pub open spec fn json_escape(s: Seq<char>) -> Seq<char>
    decreases s.len(),
{
    if s.len() == 0 {
        Seq::empty()
    } else {
        json_escape(s.drop_last()) + json_escape_char(s.last())
    }
}

/// A JSON string literal as `serde_json` writes it: quotes around the escaped text.
pub open spec fn json_quote(s: Seq<char>) -> Seq<char> {
    seq!['"'] + json_escape(s) + seq!['"']
}

/// The decimal digit for a value below 10.
pub open spec fn decimal_digit(n: nat) -> char {
    (n + 48) as char
}

/// Decimal text of a natural number, without leading zeros.
pub open spec fn decimal(n: nat) -> Seq<char>
    decreases n,
{
    if n < 10 {
        seq![decimal_digit(n)]
    } else {
        decimal(n / 10).push(decimal_digit(n % 10))
    }
}

/// Calls `serde_json::to_string` on a string slice.
/// Trusted: the result is the quoted, escaped JSON string that `serde_json`'s
/// serializer writes (`format_escaped_str` with its `ESCAPE` table), stated in
/// `json_quote`. Serializing a `str` into memory cannot fail.
#[verifier::external_body]
pub(crate) fn json_string(s: &str) -> (json: String)
    ensures
        json@ == json_quote(s@),
{
    serde_json::to_string(s).unwrap()
}

/// Calls `serde_json::to_string` on a `usize`.
/// Trusted: `serde_json` writes an unsigned integer as its decimal digits
/// (through `itoa`), stated in `decimal`. This cannot fail.
#[verifier::external_body]
pub(crate) fn json_usize(n: usize) -> (json: String)
    ensures
        json@ == decimal(n as nat),
{
    serde_json::to_string(&n).unwrap()
}

/// Items joined by commas.
pub open spec fn join_commas(items: Seq<Seq<char>>) -> Seq<char>
    decreases items.len(),
{
    if items.len() == 0 {
        Seq::empty()
    } else if items.len() == 1 {
        items[0]
    } else {
        join_commas(items.drop_last()) + ","@ + items.last()
    }
}

/// A compact JSON array of already serialized values.
pub open spec fn json_array(items: Seq<Seq<char>>) -> Seq<char> {
    "["@ + join_commas(items) + "]"@
}

/// A compact JSON array of strings.
pub open spec fn json_string_array(items: Seq<Seq<char>>) -> Seq<char> {
    json_array(items.map_values(|s: Seq<char>| json_quote(s)))
}

/// A compact JSON object member `"key":value`.
pub open spec fn json_member(key: Seq<char>, value: Seq<char>) -> Seq<char> {
    json_quote(key) + ":"@ + value
}

/// A compact JSON object whose keys and values are strings, members in the given order.
pub open spec fn json_string_object(entries: Seq<(Seq<char>, Seq<char>)>) -> Seq<char> {
    "{"@ + join_commas(
        entries.map_values(|e: (Seq<char>, Seq<char>)| json_member(e.0, json_quote(e.1))),
    ) + "}"@
}

/// Calls `serde_json::to_string` on a list of strings.
/// Trusted: `serde_json` writes a sequence as `[`, the elements separated by
/// commas, and `]` (`serialize_seq`, `begin_array_value`), each string
/// escaped as in `json_quote`: together `json_string_array`. This cannot fail.
#[verifier::external_body]
pub(crate) fn json_string_list(items: &Vec<String>) -> (json: String)
    ensures
        json@ == json_string_array(items@.map_values(|s: String| s@)),
{
    serde_json::to_string(items).unwrap()
}

/// Appends `items` as a compact JSON array of strings.
pub fn push_json_string_array(out: &mut String, items: &Vec<String>)
    ensures
        final(out)@ == old(out)@ + json_string_array(items@.map_values(|s: String| s@)),
{
    let json = json_string_list(items);
    out.append(json.as_str());
}

} // verus!
