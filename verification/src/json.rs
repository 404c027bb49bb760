use vstd::prelude::*;

verus! {

// ── Reading replies ─────────────────────────────────────────────────────────

/// Whether `body` is a JSON document, as `serde_json` reads one.
pub uninterp spec fn json_parses(body: Seq<char>) -> bool;

/// The string found in the JSON document `body` at the JSON pointer `pointer`, if the
/// document parses and holds a string there.
pub uninterp spec fn json_text_at(body: Seq<char>, pointer: Seq<char>) -> Option<Seq<char>>;

/// The items of the array found in `body` at `pointer`, each as its string when it is one,
/// if the document parses and holds an array there.
pub uninterp spec fn json_array_texts(body: Seq<char>, pointer: Seq<char>) -> Option<Seq<Option<Seq<char>>>>;

/// The JSON text of the value found in `body` at `pointer`, if the document parses and holds
/// a value there.
pub uninterp spec fn json_rendering_at(body: Seq<char>, pointer: Seq<char>) -> Option<Seq<char>>;

/// Calls `serde_json::from_str::<Value>` and tells whether it succeeded.
///
/// Trusted: the result is that of the parse, a function of `body` alone.
#[verifier::external_body]
pub(crate) fn json_is_valid(body: &str) -> (r: bool)
    ensures
        r == json_parses(body@),
{
    serde_json::from_str::<serde_json::Value>(body).is_ok()
}

/// Parses `body` with `serde_json::from_str::<Value>`, looks `pointer` up with
/// `Value::pointer`, and takes the string there with `Value::as_str`.
///
/// Trusted: the result is a function of `body` and `pointer` alone; it is `None` when the
/// parse fails, nothing is at the pointer, or what is there is not a string.
#[verifier::external_body]
pub(crate) fn json_string_at(body: &str, pointer: &str) -> (r: Option<String>)
    ensures
        match r {
            Some(s) => json_text_at(body@, pointer@) == Some(s@),
            None => json_text_at(body@, pointer@) is None,
        },
{
    let value = serde_json::from_str::<serde_json::Value>(body).ok();
    value.and_then(|v| v.pointer(pointer).and_then(|x| x.as_str()).map(String::from))
}

/// Parses `body`, looks `pointer` up with `Value::pointer`, takes the array there with
/// `Value::as_array`, and each item with `Value::as_str`.
///
/// Trusted: the result is a function of `body` and `pointer` alone; it is `None` when the
/// parse fails or no array is at the pointer.
#[verifier::external_body]
pub(crate) fn json_array_at(body: &str, pointer: &str) -> (r: Option<Vec<Option<String>>>)
    ensures
        match r {
            Some(v) => json_array_texts(body@, pointer@) == Some(
                v@.map_values(|x: Option<String>| match x {
                    Some(s) => Some(s@),
                    None => None,
                }),
            ),
            None => json_array_texts(body@, pointer@) is None,
        },
{
    let value = serde_json::from_str::<serde_json::Value>(body).ok();
    let items = value.and_then(|v| v.pointer(pointer).and_then(|a| a.as_array()).cloned());
    items.map(|a| a.iter().map(|x| x.as_str().map(String::from)).collect())
}

/// Parses `body`, looks `pointer` up with `Value::pointer`, and writes the value there as
/// JSON text with its `Display`.
///
/// Trusted: the result is a function of `body` and `pointer` alone; it is `None` when the
/// parse fails or nothing is at the pointer.
#[verifier::external_body]
pub(crate) fn json_value_text_at(body: &str, pointer: &str) -> (r: Option<String>)
    ensures
        match r {
            Some(s) => json_rendering_at(body@, pointer@) == Some(s@),
            None => json_rendering_at(body@, pointer@) is None,
        },
{
    let value = serde_json::from_str::<serde_json::Value>(body).ok();
    value.and_then(|v| v.pointer(pointer).map(|x| x.to_string()))
}

// ── Writing requests ────────────────────────────────────────────────────────

/// The lower-case hexadecimal digit for `d < 16`.
pub open spec fn hex_digit(d: int) -> char {
    if d < 10 {
        (48 + d) as char
    } else {
        (87 + d) as char
    }
}

/// How `serde_json` writes a character inside a JSON string: `"` and `\` escaped with a
/// backslash; backspace, form feed, newline, carriage return and tab as `\b`, `\f`, `\n`,
/// `\r`, `\t`; the other control characters below U+0020 as `\u00` and two lower-case hex
/// digits; every other character as it is.
pub open spec fn json_escape(c: char) -> Seq<char> {
    if c == '"' {
        seq!['\\', '"']
    } else if c == '\\' {
        seq!['\\', '\\']
    } else if c == '\x08' {
        seq!['\\', 'b']
    } else if c == '\x0c' {
        seq!['\\', 'f']
    } else if c == '\n' {
        seq!['\\', 'n']
    } else if c == '\r' {
        seq!['\\', 'r']
    } else if c == '\t' {
        seq!['\\', 't']
    } else if (c as u32) < 0x20 {
        seq!['\\', 'u', '0', '0', hex_digit((c as u32) as int / 16), hex_digit((c as u32) as int % 16)]
    } else {
        seq![c]
    }
}

/// The characters of `s`, each escaped as in a JSON string.
pub open spec fn json_escaped(s: Seq<char>) -> Seq<char>
    decreases s.len(),
{
    if s.len() == 0 {
        Seq::empty()
    } else {
        json_escaped(s.drop_last()) + json_escape(s.last())
    }
}

/// The JSON string literal of `s`: `s` escaped, between double quotes.
pub open spec fn json_quoted(s: Seq<char>) -> Seq<char> {
    seq!['"'] + json_escaped(s) + seq!['"']
}

/// Writes `s` as a JSON string literal with `serde_json::to_string`.
///
/// Trusted: `serde_json` writes a string between double quotes with each character escaped
/// by its escape table, which [`json_escape`] states. Writing into memory does not fail.
#[verifier::external_body]
pub(crate) fn json_string_literal(s: &str) -> (r: String)
    ensures
        r@ == json_quoted(s@),
{
    serde_json::to_string(s).unwrap_or_default()
}

} // verus!
