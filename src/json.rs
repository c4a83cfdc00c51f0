//! The JSON form of rows: arrays of strings, read and written by `serde_json`.
use crate::decimal::digit_char;
use vstd::prelude::*;

verus! {

/// The lower-case hexadecimal digit of `d < 16`.
pub open spec fn hex_char(d: nat) -> char {
    if d < 10 {
        digit_char(d)
    } else {
        ((d + 87) as u8) as char
    }
}

/// How a character stands inside a JSON string: `"` and `\` and the
/// control characters escaped, short forms where JSON has one, `\u00xx`
/// for the other controls; every other character as it is.
pub open spec fn json_char(c: char) -> Seq<char> {
    if c == '"' {
        seq!['\\', '"']
    } else if c == '\\' {
        seq!['\\', '\\']
    } else if c == '\u{8}' {
        seq!['\\', 'b']
    } else if c == '\t' {
        seq!['\\', 't']
    } else if c == '\n' {
        seq!['\\', 'n']
    } else if c == '\u{c}' {
        seq!['\\', 'f']
    } else if c == '\r' {
        seq!['\\', 'r']
    } else if (c as u32) < 0x20 {
        seq!['\\', 'u', '0', '0', hex_char((c as u32 / 16) as nat), hex_char((c as u32 % 16) as nat)]
    } else {
        seq![c]
    }
}

/// The escaped characters of a string.
pub open spec fn json_chars(s: Seq<char>) -> Seq<char>
    decreases s.len(),
{
    if s.len() == 0 {
        Seq::empty()
    } else {
        json_chars(s.drop_last()) + json_char(s.last())
    }
}

/// A JSON string literal.
pub open spec fn json_string(s: Seq<char>) -> Seq<char> {
    seq!['"'] + json_chars(s) + seq!['"']
}

/// The items one after the other, a comma between two.
pub open spec fn comma_joined(items: Seq<Seq<char>>) -> Seq<char>
    decreases items.len(),
{
    if items.len() == 0 {
        Seq::empty()
    } else if items.len() == 1 {
        items[0]
    } else {
        comma_joined(items.drop_last()) + seq![','] + items.last()
    }
}

/// A JSON array of strings, without spaces.
pub open spec fn json_string_array(items: Seq<Seq<char>>) -> Seq<char> {
    seq!['['] + comma_joined(items.map_values(|s: Seq<char>| json_string(s))) + seq![']']
}

/// A JSON array of arrays of strings, without spaces.
pub open spec fn json_nested_array(rows: Seq<Seq<Seq<char>>>) -> Seq<char> {
    seq!['['] + comma_joined(rows.map_values(|r: Seq<Seq<char>>| json_string_array(r))) + seq![
        ']',
    ]
}

/// The values that a JSON array of arrays holds, if the text is one: a
/// string as its characters, `null` as `None`, any other value as its JSON
/// text.
pub uninterp spec fn json_rows(s: Seq<char>) -> Option<Seq<Seq<Option<Seq<char>>>>>;

/// The values that a JSON array holds, if the text is one; each as in
/// [`json_rows`].
pub uninterp spec fn json_row(s: Seq<char>) -> Option<Seq<Option<Seq<char>>>>;

/// The text that a JSON value stands for: `null` is empty text.
pub open spec fn scalar_text(x: Option<Seq<char>>) -> Seq<char> {
    match x {
        Some(t) => t,
        None => Seq::empty(),
    }
}

pub open spec fn scalar_view(x: Option<String>) -> Option<Seq<char>> {
    match x {
        Some(s) => Some(s@),
        None => None,
    }
}

pub open spec fn scalars(v: Seq<Option<String>>) -> Seq<Option<Seq<char>>> {
    v.map_values(|x: Option<String>| scalar_view(x))
}

pub open spec fn nested_scalars(v: Seq<Vec<Option<String>>>) -> Seq<Seq<Option<Seq<char>>>> {
    v.map_values(|r: Vec<Option<String>>| scalars(r@))
}

/// The text of a JSON value: `null` is empty text.
pub fn scalar_string(x: &Option<String>) -> (r: String)
    ensures
        r@ == scalar_text(scalar_view(*x)),
{
    match x {
        Some(s) => s.clone(),
        None => String::new(),
    }
}

pub open spec fn texts(v: Seq<String>) -> Seq<Seq<char>> {
    v.map_values(|s: String| s@)
}

pub open spec fn nested_texts(v: Seq<Vec<String>>) -> Seq<Seq<Seq<char>>> {
    v.map_values(|r: Vec<String>| texts(r@))
}

/// Why a text does not give a table or a slice.
#[derive(Clone, Copy, Debug, PartialEq, Eq, Structural)]
pub enum ParseError {
    /// The text is not JSON of the expected form.
    Json,
    /// Rows that are empty or of different lengths.
    Shape,
}

#[verifier::external_type_specification]
#[verifier::external_body]
pub struct ExJsonError(serde_json::Error);

/// Relies on `serde_json::from_str` into arrays of arrays of
/// `serde_json::Value`, and on `Display` of `serde_json::Value` (compact
/// JSON text) for values other than strings and `null`.
#[verifier::external_body]
pub(crate) fn parse_json_rows(s: &str) -> (r: Result<Vec<Vec<Option<String>>>, serde_json::Error>)
    ensures
        r is Ok <==> json_rows(s@) is Some,
        r matches Ok(rows) ==> json_rows(s@) == Some(nested_scalars(rows@)),
{
    let rows = serde_json::from_str::<Vec<Vec<serde_json::Value>>>(s)?;
    Ok(rows.into_iter().map(|row| row.into_iter().map(|v| match v {
        serde_json::Value::String(t) => Some(t),
        serde_json::Value::Null => None,
        other => Some(other.to_string()),
    }).collect()).collect())
}

/// Relies on `serde_json::from_str` into an array of `serde_json::Value`,
/// with values as in [`parse_json_rows`].
#[verifier::external_body]
pub(crate) fn parse_json_row(s: &str) -> (r: Result<Vec<Option<String>>, serde_json::Error>)
    ensures
        r is Ok <==> json_row(s@) is Some,
        r matches Ok(row) ==> json_row(s@) == Some(scalars(row@)),
{
    let row = serde_json::from_str::<Vec<serde_json::Value>>(s)?;
    Ok(row.into_iter().map(|v| match v {
        serde_json::Value::String(t) => Some(t),
        serde_json::Value::Null => None,
        other => Some(other.to_string()),
    }).collect())
}

/// Relies on `serde_json::to_string` on strings (compact form, escapes of
/// `format_escaped_str_contents`), which cannot fail on them.
#[verifier::external_body]
pub(crate) fn format_json_row(row: &Vec<String>) -> (r: String)
    ensures
        r@ == json_string_array(texts(row@)),
{
    match serde_json::to_string(row) {
        Ok(t) => t,
        Err(_) => String::new(),
    }
}

/// Relies on `serde_json::to_string` on arrays of strings, as
/// [`format_json_row`].
#[verifier::external_body]
pub(crate) fn format_json_rows(rows: &Vec<Vec<String>>) -> (r: String)
    ensures
        r@ == json_nested_array(nested_texts(rows@)),
{
    match serde_json::to_string(rows) {
        Ok(t) => t,
        Err(_) => String::new(),
    }
}

} // verus!
