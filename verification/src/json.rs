//! The boundary to `serde_json`. Every function here has a body that Verus does
//! not read: its contract is taken on trust. What reading a text gives is given
//! a name, a specification function without a body, so that the contracts of
//! the verified code can speak of it exactly; what writing a string gives is
//! stated in full.

use vstd::prelude::*;

verus! {

/// Whether `text` is one well-formed JSON document: whether
/// `serde_json::from_str::<serde_json::Value>` accepts it.
pub uninterp spec fn json_valid(text: Seq<char>) -> bool;

/// The members of the JSON object that `text` holds, each as its key and the
/// JSON text of its value, in the order in which `serde_json` hands them out;
/// `None` where `text` is not a JSON object.
pub uninterp spec fn json_members(text: Seq<char>) -> Option<Seq<(Seq<char>, Seq<char>)>>;

/// The string that the JSON string literal `text` stands for; `None` where
/// `text` is not a JSON string.
pub uninterp spec fn json_string(text: Seq<char>) -> Option<Seq<char>>;

/// The hexadecimal digit for a number below 16, in lower case.
pub open spec fn hex_digit(n: int) -> char {
    "0123456789abcdef"@[n]
}

/// What `serde_json` writes for one character inside a JSON string literal:
/// the quotation mark, the backslash and the control characters below U+0020
/// are escaped, every other character stands for itself.
pub open spec fn quoted_char(c: char) -> Seq<char> {
    if c == '"' {
        seq!['\\', '"']
    } else if c == '\\' {
        seq!['\\', '\\']
    } else if c == '\u{8}' {
        seq!['\\', 'b']
    } else if c == '\t' {
        seq!['\\', 't']
    } else if c == '\n' {
        seq!['\\', 'n']
    } else if c == '\u{c}' {
        seq!['\\', 'f']
    } else if c == '\r' {
        seq!['\\', 'r']
    } else if (c as u32) < 0x20 {
        seq!['\\', 'u', '0', '0', hex_digit((c as u32) as int / 16), hex_digit((c as u32) as int % 16)]
    } else {
        seq![c]
    }
}

/// What `serde_json` writes for the characters of a string, one after the
/// other.
pub open spec fn quoted_chars(text: Seq<char>) -> Seq<char>
    decreases text.len(),
{
    if text.len() == 0 {
        Seq::empty()
    } else {
        quoted_chars(text.drop_last()) + quoted_char(text.last())
    }
}

/// The JSON string literal that `serde_json` writes for `text`: the escaped
/// characters between two quotation marks.
pub open spec fn json_quoted(text: Seq<char>) -> Seq<char> {
    seq!['"'] + quoted_chars(text) + seq!['"']
}

/// The keys of a list of members, in order.
pub open spec fn member_keys(members: Seq<(Seq<char>, Seq<char>)>) -> Seq<Seq<char>> {
    Seq::new(members.len(), |i: int| members[i].0)
}

/// The values of a list of members, in order.
pub open spec fn member_values(members: Seq<(Seq<char>, Seq<char>)>) -> Seq<Seq<char>> {
    Seq::new(members.len(), |i: int| members[i].1)
}

/// Calls `serde_json::from_str` at the type `serde_json::Value` and reports
/// whether it succeeded. Trusted: that the answer depends on the text alone.
#[verifier::external_body]
pub(crate) fn is_json(text: &str) -> (r: bool)
    ensures
        r == json_valid(text@),
{
    serde_json::from_str::<serde_json::Value>(text).is_ok()
}

/// Calls `serde_json::from_str` at the type of a map from `String` to
/// `Box<RawValue>`, which accepts a JSON object and keeps the text of each
/// member's value as it stands in the input. Trusted: that the members depend
/// on the text alone, and that no key comes twice (the map holds each key
/// once).
#[verifier::external_body]
pub(crate) fn object_members(text: &str) -> (r: Option<Vec<(String, String)>>)
    ensures
        r.deep_view() == json_members(text@),
        r matches Some(members) ==> member_keys(members.deep_view()).no_duplicates(),
{
    let parsed: Result<
        std::collections::BTreeMap<String, Box<serde_json::value::RawValue>>,
        serde_json::Error,
    > = serde_json::from_str(text);
    match parsed {
        Ok(map) => Some(map.into_iter().map(|(key, raw)| (key, raw.get().to_owned())).collect()),
        Err(_) => None,
    }
}

/// Calls `serde_json::from_str` at the type `String`, which accepts a JSON
/// string literal and undoes its escapes. Trusted: that the result depends on
/// the text alone.
#[verifier::external_body]
pub(crate) fn string_value(text: &str) -> (r: Option<String>)
    ensures
        r.deep_view() == json_string(text@),
{
    serde_json::from_str::<String>(text).ok()
}

/// Calls `serde_json::to_string` on a string slice, which writes it as a JSON
/// string literal and cannot fail. Trusted: that the literal is written as
/// [`json_quoted`] says, which is how the serializer of `serde_json` escapes a
/// string.
#[verifier::external_body]
pub(crate) fn quote(text: &str) -> (r: String)
    ensures
        r@ == json_quoted(text@),
{
    serde_json::to_string(text).unwrap_or_default()
}

/// Calls `serde_json::to_string` on a map from `String` to `String`, which
/// writes it as a JSON object and cannot fail. Nothing is promised of the
/// result: the order of the members is that in which the map is walked.
#[verifier::external_body]
pub(crate) fn render_cfg_text(cfg: &std::collections::HashMap<String, String>) -> String {
    serde_json::to_string(cfg).unwrap_or_default()
}

} // verus!
