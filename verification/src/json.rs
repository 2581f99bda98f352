//! JSON values as the contract reads them, and the calls into `serde_json`
//! that parse a document and resolve a JSON Pointer in one.

use vstd::prelude::*;
use crate::text::same_text;

verus! {

/// A JSON value: what `serde_json::Value` holds, with a number kept as the
/// text `serde_json` writes for it and an object as its entries in order.
/// Its invariant, `json_well_formed`, is that of a `serde_json::Value`: no
/// object names a key twice. Parsing establishes it, and what resolves a
/// JSON Pointer in a value requires it.
#[derive(Debug, PartialEq, Eq)]
pub enum Json {
    Null,
    Bool(bool),
    Number(String),
    Str(String),
    Array(Vec<Json>),
    Object(Vec<(String, Json)>),
}

/// `serde_json::Value`, which the parsing and pointer calls pass through;
/// nothing inside it is visible here.
#[verifier::external_type_specification]
#[verifier::external_body]
pub struct ExValue(serde_json::Value);

/// The value under `key` among `entries`: the first entry with that key.
pub open spec fn lookup(entries: Seq<(String, Json)>, key: Seq<char>) -> Option<Json>
    decreases entries.len(),
{
    if entries.len() == 0 {
        None
    } else if entries[0].0@ == key {
        Some(entries[0].1)
    } else {
        lookup(entries.drop_first(), key)
    }
}

/// `Value::get` with a key: the member `key` of an object, and nothing of
/// any other value.
pub open spec fn member(value: Json, key: Seq<char>) -> Option<Json> {
    match value {
        Json::Object(entries) => lookup(entries@, key),
        _ => None,
    }
}

/// `member` of what may be a value.
pub open spec fn member_of(value: Option<Json>, key: Seq<char>) -> Option<Json> {
    match value {
        Some(v) => member(v, key),
        None => None,
    }
}

/// `Value::as_str` of what may be a value.
pub open spec fn text_of(value: Option<Json>) -> Option<Seq<char>> {
    match value {
        Some(Json::Str(s)) => Some(s@),
        _ => None,
    }
}

/// Whether what may be a value is an object.
pub open spec fn is_object(value: Option<Json>) -> bool {
    value matches Some(Json::Object(_))
}

/// Whether entries name no key twice, as a `serde_json::Map` never does.
pub open spec fn keys_unique(entries: Seq<(String, Json)>) -> bool {
    forall|i: int, j: int|
        0 <= i < entries.len() && 0 <= j < entries.len() && i != j ==> entries[i].0@
            != entries[j].0@
}

/// The invariant of a parsed document: no object in it, at any depth,
/// names a key twice.
pub open spec fn json_well_formed(value: Json) -> bool
    decreases value,
{
    match value {
        Json::Object(entries) => keys_unique(entries@) && forall|i: int|
            0 <= i < entries@.len() ==> json_well_formed(#[trigger] entries@[i].1),
        Json::Array(items) => forall|i: int|
            0 <= i < items@.len() ==> json_well_formed(#[trigger] items@[i]),
        _ => true,
    }
}

/// The pieces of `s` between its `/` characters, as `str::split('/')`
/// gives them (one empty piece for empty `s`).
pub open spec fn split_slash(s: Seq<char>) -> Seq<Seq<char>>
    decreases s.len(),
{
    if s.len() == 0 {
        seq![Seq::empty()]
    } else {
        let rest = split_slash(s.drop_first());
        if s[0] == '/' {
            seq![Seq::<char>::empty()] + rest
        } else {
            rest.update(0, seq![s[0]] + rest[0])
        }
    }
}

/// `s.replace(['~', d], to)`: every `~d`, left to right, made `to`.
pub open spec fn replace_tilde(s: Seq<char>, d: char, to: char) -> Seq<char>
    decreases s.len(),
{
    if s.len() == 0 {
        Seq::empty()
    } else if s.len() >= 2 && s[0] == '~' && s[1] == d {
        seq![to] + replace_tilde(s.skip(2), d, to)
    } else {
        seq![s[0]] + replace_tilde(s.drop_first(), d, to)
    }
}

/// A reference token with its escapes undone: `~1` to `/`, then `~0` to
/// `~`.
pub open spec fn unescape_token(token: Seq<char>) -> Seq<char> {
    replace_tilde(replace_tilde(token, '1', '/'), '0', '~')
}

/// Whether every character of `s` is an ASCII digit.
pub open spec fn all_digits(s: Seq<char>) -> bool {
    forall|i: int| 0 <= i < s.len() ==> '0' <= #[trigger] s[i] && s[i] <= '9'
}

/// The number that the digits `s` write in decimal.
pub open spec fn digits_value(s: Seq<char>) -> nat
    decreases s.len(),
{
    if s.len() == 0 {
        0
    } else {
        digits_value(s.drop_last()) * 10 + ((s.last() as nat) - 48) as nat
    }
}

/// The array index a token names: digits without a leading `0` (but `0`
/// itself), and no greater than `usize::MAX`.
pub open spec fn array_index(token: Seq<char>) -> Option<nat> {
    if token.len() > 0 && all_digits(token) && !(token[0] == '0' && token.len() != 1)
        && digits_value(token) <= usize::MAX {
        Some(digits_value(token))
    } else {
        None
    }
}

/// One step of a pointer: into an object by key (the first entry with it;
/// in a well-formed document there is one), into an array by index.
pub open spec fn pointer_step(target: Json, token: Seq<char>) -> Option<Json> {
    match target {
        Json::Object(entries) => lookup(entries@, token),
        Json::Array(items) => match array_index(token) {
            Some(n) => if n < items@.len() {
                Some(items@[n as int])
            } else {
                None
            },
            None => None,
        },
        _ => None,
    }
}

/// The value that the reference tokens `tokens` reach from `target`.
pub open spec fn pointer_walk(target: Json, tokens: Seq<Seq<char>>) -> Option<Json>
    decreases tokens.len(),
{
    if tokens.len() == 0 {
        Some(target)
    } else {
        match pointer_step(target, unescape_token(tokens[0])) {
            Some(next) => pointer_walk(next, tokens.drop_first()),
            None => None,
        }
    }
}

/// What the JSON Pointer `pointer` names in `document`, as `Value::pointer`
/// finds it: the document itself for the empty pointer; nothing for one
/// that does not begin with `/`; else the value its tokens reach.
pub open spec fn json_pointer(document: Json, pointer: Seq<char>) -> Option<Json> {
    if pointer.len() == 0 {
        Some(document)
    } else if pointer[0] != '/' {
        None
    } else {
        pointer_walk(document, split_slash(pointer.drop_first()))
    }
}

/// What `serde_json::from_slice::<Value>` gives for `bytes`: the document,
/// or the text of its error.
pub uninterp spec fn serde_json_from_slice(bytes: Seq<u8>) -> Result<Json, Seq<char>>;

/// What `serde_json::from_str::<Value>` gives for `text`: the document, or
/// the text of its error.
pub uninterp spec fn serde_json_from_str(text: Seq<char>) -> Result<Json, Seq<char>>;

/// `serde_json::from_slice` into a `Value`. Its contract claims that the
/// outcome, the document or the text of the error, is a function of the
/// bytes (`serde_json_from_slice`), and that no object of the document
/// names a key twice (a `serde_json::Map` cannot); what JSON grammar it
/// accepts is left to `serde_json`.
#[verifier::external_body]
pub fn parse_json_bytes(bytes: &[u8]) -> (r: Result<Json, String>)
    ensures
        match r {
            Ok(document) => serde_json_from_slice(bytes@) == Ok::<Json, Seq<char>>(document)
                && json_well_formed(document),
            Err(error) => serde_json_from_slice(bytes@) == Err::<Json, Seq<char>>(error@),
        },
{
    match serde_json::from_slice::<serde_json::Value>(bytes) {
        Ok(value) => Ok(json_of_value(&value)),
        Err(error) => Err(error.to_string()),
    }
}

/// `serde_json::from_str` into a `Value`. Its contract claims that the
/// outcome is a function of the text (`serde_json_from_str`), and that no
/// object of the document names a key twice.
#[verifier::external_body]
pub fn parse_json_text(text: &str) -> (r: Result<Json, String>)
    ensures
        match r {
            Ok(document) => serde_json_from_str(text@) == Ok::<Json, Seq<char>>(document)
                && json_well_formed(document),
            Err(error) => serde_json_from_str(text@) == Err::<Json, Seq<char>>(error@),
        },
{
    match serde_json::from_str::<serde_json::Value>(text) {
        Ok(value) => Ok(json_of_value(&value)),
        Err(error) => Err(error.to_string()),
    }
}

/// `Value::pointer` on `document` made a `serde_json::Value`: what the JSON
/// Pointer `pointer` names in it. For a document in which no object names a
/// key twice, as no `serde_json::Value` does, its contract claims that
/// something is found exactly where `json_pointer` finds something, and
/// that a string is found, the same string, exactly where `json_pointer`
/// finds one. It claims nothing of a document that repeats a key (which of
/// the repeated values the `serde_json::Map` keeps is not documented), and
/// nothing of the rest of a value found that is no string: a number in it
/// comes back as `serde_json` writes it (or `null`, when its text is no
/// number to `serde_json`).
#[verifier::external_body]
pub fn resolve_pointer(document: &Json, pointer: &str) -> (r: Option<Json>)
    ensures
        json_well_formed(*document) ==> (r is Some) == (json_pointer(*document, pointer@) is Some),
        json_well_formed(*document) ==> text_of(r) == text_of(json_pointer(*document, pointer@)),
{
    value_of_json(document).pointer(pointer).map(json_of_value)
}

/// Moves a `serde_json::Value` into a `Json`, variant by variant: the
/// conversion of the results of `serde_json::from_slice`, `from_str` and
/// `Value::pointer` above. It claims nothing: what those calls promise is
/// stated on them.
#[verifier::external_body]
fn json_of_value(value: &serde_json::Value) -> Json {
    match value {
        serde_json::Value::Null => Json::Null,
        serde_json::Value::Bool(b) => Json::Bool(*b),
        serde_json::Value::Number(n) => Json::Number(n.to_string()),
        serde_json::Value::String(s) => Json::Str(s.clone()),
        serde_json::Value::Array(items) => Json::Array(items.iter().map(json_of_value).collect()),
        serde_json::Value::Object(map) => Json::Object(
            map.iter().map(|(k, v)| (k.clone(), json_of_value(v))).collect(),
        ),
    }
}

/// Moves a `Json` into a `serde_json::Value`, variant by variant (a number
/// whose text `serde_json` does not read becomes `null`): the conversion of
/// the document that `Value::pointer` is called on. It claims nothing.
#[verifier::external_body]
fn value_of_json(json: &Json) -> serde_json::Value {
    match json {
        Json::Null => serde_json::Value::Null,
        Json::Bool(b) => serde_json::Value::Bool(*b),
        Json::Number(n) => n.parse().map(serde_json::Value::Number).unwrap_or(serde_json::Value::Null),
        Json::Str(s) => serde_json::Value::String(s.clone()),
        Json::Array(items) => serde_json::Value::Array(items.iter().map(value_of_json).collect()),
        Json::Object(entries) => serde_json::Value::Object(
            entries.iter().map(|(k, v)| (k.clone(), value_of_json(v))).collect(),
        ),
    }
}

/// The value under `key` among `entries`.
pub fn lookup_entry<'a>(entries: &'a Vec<(String, Json)>, key: &str) -> (r: Option<&'a Json>)
    ensures
        r matches Some(v) ==> lookup(entries@, key@) == Some(*v),
        r is None ==> lookup(entries@, key@) is None,
{
    let mut i: usize = 0;
    assert(entries@.skip(0) =~= entries@);
    while i < entries.len()
        invariant
            i <= entries@.len(),
            lookup(entries@, key@) == lookup(entries@.skip(i as int), key@),
        decreases entries@.len() - i,
    {
        if same_text(entries[i].0.as_str(), key) {
            return Some(&entries[i].1);
        }
        assert(entries@.skip(i as int).drop_first() =~= entries@.skip(i + 1));
        i += 1;
    }
    None
}

/// `Value::get` with a key.
pub fn member_json<'a>(value: &'a Json, key: &str) -> (r: Option<&'a Json>)
    ensures
        r matches Some(v) ==> member(*value, key@) == Some(*v),
        r is None ==> member(*value, key@) is None,
{
    match value {
        Json::Object(entries) => lookup_entry(entries, key),
        _ => None,
    }
}

} // verus!
