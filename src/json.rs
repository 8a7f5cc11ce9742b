use vstd::prelude::*;

verus! {

/// Whether serde_json accepts `text` as one JSON document: well formed,
/// and nested no deeper than its recursion limit.
pub uninterp spec fn json_parses(text: Seq<char>) -> bool;

/// The boolean that the JSON document `text` holds under top-level key
/// `key`: none when `text` is not an accepted object, when the key is
/// absent, or when its value is not a boolean.
pub uninterp spec fn json_bool_field(text: Seq<char>, key: Seq<char>) -> Option<bool>;

/// The string that the JSON document `text` holds under top-level key
/// `key`: none when `text` is not an accepted object, when the key is
/// absent, or when its value is not a string.
pub uninterp spec fn json_text_field(text: Seq<char>, key: Seq<char>) -> Option<Seq<char>>;

/// The JSON string literal that writes `s`: quoted, with escapes.
pub uninterp spec fn json_string_text(s: Seq<char>) -> Seq<char>;

/// The JSON array of string literals that writes `items`.
pub uninterp spec fn json_array_text(items: Seq<Seq<char>>) -> Seq<char>;

/// Relies on `serde_json::from_str` into a `Value`: whether it succeeds
/// depends on the text alone.
#[verifier::external_body]
pub(crate) fn json_accepts(text: &str) -> (r: bool)
    ensures
        r == json_parses(text@),
{
    serde_json::from_str::<serde_json::Value>(text).is_ok()
}

/// Relies on `serde_json::from_str` into a `Value`, then `Value::get` with
/// a string key and `Value::as_bool`: the result depends on the text and
/// the key alone.
#[verifier::external_body]
pub(crate) fn json_bool_at(text: &str, key: &str) -> (r: Option<bool>)
    ensures
        r == json_bool_field(text@, key@),
{
    serde_json::from_str::<serde_json::Value>(text).ok().and_then(|v| v.get(key).and_then(|x| x.as_bool()))
}

/// Relies on `serde_json::from_str` into a `Value`, then `Value::get` with
/// a string key and `Value::as_str`: the result depends on the text and
/// the key alone.
#[verifier::external_body]
pub(crate) fn json_text_at(text: &str, key: &str) -> (r: Option<String>)
    ensures
        r is None <==> json_text_field(text@, key@) is None,
        r matches Some(t) ==> json_text_field(text@, key@) == Some(t@),
{
    serde_json::from_str::<serde_json::Value>(text).ok().and_then(
        |v| v.get(key).and_then(|x| x.as_str()).map(|s| s.to_string()),
    )
}

/// Relies on the `Display` of `serde_json::Value` for a `Value::String`,
/// which writes it as a JSON string literal.
#[verifier::external_body]
pub(crate) fn json_quote(s: &str) -> (r: String)
    ensures
        r@ == json_string_text(s@),
{
    serde_json::Value::String(s.to_string()).to_string()
}

/// Relies on `serde_json::to_string` for a list of strings, which writes
/// a JSON array of string literals; writing strings into a sequence never
/// fails.
#[verifier::external_body]
pub(crate) fn json_string_list(items: &Vec<String>) -> (r: Option<String>)
    ensures
        r is Some,
        r matches Some(t) ==> t@ == json_array_text(items.deep_view()),
{
    serde_json::to_string(items).ok()
}

} // verus!
