use vstd::prelude::*;

verus! {

#[verifier::external_type_specification]
#[verifier::external_body]
pub struct ExJsonValue(json::JsonValue);

#[verifier::external_type_specification]
#[verifier::external_body]
pub struct ExJsonError(json::Error);

/// What `json::parse` makes of a text: the parsed document, or nothing when
/// the text is not a JSON document.
pub uninterp spec fn json_parse_doc(text: Seq<char>) -> Option<json::JsonValue>;

/// What an array document holds: its elements in order, or nothing when the
/// document's top level is not an array.
pub uninterp spec fn json_array_items(v: json::JsonValue) -> Option<Seq<json::JsonValue>>;

/// What `value[key].to_string()` renders in the json crate: the named
/// member's text for a string member, its JSON text otherwise, and `null`
/// when the member is absent or the value is not an object.
pub uninterp spec fn json_member_text_of(v: json::JsonValue, key: Seq<char>) -> Seq<char>;

/// What `json::stringify` makes of a list of strings: the text of the JSON
/// array holding them in order.
pub uninterp spec fn json_string_array(items: Seq<Seq<char>>) -> Seq<char>;

/// Relies on json::parse: whether a text parses, and what document it
/// parses to, depend on the text alone.
#[verifier::external_body]
pub(crate) fn json_parse(text: &str) -> (r: Result<json::JsonValue, json::Error>)
    ensures
        (r is Ok) == (json_parse_doc(text@) is Some),
        r is Ok ==> r->Ok_0 == json_parse_doc(text@)->Some_0,
{
    json::parse(text)
}

/// Relies on json::JsonValue: the `Array` variant holds the document's
/// elements in order; every other variant is not an array.
#[verifier::external_body]
pub(crate) fn json_take_array(v: json::JsonValue) -> (r: Result<
    Vec<json::JsonValue>,
    json::JsonValue,
>)
    ensures
        (r is Ok) == (json_array_items(v) is Some),
        r is Ok ==> r->Ok_0@ == json_array_items(v)->Some_0,
        r is Err ==> r->Err_0 == v,
{
    match v {
        json::JsonValue::Array(items) => Ok(items),
        other => Err(other),
    }
}

/// Relies on json::JsonValue's Index and Display impls: `v[key]` selects
/// the member (the null value when absent or when `v` is not an object),
/// and Display renders a string member verbatim and any other value as its
/// JSON text.
#[verifier::external_body]
pub(crate) fn json_member_text(v: &json::JsonValue, key: &str) -> (r: String)
    ensures
        r@ == json_member_text_of(*v, key@),
{
    v[key].to_string()
}

/// Relies on json::stringify: serializing a vector of strings yields the
/// JSON array of them, and depends on the strings alone.
#[verifier::external_body]
pub(crate) fn json_stringify_strings(items: &Vec<String>) -> (r: String)
    ensures
        r@ == json_string_array(items.deep_view()),
{
    json::stringify(items.clone())
}

} // verus!
