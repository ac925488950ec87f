//! The boundary to `serde_json`: the document type, a mathematical model of
//! what a document holds, and the three calls the decoder makes.

use vstd::prelude::*;

verus! {

/// `serde_json::Value`, carried through verified code as an opaque value.
#[verifier::external_type_specification]
#[verifier::external_body]
pub struct ExValue(serde_json::Value);

/// `serde_json::Number`, which only ever appears inside the model below.
#[verifier::external_type_specification]
#[verifier::external_body]
pub struct ExNumber(serde_json::Number);

/// What a JSON document holds: the variants of `serde_json::Value`, with
/// sequences and maps in place of vectors, strings and the object map.
pub ghost enum JsonTree {
    Null,
    Bool(bool),
    Number(serde_json::Number),
    Text(Seq<char>),
    Array(Seq<JsonTree>),
    Object(Map<Seq<char>, JsonTree>),
}

/// The contents of a document.
pub uninterp spec fn json_tree(value: serde_json::Value) -> JsonTree;

/// The document that a text parses to, or `None` where the text is not
/// exactly one JSON document.
pub uninterp spec fn json_parse(text: Seq<char>) -> Option<JsonTree>;

/// The member of an object under a key, where there is one.
pub open spec fn tree_member(tree: JsonTree, key: Seq<char>) -> Option<JsonTree> {
    match tree {
        JsonTree::Object(fields) => if fields.contains_key(key) {
            Some(fields[key])
        } else {
            None
        },
        _ => None,
    }
}

/// The characters of a string document, and `None` for any other document.
pub open spec fn tree_text(tree: JsonTree) -> Option<Seq<char>> {
    match tree {
        JsonTree::Text(chars) => Some(chars),
        _ => None,
    }
}

/// `serde_json::from_str::<Value>`: the document that the whole text parses
/// to, or `None` where the parser reports an error.  The parser reads
/// nothing but its argument, so its outcome is the named function
/// `json_parse` of the text.
#[verifier::external_body]
pub(crate) fn parse_document(text: &str) -> (parsed: Option<serde_json::Value>)
    ensures
        match parsed {
            Some(value) => json_parse(text@) == Some(json_tree(value)),
            None => json_parse(text@) is None,
        },
{
    serde_json::from_str::<serde_json::Value>(text).ok()
}

/// `serde_json::Value::get` with a string index: the member under `key`
/// where the document is an object that has one, and `None` for a missing
/// key and for every document that is not an object.
#[verifier::external_body]
pub(crate) fn member<'a>(value: &'a serde_json::Value, key: &str) -> (found: Option<
    &'a serde_json::Value,
>)
    ensures
        match found {
            Some(inner) => tree_member(json_tree(*value), key@) == Some(json_tree(*inner)),
            None => tree_member(json_tree(*value), key@) is None,
        },
{
    value.get(key)
}

/// `serde_json::Value::as_str`: the string that a string document holds,
/// and `None` for every other document.
#[verifier::external_body]
pub(crate) fn text_of<'a>(value: &'a serde_json::Value) -> (text: Option<&'a str>)
    ensures
        match text {
            Some(chars) => tree_text(json_tree(*value)) == Some(chars@),
            None => tree_text(json_tree(*value)) is None,
        },
{
    value.as_str()
}

} // verus!
