//! JSON text read by `serde_json`, and the step from its values to the
//! library's own.

use crate::error::FileError;
use crate::json::{
    document_headers, document_views, documents_of, elements, fields, json_headers, json_records,
    lemma_fields, lemma_trees, stream_records, trees, JsonDocument, JsonField, JsonMember,
    JsonTree, JsonValue,
};
use crate::records::{keep_successes, lemma_successes_map, successes};
use crate::text::{rows, texts};
use vstd::prelude::*;

verus! {

#[verifier::external_type_specification]
#[verifier::external_body]
pub struct ExValue(serde_json::Value);

#[verifier::external_type_specification]
#[verifier::external_body]
pub struct ExJsonError(serde_json::Error);

/// What a `serde_json::Value` holds, as a tree: a number by the text that
/// its `Display` gives, an array with the compact text that
/// `serde_json::to_string` gives for it (empty where that call refuses), an
/// object with its members in the order in which its map walks them.
pub uninterp spec fn value_tree(value: serde_json::Value) -> JsonTree;

/// The value that `serde_json::from_slice` reads from a text that holds
/// exactly one JSON value; `None` where it refuses the text.
pub uninterp spec fn json_document(data: Seq<u8>) -> Option<JsonTree>;

/// What `serde_json::StreamDeserializer` yields for a text that holds JSON
/// values one after another: each value, or `None` where it reports an error.
pub uninterp spec fn json_stream(data: Seq<u8>) -> Seq<Option<JsonTree>>;

/// One level of a `serde_json::Value`.
pub enum JsonNode<'a> {
    Null,
    Bool(bool),
    Number(String),
    String(String),
    Array(&'a Vec<serde_json::Value>),
    Object(Vec<(&'a String, &'a serde_json::Value)>),
}

/// Whether `node` shows the top level of `tree`, with `value_tree` below it.
pub open spec fn node_shows(node: JsonNode<'_>, tree: JsonTree) -> bool {
    match node {
        JsonNode::Null => tree == JsonTree::Null,
        JsonNode::Bool(b) => tree == JsonTree::Bool(b),
        JsonNode::Number(text) => tree == JsonTree::Number(text@),
        JsonNode::String(text) => tree == JsonTree::String(text@),
        JsonNode::Array(items) => {
            &&& tree is Array
            &&& tree->items.len() == items@.len()
            &&& forall|i: int|
                0 <= i < items@.len() ==> (#[trigger] tree->items[i]) == value_tree(items@[i])
        },
        JsonNode::Object(members) => {
            &&& tree is Object
            &&& tree->Object_0.len() == members@.len()
            &&& forall|i: int|
                0 <= i < members@.len() ==> (#[trigger] tree->Object_0[i]) == (JsonField {
                    key: (*members@[i].0)@,
                    value: value_tree(*members@[i].1),
                })
        },
    }
}

/// Tells the variants of a `serde_json::Value` apart. A number comes as the
/// text of its `Display`, an object as the pairs that `Map::iter` walks.
#[verifier::external_body]
fn json_node(value: &serde_json::Value) -> (node: JsonNode<'_>)
    ensures
        node_shows(node, value_tree(*value)),
{
    match value {
        serde_json::Value::Null => JsonNode::Null,
        serde_json::Value::Bool(b) => JsonNode::Bool(*b),
        serde_json::Value::Number(number) => JsonNode::Number(number.to_string()),
        serde_json::Value::String(text) => JsonNode::String(text.clone()),
        serde_json::Value::Array(items) => JsonNode::Array(items),
        serde_json::Value::Object(map) => JsonNode::Object(map.iter().collect()),
    }
}

/// Calls `serde_json::to_string` on an array value: its compact JSON text,
/// or the empty text where the call refuses.
#[verifier::external_body]
fn array_text(value: &serde_json::Value) -> (text: String)
    ensures
        value_tree(*value) is Array ==> text@ == value_tree(*value)->text,
{
    serde_json::to_string(value).unwrap_or_default()
}

/// Calls `serde_json::from_slice` to read one JSON value from the whole of
/// `data`.
#[verifier::external_body]
fn parse_document(data: &[u8]) -> (r: Result<serde_json::Value, serde_json::Error>)
    ensures
        match r {
            Ok(value) => json_document(data@) == Some(value_tree(value)),
            Err(_) => json_document(data@) is None,
        },
{
    serde_json::from_slice::<serde_json::Value>(data)
}

/// Walks `data` with a `serde_json::StreamDeserializer` and collects what it
/// yields, each item as the value or as `None` where it was an error.
#[verifier::external_body]
fn parse_stream(data: &[u8]) -> (r: Vec<Option<serde_json::Value>>)
    ensures
        r@.len() == json_stream(data@).len(),
        forall|i: int|
            0 <= i < r@.len() ==> match #[trigger] r@[i] {
                Some(value) => json_stream(data@)[i] == Some(value_tree(value)),
                None => json_stream(data@)[i] is None,
            },
{
    serde_json::Deserializer::from_slice(data).into_iter::<serde_json::Value>().map(
        |item| item.ok(),
    ).collect()
}

/// The library's value for a `serde_json::Value`.
pub fn model_of(value: &serde_json::Value) -> (r: JsonValue)
    ensures
        r@ == value_tree(*value),
    decreases value_tree(*value),
{
    match json_node(value) {
        JsonNode::Null => JsonValue::Null,
        JsonNode::Bool(b) => JsonValue::Bool(b),
        JsonNode::Number(text) => JsonValue::Number(text),
        JsonNode::String(text) => JsonValue::String(text),
        JsonNode::Array(source) => {
            let text = array_text(value);
            let mut items: Vec<JsonValue> = Vec::new();
            let mut i: usize = 0;
            while i < source.len()
                invariant
                    i <= source.len(),
                    items@.len() == i,
                    node_shows(JsonNode::Array(source), value_tree(*value)),
                    forall|j: int| 0 <= j < i ==> (#[trigger] items@[j])@ == value_tree(source@[j]),
                decreases source.len() - i,
            {
                proof {
                    let tree = value_tree(*value);
                    assert(decreases_to!(tree => tree->items[i as int]));
                }
                let item = model_of(&source[i]);
                items.push(item);
                i += 1;
            }
            proof {
                lemma_trees(items@);
                assert(trees(items@) =~= value_tree(*value)->items);
            }
            JsonValue::Array { items, text }
        },
        JsonNode::Object(source) => {
            let mut members: Vec<JsonMember> = Vec::new();
            let mut i: usize = 0;
            while i < source.len()
                invariant
                    i <= source.len(),
                    members@.len() == i,
                    node_shows(JsonNode::Object(source), value_tree(*value)),
                    forall|j: int|
                        0 <= j < i ==> (#[trigger] members@[j])@ == value_tree(*value)->Object_0[j],
                decreases source.len() - i,
            {
                let key = source[i].0.clone();
                proof {
                    let tree = value_tree(*value);
                    assert(decreases_to!(tree => tree->Object_0[i as int].value));
                }
                let member = model_of(source[i].1);
                members.push(JsonMember { key, value: member });
                i += 1;
            }
            proof {
                lemma_fields(members@);
                assert(fields(members@) =~= value_tree(*value)->Object_0);
            }
            JsonValue::Object(members)
        },
    }
}

/// The document that a `serde_json::Value` is read as: the library's value
/// for each element of an array, or no array.
pub fn document_of(value: &serde_json::Value) -> (document: JsonDocument)
    ensures
        document@ == elements(value_tree(*value)),
{
    match json_node(value) {
        JsonNode::Array(source) => {
            let mut items: Vec<JsonValue> = Vec::new();
            let mut i: usize = 0;
            while i < source.len()
                invariant
                    i <= source.len(),
                    items@.len() == i,
                    forall|j: int| 0 <= j < i ==> (#[trigger] items@[j])@ == value_tree(source@[j]),
                decreases source.len() - i,
            {
                let item = model_of(&source[i]);
                items.push(item);
                i += 1;
            }
            proof {
                lemma_trees(items@);
            }
            JsonDocument::Array(items)
        },
        _ => JsonDocument::Other,
    }
}

/// The header list of a JSON text that holds one document.
///
/// A text that is not one well-formed JSON value is refused with
/// `InvalidJsonStructure`.
pub fn read_json_headers(data: &[u8]) -> (r: Result<Vec<String>, FileError>)
    ensures
        match json_document(data@) {
            Some(value) => r matches Ok(headers) && texts(headers@) == document_headers(
                elements(value),
            ),
            None => r == Err::<Vec<String>, FileError>(FileError::InvalidJsonStructure),
        },
{
    match parse_document(data) {
        Ok(value) => {
            let document = document_of(&value);
            Ok(json_headers(&document))
        },
        Err(_) => Err(FileError::InvalidJsonStructure),
    }
}

/// The records of a JSON text that holds documents one after another: a
/// record for each element of each top-level array. The walk ends at the
/// first place where the text is malformed, and keeps what it read before.
///
/// A document that is no array is refused with `InvalidJsonStructure`.
pub fn read_json_records(data: &[u8]) -> (r: Result<Vec<Vec<String>>, FileError>)
    ensures
        match stream_records(documents_of(successes(json_stream(data@)))) {
            Some(records) => r matches Ok(list) && rows(list@) == records,
            None => r == Err::<Vec<Vec<String>>, FileError>(FileError::InvalidJsonStructure),
        },
{
    let outcomes = parse_stream(data);
    proof {
        lemma_successes_map(outcomes@, json_stream(data@), |value: serde_json::Value| value_tree(value));
    }
    let values = keep_successes(outcomes);
    let mut documents: Vec<JsonDocument> = Vec::new();
    let mut i: usize = 0;
    while i < values.len()
        invariant
            i <= values.len(),
            documents@.len() == i,
            forall|j: int|
                0 <= j < i ==> (#[trigger] documents@[j])@ == elements(value_tree(values@[j])),
        decreases values.len() - i,
    {
        let document = document_of(&values[i]);
        documents.push(document);
        i += 1;
    }
    proof {
        assert(document_views(documents@) =~= documents_of(
            values@.map_values(|value: serde_json::Value| value_tree(value)),
        ));
    }
    json_records(&documents)
}

} // verus!
