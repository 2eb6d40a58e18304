//! JSON values as the library reads them, and their flattening into header
//! paths and records.

use crate::error::FileError;
use crate::text::{contains_text, rows, texts};
use vstd::prelude::*;

verus! {

/// A JSON value.
#[derive(Debug, PartialEq, Eq)]
pub enum JsonValue {
    Null,
    Bool(bool),
    /// A number, as its decimal text.
    Number(String),
    String(String),
    /// An array: its elements, and the compact JSON text of the whole array.
    Array { items: Vec<JsonValue>, text: String },
    /// An object: its members in the order in which they are walked.
    Object(Vec<JsonMember>),
}

/// One member of a JSON object.
#[derive(Debug, PartialEq, Eq)]
pub struct JsonMember {
    pub key: String,
    pub value: JsonValue,
}

/// A JSON document as it is read for its headers and records: the elements
/// of its top-level array, or a document that is no array.
#[derive(Debug, PartialEq, Eq)]
pub enum JsonDocument {
    Array(Vec<JsonValue>),
    Other,
}

/// The mathematical model of a `JsonValue`.
pub ghost enum JsonTree {
    Null,
    Bool(bool),
    Number(Seq<char>),
    String(Seq<char>),
    Array { items: Seq<JsonTree>, text: Seq<char> },
    Object(Seq<JsonField>),
}

/// The mathematical model of a `JsonMember`.
pub ghost struct JsonField {
    pub key: Seq<char>,
    pub value: JsonTree,
}

/// The models of a list of values, in order.
pub open spec fn trees(values: Seq<JsonValue>) -> Seq<JsonTree>
    decreases values,
{
    if values.len() == 0 {
        Seq::empty()
    } else {
        trees(values.drop_last()).push(values.last()@)
    }
}

/// The models of a list of members, in order.
pub open spec fn fields(members: Seq<JsonMember>) -> Seq<JsonField>
    decreases members,
{
    if members.len() == 0 {
        Seq::empty()
    } else {
        fields(members.drop_last()).push(members.last()@)
    }
}

impl View for JsonValue {
    type V = JsonTree;

    open spec fn view(&self) -> JsonTree
        decreases self,
    {
        match self {
            JsonValue::Null => JsonTree::Null,
            JsonValue::Bool(b) => JsonTree::Bool(*b),
            JsonValue::Number(text) => JsonTree::Number(text@),
            JsonValue::String(text) => JsonTree::String(text@),
            JsonValue::Array { items, text } => JsonTree::Array { items: trees(items@), text: text@ },
            JsonValue::Object(members) => JsonTree::Object(fields(members@)),
        }
    }
}

impl View for JsonMember {
    type V = JsonField;

    open spec fn view(&self) -> JsonField
        decreases self,
    {
        JsonField { key: self.key@, value: self.value@ }
    }
}

impl View for JsonDocument {
    type V = Option<Seq<JsonTree>>;

    open spec fn view(&self) -> Option<Seq<JsonTree>> {
        match self {
            JsonDocument::Array(items) => Some(trees(items@)),
            JsonDocument::Other => None,
        }
    }
}

/// The elements of a value that is an array; `None` for any other value.
pub open spec fn elements(value: JsonTree) -> Option<Seq<JsonTree>> {
    match value {
        JsonTree::Array { items, text } => Some(items),
        _ => None,
    }
}

/// The documents that values are read as, in order.
pub open spec fn documents_of(values: Seq<JsonTree>) -> Seq<Option<Seq<JsonTree>>> {
    values.map_values(|value: JsonTree| elements(value))
}

/// The models of a list of documents, in order.
pub open spec fn document_views(documents: Seq<JsonDocument>) -> Seq<Option<Seq<JsonTree>>> {
    documents.map_values(|document: JsonDocument| document@)
}

/// `trees` goes element by element.
pub proof fn lemma_trees(values: Seq<JsonValue>)
    ensures
        trees(values).len() == values.len(),
        forall|i: int| 0 <= i < values.len() ==> (#[trigger] trees(values)[i]) == values[i]@,
    decreases values.len(),
{
    if values.len() > 0 {
        lemma_trees(values.drop_last());
        assert(trees(values) == trees(values.drop_last()).push(values.last()@));
    } else {
    }
}

/// `fields` goes member by member.
pub proof fn lemma_fields(members: Seq<JsonMember>)
    ensures
        fields(members).len() == members.len(),
        forall|i: int| 0 <= i < members.len() ==> (#[trigger] fields(members)[i]) == members[i]@,
    decreases members.len(),
{
    if members.len() > 0 {
        lemma_fields(members.drop_last());
        assert(fields(members) == fields(members.drop_last()).push(members.last()@));
    } else {
    }
}

/// The header path of `key` under `prefix`: the two joined by a dot, or the
/// key alone where the prefix is empty.
pub open spec fn dotted(prefix: Seq<char>, key: Seq<char>) -> Seq<char> {
    if prefix.len() == 0 {
        key
    } else {
        prefix + seq!['.'] + key
    }
}

/// A header list with `header` added at its end, unless it is in the list.
pub open spec fn with_header(headers: Seq<Seq<char>>, header: Seq<char>) -> Seq<Seq<char>> {
    if headers.contains(header) {
        headers
    } else {
        headers.push(header)
    }
}

/// The header list after the members of an object from index `from` on have
/// been walked under `prefix`: a member that is an object is walked in turn
/// under its own path, any other member adds its path.
pub open spec fn headers_from(
    headers: Seq<Seq<char>>,
    members: Seq<JsonField>,
    prefix: Seq<char>,
    from: int,
) -> Seq<Seq<char>>
    decreases members, members.len() - from,
{
    if from < 0 || from >= members.len() {
        headers
    } else {
        let path = dotted(prefix, members[from].key);
        let next = match members[from].value {
            JsonTree::Object(inner) => headers_from(headers, inner, path, 0),
            _ => with_header(headers, path),
        };
        headers_from(next, members, prefix, from + 1)
    }
}

/// The text of a boolean.
pub open spec fn bool_text(b: bool) -> Seq<char> {
    if b {
        "true"@
    } else {
        "false"@
    }
}

/// The record of a value: a string is its own text, a number its decimal
/// text, an array its compact JSON text, a boolean `true` or `false`, null
/// `null`; an object contributes the records of its members, in order.
pub open spec fn record_of(value: JsonTree) -> Seq<Seq<char>>
    decreases value,
{
    match value {
        JsonTree::Null => seq!["null"@],
        JsonTree::Bool(b) => seq![bool_text(b)],
        JsonTree::Number(text) => seq![text],
        JsonTree::String(text) => seq![text],
        JsonTree::Array { items, text } => seq![text],
        JsonTree::Object(members) => record_from(members, 0),
    }
}

/// The records of the members of an object from index `from` on, joined.
pub open spec fn record_from(members: Seq<JsonField>, from: int) -> Seq<Seq<char>>
    decreases members, members.len() - from,
{
    if from < 0 || from >= members.len() {
        Seq::empty()
    } else {
        record_of(members[from].value) + record_from(members, from + 1)
    }
}

/// Joins a key to a prefix by a dot; the key alone under an empty prefix.
pub fn dotted_path(prefix: &String, key: &String) -> (path: String)
    ensures
        path@ == dotted(prefix@, key@),
{
    if prefix.as_str().is_empty() {
        key.clone()
    } else {
        let mut path = prefix.clone();
        proof {
            reveal_strlit(".");
        }
        path.append(".");
        path.append(key.as_str());
        path
    }
}

/// Walks the members of an object and adds to `headers` the path of each
/// member that is not an object, unless the list holds it already; a member
/// that is an object is walked in turn, under its own path.
pub fn flatten_json_object(headers: &mut Vec<String>, obj: &Vec<JsonMember>, prefix: String)
    ensures
        texts(final(headers)@) == headers_from(texts(old(headers)@), fields(obj@), prefix@, 0),
    decreases obj,
{
    let mut i: usize = 0;
    proof {
        lemma_fields(obj@);
    }
    while i < obj.len()
        invariant
            i <= obj.len(),
            fields(obj@).len() == obj.len(),
            forall|j: int| 0 <= j < obj.len() ==> (#[trigger] fields(obj@)[j]) == obj[j]@,
            headers_from(texts(headers@), fields(obj@), prefix@, i as int) == headers_from(
                texts(old(headers)@),
                fields(obj@),
                prefix@,
                0,
            ),
        decreases obj.len() - i,
    {
        let member = &obj[i];
        let path = dotted_path(&prefix, &member.key);
        let ghost before = texts(headers@);
        match &member.value {
            JsonValue::Object(inner) => {
                flatten_json_object(headers, inner, path);
            },
            _ => {
                if !contains_text(headers, &path) {
                    headers.push(path);
                    assert(texts(headers@) =~= before.push(path@));
                }
            },
        }
        i += 1;
    }
}

/// Flattens a value into a record: one field for a string, a number, an
/// array, a boolean or null, and for an object the fields of its members,
/// in order.
pub fn flatten_json_record(value: &JsonValue) -> (record: Vec<String>)
    ensures
        texts(record@) == record_of(value@),
    decreases value,
{
    match value {
        JsonValue::Null => {
            let record = vec!["null".to_owned()];
            record
        },
        JsonValue::Bool(b) => {
            let text = if *b {
                "true".to_owned()
            } else {
                "false".to_owned()
            };
            let record = vec![text];
            record
        },
        JsonValue::Number(text) => {
            let record = vec![text.clone()];
            record
        },
        JsonValue::String(text) => {
            let record = vec![text.clone()];
            record
        },
        JsonValue::Array { items, text } => {
            let record = vec![text.clone()];
            record
        },
        JsonValue::Object(members) => {
            let mut record: Vec<String> = Vec::new();
            let mut i: usize = 0;
            proof {
                lemma_fields(members@);
            }
            while i < members.len()
                invariant
                    i <= members.len(),
                    *value == JsonValue::Object(*members),
                    fields(members@).len() == members.len(),
                    forall|j: int|
                        0 <= j < members.len() ==> (#[trigger] fields(members@)[j]) == members[j]@,
                    texts(record@) + record_from(fields(members@), i as int) == record_from(
                        fields(members@),
                        0,
                    ),
                decreases members.len() - i,
            {
                proof {
                    assert(decreases_to!(value => value->Object_0));
                }
                let mut part = flatten_json_record(&members[i].value);
                record.append(&mut part);
                i += 1;
            }
            record
        },
    }
}

/// The header list of a document: for a top-level array, the paths that its
/// elements add, element after element, where only elements that are
/// objects add any; for any other document, the empty list.
pub open spec fn document_headers(document: Option<Seq<JsonTree>>) -> Seq<Seq<char>> {
    match document {
        Some(items) => headers_of_items(Seq::empty(), items, 0),
        None => Seq::empty(),
    }
}

/// The header list after the elements of an array from index `from` on have
/// been walked.
pub open spec fn headers_of_items(headers: Seq<Seq<char>>, items: Seq<JsonTree>, from: int) -> Seq<
    Seq<char>,
>
    decreases items.len() - from,
{
    if from < 0 || from >= items.len() {
        headers
    } else {
        let next = match items[from] {
            JsonTree::Object(members) => headers_from(headers, members, Seq::empty(), 0),
            _ => headers,
        };
        headers_of_items(next, items, from + 1)
    }
}

/// The records of a document: one for each element of a top-level array;
/// `None` for a document that is no array.
pub open spec fn document_records(document: Option<Seq<JsonTree>>) -> Option<
    Seq<Seq<Seq<char>>>,
> {
    match document {
        Some(items) => Some(items.map_values(|item: JsonTree| record_of(item))),
        None => None,
    }
}

/// The records of documents that follow one another, joined; `None` as soon
/// as one of them is no array.
pub open spec fn stream_records(documents: Seq<Option<Seq<JsonTree>>>) -> Option<
    Seq<Seq<Seq<char>>>,
>
    decreases documents.len(),
{
    if documents.len() == 0 {
        Some(Seq::empty())
    } else {
        match (stream_records(documents.drop_last()), document_records(documents.last())) {
            (Some(before), Some(last)) => Some(before + last),
            _ => None,
        }
    }
}

/// The header list of a document.
pub fn json_headers(document: &JsonDocument) -> (headers: Vec<String>)
    ensures
        texts(headers@) == document_headers(document@),
        texts(headers@).no_duplicates(),
{
    proof {
        lemma_document_headers_unique(document@);
    }
    let mut headers: Vec<String> = Vec::new();
    assert(texts(headers@) =~= Seq::<Seq<char>>::empty());
    if let JsonDocument::Array(items) = document {
        let mut i: usize = 0;
        proof {
            lemma_trees(items@);
        }
        while i < items.len()
            invariant
                i <= items.len(),
                trees(items@).len() == items.len(),
                forall|j: int| 0 <= j < items.len() ==> (#[trigger] trees(items@)[j]) == items[j]@,
                headers_of_items(texts(headers@), trees(items@), i as int) == headers_of_items(
                    Seq::empty(),
                    trees(items@),
                    0,
                ),
            decreases items.len() - i,
        {
            if let JsonValue::Object(members) = &items[i] {
                let prefix = String::new();
                flatten_json_object(&mut headers, members, prefix);
            }
            i += 1;
        }
    }
    headers
}

/// The records of documents that follow one another: a record for each
/// element of each top-level array.
///
/// A document that is no array is refused with `InvalidJsonStructure`.
pub fn json_records(documents: &Vec<JsonDocument>) -> (r: Result<Vec<Vec<String>>, FileError>)
    ensures
        match stream_records(document_views(documents@)) {
            Some(records) => r matches Ok(list) && rows(list@) == records,
            None => r == Err::<Vec<Vec<String>>, FileError>(FileError::InvalidJsonStructure),
        },
{
    let mut list: Vec<Vec<String>> = Vec::new();
    let mut d: usize = 0;
    let ghost views = document_views(documents@);
    while d < documents.len()
        invariant
            d <= documents.len(),
            views == document_views(documents@),
            stream_records(views.take(d as int)) == Some(rows(list@)),
        decreases documents.len() - d,
    {
        proof {
            assert(views.take(d + 1).drop_last() =~= views.take(d as int));
        }
        match &documents[d] {
            JsonDocument::Array(items) => {
                let ghost before = rows(list@);
                let mut i: usize = 0;
                proof {
                    lemma_trees(items@);
                }
                while i < items.len()
                    invariant
                        i <= items.len(),
                        trees(items@).len() == items.len(),
                        forall|j: int|
                            0 <= j < items.len() ==> (#[trigger] trees(items@)[j]) == items[j]@,
                        rows(list@) == before + trees(items@).take(i as int).map_values(
                            |item: JsonTree| record_of(item),
                        ),
                    decreases items.len() - i,
                {
                    let record = flatten_json_record(&items[i]);
                    let ghost old_rows = rows(list@);
                    list.push(record);
                    proof {
                        assert(rows(list@) =~= old_rows.push(texts(record@)));
                    }
                    i += 1;
                }
            },
            JsonDocument::Other => {
                proof {
                    lemma_stream_refused(views, d as int);
                }
                return Err(FileError::InvalidJsonStructure);
            },
        }
        d += 1;
    }
    proof {
        assert(views.take(documents.len() as int) =~= views);
    }
    Ok(list)
}

/// Whether `longer` begins with `shorter`.
pub open spec fn begins_with(longer: Seq<Seq<char>>, shorter: Seq<Seq<char>>) -> bool {
    shorter.len() <= longer.len() && longer.take(shorter.len() as int) == shorter
}

/// Adding a header keeps the list as its beginning, keeps it free of
/// duplicates, and leaves the header in it.
pub proof fn lemma_with_header(headers: Seq<Seq<char>>, header: Seq<char>)
    ensures
        begins_with(with_header(headers, header), headers),
        headers.no_duplicates() ==> with_header(headers, header).no_duplicates(),
        with_header(headers, header).contains(header),
{
    let out = with_header(headers, header);
    assert(out.take(headers.len() as int) =~= headers);
    if !headers.contains(header) {
        assert(out[headers.len() as int] == header);
    }
}

/// Walking an object keeps the header list it started from as the beginning
/// of the result, in the same order; it adds no header twice; and the path of
/// every member walked that is not an object is in the result.
pub proof fn lemma_headers_from(
    headers: Seq<Seq<char>>,
    members: Seq<JsonField>,
    prefix: Seq<char>,
    from: int,
)
    ensures
        begins_with(headers_from(headers, members, prefix, from), headers),
        headers.no_duplicates() ==> headers_from(headers, members, prefix, from).no_duplicates(),
        forall|i: int|
            0 <= from <= i < members.len() && !(members[i].value is Object) ==> headers_from(
                headers,
                members,
                prefix,
                from,
            ).contains(#[trigger] dotted(prefix, members[i].key)),
    decreases members, members.len() - from,
{
    let out = headers_from(headers, members, prefix, from);
    if from < 0 || from >= members.len() {
        assert(out.take(headers.len() as int) =~= headers);
    } else {
        let path = dotted(prefix, members[from].key);
        let next = match members[from].value {
            JsonTree::Object(inner) => headers_from(headers, inner, path, 0),
            _ => with_header(headers, path),
        };
        match members[from].value {
            JsonTree::Object(inner) => {
                lemma_headers_from(headers, inner, path, 0);
            },
            _ => {
                lemma_with_header(headers, path);
            },
        }
        lemma_headers_from(next, members, prefix, from + 1);
        lemma_begins_with_chain(out, next, headers);
    }
}

/// A list that begins with a second, which begins with a third, begins with
/// the third.
pub proof fn lemma_begins_with_chain(a: Seq<Seq<char>>, b: Seq<Seq<char>>, c: Seq<Seq<char>>)
    requires
        begins_with(a, b),
        begins_with(b, c),
    ensures
        begins_with(a, c),
{
    assert(a.take(c.len() as int) =~= a.take(b.len() as int).take(c.len() as int));
}

/// The header list of a document holds no header twice.
pub proof fn lemma_document_headers_unique(document: Option<Seq<JsonTree>>)
    ensures
        document_headers(document).no_duplicates(),
{
    if let Some(items) = document {
        lemma_headers_of_items(Seq::empty(), items, 0);
    }
}

/// Walking the elements of an array keeps the header list it started from as
/// the beginning of the result and adds no header twice.
pub proof fn lemma_headers_of_items(headers: Seq<Seq<char>>, items: Seq<JsonTree>, from: int)
    ensures
        begins_with(headers_of_items(headers, items, from), headers),
        headers.no_duplicates() ==> headers_of_items(headers, items, from).no_duplicates(),
    decreases items.len() - from,
{
    let out = headers_of_items(headers, items, from);
    if from < 0 || from >= items.len() {
        assert(out.take(headers.len() as int) =~= headers);
    } else {
        let next = match items[from] {
            JsonTree::Object(members) => headers_from(headers, members, Seq::empty(), 0),
            _ => headers,
        };
        match items[from] {
            JsonTree::Object(members) => {
                lemma_headers_from(headers, members, Seq::empty(), 0);
            },
            _ => {
                assert(next.take(headers.len() as int) =~= headers);
            },
        }
        lemma_headers_of_items(next, items, from + 1);
        lemma_begins_with_chain(out, next, headers);
    }
}

/// Once a document is no array, no longer stream has records.
pub proof fn lemma_stream_refused(documents: Seq<Option<Seq<JsonTree>>>, at: int)
    requires
        0 <= at < documents.len(),
        document_records(documents[at]) is None,
    ensures
        stream_records(documents) is None,
    decreases documents.len(),
{
    if at < documents.len() - 1 {
        lemma_stream_refused(documents.drop_last(), at);
    }
}

} // verus!
