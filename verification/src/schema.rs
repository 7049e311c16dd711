//! What the documentation of the interface is told about the response:
//! the shapes that a successful body can have. Nothing here needs a live
//! sequence.

use crate::media::content_type_of;
use crate::record::{insert_entry, lemma_key_index, Entries, LogRecord};
use crate::response::LogsResponseType;
use indexmap::IndexMap;
use vstd::prelude::*;

verus! {

/// The map type of the `indexmap` crate: a hash map that keeps its
/// entries in insertion order.
#[verifier::external_type_specification]
#[verifier::external_body]
#[verifier::reject_recursive_types(K)]
#[verifier::reject_recursive_types(V)]
#[verifier::reject_recursive_types(S)]
pub struct ExIndexMap<K, V, S>(IndexMap<K, V, S>);

/// The entries of a content map, in the order in which the map holds
/// them.
pub uninterp spec fn content_entries(content: IndexMap<String, String>) -> Entries;

/// The shape of a successful body.
#[derive(Clone, Copy, Debug, PartialEq, Eq, Structural)]
pub enum BodyShape {
    /// Text, line by line.
    PlainText,
    /// A JSON value that holds a list of records.
    Messages,
}

/// The JSON shape as a type: an object with the list of records under
/// `messages`. It describes the body; the body itself is written piece by
/// piece and never collected in such a value.
#[derive(Debug)]
pub struct JsonLogsResponse {
    pub messages: Vec<LogRecord>,
}

/// What is documented of the response: a description, and for each
/// content type the name of the schema of its body.
pub struct ResponseDescription {
    pub description: String,
    pub content: IndexMap<String, String>,
}

/// The name of the schema of a shape.
pub open spec fn schema_name_of(shape: BodyShape) -> Seq<char> {
    match shape {
        BodyShape::PlainText => "String"@,
        BodyShape::Messages => "JsonLogsResponse"@,
    }
}

/// The shape of the body of an encoding.
pub open spec fn shape_of(response_type: LogsResponseType) -> BodyShape {
    if response_type is Json {
        BodyShape::Messages
    } else {
        BodyShape::PlainText
    }
}

/// The one entry that documents an encoding: its content type with the
/// schema name of its shape.
pub open spec fn content_entry(response_type: LogsResponseType) -> (Seq<char>, Seq<char>) {
    (content_type_of(response_type), schema_name_of(shape_of(response_type)))
}

/// Entries set one after the other, each as `insert_entry` sets it.
pub open spec fn extend_entries(base: Entries, more: Entries) -> Entries
    decreases more.len(),
{
    if more.len() == 0 {
        base
    } else {
        insert_entry(extend_entries(base, more.drop_last()), more.last().0, more.last().1)
    }
}

/// The documented content: the JSON shape first, then plain text.
pub open spec fn documented_content() -> Entries {
    seq![content_entry(LogsResponseType::Json), content_entry(LogsResponseType::Text)]
}

/// `IndexMap::with_capacity` of `indexmap`: a map without entries, with
/// room for `n` of them. The bound keeps the allocation far from the
/// size at which it would be refused.
#[verifier::external_body]
fn content_with_capacity(n: usize) -> (content: IndexMap<String, String>)
    requires
        n <= 4096,
    ensures
        content_entries(content) == Seq::<(Seq<char>, Seq<char>)>::empty(),
{
    IndexMap::with_capacity(n)
}

/// `IndexMap::insert` of `indexmap`: a key that the map holds keeps its
/// place and gets the new value; a new key goes to the end.
#[verifier::external_body]
fn content_insert(content: &mut IndexMap<String, String>, key: String, value: String)
    ensures
        content_entries(*final(content)) == insert_entry(
            content_entries(*old(content)),
            key@,
            value@,
        ),
{
    content.insert(key, value);
}

/// `Extend::extend` of `indexmap`'s `IndexMap`, with another map as the
/// source: the same as an `insert` for each entry of the source, in the
/// source's order.
#[verifier::external_body]
fn content_extend(content: &mut IndexMap<String, String>, more: IndexMap<String, String>)
    ensures
        content_entries(*final(content)) == extend_entries(
            content_entries(*old(content)),
            content_entries(more),
        ),
{
    content.extend(more);
}

impl BodyShape {
    /// The name of the schema of the shape.
    pub fn schema_name(&self) -> (name: String)
        ensures
            name@ == schema_name_of(*self),
    {
        match self {
            BodyShape::PlainText => String::from_str("String"),
            BodyShape::Messages => String::from_str("JsonLogsResponse"),
        }
    }
}

impl LogsResponseType {
    /// The shape of the body of the encoding: plain text for raw and
    /// rendered lines, the list of records for JSON.
    pub fn body_shape(&self) -> (shape: BodyShape)
        ensures
            shape == shape_of(*self),
    {
        match self {
            LogsResponseType::Json => BodyShape::Messages,
            _ => BodyShape::PlainText,
        }
    }

    /// The content that documents this encoding alone: one entry.
    pub fn documented_content(&self) -> (content: IndexMap<String, String>)
        ensures
            content_entries(content) == seq![content_entry(*self)],
    {
        let mut content = content_with_capacity(1);
        content_insert(&mut content, self.content_type(), self.body_shape().schema_name());
        proof {
            lemma_key_index(Seq::empty(), content_entry(*self).0, 0);
            assert(content_entries(content) =~= seq![content_entry(*self)]);
        }
        content
    }
}

/// The two content types are different texts.
pub proof fn lemma_content_types_differ()
    ensures
        content_type_of(LogsResponseType::Json) != content_type_of(LogsResponseType::Text),
{
    reveal_strlit("application/json");
    reveal_strlit("text/plain; charset=utf-8");
    assert("application/json"@.len() != "text/plain; charset=utf-8"@.len());
}

/// The documentation of the response: both shapes that a successful body
/// can have, the JSON shape first, each under its content type.
pub fn operation_response() -> (response: ResponseDescription)
    ensures
        response.description@ == "Logs response"@,
        content_entries(response.content) == documented_content(),
{
    let mut content = content_with_capacity(2);
    let json = LogsResponseType::Json.documented_content();
    let ghost json_entries = content_entries(json);
    content_extend(&mut content, json);
    let plain = LogsResponseType::Text.documented_content();
    let ghost plain_entries = content_entries(plain);
    let ghost first = content_entries(content);
    content_extend(&mut content, plain);
    proof {
        let j = content_entry(LogsResponseType::Json);
        let p = content_entry(LogsResponseType::Text);
        let none = Seq::<(Seq<char>, Seq<char>)>::empty();
        lemma_content_types_differ();
        assert(json_entries.drop_last() =~= none);
        assert(plain_entries.drop_last() =~= none);
        assert(extend_entries(none, json_entries.drop_last()) == none);
        lemma_key_index(none, j.0, 0);
        assert(first =~= seq![j]);
        assert(extend_entries(first, plain_entries.drop_last()) == first);
        lemma_key_index(first, p.0, 1);
        assert(content_entries(content) =~= documented_content());
    }
    ResponseDescription { description: String::from_str("Logs response"), content }
}

/// The responses by status code: the one documented response, under
/// status 200.
pub fn inferred_responses() -> (responses: Vec<(Option<u16>, ResponseDescription)>)
    ensures
        responses@.len() == 1,
        responses@[0].0 == Some(200u16),
        responses@[0].1.description@ == "Logs response"@,
        content_entries(responses@[0].1.content) == documented_content(),
{
    let response = operation_response();
    let mut responses: Vec<(Option<u16>, ResponseDescription)> = Vec::new();
    responses.push((Some(200u16), response));
    responses
}

} // verus!
