//! From the text of one page to the records it holds, each with its identity
//! promoted to the attribute that the sink keys on.

use crate::document::{trees, Json, Member, Tree};
use vstd::prelude::*;

verus! {

/// Name of the member of a page that holds its records.
pub const RECORDS_FIELD: &'static str = "comments";

/// Name of the member of a record that identifies it at the remote site.
pub const SOURCE_IDENTITY_FIELD: &'static str = "id";

/// Name of the attribute by which the sink tells records apart.
pub const IDENTITY_FIELD: &'static str = "_id";

/// The page text is no structured document at all.
#[derive(Debug, PartialEq, Eq, Structural, Clone, Copy)]
pub struct ParseError;

/// `serde_json::Value`: a parsed document, read only through
/// [`value_tree`].
#[verifier::external_type_specification]
#[verifier::external_body]
pub struct ExValue(serde_json::Value);

/// `serde_json::Error`, of which nothing is read.
#[verifier::external_type_specification]
#[verifier::external_body]
pub struct ExError(serde_json::Error);

/// The document that `text` is the JSON notation of; none where `text` is
/// malformed.
pub uninterp spec fn parsed(text: Seq<char>) -> Option<Tree>;

/// What a `serde_json::Value` holds: its variants one for one, a number as
/// the text that `serde_json` prints for it, the members of an object in the
/// order in which its map hands them out.
pub uninterp spec fn value_tree(value: serde_json::Value) -> Tree;

/// `serde_json::from_str` at the type `serde_json::Value`. It reads a fixed
/// grammar, so whether it succeeds and what it yields is a function of the
/// text; the contract names that function and says nothing of its values.
#[verifier::external_body]
fn parse_value(text: &str) -> (outcome: Result<serde_json::Value, serde_json::Error>)
    ensures
        outcome matches Ok(value) ==> parsed(text@) == Some(value_tree(value)),
        outcome is Err ==> parsed(text@) is None,
{
    serde_json::from_str::<serde_json::Value>(text)
}

/// Copies a `serde_json::Value` into a [`Json`], telling its six variants
/// apart and moving what each holds; a number goes through its `Display`.
#[verifier::external_body]
fn json_of_value(value: &serde_json::Value) -> (json: Json)
    ensures
        json@ == value_tree(*value),
{
    match value {
        serde_json::Value::Null => Json::Null,
        serde_json::Value::Bool(flag) => Json::Bool(*flag),
        serde_json::Value::Number(number) => Json::Number(number.to_string()),
        serde_json::Value::String(text) => Json::Text(text.clone()),
        serde_json::Value::Array(items) => Json::Array(items.iter().map(json_of_value).collect()),
        serde_json::Value::Object(map) => Json::Object(
            map.iter().map(|(k, v)| Member { name: k.clone(), value: json_of_value(v) }).collect(),
        ),
    }
}

/// A record with the value of its source identity as its identity
/// attribute, whatever that attribute held before; a record without a source
/// identity as it is.
pub open spec fn promoted(record: Tree) -> Tree {
    match record.field(SOURCE_IDENTITY_FIELD@) {
        Some(identity) => record.with_field(IDENTITY_FIELD@, identity),
        None => record,
    }
}

/// The records of a page: the items of its records member, each promoted,
/// in order; none where the page has no such member or the member is no
/// array.
pub open spec fn records_in(document: Tree) -> Seq<Tree> {
    match document.field(RECORDS_FIELD@) {
        Some(Tree::Array(items)) => Seq::new(items.len(), |i: int| promoted(items[i])),
        _ => Seq::empty(),
    }
}

/// Promotes the source identity of `record` to its identity attribute.
pub fn promote_identity(record: Json) -> (out: Json)
    ensures
        out@ == promoted(record@),
{
    let identity = match record.field(SOURCE_IDENTITY_FIELD) {
        Some(value) => Some(value.clone()),
        None => None,
    };
    match identity {
        Some(value) => record.with_field(IDENTITY_FIELD, value),
        None => record,
    }
}

/// The records that `document` holds, ready for the sink.
pub fn records_of(document: &Json) -> (records: Vec<Json>)
    ensures
        trees(records@) == records_in(document@),
{
    let items = match document.field(RECORDS_FIELD) {
        Some(holder) => match holder.items() {
            Some(items) => items,
            None => {
                return Vec::new();
            },
        },
        None => {
            return Vec::new();
        },
    };
    let mut records: Vec<Json> = Vec::new();
    let mut i: usize = 0;
    while i < items.len()
        invariant
            i <= items.len(),
            records@.len() == i,
            forall|j: int| 0 <= j < i ==> records@[j]@ == promoted(items@[j]@),
        decreases items.len() - i,
    {
        records.push(promote_identity(items[i].clone()));
        i += 1;
    }
    assert(trees(records@) =~= records_in(document@));
    records
}

/// Reads `text` as a structured document and extracts its records. This
/// fails only where the text is malformed; a well-formed page without
/// records yields none.
pub fn extract_records(text: &str) -> (outcome: Result<Vec<Json>, ParseError>)
    ensures
        match parsed(text@) {
            Some(document) => outcome matches Ok(records) && trees(records@) == records_in(
                document,
            ),
            None => outcome == Err::<Vec<Json>, ParseError>(ParseError),
        },
{
    match parse_value(text) {
        Ok(value) => {
            let document = json_of_value(&value);
            Ok(records_of(&document))
        },
        Err(_) => Err(ParseError),
    }
}

} // verus!
