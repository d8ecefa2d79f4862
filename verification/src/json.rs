//! JSON text, read and written by `serde_json`.
//!
//! Nothing here is proved of `serde_json` itself. The contracts of this file
//! name what its functions return, and the rest of the library is proved
//! against those names.

use vstd::prelude::*;

verus! {

/// A parsed JSON document of `serde_json`, carried as it is.
#[verifier::external_type_specification]
#[verifier::external_body]
pub struct ExValue(serde_json::Value);

/// The error of `serde_json`, carried as it is.
#[verifier::external_type_specification]
#[verifier::external_body]
pub struct ExError(serde_json::Error);

/// The members of a document by name: the text of a member that is a JSON
/// string, and `None` for a member of any other kind. A document that is not
/// a JSON object has no members.
pub uninterp spec fn members_of(document: serde_json::Value) -> Map<Seq<char>, Option<Seq<char>>>;

/// The members of the document that the bytes `body` spell, or `None` where
/// the bytes are not one JSON document.
pub uninterp spec fn parsed_members(body: Seq<u8>) -> Option<Map<Seq<char>, Option<Seq<char>>>>;

/// The JSON string literal that stands for `text`, quotes and escapes
/// included, or `None` where `serde_json` gives none.
pub uninterp spec fn json_string(text: Seq<char>) -> Option<Seq<char>>;

/// What a document holds under one member name.
#[derive(Debug, PartialEq, Eq)]
pub enum Member {
    /// The document has no member of that name.
    Absent,
    /// The member is not a JSON string.
    Other,
    /// The member is a JSON string with this text.
    Text(String),
}

impl Member {
    /// `None` for no member, `Some(None)` for one that is no string, and
    /// `Some(Some(text))` for a string.
    pub open spec fn view(&self) -> Option<Option<Seq<char>>> {
        match self {
            Member::Absent => None,
            Member::Other => Some(None),
            Member::Text(text) => Some(Some(text@)),
        }
    }
}

/// What `members` holds under `name`.
pub open spec fn member_at(members: Map<Seq<char>, Option<Seq<char>>>, name: Seq<char>) -> Option<
    Option<Seq<char>>,
> {
    if members.contains_key(name) {
        Some(members[name])
    } else {
        None
    }
}

/// Calls `serde_json::from_slice` for a `serde_json::Value`. Trusted: it
/// succeeds exactly on the bytes that `parsed_members` knows as a document,
/// and the document it returns has those members.
#[verifier::external_body]
pub(crate) fn parse(body: &[u8]) -> (r: Result<serde_json::Value, serde_json::Error>)
    ensures
        match r {
            Ok(document) => parsed_members(body@) == Some(members_of(document)),
            Err(_) => parsed_members(body@) is None,
        },
{
    serde_json::from_slice::<serde_json::Value>(body)
}

/// Calls `serde_json::Value::get` with a member name. Trusted: the result is
/// what `members_of` holds under that name.
#[verifier::external_body]
pub(crate) fn member(document: &serde_json::Value, name: &str) -> (r: Member)
    ensures
        r@ == member_at(members_of(*document), name@),
{
    match document.get(name) {
        None => Member::Absent,
        Some(serde_json::Value::String(text)) => Member::Text(text.clone()),
        Some(_) => Member::Other,
    }
}

/// Calls `serde_json::to_string` on a string slice. Trusted: the text it
/// returns is the one that `json_string` names.
#[verifier::external_body]
pub(crate) fn quote(text: &str) -> (r: Result<String, serde_json::Error>)
    ensures
        match r {
            Ok(literal) => json_string(text@) == Some(literal@),
            Err(_) => json_string(text@) is None,
        },
{
    serde_json::to_string(text)
}

} // verus!
