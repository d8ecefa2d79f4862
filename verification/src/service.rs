//! The rules of the service: what a request asks for, and the reply to it.

use vstd::prelude::*;
use crate::json::{json_string, member, member_at, parse, parsed_members, quote, Member};
use crate::record::Record;
use crate::store::{lookup, upsert, Store};

verus! {

/// One of the two members that a request to store a value must hold.
#[derive(Debug, Clone, Copy, PartialEq, Eq)]
pub enum Field {
    Key,
    Value,
}

/// Why a request to store a value is refused.
#[derive(Debug, Clone, Copy, PartialEq, Eq)]
pub enum RequestError {
    /// The body is not one JSON document.
    Malformed,
    /// The body has no member of this name.
    Missing(Field),
    /// The member of this name is not a JSON string.
    Invalid(Field),
}

/// A failure of the storage behind the service.
#[derive(Debug, Clone, Copy, PartialEq, Eq)]
pub struct StorageFault;

/// A reply: the HTTP status and the body, which is empty or JSON text.
#[derive(Debug, PartialEq, Eq)]
pub struct Reply {
    pub status: u16,
    pub body: String,
}

impl Reply {
    /// The reply as its status and the characters of its body.
    pub open spec fn view(&self) -> (u16, Seq<char>) {
        (self.status, self.body@)
    }
}

/// The record that a request with these two members asks to store, or why it
/// is refused. The key is looked at first.
pub open spec fn checked(key: Option<Option<Seq<char>>>, value: Option<Option<Seq<char>>>) -> Result<
    (Seq<char>, Seq<char>),
    RequestError,
> {
    match (key, value) {
        (None, _) => Err(RequestError::Missing(Field::Key)),
        (Some(None), _) => Err(RequestError::Invalid(Field::Key)),
        (Some(Some(_)), None) => Err(RequestError::Missing(Field::Value)),
        (Some(Some(_)), Some(None)) => Err(RequestError::Invalid(Field::Value)),
        (Some(Some(k)), Some(Some(v))) => Ok((k, v)),
    }
}

/// The record that a request asks to store, given the members of its body,
/// or `None` for a body that is no JSON document.
pub open spec fn requested(members: Option<Map<Seq<char>, Option<Seq<char>>>>) -> Result<
    (Seq<char>, Seq<char>),
    RequestError,
> {
    match members {
        None => Err(RequestError::Malformed),
        Some(m) => checked(member_at(m, "key"@), member_at(m, "value"@)),
    }
}

/// The body of the reply that refuses a request.
pub open spec fn refusal_body(error: RequestError) -> Seq<char> {
    match error {
        RequestError::Malformed => "{\"error\":\"malformed JSON\"}"@,
        RequestError::Missing(Field::Key) => "{\"error\":\"missing field\",\"field\":\"key\"}"@,
        RequestError::Missing(Field::Value) => "{\"error\":\"missing field\",\"field\":\"value\"}"@,
        RequestError::Invalid(Field::Key) => "{\"error\":\"invalid field\",\"field\":\"key\"}"@,
        RequestError::Invalid(Field::Value) => "{\"error\":\"invalid field\",\"field\":\"value\"}"@,
    }
}

/// The reply that refuses a request: status 400 and the body for the error.
pub open spec fn refusal(error: RequestError) -> (u16, Seq<char>) {
    (400u16, refusal_body(error))
}

/// The reply to a failure of the storage: status 500.
pub open spec fn storage_failure() -> (u16, Seq<char>) {
    (500u16, "{\"error\":\"storage failure\"}"@)
}

/// The reply where a value cannot be written as JSON: status 500.
pub open spec fn encoding_failure() -> (u16, Seq<char>) {
    (500u16, "{\"error\":\"encoding failure\"}"@)
}

/// The reply that carries JSON text, or the failure to produce it.
pub open spec fn rendered(text: Option<Seq<char>>) -> (u16, Seq<char>) {
    match text {
        Some(t) => (200u16, t),
        None => encoding_failure(),
    }
}

/// The reply to a lookup: status 200 with `null` for no value and the JSON
/// string for a value, and status 500 for a failure.
pub open spec fn lookup_reply(outcome: Result<Option<Seq<char>>, StorageFault>) -> (u16, Seq<char>) {
    match outcome {
        Err(_) => storage_failure(),
        Ok(None) => (200u16, "null"@),
        Ok(Some(value)) => rendered(json_string(value)),
    }
}

/// The reply to a write: status 200 with an empty body, or status 500.
pub open spec fn write_reply(outcome: Result<(), StorageFault>) -> (u16, Seq<char>) {
    match outcome {
        Err(_) => storage_failure(),
        Ok(_) => (200u16, Seq::<char>::empty()),
    }
}

/// Decides from the two members of a body which record the request asks to
/// store, or why it is refused.
pub fn check_members(key: Member, value: Member) -> (r: Result<Record, RequestError>)
    ensures
        match r {
            Ok(record) => checked(key@, value@) == Ok::<(Seq<char>, Seq<char>), RequestError>(
                record@,
            ),
            Err(error) => checked(key@, value@) == Err::<(Seq<char>, Seq<char>), RequestError>(
                error,
            ),
        },
{
    match key {
        Member::Absent => Err(RequestError::Missing(Field::Key)),
        Member::Other => Err(RequestError::Invalid(Field::Key)),
        Member::Text(k) => match value {
            Member::Absent => Err(RequestError::Missing(Field::Value)),
            Member::Other => Err(RequestError::Invalid(Field::Value)),
            Member::Text(v) => Ok(Record::new(k, v)),
        },
    }
}

/// Reads the body of a request to store a value: a JSON object whose members
/// `key` and `value` are both strings.
pub fn read_set_request(body: &[u8]) -> (r: Result<Record, RequestError>)
    ensures
        match r {
            Ok(record) => requested(parsed_members(body@)) == Ok::<
                (Seq<char>, Seq<char>),
                RequestError,
            >(record@),
            Err(error) => requested(parsed_members(body@)) == Err::<
                (Seq<char>, Seq<char>),
                RequestError,
            >(error),
        },
{
    match parse(body) {
        Err(_) => Err(RequestError::Malformed),
        Ok(document) => {
            let key = member(&document, "key");
            let value = member(&document, "value");
            check_members(key, value)
        },
    }
}

/// The reply that refuses a request.
pub fn reply_to_error(error: RequestError) -> (r: Reply)
    ensures
        r@ == refusal(error),
{
    let body = match error {
        RequestError::Malformed => "{\"error\":\"malformed JSON\"}",
        RequestError::Missing(Field::Key) => "{\"error\":\"missing field\",\"field\":\"key\"}",
        RequestError::Missing(Field::Value) => "{\"error\":\"missing field\",\"field\":\"value\"}",
        RequestError::Invalid(Field::Key) => "{\"error\":\"invalid field\",\"field\":\"key\"}",
        RequestError::Invalid(Field::Value) => "{\"error\":\"invalid field\",\"field\":\"value\"}",
    };
    Reply { status: 400, body: body.to_owned() }
}

/// The reply to a failure of the storage.
pub fn reply_to_fault() -> (r: Reply)
    ensures
        r@ == storage_failure(),
{
    Reply { status: 500, body: "{\"error\":\"storage failure\"}".to_owned() }
}

/// The reply that carries `text`, which is JSON, or the failure to produce it.
pub fn reply_with_json(text: Option<String>) -> (r: Reply)
    ensures
        r@ == rendered(
            match text {
                Some(t) => Some(t@),
                None => None,
            },
        ),
{
    match text {
        Some(t) => Reply { status: 200, body: t },
        None => Reply { status: 500, body: "{\"error\":\"encoding failure\"}".to_owned() },
    }
}

/// The reply to a lookup, given what the storage found.
pub fn reply_to_get(outcome: Result<Option<String>, StorageFault>) -> (r: Reply)
    ensures
        r@ == lookup_reply(
            match outcome {
                Ok(Some(value)) => Ok(Some(value@)),
                Ok(None) => Ok(None),
                Err(fault) => Err(fault),
            },
        ),
{
    match outcome {
        Err(_) => reply_to_fault(),
        Ok(None) => Reply { status: 200, body: "null".to_owned() },
        Ok(Some(value)) => match quote(value.as_str()) {
            Ok(literal) => reply_with_json(Some(literal)),
            Err(_) => reply_with_json(None),
        },
    }
}

/// The reply to a write, given how the storage fared.
pub fn reply_to_set(outcome: Result<(), StorageFault>) -> (r: Reply)
    ensures
        r@ == write_reply(outcome),
{
    match outcome {
        Err(_) => reply_to_fault(),
        Ok(_) => Reply { status: 200, body: String::new() },
    }
}

/// Answers a lookup of `key` from `store`.
pub fn get_value(store: &Store, key: &str) -> (r: Reply)
    requires
        store.wf(),
    ensures
        r@ == lookup_reply(Ok(lookup(store.rows(), key@))),
{
    reply_to_get(Ok(store.get(key)))
}

/// Answers a request to store a value: a body that asks for a record has it
/// stored, and any other body leaves `store` as it was and is refused.
pub fn set_value(store: &mut Store, body: &[u8]) -> (r: Reply)
    requires
        old(store).wf(),
    ensures
        final(store).wf(),
        match requested(parsed_members(body@)) {
            Ok(record) => final(store).rows() == upsert(old(store).rows(), record.0, record.1)
                && r@ == write_reply(Ok(())),
            Err(error) => final(store).rows() == old(store).rows() && r@ == refusal(error),
        },
{
    match read_set_request(body) {
        Ok(record) => {
            store.set(record.key, record.value);
            reply_to_set(Ok(()))
        },
        Err(error) => reply_to_error(error),
    }
}

} // verus!
