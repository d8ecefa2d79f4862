use kvstore::json::Member;
use kvstore::record::Record;
use kvstore::service::{
    check_members, get_value, read_set_request, reply_to_error, reply_to_fault, reply_to_get,
    reply_to_set, reply_with_json, set_value, Field, Reply, RequestError, StorageFault,
};
use kvstore::store::Store;

fn reply(status: u16, body: &str) -> Reply {
    Reply { status, body: body.to_string() }
}

#[test]
fn scenario_set_then_get() {
    let mut store = Store::new();
    let posted = set_value(&mut store, b"{\"key\":\"a\",\"value\":\"1\"}");
    assert_eq!(posted, reply(200, ""));
    assert_eq!(get_value(&store, "a"), reply(200, "\"1\""));
}

#[test]
fn scenario_get_missing_is_null() {
    let store = Store::new();
    assert_eq!(get_value(&store, "missing"), reply(200, "null"));
}

#[test]
fn scenario_overwrite_then_get() {
    let mut store = Store::new();
    assert_eq!(set_value(&mut store, b"{\"key\":\"a\",\"value\":\"1\"}").status, 200);
    assert_eq!(set_value(&mut store, b"{\"key\":\"a\",\"value\":\"2\"}").status, 200);
    assert_eq!(get_value(&store, "a"), reply(200, "\"2\""));
    assert_eq!(store.len(), 1);
}

#[test]
fn read_set_request_accepts_two_strings() {
    assert_eq!(
        read_set_request(b"{\"key\":\"a\",\"value\":\"1\"}"),
        Ok(Record::new("a".to_string(), "1".to_string()))
    );
    assert_eq!(
        read_set_request(b" { \"value\" : \"v\\n\" , \"key\" : \"\\u00e9\" , \"more\" : 3 } "),
        Ok(Record::new("é".to_string(), "v\n".to_string()))
    );
    assert_eq!(
        read_set_request(b"{\"key\":\"\",\"value\":\"\"}"),
        Ok(Record::new(String::new(), String::new()))
    );
}

#[test]
fn read_set_request_refuses_malformed_json() {
    assert_eq!(read_set_request(b""), Err(RequestError::Malformed));
    assert_eq!(read_set_request(b"{\"key\":\"a\","), Err(RequestError::Malformed));
    assert_eq!(read_set_request(b"{\"key\":\"a\",\"value\":\"1\"} x"), Err(RequestError::Malformed));
    assert_eq!(read_set_request(b"key=a"), Err(RequestError::Malformed));
    assert_eq!(read_set_request(&[0xff, 0xfe]), Err(RequestError::Malformed));
}

#[test]
fn read_set_request_names_the_missing_field() {
    assert_eq!(read_set_request(b"{}"), Err(RequestError::Missing(Field::Key)));
    assert_eq!(read_set_request(b"{\"value\":\"1\"}"), Err(RequestError::Missing(Field::Key)));
    assert_eq!(read_set_request(b"{\"key\":\"a\"}"), Err(RequestError::Missing(Field::Value)));
    assert_eq!(read_set_request(b"[\"a\",\"1\"]"), Err(RequestError::Missing(Field::Key)));
    assert_eq!(read_set_request(b"\"a\""), Err(RequestError::Missing(Field::Key)));
    assert_eq!(read_set_request(b"null"), Err(RequestError::Missing(Field::Key)));
}

#[test]
fn read_set_request_names_the_invalid_field() {
    assert_eq!(
        read_set_request(b"{\"key\":1,\"value\":\"1\"}"),
        Err(RequestError::Invalid(Field::Key))
    );
    assert_eq!(
        read_set_request(b"{\"key\":\"a\",\"value\":null}"),
        Err(RequestError::Invalid(Field::Value))
    );
    assert_eq!(
        read_set_request(b"{\"key\":\"a\",\"value\":[\"1\"]}"),
        Err(RequestError::Invalid(Field::Value))
    );
    assert_eq!(read_set_request(b"{\"key\":true}"), Err(RequestError::Invalid(Field::Key)));
}

#[test]
fn check_members_looks_at_the_key_first() {
    let text = |s: &str| Member::Text(s.to_string());
    assert_eq!(check_members(Member::Absent, Member::Absent), Err(RequestError::Missing(Field::Key)));
    assert_eq!(check_members(Member::Absent, Member::Other), Err(RequestError::Missing(Field::Key)));
    assert_eq!(check_members(Member::Absent, text("1")), Err(RequestError::Missing(Field::Key)));
    assert_eq!(check_members(Member::Other, Member::Absent), Err(RequestError::Invalid(Field::Key)));
    assert_eq!(check_members(Member::Other, text("1")), Err(RequestError::Invalid(Field::Key)));
    assert_eq!(check_members(text("a"), Member::Absent), Err(RequestError::Missing(Field::Value)));
    assert_eq!(check_members(text("a"), Member::Other), Err(RequestError::Invalid(Field::Value)));
    assert_eq!(
        check_members(text("a"), text("1")),
        Ok(Record::new("a".to_string(), "1".to_string()))
    );
}

#[test]
fn refusals_have_status_400_and_name_the_field() {
    assert_eq!(reply_to_error(RequestError::Malformed), reply(400, "{\"error\":\"malformed JSON\"}"));
    assert_eq!(
        reply_to_error(RequestError::Missing(Field::Key)),
        reply(400, "{\"error\":\"missing field\",\"field\":\"key\"}")
    );
    assert_eq!(
        reply_to_error(RequestError::Missing(Field::Value)),
        reply(400, "{\"error\":\"missing field\",\"field\":\"value\"}")
    );
    assert_eq!(
        reply_to_error(RequestError::Invalid(Field::Key)),
        reply(400, "{\"error\":\"invalid field\",\"field\":\"key\"}")
    );
    assert_eq!(
        reply_to_error(RequestError::Invalid(Field::Value)),
        reply(400, "{\"error\":\"invalid field\",\"field\":\"value\"}")
    );
}

#[test]
fn error_bodies_are_json_objects() {
    let errors = [
        RequestError::Malformed,
        RequestError::Missing(Field::Key),
        RequestError::Missing(Field::Value),
        RequestError::Invalid(Field::Key),
        RequestError::Invalid(Field::Value),
    ];
    for error in errors {
        let body = reply_to_error(error).body;
        let document: serde_json::Value = serde_json::from_str(&body).unwrap();
        assert!(document.is_object());
        assert!(document.get("error").unwrap().is_string());
    }
    let fault: serde_json::Value = serde_json::from_str(&reply_to_fault().body).unwrap();
    assert!(fault.get("error").unwrap().is_string());
    let encoding: serde_json::Value = serde_json::from_str(&reply_with_json(None).body).unwrap();
    assert!(encoding.get("error").unwrap().is_string());
}

#[test]
fn storage_fault_gives_status_500() {
    assert_eq!(reply_to_fault(), reply(500, "{\"error\":\"storage failure\"}"));
    assert_eq!(reply_to_get(Err(StorageFault)), reply(500, "{\"error\":\"storage failure\"}"));
    assert_eq!(reply_to_set(Err(StorageFault)), reply(500, "{\"error\":\"storage failure\"}"));
}

#[test]
fn reply_to_set_is_empty_200() {
    assert_eq!(reply_to_set(Ok(())), reply(200, ""));
}

#[test]
fn reply_to_get_writes_json() {
    assert_eq!(reply_to_get(Ok(None)), reply(200, "null"));
    assert_eq!(reply_to_get(Ok(Some("1".to_string()))), reply(200, "\"1\""));
    assert_eq!(reply_to_get(Ok(Some(String::new()))), reply(200, "\"\""));
    assert_eq!(reply_to_get(Ok(Some("null".to_string()))), reply(200, "\"null\""));
    assert_eq!(
        reply_to_get(Ok(Some("a\"b\\c\nd".to_string()))),
        reply(200, "\"a\\\"b\\\\c\\nd\"")
    );
    assert_eq!(reply_to_get(Ok(Some("é".to_string()))), reply(200, "\"é\""));
}

#[test]
fn reply_with_json_carries_the_text() {
    assert_eq!(reply_with_json(Some("\"1\"".to_string())), reply(200, "\"1\""));
    assert_eq!(reply_with_json(None), reply(500, "{\"error\":\"encoding failure\"}"));
}

#[test]
fn refused_request_leaves_the_store_unchanged() {
    let mut store = Store::new();
    store.set("a".to_string(), "1".to_string());
    assert_eq!(
        set_value(&mut store, b"{\"key\":\"a\"}"),
        reply(400, "{\"error\":\"missing field\",\"field\":\"value\"}")
    );
    assert_eq!(set_value(&mut store, b"{\"key\":\"a\",\"value\":2}").status, 400);
    assert_eq!(set_value(&mut store, b"not json").status, 400);
    assert_eq!(store.get("a"), Some("1".to_string()));
    assert_eq!(store.len(), 1);
}

#[test]
fn value_read_back_is_the_value_sent() {
    let mut store = Store::new();
    let posted = set_value(&mut store, b"{\"key\":\"q\",\"value\":\"line\\nbreak \\\"x\\\"\"}");
    assert_eq!(posted.status, 200);
    assert_eq!(store.get("q"), Some("line\nbreak \"x\"".to_string()));
    let got = get_value(&store, "q");
    assert_eq!(got.status, 200);
    let back: String = serde_json::from_str(&got.body).unwrap();
    assert_eq!(back, "line\nbreak \"x\"");
}
