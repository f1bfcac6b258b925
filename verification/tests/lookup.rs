use toggl_openproject::lookup::{
    existing_ids_path, get_existing_toggl_ids, get_member, get_nested_member,
    lookup_error_message, parse_json, toggl_id_from_comment, toggl_ids_of_response, Json,
    LookupError,
};
use toggl_openproject::openproject::TimeEntryRequest;
use toggl_openproject::toggl::{ExtendedTimeEntry, TimeEntry, Timestamp};

fn text(s: &str) -> Json {
    Json::Text(s.to_string())
}

fn object(members: Vec<(&str, Json)>) -> Json {
    Json::Object(members.into_iter().map(|(k, v)| (k.to_string(), v)).collect())
}

fn element(comment: Json) -> Json {
    object(vec![("id", Json::Number("1".to_string())), ("comment", object(vec![("raw", comment)]))])
}

fn response(elements: Vec<Json>) -> Json {
    object(vec![("_embedded", object(vec![("elements", Json::Array(elements))]))])
}

#[test]
fn path_of_the_query() {
    assert_eq!(
        existing_ids_path("458"),
        "time_entries?pageSize=100&filters=[{\"work_package\":{\"operator\":\"=\",\"values\":[\"458\"]}}]"
    );
}

#[test]
fn identifier_stands_before_the_first_separator() {
    assert_eq!(toggl_id_from_comment("999 - Did work"), Some("999".to_string()));
    assert_eq!(toggl_id_from_comment("999 - a - b"), Some("999".to_string()));
    assert_eq!(toggl_id_from_comment("999 - "), Some("999".to_string()));
    assert_eq!(toggl_id_from_comment(" - x"), Some(String::new()));
    assert_eq!(toggl_id_from_comment("Test - CAN BE DELETED"), Some("Test".to_string()));
    assert_eq!(toggl_id_from_comment("\u{e9}\u{e9} - x"), Some("\u{e9}\u{e9}".to_string()));
}

#[test]
fn comment_without_separator_has_no_identifier() {
    assert_eq!(toggl_id_from_comment(""), None);
    assert_eq!(toggl_id_from_comment("999"), None);
    assert_eq!(toggl_id_from_comment("999 -"), None);
    assert_eq!(toggl_id_from_comment("999- x"), None);
    assert_eq!(toggl_id_from_comment("999 -x"), None);
    assert_eq!(toggl_id_from_comment(" -"), None);
}

#[test]
fn written_comment_gives_the_identifier_back() {
    let start = Timestamp { seconds: 1_704_103_200, nanos: 0, offset_seconds: 0 };
    for (id, description) in [(999u64, "Did work"), (0, ""), (u64::MAX, " - "), (12, "3 - 4")] {
        let entry = ExtendedTimeEntry {
            toggl_time_entry: TimeEntry { id, description: None, duration: 60, start, stop: Some(start) },
            work_package_id: "5".to_string(),
            description: description.to_string(),
        };
        let request = TimeEntryRequest::on_day(&entry, "1", "2024-01-01".to_string());
        assert_eq!(toggl_id_from_comment(&request.comment.raw), Some(id.to_string()));
    }
}

#[test]
fn members_of_objects() {
    let json = object(vec![("a", text("1")), ("b", object(vec![("c", text("2"))])), ("a", text("3"))]);
    assert!(matches!(get_member(&json, "a"), Some(Json::Text(s)) if s == "1"));
    assert!(matches!(get_member(&json, "b"), Some(Json::Object(_))));
    assert!(get_member(&json, "c").is_none());
    assert!(get_member(&text("a"), "a").is_none());
    assert!(get_member(&Json::Array(vec![text("a")]), "a").is_none());
    assert!(matches!(get_nested_member(&json, "b", "c"), Some(Json::Text(s)) if s == "2"));
    assert!(get_nested_member(&json, "b", "d").is_none());
    assert!(get_nested_member(&json, "a", "c").is_none());
    assert!(get_nested_member(&json, "x", "c").is_none());
}

#[test]
fn identifiers_of_a_response() {
    let answer = response(vec![
        element(text("999 - Did work")),
        object(vec![("id", Json::Number("2".to_string()))]),
        object(vec![("comment", object(vec![("format", text("plain"))]))]),
        element(text("1000 - more - work")),
    ]);
    assert_eq!(toggl_ids_of_response(&answer), Ok(vec!["999".to_string(), "1000".to_string()]));
}

#[test]
fn response_with_no_elements_lists_nothing() {
    assert_eq!(toggl_ids_of_response(&response(Vec::new())), Ok(Vec::new()));
    assert_eq!(get_existing_toggl_ids(r#"{"_embedded":{"elements":[]}}"#), Ok(Vec::new()));
    let uncommented = response(vec![object(vec![("id", Json::Number("2".to_string()))])]);
    assert_eq!(toggl_ids_of_response(&uncommented), Ok(Vec::new()));
}

#[test]
fn response_without_the_list_fails_the_lookup() {
    let shape = Err(LookupError::UnexpectedResponseShape);
    assert_eq!(toggl_ids_of_response(&object(Vec::new())), shape);
    assert_eq!(toggl_ids_of_response(&object(vec![("_embedded", object(Vec::new()))])), shape);
    assert_eq!(
        toggl_ids_of_response(&object(vec![("_embedded", object(vec![("elements", text("x"))]))])),
        shape
    );
    assert_eq!(
        toggl_ids_of_response(&object(vec![("_embedded", object(vec![("elements", Json::Null)]))])),
        shape
    );
    assert_eq!(toggl_ids_of_response(&object(vec![("_embedded", Json::Array(Vec::new()))])), shape);
    assert_eq!(toggl_ids_of_response(&object(vec![("elements", Json::Array(Vec::new()))])), shape);
    assert_eq!(toggl_ids_of_response(&Json::Null), shape);
    assert_eq!(toggl_ids_of_response(&Json::Bool(true)), shape);
    assert_eq!(toggl_ids_of_response(&Json::Array(Vec::new())), shape);

    assert_eq!(get_existing_toggl_ids("{}"), shape);
    assert_eq!(get_existing_toggl_ids("[]"), shape);
    assert_eq!(get_existing_toggl_ids(r#"{"_embedded":{}}"#), shape);
    assert_eq!(get_existing_toggl_ids(r#"{"_embedded":{"elements":{}}}"#), shape);
    assert_eq!(
        get_existing_toggl_ids(r#"{"_type":"Error","errorIdentifier":"x","message":"no"}"#),
        shape
    );
}

#[test]
fn error_messages_name_the_work_package() {
    assert_eq!(
        lookup_error_message("458", &LookupError::InvalidJson("expected value".to_string())),
        "Error parsing time entries JSON for WP #458: expected value"
    );
    assert_eq!(
        lookup_error_message("458", &LookupError::UnexpectedResponseShape),
        "Unexpected shape of time entries JSON for WP #458"
    );
    let error = get_existing_toggl_ids("not json").unwrap_err();
    let message = lookup_error_message("07", &error);
    assert!(message.starts_with("Error parsing time entries JSON for WP #07: "));
    assert!(message.len() > "Error parsing time entries JSON for WP #07: ".len());
}

#[test]
fn unexpected_comments_fail_the_lookup() {
    let no_separator = response(vec![element(text("999 - a")), element(text("entered by hand"))]);
    assert_eq!(toggl_ids_of_response(&no_separator), Err(LookupError::UnexpectedResponseShape));
    let no_text = response(vec![element(Json::Null), element(text("999 - a"))]);
    assert_eq!(toggl_ids_of_response(&no_text), Err(LookupError::UnexpectedResponseShape));
    let number = response(vec![element(Json::Number("5".to_string()))]);
    assert_eq!(toggl_ids_of_response(&number), Err(LookupError::UnexpectedResponseShape));
}

#[test]
fn identifiers_of_a_response_body() {
    let body = r#"{
        "_type": "Collection", "total": 2, "count": 2,
        "_embedded": { "elements": [
            { "id": 1, "hours": "PT1800S", "comment": { "format": "plain", "raw": "999 - Did work" } },
            { "id": 2, "hours": "PT60S" },
            { "id": 3, "comment": { "raw": "1000 - a é - b" }, "ongoing": false, "spent": 1.5, "x": null }
        ] }
    }"#;
    assert_eq!(get_existing_toggl_ids(body), Ok(vec!["999".to_string(), "1000".to_string()]));
}

#[test]
fn bad_response_bodies() {
    assert!(matches!(get_existing_toggl_ids("not json"), Err(LookupError::InvalidJson(_))));
    assert!(matches!(get_existing_toggl_ids(""), Err(LookupError::InvalidJson(_))));
    assert!(matches!(get_existing_toggl_ids("{\"a\":"), Err(LookupError::InvalidJson(_))));
    assert_eq!(
        get_existing_toggl_ids(r#"{"_embedded":{"elements":[{"comment":{"raw":"by hand"}}]}}"#),
        Err(LookupError::UnexpectedResponseShape)
    );
    assert_eq!(
        get_existing_toggl_ids(r#"{"_embedded":{"elements":[{"comment":{"raw":null}}]}}"#),
        Err(LookupError::UnexpectedResponseShape)
    );
}

#[test]
fn parse_json_tells_the_variants_apart() {
    assert!(matches!(parse_json("null"), Ok(Json::Null)));
    assert!(matches!(parse_json("true"), Ok(Json::Bool(true))));
    assert!(matches!(parse_json("12"), Ok(Json::Number(n)) if n == "12"));
    assert!(matches!(parse_json("\"a\""), Ok(Json::Text(s)) if s == "a"));
    match parse_json("[1, \"b\", [null]]") {
        Ok(Json::Array(items)) => {
            assert_eq!(items.len(), 3);
            assert!(matches!(&items[0], Json::Number(n) if n == "1"));
            assert!(matches!(&items[1], Json::Text(s) if s == "b"));
            assert!(matches!(&items[2], Json::Array(inner) if inner.len() == 1));
        }
        other => panic!("no array: {:?}", other),
    }
    match parse_json("{\"k\": {\"n\": false}}") {
        Ok(Json::Object(members)) => {
            assert_eq!(members.len(), 1);
            assert_eq!(members[0].0, "k");
            assert!(matches!(get_member(&members[0].1, "n"), Some(Json::Bool(false))));
        }
        other => panic!("no object: {:?}", other),
    }
    assert!(matches!(parse_json("{"), Err(LookupError::InvalidJson(_))));
}

#[test]
fn test_serde() {
    let path = existing_ids_path("458");
    assert!(path.starts_with("time_entries?pageSize=100&filters="));
    assert!(path.contains("\"values\":[\"458\"]"));
    let body = r#"{"_embedded":{"elements":[{"comment":{"format":"plain","raw":"458 - x"}}]}}"#;
    get_existing_toggl_ids(body).unwrap();
}
