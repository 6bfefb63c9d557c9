use gcm_sender::json::from_body;
use gcm_sender::message::to_json;
use gcm_sender::{GcmError, Message};

fn message(to: Option<&str>, ids: Option<&[&str]>) -> Message {
    Message {
        to: to.map(|s| s.to_string()),
        collapse_key: None,
        dry_run: None,
        registration_ids: ids.map(|v| v.iter().map(|s| s.to_string()).collect()),
    }
}

#[test]
fn serializes_registration_ids_in_order() {
    let m = message(None, Some(&["a", "b", "c"]));
    let j = to_json(&m).expect("serialization succeeds");
    assert_eq!(j, "{\"registration_ids\":[\"a\",\"b\",\"c\"]}");
}

#[test]
fn serializes_all_fields_with_commas() {
    let m = Message {
        to: Some("dev1".to_string()),
        collapse_key: Some("ck".to_string()),
        dry_run: Some(true),
        registration_ids: Some(vec!["x".to_string()]),
    };
    let j = to_json(&m).expect("serialization succeeds");
    assert_eq!(
        j,
        "{\"to\":\"dev1\",\"collapse_key\":\"ck\",\"dry_run\":true,\"registration_ids\":[\"x\"]}"
    );
}

#[test]
fn serializes_empty_message_as_empty_object() {
    let m = message(None, None);
    assert_eq!(to_json(&m).expect("serialization succeeds"), "{}");
}

#[test]
fn serializer_escapes_specials() {
    let m = message(Some("a\"b\\c\nd"), None);
    let j = to_json(&m).expect("serialization succeeds");
    assert_eq!(j, "{\"to\":\"a\\\"b\\\\c\\nd\"}");
}

#[test]
fn serializer_output_is_json_for_serde() {
    let m = Message {
        to: Some("quote \" and tab \t".to_string()),
        collapse_key: None,
        dry_run: Some(false),
        registration_ids: Some(vec!["r1".to_string(), "r2".to_string()]),
    };
    let j = to_json(&m).expect("serialization succeeds");
    let v: serde_json::Value = serde_json::from_str(&j).expect("valid JSON");
    assert_eq!(
        v.get("to").and_then(|x| x.as_str()),
        Some("quote \" and tab \t")
    );
    assert_eq!(v.get("dry_run").and_then(|x| x.as_bool()), Some(false));
    let ids: Vec<&str> = v
        .get("registration_ids")
        .and_then(|x| x.as_array())
        .expect("array")
        .iter()
        .map(|x| x.as_str().expect("string"))
        .collect();
    assert_eq!(ids, ["r1", "r2"]);
}

#[test]
fn response_round_trip_fixture() {
    let body = "{\"multicast_id\":216,\"success\":3,\"failure\":3,\"canonical_ids\":1,\
                \"results\":[{\"message_id\":\"1:0408\"},{\"error\":\"Unavailable\"},\
                {\"error\":\"InvalidRegistration\"},{\"message_id\":\"1:1516\"},\
                {\"message_id\":\"1:2342\",\"registration_id\":32},{\"error\":\"NotRegistered\"}]}";
    let r = from_body(body).expect("fixture decodes");
    assert_eq!(r.multicast_id, Some(216));
    assert_eq!(r.success, Some(3));
    assert_eq!(r.failure, Some(3));
    assert_eq!(r.canonical_ids, Some(1));
    let results = r.results.expect("results present");
    assert_eq!(results.len(), 6);
    assert_eq!(results[0].message_id.as_deref(), Some("1:0408"));
    assert!(results[0].error.is_none());
    assert_eq!(results[1].error.as_deref(), Some("Unavailable"));
    assert_eq!(results[4].registration_id, Some(32));
    assert_eq!(results[5].error.as_deref(), Some("NotRegistered"));
    assert!(r.ids_by_error.is_none());
    assert!(r.ids_by_success.is_empty());
}

#[test]
fn decodes_with_whitespace_and_any_key_order() {
    let body = " { \"failure\" : 1 ,\n\t\"multicast_id\" : -77 , \"message_id\" : 99 } ";
    let r = from_body(body).expect("decodes");
    assert_eq!(r.failure, Some(1));
    assert_eq!(r.multicast_id, Some(-77));
    assert_eq!(r.message_id, Some(99));
}

#[test]
fn decodes_escapes_in_strings() {
    let body = "{\"error\":\"a\\\"b\\\\c\\nd\\te\\/f\"}";
    let r = from_body(body).expect("decodes");
    assert_eq!(r.error.as_deref(), Some("a\"b\\c\nd\te/f"));
}

#[test]
fn decodes_u64_boundary_and_rejects_overflow() {
    let ok = from_body("{\"success\":18446744073709551615}").expect("max u64 decodes");
    assert_eq!(ok.success, Some(u64::MAX));
    let over = from_body("{\"success\":18446744073709551616}");
    assert_eq!(over.unwrap_err(), GcmError::InvalidJsonBody);
}

#[test]
fn decodes_i64_boundaries() {
    let min = from_body("{\"multicast_id\":-9223372036854775808}").expect("min i64 decodes");
    assert_eq!(min.multicast_id, Some(i64::MIN));
    let max = from_body("{\"multicast_id\":9223372036854775807}").expect("max i64 decodes");
    assert_eq!(max.multicast_id, Some(i64::MAX));
    let under = from_body("{\"multicast_id\":-9223372036854775809}");
    assert_eq!(under.unwrap_err(), GcmError::InvalidJsonBody);
}

#[test]
fn rejects_malformed_bodies() {
    for body in [
        "",
        "not json",
        "{",
        "{\"success\":}",
        "{\"success\":1,}",
        "{\"success\":1} trailing",
        "[1,2,3]",
        "{\"unknown_key\":1}",
        "{\"error\":\"unterminated}",
        "{\"results\":[{]}",
        "{\"success\":null}",
    ] {
        let r = from_body(body);
        assert_eq!(r.unwrap_err(), GcmError::InvalidJsonBody, "body: {}", body);
    }
}

#[test]
fn empty_object_decodes_to_default_shape() {
    let r = from_body("{}").expect("decodes");
    assert!(r.failure.is_none());
    assert!(r.results.is_none());
    let spaced = from_body("  { }  ").expect("decodes");
    assert!(spaced.success.is_none());
}

#[test]
fn empty_results_array_decodes() {
    let r = from_body("{\"results\":[]}").expect("decodes");
    assert_eq!(r.results.expect("present").len(), 0);
    let r2 = from_body("{\"results\":[{}]}").expect("decodes");
    let items = r2.results.expect("present");
    assert_eq!(items.len(), 1);
    assert!(items[0].error.is_none());
}
