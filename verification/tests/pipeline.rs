use gcm_sender::pipeline::{parse_gcm_result, process_outcome, TransportOutcome};
use gcm_sender::GcmError;

fn ids(v: &[&str]) -> Vec<String> {
    v.iter().map(|s| s.to_string()).collect()
}

#[test]
fn connection_failure_is_server_error() {
    let r = process_outcome(&TransportOutcome::ConnectionFailed, ids(&[]), true);
    assert_eq!(r.unwrap_err(), GcmError::ServerError);
}

#[test]
fn body_read_failure_is_server_error() {
    let r = process_outcome(&TransportOutcome::BodyReadFailed, ids(&[]), true);
    assert_eq!(r.unwrap_err(), GcmError::ServerError);
}

#[test]
fn malformed_body_on_200_is_invalid_json_body() {
    let outcome = TransportOutcome::Received {
        status: 200,
        body: "definitely { not json".to_string(),
    };
    let r = process_outcome(&outcome, ids(&[]), false);
    assert_eq!(r.unwrap_err(), GcmError::InvalidJsonBody);
}

#[test]
fn status_200_decodes_and_reconciles() {
    let body = "{\"success\":2,\"failure\":1,\"results\":\
                [{},{\"error\":\"NotRegistered\"},{}]}";
    let r = parse_gcm_result(200, body, ids(&["a", "b", "c"]), true).expect("decodes");
    let mut succ = r.ids_by_success.clone();
    succ.sort();
    assert_eq!(succ, ids(&["a", "c"]));
    let map = r.ids_by_error.expect("error map built");
    assert_eq!(map.len(), 1);
    assert_eq!(map[0].0, "NotRegistered");
    assert_eq!(map[0].1, ids(&["b"]));
}

#[test]
fn reconciliation_off_leaves_maps_empty() {
    let body = "{\"success\":0,\"failure\":1,\"results\":[{\"error\":\"Unavailable\"}]}";
    let r = parse_gcm_result(200, body, ids(&["a"]), false).expect("decodes");
    assert!(r.ids_by_error.is_none());
    assert!(r.ids_by_success.is_empty());
}

#[test]
fn short_recipient_list_skips_reconciliation() {
    let body = "{\"failure\":2,\"results\":[{\"error\":\"E\"},{\"error\":\"E\"}]}";
    let r = parse_gcm_result(200, body, ids(&["only_one"]), true).expect("decodes");
    assert!(r.ids_by_error.is_none());
    assert!(r.ids_by_success.is_empty());
}

#[test]
fn non_200_statuses_classify_through_pipeline() {
    let cases: [(u16, &str, GcmError); 4] = [
        (500, "ignored", GcmError::ServerError),
        (401, "ignored", GcmError::Unauthorized),
        (400, "bad request text", GcmError::InvalidMessage("bad request text".to_string())),
        (418, "ignored", GcmError::InvalidMessage("Unknown Error".to_string())),
    ];
    for (status, body, expected) in cases {
        let outcome = TransportOutcome::Received {
            status,
            body: body.to_string(),
        };
        let r = process_outcome(&outcome, ids(&[]), true);
        assert_eq!(r.unwrap_err(), expected);
    }
}

#[test]
fn both_execution_modes_share_one_verdict() {
    // The blocking sender and the deferred-chain sender both hand the
    // transport outcome to process_outcome; equal outcomes must give equal
    // results.
    let body = "{\"success\":1,\"failure\":1,\"results\":[{},{\"error\":\"Unavailable\"}]}";
    let outcome_blocking = TransportOutcome::Received {
        status: 200,
        body: body.to_string(),
    };
    let outcome_deferred = TransportOutcome::Received {
        status: 200,
        body: body.to_string(),
    };
    let from_blocking = process_outcome(&outcome_blocking, ids(&["a", "b"]), true);
    let from_deferred = process_outcome(&outcome_deferred, ids(&["a", "b"]), true);
    assert_eq!(from_blocking, from_deferred);

    let fail_blocking = process_outcome(&TransportOutcome::ConnectionFailed, ids(&[]), false);
    let fail_deferred = process_outcome(&TransportOutcome::ConnectionFailed, ids(&[]), false);
    assert_eq!(fail_blocking, fail_deferred);
}
