use gcm_sender::{GcmResponse, MessageResult};

fn item(error: Option<&str>) -> MessageResult {
    MessageResult {
        message_id: None,
        registration_id: None,
        error: error.map(|e| e.to_string()),
    }
}

fn response_with(failure: Option<u64>, results: Option<Vec<MessageResult>>) -> GcmResponse {
    let mut r = GcmResponse::default();
    r.failure = failure;
    r.results = results;
    r
}

fn ids(v: &[&str]) -> Vec<String> {
    v.iter().map(|s| s.to_string()).collect()
}

#[test]
fn reconcile_builds_success_set_and_error_map() {
    let mut r = response_with(
        Some(1),
        Some(vec![item(None), item(Some("NotRegistered")), item(None)]),
    );
    r.build_reg_ids_by_error_map(ids(&["a", "b", "c"]));

    let mut succ = r.ids_by_success.clone();
    succ.sort();
    assert_eq!(succ, ids(&["a", "c"]));

    let map = r.ids_by_error.clone().expect("error map built");
    assert_eq!(map.len(), 1);
    assert_eq!(map[0].0, "NotRegistered");
    assert_eq!(map[0].1, ids(&["b"]));
}

#[test]
fn reconcile_twice_equals_once() {
    let results = vec![
        item(None),
        item(Some("NotRegistered")),
        item(Some("Unavailable")),
        item(Some("NotRegistered")),
    ];
    let mut once = response_with(Some(3), Some(results.clone()));
    once.build_reg_ids_by_error_map(ids(&["a", "b", "c", "d"]));

    let mut twice = response_with(Some(3), Some(results));
    twice.build_reg_ids_by_error_map(ids(&["a", "b", "c", "d"]));
    twice.build_reg_ids_by_error_map(ids(&["a", "b", "c", "d"]));

    assert_eq!(once.ids_by_error, twice.ids_by_error);
    let mut s1 = once.ids_by_success.clone();
    let mut s2 = twice.ids_by_success.clone();
    s1.sort();
    s2.sort();
    assert_eq!(s1, s2);
}

#[test]
fn reconcile_keeps_failure_order_within_reason() {
    let mut r = response_with(
        Some(3),
        Some(vec![
            item(Some("NotRegistered")),
            item(None),
            item(Some("NotRegistered")),
            item(Some("NotRegistered")),
        ]),
    );
    r.build_reg_ids_by_error_map(ids(&["p", "q", "r", "s"]));
    let map = r.ids_by_error.expect("error map built");
    assert_eq!(map.len(), 1);
    assert_eq!(map[0].1, ids(&["p", "r", "s"]));
}

#[test]
fn reconcile_skips_on_zero_failure() {
    let mut r = response_with(Some(0), Some(vec![item(Some("NotRegistered"))]));
    r.build_reg_ids_by_error_map(ids(&["a"]));
    assert!(r.ids_by_error.is_none());
    assert!(r.ids_by_success.is_empty());
}

#[test]
fn reconcile_skips_without_results() {
    let mut r = response_with(Some(2), None);
    r.build_reg_ids_by_error_map(ids(&["a", "b"]));
    assert!(r.ids_by_error.is_none());
    assert!(r.ids_by_success.is_empty());
}

#[test]
fn reconcile_skips_without_failure_count() {
    let mut r = response_with(None, Some(vec![item(Some("NotRegistered"))]));
    r.build_reg_ids_by_error_map(ids(&["a"]));
    assert!(r.ids_by_error.is_none());
    assert!(r.ids_by_success.is_empty());
}

#[test]
fn duplicate_recipients_collapse_in_success_set() {
    let mut r = response_with(Some(1), Some(vec![item(None), item(None), item(Some("E"))]));
    r.build_reg_ids_by_error_map(ids(&["same", "same", "other"]));
    assert_eq!(r.ids_by_success, ids(&["same"]));
    let map = r.ids_by_error.expect("error map built");
    assert_eq!(map[0].1, ids(&["other"]));
}

#[test]
fn default_response_is_all_absent() {
    let r = GcmResponse::default();
    assert!(r.message_id.is_none());
    assert!(r.error.is_none());
    assert!(r.multicast_id.is_none());
    assert!(r.success.is_none());
    assert!(r.failure.is_none());
    assert!(r.canonical_ids.is_none());
    assert!(r.results.is_none());
    assert!(r.ids_by_error.is_none());
    assert!(r.ids_by_success.is_empty());
}
