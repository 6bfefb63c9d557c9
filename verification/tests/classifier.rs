use gcm_sender::gcm_util::parse_error_status_code;
use gcm_sender::GcmError;

#[test]
fn server_error_class_is_server_error() {
    for status in [500u16, 501, 502, 503, 550, 599] {
        let r = parse_error_status_code(Some(status), "irrelevant body");
        assert_eq!(r, GcmError::ServerError);
    }
    let r = parse_error_status_code(Some(500), "");
    assert_eq!(r, GcmError::ServerError);
}

#[test]
fn status_401_is_unauthorized() {
    let r = parse_error_status_code(Some(401), "whatever");
    assert_eq!(r, GcmError::Unauthorized);
}

#[test]
fn status_400_carries_body_text() {
    let r = parse_error_status_code(Some(400), "bad request text");
    assert_eq!(r, GcmError::InvalidMessage("bad request text".to_string()));
}

#[test]
fn status_418_is_unknown_error() {
    let r = parse_error_status_code(Some(418), "anything");
    assert_eq!(r, GcmError::InvalidMessage("Unknown Error".to_string()));
}

#[test]
fn no_status_is_server_error() {
    let r = parse_error_status_code(None, "");
    assert_eq!(r, GcmError::ServerError);
}

#[test]
fn descriptions_name_the_variants() {
    assert_eq!(GcmError::Unauthorized.description(), "UnauthorizedError");
    assert_eq!(GcmError::ServerError.description(), "ServerError");
    assert_eq!(
        GcmError::InvalidMessage("x".to_string()).description(),
        "InvalidMessage"
    );
    assert_eq!(GcmError::InvalidJsonBody.description(), "InvalidJsonBody");
}
