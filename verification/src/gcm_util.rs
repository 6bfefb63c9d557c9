//! HTTP-status-to-domain-error classification: every transport outcome that is
//! not a success maps to exactly one [`GcmError`].

use vstd::prelude::*;

use crate::response::{ErrorModel, GcmError};

pub use crate::message::to_json;

verus! {

/// The classification of a status code that was obtained: the whole server
/// error class maps to `ServerError`; 401 and 400 are the two individually
/// mapped codes; everything else is an invalid message with a fixed detail.
pub open spec fn spec_classify_status(status: u16, body: Seq<char>) -> ErrorModel {
    if 500 <= status <= 599 {
        ErrorModel::ServerError
    } else if status == 401 {
        ErrorModel::Unauthorized
    } else if status == 400 {
        ErrorModel::InvalidMessage(body)
    } else {
        ErrorModel::InvalidMessage("Unknown Error"@)
    }
}

/// The classification of a transport attempt: no status at all (connection
/// failure) is an opaque backend error; otherwise the status decides.
pub open spec fn spec_classify(status: Option<u16>, body: Seq<char>) -> ErrorModel {
    match status {
        None => ErrorModel::ServerError,
        Some(s) => spec_classify_status(s, body),
    }
}

/// Classify the outcome of a transport attempt that did not succeed. `body`
/// is the response body text, read only for the 400 case, where it is carried
/// verbatim as the error detail.
pub fn parse_error_status_code(http_status_option: Option<u16>, body: &str) -> (r: GcmError)
    ensures
        r.model() == spec_classify(http_status_option, body@),
{
    match http_status_option {
        None => GcmError::ServerError,
        Some(status) => parse_error_status(status, body),
    }
}

/// Classify an HTTP status code that was obtained, per [`spec_classify_status`].
pub fn parse_error_status(http_status: u16, body: &str) -> (r: GcmError)
    ensures
        r.model() == spec_classify_status(http_status, body@),
{
    if 500 <= http_status && http_status <= 599 {
        GcmError::ServerError
    } else if http_status == 401 {
        GcmError::Unauthorized
    } else if http_status == 400 {
        GcmError::InvalidMessage(body.to_owned())
    } else {
        GcmError::InvalidMessage("Unknown Error".to_owned())
    }
}

/// Every status code in the server-error class classifies to `ServerError`,
/// whatever the body holds.
pub proof fn lemma_server_error_class(status: u16, body: Seq<char>)
    requires
        500 <= status <= 599,
    ensures
        spec_classify(Some(status), body) == ErrorModel::ServerError,
{
}

/// A transport attempt that yields no status at all classifies to
/// `ServerError`, whatever the body holds.
pub proof fn lemma_no_status_is_server_error(body: Seq<char>)
    ensures
        spec_classify(None, body) == ErrorModel::ServerError,
{
}

} // verus!
