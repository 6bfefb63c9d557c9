//! The shared send pipeline: classify the transport outcome, decode a
//! successful body, and, when configured, reconcile the per-recipient results
//! against the recipient list. Both execution modes — the blocking sender and
//! the deferred-chain sender — drive this same pure core, so for equal
//! transport outcomes they return equal results.

use vstd::prelude::*;

use crate::gcm_util::{parse_error_status, spec_classify_status};
use crate::json::{from_body, spec_parse_response, ResponseModel};
use crate::response::{
    assoc_map, spec_error_map, spec_success_set, str_set, ErrorModel, GcmError, GcmResponse,
};

verus! {

/// What one transport attempt observably did: no connection at all, a
/// connection whose response body could not be read, or a status code with
/// the body text.
#[derive(Debug, Clone, PartialEq)]
pub enum TransportOutcome {
    ConnectionFailed,
    BodyReadFailed,
    Received { status: u16, body: String },
}

/// The mathematical image of a [`TransportOutcome`].
pub enum OutcomeModel {
    ConnectionFailed,
    BodyReadFailed,
    Received(u16, Seq<char>),
}

impl TransportOutcome {
    /// The mathematical value of this outcome.
    pub open spec fn model(&self) -> OutcomeModel {
        match self {
            TransportOutcome::ConnectionFailed => OutcomeModel::ConnectionFailed,
            TransportOutcome::BodyReadFailed => OutcomeModel::BodyReadFailed,
            TransportOutcome::Received { status, body } => OutcomeModel::Received(*status, body@),
        }
    }
}

/// The pipeline's verdict on a status code and body: 200 decodes the body —
/// a malformed one is `InvalidJsonBody` — and every other status classifies
/// per the error taxonomy.
pub open spec fn spec_status_result(status: u16, body: Seq<char>) -> Result<
    ResponseModel,
    ErrorModel,
> {
    if status == 200 {
        match spec_parse_response(body) {
            Some(m) => Ok(m),
            None => Err(ErrorModel::InvalidJsonBody),
        }
    } else {
        Err(spec_classify_status(status, body))
    }
}

/// The pipeline's verdict on a whole transport outcome: a connection that
/// yields no status is an opaque backend error, and so is a response whose
/// body cannot be read after the status arrived.
pub open spec fn spec_outcome_result(o: OutcomeModel) -> Result<ResponseModel, ErrorModel> {
    match o {
        OutcomeModel::ConnectionFailed => Err(ErrorModel::ServerError),
        OutcomeModel::BodyReadFailed => Err(ErrorModel::ServerError),
        OutcomeModel::Received(status, body) => spec_status_result(status, body),
    }
}

/// What the derived maps of a returned response must hold: reconciled
/// against `ids` exactly when the reconciliation is configured on, the
/// response indicates a failure with results present, and the recipient list
/// covers the results positionally; empty otherwise.
pub open spec fn derived_maps_correct(resp: GcmResponse, ids: Seq<String>, build: bool) -> bool {
    if build && resp.reconcile_applies() && ids.len() >= resp.results->0@.len() {
        &&& resp.ids_by_error matches Some(m) && assoc_map(m@) == spec_error_map(
            resp.results->0@,
            ids,
        )
        &&& str_set(resp.ids_by_success@) == spec_success_set(resp.results->0@, ids)
    } else {
        &&& resp.ids_by_error is None
        &&& resp.ids_by_success@.len() == 0
    }
}

/// Handle a response that arrived with `status` and `body`: decode on 200,
/// classify otherwise, and reconcile the decoded response against `reg_ids`
/// when `build_ids_by_error` is set.
pub fn parse_gcm_result(status: u16, body: &str, reg_ids: Vec<String>, build_ids_by_error: bool) -> (r:
    Result<GcmResponse, GcmError>)
    ensures
        match spec_status_result(status, body@) {
            Err(e) => r matches Err(err) && err.model() == e,
            Ok(m) => r matches Ok(resp) && resp.model() == m && resp.wf() && derived_maps_correct(
                resp,
                reg_ids@,
                build_ids_by_error,
            ),
        },
{
    if status == 200 {
        match from_body(body) {
            Err(e) => Err(e),
            Ok(mut resp) => {
                let ghost decoded = resp;
                if build_ids_by_error {
                    let len_ok: bool = match &resp.results {
                        Some(rs) => reg_ids.len() >= rs.len(),
                        None => true,
                    };
                    if len_ok {
                        let ghost ids = reg_ids@;
                        resp.build_reg_ids_by_error_map(reg_ids);
                        proof {
                            if decoded.reconcile_applies() {
                                assert(str_set(decoded.ids_by_success@) =~= Set::<
                                    Seq<char>,
                                >::empty());
                                assert(str_set(decoded.ids_by_success@) + spec_success_set(
                                    decoded.results->0@,
                                    ids,
                                ) =~= spec_success_set(decoded.results->0@, ids));
                            }
                        }
                    }
                }
                Ok(resp)
            },
        }
    } else {
        Err(parse_error_status(status, body))
    }
}

/// Drive the pipeline from a transport outcome, per [`spec_outcome_result`]:
/// the single pure core both the blocking and the deferred execution mode
/// call once the transport has done its work.
pub fn process_outcome(
    outcome: &TransportOutcome,
    reg_ids: Vec<String>,
    build_ids_by_error: bool,
) -> (r: Result<GcmResponse, GcmError>)
    ensures
        match spec_outcome_result(outcome.model()) {
            Err(e) => r matches Err(err) && err.model() == e,
            Ok(m) => r matches Ok(resp) && resp.model() == m && resp.wf() && derived_maps_correct(
                resp,
                reg_ids@,
                build_ids_by_error,
            ),
        },
{
    match outcome {
        TransportOutcome::ConnectionFailed => Err(GcmError::ServerError),
        TransportOutcome::BodyReadFailed => Err(GcmError::ServerError),
        TransportOutcome::Received { status, body } => parse_gcm_result(
            *status,
            body.as_str(),
            reg_ids,
            build_ids_by_error,
        ),
    }
}

/// Both senders, the blocking one and the deferred one, drive one pure
/// verdict function, so two send attempts whose transport outcomes are equal
/// cannot end differently.
pub proof fn lemma_pipeline_variants_agree(o1: OutcomeModel, o2: OutcomeModel)
    requires
        o1 == o2,
    ensures
        spec_outcome_result(o1) == spec_outcome_result(o2),
{
}

} // verus!
