//! Batched push-notification client core: payload serialization, HTTP status
//! classification, response-body decoding, and positional reconciliation of
//! per-recipient results against the recipient list.
//!
//! The network transport itself lives outside this crate; everything here is a
//! pure function from the transport's observable outcome (status code and body
//! text) to a typed response or a domain error.

pub mod gcm_util;
pub mod json;
pub mod message;
pub mod pipeline;
pub mod response;

pub use message::Message;
pub use response::{GcmError, GcmResponse, MessageResult};
