//! Core logic for a plugin that bridges a callback-driven content-distribution
//! SDK onto a blocking request/response command and a one-shot event relay.
//!
//! The host shell owns the SDK session and pumps its callbacks; this crate
//! holds the decisions that sit between the two: payload parsing, completion
//! handling, the single-assignment result slots, the installed-item filter and
//! the install-path manifest extraction. The glue that talks to the host and
//! to the SDK lives outside the library and hands plain values in and out.
#![allow(unused_imports)]
use vstd::prelude::*;

pub mod bridge;
pub mod filesystem;
pub mod workshop;

verus! {

/// Every failure the plugin can surface, one variant per kind.
///
/// `LockError` is a poisoned session lock, `QuerySubmission` an item query the
/// SDK rejected when it was submitted, `TransportError` an asynchronous SDK
/// failure, `EmptyResult` a successful query with no record, `MalformedPayload`
/// an inbound event payload that is not an item id, and `NotFound` a missing
/// install directory.
#[derive(Debug, Clone, PartialEq, Eq)]
pub enum ErrorDetail {
    LockError,
    QuerySubmission(String),
    TransportError(String),
    EmptyResult,
    MalformedPayload,
    NotFound,
}

impl ErrorDetail {
    /// The caller-visible message for this error.
    pub open spec fn message_spec(self) -> Seq<char> {
        match self {
            ErrorDetail::LockError => "client is null"@,
            ErrorDetail::QuerySubmission(detail) => "Cannot query item: "@ + detail@,
            ErrorDetail::TransportError(detail) => detail@,
            ErrorDetail::EmptyResult => "item is null"@,
            ErrorDetail::MalformedPayload => "payload is not a number"@,
            ErrorDetail::NotFound => "Could not find hoi directory"@,
        }
    }

    /// Renders the error as the string the command surface reports.
    pub fn message(&self) -> (r: String)
        ensures
            r@ == self.message_spec(),
    {
        match self {
            ErrorDetail::LockError => String::from_str("client is null"),
            ErrorDetail::QuerySubmission(detail) => String::from_str("Cannot query item: ")
                .concat(detail.as_str()),
            ErrorDetail::TransportError(detail) => detail.clone(),
            ErrorDetail::EmptyResult => String::from_str("item is null"),
            ErrorDetail::MalformedPayload => String::from_str("payload is not a number"),
            ErrorDetail::NotFound => String::from_str("Could not find hoi directory"),
        }
    }
}

} // verus!
