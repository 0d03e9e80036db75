//! Errors reported by the client.
use vstd::prelude::*;

verus! {

/// The HTTP client's error: a request that could not be sent or answered.
#[verifier::external_type_specification]
#[verifier::external_body]
pub struct ExReqwestError(reqwest::Error);

/// The JSON decoder's error: a body that does not have the expected shape.
#[verifier::external_type_specification]
#[verifier::external_body]
pub struct ExJsonError(serde_json::Error);

/// Everything that can go wrong while talking to the server.
#[derive(Debug)]
pub enum CanvasError {
    /// A response body could not be decoded into the requested type.
    ParseJSON(serde_json::Error),
    /// The request could not be sent, or the server answered with a failure.
    Reqwest(reqwest::Error),
    /// A `Link` header was present but did not follow the expected grammar.
    Pagination,
    /// The API token holds characters that cannot stand in an HTTP header.
    InvalidToken,
}

} // verus!
