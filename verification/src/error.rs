//! The error taxonomy: URL construction, transport, and deserialization
//! failures, each its own variant.

use vstd::prelude::*;

verus! {

#[verifier::external_type_specification]
#[verifier::external_body]
pub struct ExUrlParseError(url::ParseError);

#[verifier::external_type_specification]
#[verifier::external_body]
pub struct ExReqwestError(reqwest::Error);

/// Why a response body was rejected during deserialization.
#[derive(Debug)]
pub enum DeserializeError {
    /// The body is not a well-formed JSON document.
    Syntax,
    /// The document or one of its parts is not the expected JSON shape.
    WrongShape,
    /// A required field is missing; `field` names it.
    MissingField { field: Vec<u8> },
    /// A field holds the wrong kind of JSON value; `field` names it.
    WrongType { field: Vec<u8> },
    /// A numeric field's string is not a number of the target type.
    BadNumber { field: Vec<u8>, raw: Vec<u8> },
    /// A series key is not a calendar date.
    BadDate { raw: Vec<u8> },
}

/// What a client operation can fail with.
#[derive(Debug)]
pub enum AlphaVantageError {
    /// The configured base URL is not a valid URL.
    ParseError(url::ParseError),
    /// The HTTP round trip failed.
    HttpError(reqwest::Error),
    /// The response body does not deserialize into the expected shape.
    DeserializeError(DeserializeError),
}

} // verus!
