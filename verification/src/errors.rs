//! The failure taxonomy of the resolver.
//!
//! Transport failures and structural failures are distinct, inspectable
//! errors; a legitimate "not found" outcome is never an error but an empty
//! option at every layer.

use vstd::prelude::*;

verus! {

#[verifier::external_type_specification]
#[verifier::external_body]
pub struct ExReqwestError(reqwest::Error);

#[verifier::external_type_specification]
#[verifier::external_body]
pub struct ExSerdeJsonError(serde_json::Error);

/// An error while resolving or extracting book metadata.
#[derive(Debug)]
pub enum ScraperError {
    /// The HTTP transport could not retrieve a page.
    FetchError(reqwest::Error),
    /// The HTML document could not be parsed or selected over.
    ParseError(String),
    /// Expected content was missing from an otherwise successful response:
    /// the page shape has likely changed.
    ScrapeError(String),
    /// The embedded JSON document could not be deserialized.
    SerializeError(serde_json::Error),
}

impl From<reqwest::Error> for ScraperError {
    fn from(error: reqwest::Error) -> (r: Self) {
        ScraperError::FetchError(error)
    }
}

impl vstd::std_specs::convert::FromSpecImpl<reqwest::Error> for ScraperError {
    open spec fn obeys_from_spec() -> bool {
        true
    }

    open spec fn from_spec(error: reqwest::Error) -> Self {
        ScraperError::FetchError(error)
    }
}

impl From<serde_json::Error> for ScraperError {
    fn from(error: serde_json::Error) -> (r: Self) {
        ScraperError::SerializeError(error)
    }
}

impl vstd::std_specs::convert::FromSpecImpl<serde_json::Error> for ScraperError {
    open spec fn obeys_from_spec() -> bool {
        true
    }

    open spec fn from_spec(error: serde_json::Error) -> Self {
        ScraperError::SerializeError(error)
    }
}

} // verus!
