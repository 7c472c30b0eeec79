use vstd::prelude::*;

use crate::template::DataType;

verus! {

/// Declared so that a rejected header name can be carried as a cause.
#[verifier::external_type_specification]
#[verifier::external_body]
pub struct ExInvalidHeaderName(reqwest::header::InvalidHeaderName);

/// Declared so that a rejected header value can be carried as a cause.
#[verifier::external_type_specification]
#[verifier::external_body]
pub struct ExInvalidHeaderValue(reqwest::header::InvalidHeaderValue);

/// Declared so that a transport failure can be carried as a cause.
#[verifier::external_type_specification]
#[verifier::external_body]
pub struct ExReqwestError(reqwest::Error);

/// Every way an upload can fail.
#[derive(Debug)]
pub enum UploadError {
    /// A template header name is not a valid HTTP header name.
    InvalidHeaderName(reqwest::header::InvalidHeaderName),
    /// A template header value is not a valid HTTP header value.
    InvalidHeaderValue(reqwest::header::InvalidHeaderValue),
    /// The template's body encoding has no defined behaviour.
    UnsupportedData(DataType),
    /// The request could not be sent.
    Request(reqwest::Error),
    /// The server answered with a status outside 200..=299; carries the status
    /// and the whole body.
    Response(u16, String),
    /// The response body could not be read as text.
    ParseResponse(reqwest::Error),
    /// The template's pattern does not compile.
    Regex(regex::Error),
    /// The pattern did not match the response body; carries the pattern text.
    RegexNotFound(String),
}

impl UploadError {
    /// A one-line description of this error, without its cause.
    pub fn message(&self) -> (r: String)
        ensures
            self is InvalidHeaderName ==> r@ == "Invalid header name"@,
            self is InvalidHeaderValue ==> r@ == "Invalid header value"@,
            self is UnsupportedData ==> r@ == "Unsupported data type"@,
            self is Request ==> r@ == "Failed to send request"@,
            self is Response ==> r@ == "Received an error status from server"@,
            self is ParseResponse ==> r@ == "Failed to parse response"@,
            self is Regex ==> r@ == "Failed to parse regex"@,
            self is RegexNotFound ==> r@ == "Regex failed to capture anything"@,
    {
        match self {
            UploadError::InvalidHeaderName(_) => String::from_str("Invalid header name"),
            UploadError::InvalidHeaderValue(_) => String::from_str("Invalid header value"),
            UploadError::UnsupportedData(_) => String::from_str("Unsupported data type"),
            UploadError::Request(_) => String::from_str("Failed to send request"),
            UploadError::Response(_, _) => String::from_str("Received an error status from server"),
            UploadError::ParseResponse(_) => String::from_str("Failed to parse response"),
            UploadError::Regex(_) => String::from_str("Failed to parse regex"),
            UploadError::RegexNotFound(_) => String::from_str("Regex failed to capture anything"),
        }
    }
}

} // verus!
