//! The vocabulary shared by the upstream gateways: translation styles and the
//! kinds of failure.

use vstd::prelude::*;
use vstd::string::*;

verus! {

/// The voice a description is translated into.
#[derive(Debug, Clone, Copy, PartialEq, Eq, Structural)]
pub enum TranslatorType {
    Shakespeare,
    Yoda,
}

impl TranslatorType {
    /// The style's name as the translation service spells it in its paths.
    pub open spec fn label(self) -> Seq<char> {
        match self {
            TranslatorType::Shakespeare => "shakespeare"@,
            TranslatorType::Yoda => "yoda"@,
        }
    }

    /// The style's name as the translation service spells it in its paths.
    pub fn as_str(&self) -> (r: &'static str)
        ensures
            r@ == self.label(),
    {
        match self {
            TranslatorType::Shakespeare => "shakespeare",
            TranslatorType::Yoda => "yoda",
        }
    }

    /// The style's name, owned.
    pub fn to_string(&self) -> (r: String)
        ensures
            r@ == self.label(),
    {
        self.as_str().to_owned()
    }
}

/// Why a request to an upstream service, or the negotiation that follows it,
/// did not yield a result.
#[derive(Debug, Clone, Copy, PartialEq, Eq, Structural)]
pub enum HttpClientError {
    /// Descriptions exist, but none in a language the client accepts.
    NotAcceptable,
    /// The resource does not exist, or has no description at all.
    NotFound,
    /// The upstream service is throttling.
    RateLimited,
    /// The request never got an answer.
    RequestFailed,
    /// The answer could not be understood.
    ParseError,
    /// The upstream service is down.
    ServiceUnavailable,
    /// The upstream service failed on its side.
    ServerError,
}

impl HttpClientError {
    /// The kind, in words.
    pub open spec fn message(self) -> Seq<char> {
        match self {
            HttpClientError::NotAcceptable => "not acceptable"@,
            HttpClientError::NotFound => "resource not found"@,
            HttpClientError::RateLimited => "rate limited by the server"@,
            HttpClientError::RequestFailed => "request failed"@,
            HttpClientError::ParseError => "failed to parse response"@,
            HttpClientError::ServiceUnavailable => "service unavailable"@,
            HttpClientError::ServerError => "internal server error"@,
        }
    }

    /// The kind, in words.
    pub fn to_string(&self) -> (r: String)
        ensures
            r@ == self.message(),
    {
        match self {
            HttpClientError::NotAcceptable => "not acceptable".to_owned(),
            HttpClientError::NotFound => "resource not found".to_owned(),
            HttpClientError::RateLimited => "rate limited by the server".to_owned(),
            HttpClientError::RequestFailed => "request failed".to_owned(),
            HttpClientError::ParseError => "failed to parse response".to_owned(),
            HttpClientError::ServiceUnavailable => "service unavailable".to_owned(),
            HttpClientError::ServerError => "internal server error".to_owned(),
        }
    }
}

/// What came of one request to an upstream service.
#[derive(Debug)]
pub enum Exchange<T> {
    /// The request failed before any answer arrived.
    Unanswered,
    /// An answer arrived, with its status code and, where the body could be
    /// decoded, what it held.
    Answered { status: u16, body: Option<T> },
}

/// Whether `status` reports success.
pub open spec fn is_success(status: u16) -> bool {
    200 <= status <= 299
}

} // verus!
