//! The answers the service gives, and the status code each one carries.

use vstd::prelude::*;
use vstd::std_specs::convert::FromSpecImpl;
use crate::http::client::HttpClientError;

verus! {

/// An answer to a client: a body in some language, or a bare failure.
#[derive(Debug)]
pub enum HttpResponse<T> {
    /// The body, and the language it is written in.
    Success(String, T),
    NotFound,
    NotAcceptable,
    InternalError,
    ServiceUnavailable,
}

/// The failure that answers for each error kind.
pub open spec fn failure_of<T>(error: HttpClientError) -> HttpResponse<T> {
    match error {
        HttpClientError::NotFound => HttpResponse::NotFound,
        HttpClientError::NotAcceptable => HttpResponse::NotAcceptable,
        HttpClientError::ServiceUnavailable => HttpResponse::ServiceUnavailable,
        HttpClientError::RateLimited => HttpResponse::InternalError,
        HttpClientError::RequestFailed => HttpResponse::InternalError,
        HttpClientError::ParseError => HttpResponse::InternalError,
        HttpClientError::ServerError => HttpResponse::InternalError,
    }
}

/// The status code that answers for each error kind.
pub open spec fn status_of_error(error: HttpClientError) -> u16 {
    match error {
        HttpClientError::NotFound => 404,
        HttpClientError::NotAcceptable => 406,
        HttpClientError::ServiceUnavailable => 503,
        HttpClientError::RateLimited => 500,
        HttpClientError::RequestFailed => 500,
        HttpClientError::ParseError => 500,
        HttpClientError::ServerError => 500,
    }
}

impl<T> HttpResponse<T> {
    /// The status code the answer carries.
    pub open spec fn status(&self) -> u16 {
        match self {
            HttpResponse::Success(_, _) => 200,
            HttpResponse::NotFound => 404,
            HttpResponse::NotAcceptable => 406,
            HttpResponse::InternalError => 500,
            HttpResponse::ServiceUnavailable => 503,
        }
    }

    /// The status code the answer carries.
    pub fn status_code(&self) -> (code: u16)
        ensures
            code == self.status(),
    {
        match self {
            HttpResponse::Success(_, _) => 200,
            HttpResponse::NotFound => 404,
            HttpResponse::NotAcceptable => 406,
            HttpResponse::InternalError => 500,
            HttpResponse::ServiceUnavailable => 503,
        }
    }
}

impl<T> From<HttpClientError> for HttpResponse<T> {
    fn from(error: HttpClientError) -> (response: Self) {
        match error {
            HttpClientError::NotFound => HttpResponse::NotFound,
            HttpClientError::NotAcceptable => HttpResponse::NotAcceptable,
            HttpClientError::ServiceUnavailable => HttpResponse::ServiceUnavailable,
            HttpClientError::RateLimited => HttpResponse::InternalError,
            HttpClientError::RequestFailed => HttpResponse::InternalError,
            HttpClientError::ParseError => HttpResponse::InternalError,
            HttpClientError::ServerError => HttpResponse::InternalError,
        }
    }
}

impl<T> FromSpecImpl<HttpClientError> for HttpResponse<T> {
    open spec fn obeys_from_spec() -> bool {
        true
    }

    open spec fn from_spec(error: HttpClientError) -> Self {
        failure_of(error)
    }
}

/// Every error kind is answered with one status code, the one its failure
/// carries: 404 where nothing was found, 406 where no language fits, 503
/// where the upstream service is down, and 500 for everything else.
pub proof fn each_error_has_one_status<T>(error: HttpClientError)
    ensures
        failure_of::<T>(error).status() == status_of_error(error),
        !(failure_of::<T>(error) is Success),
        error == HttpClientError::NotFound <==> status_of_error(error) == 404,
        error == HttpClientError::NotAcceptable <==> status_of_error(error) == 406,
        error == HttpClientError::ServiceUnavailable <==> status_of_error(error) == 503,
        status_of_error(error) == 404 || status_of_error(error) == 406 || status_of_error(error)
            == 503 || status_of_error(error) == 500,
{
}

} // verus!
