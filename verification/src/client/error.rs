use vstd::prelude::*;
use vstd::string::*;

use crate::text::{decimal, push_decimal};

verus! {

/// The struct that describes the error response
#[derive(Debug, PartialEq)]
pub struct ApiErrorResponse {
    /// The error message
    pub message: String,
    /// The error code which is usually the same as the http status code
    pub status_code: u16,
}

impl Clone for ApiErrorResponse {
    fn clone(&self) -> (r: Self)
        ensures
            r == *self,
    {
        ApiErrorResponse { message: self.message.clone(), status_code: self.status_code }
    }
}

impl ApiErrorResponse {
    /// The text of this error, `status: message`, as its `Display` writes it
    pub fn to_string(&self) -> (r: String)
        ensures
            r@ == decimal(self.status_code as nat) + ": "@ + self.message@,
    {
        let mut s = String::new();
        push_decimal(&mut s, self.status_code as u64);
        s.append(": ");
        s.append(self.message.as_str());
        s
    }
}

/// The errors that the client returns
#[derive(Debug, PartialEq)]
pub enum ClientError {
    /// An I/O error happened
    IoError(String),
    /// Server returned an error
    ApiError(ApiErrorResponse),
    /// Unexpected status code, cannot parse the response body: the code received,
    /// then the code expected
    UnexpectedStatusCode(u16, u16),
}

/// The error that an unsuccessful answer gives: the API error that its body
/// holds, if it holds one, else the status code received and the one expected
pub open spec fn response_error(status: u16, body: Option<ApiErrorResponse>, expected: u16) -> ClientError {
    match body {
        Some(api_error) => ClientError::ApiError(api_error),
        None => ClientError::UnexpectedStatusCode(status, expected),
    }
}

/// The error for an unsuccessful answer of status `status` whose body parsed as
/// `body`, to a request that expected the status `expected`
pub fn error_from_response(status: u16, body: Option<ApiErrorResponse>, expected: u16) -> (r:
    ClientError)
    ensures
        r == response_error(status, body, expected),
{
    match body {
        Some(api_error) => ClientError::ApiError(api_error),
        None => ClientError::UnexpectedStatusCode(status, expected),
    }
}

} // verus!
