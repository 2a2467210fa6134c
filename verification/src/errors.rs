//! Errors of the HTTP service: how an error message is classified and how
//! each class is answered.

use vstd::prelude::*;

use crate::text::{seq_contains, str_contains};

verus! {

/// An error of a request, with the message that is sent back.
#[derive(Debug)]
pub enum AppError {
    BadRequest(String),
    NotFound(String),
    BadGateway(String),
    GatewayTimeout(String),
    Internal(String),
}

/// The body of an error answer.
#[derive(Debug)]
pub struct ErrorResponse {
    pub error: String,
}

/// The message an error carries.
pub open spec fn app_error_message(e: AppError) -> Seq<char> {
    match e {
        AppError::BadRequest(m) => m@,
        AppError::NotFound(m) => m@,
        AppError::BadGateway(m) => m@,
        AppError::GatewayTimeout(m) => m@,
        AppError::Internal(m) => m@,
    }
}

/// The HTTP status code that answers an error.
pub open spec fn app_error_status(e: AppError) -> u16 {
    match e {
        AppError::BadRequest(_) => 400,
        AppError::NotFound(_) => 404,
        AppError::BadGateway(_) => 502,
        AppError::GatewayTimeout(_) => 504,
        AppError::Internal(_) => 500,
    }
}

/// The message tells of a timeout.
pub open spec fn is_timeout_message(m: Seq<char>) -> bool {
    seq_contains(m, "timeout"@) || seq_contains(m, "timed out"@)
}

/// The message tells of a name resolution or connection failure.
pub open spec fn is_unreachable_message(m: Seq<char>) -> bool {
    seq_contains(m, "resolve"@) || seq_contains(m, "connect"@) || seq_contains(m, "dns"@)
}

/// The message tells of a malformed request (a selector or something that
/// did not parse).
pub open spec fn is_bad_request_message(m: Seq<char>) -> bool {
    seq_contains(m, "selector"@) || seq_contains(m, "parse"@)
}

/// The status that a message is classified under; the first matching class
/// wins, in the order timeout, unreachable, bad request.
pub open spec fn classified_status(m: Seq<char>) -> u16 {
    if is_timeout_message(m) {
        504
    } else if is_unreachable_message(m) {
        502
    } else if is_bad_request_message(m) {
        400
    } else {
        500
    }
}

impl AppError {
    /// Classifies an error by the words in its message (case-sensitive).
    pub fn from_message(msg: String) -> (r: AppError)
        ensures
            app_error_status(r) == classified_status(msg@),
            app_error_message(r) == msg@,
    {
        let m = msg.as_str();
        if str_contains(m, "timeout") || str_contains(m, "timed out") {
            AppError::GatewayTimeout(msg)
        } else if str_contains(m, "resolve") || str_contains(m, "connect") || str_contains(
            m,
            "dns",
        ) {
            AppError::BadGateway(msg)
        } else if str_contains(m, "selector") || str_contains(m, "parse") {
            AppError::BadRequest(msg)
        } else {
            AppError::Internal(msg)
        }
    }

    /// The HTTP status code that answers this error.
    pub fn status_code(&self) -> (r: u16)
        ensures
            r == app_error_status(*self),
    {
        match self {
            AppError::BadRequest(_) => 400,
            AppError::NotFound(_) => 404,
            AppError::BadGateway(_) => 502,
            AppError::GatewayTimeout(_) => 504,
            AppError::Internal(_) => 500,
        }
    }

    /// The answer to this error: its status code and a body carrying its
    /// message.
    pub fn into_response(self) -> (r: (u16, ErrorResponse))
        ensures
            r.0 == app_error_status(self),
            r.1.error@ == app_error_message(self),
    {
        let status = self.status_code();
        let message = match self {
            AppError::BadRequest(m) => m,
            AppError::NotFound(m) => m,
            AppError::BadGateway(m) => m,
            AppError::GatewayTimeout(m) => m,
            AppError::Internal(m) => m,
        };
        (status, ErrorResponse { error: message })
    }
}

/// An error built from a message is answered with the status its words
/// select and with that very message; such an error is never a 404.
pub proof fn lemma_classified_answer(e: AppError, m: Seq<char>)
    requires
        app_error_status(e) == classified_status(m),
        app_error_message(e) == m,
    ensures
        !(e is NotFound),
        app_error_status(e) == 504 <==> is_timeout_message(m),
        app_error_status(e) == 502 <==> (!is_timeout_message(m) && is_unreachable_message(m)),
        app_error_status(e) == 400 <==> (!is_timeout_message(m) && !is_unreachable_message(m)
            && is_bad_request_message(m)),
        app_error_status(e) == 500 <==> (!is_timeout_message(m) && !is_unreachable_message(m)
            && !is_bad_request_message(m)),
{
}

/// How a message's words decide its status: a message with `timeout` or
/// `timed out` in it is a gateway timeout (504) whatever else it says;
/// otherwise `resolve`, `connect` or `dns` make it a bad gateway (502);
/// otherwise `selector` or `parse` make it a bad request (400); any other
/// message is an internal error (500).
pub proof fn lemma_status_follows_words(m: Seq<char>)
    ensures
        seq_contains(m, "timeout"@) ==> classified_status(m) == 504,
        seq_contains(m, "timed out"@) ==> classified_status(m) == 504,
        !seq_contains(m, "timeout"@) && !seq_contains(m, "timed out"@) && (seq_contains(
            m,
            "resolve"@,
        ) || seq_contains(m, "connect"@) || seq_contains(m, "dns"@)) ==> classified_status(m)
            == 502,
        !seq_contains(m, "timeout"@) && !seq_contains(m, "timed out"@) && !seq_contains(
            m,
            "resolve"@,
        ) && !seq_contains(m, "connect"@) && !seq_contains(m, "dns"@) && (seq_contains(
            m,
            "selector"@,
        ) || seq_contains(m, "parse"@)) ==> classified_status(m) == 400,
        !seq_contains(m, "timeout"@) && !seq_contains(m, "timed out"@) && !seq_contains(
            m,
            "resolve"@,
        ) && !seq_contains(m, "connect"@) && !seq_contains(m, "dns"@) && !seq_contains(
            m,
            "selector"@,
        ) && !seq_contains(m, "parse"@) ==> classified_status(m) == 500,
{
}

/// The error built from a message carries the message and is answered with
/// the status its words decide (see `lemma_status_follows_words`): the
/// status code of each class.
pub proof fn lemma_classes_and_codes(e: AppError)
    ensures
        app_error_status(e) == 504 <==> e is GatewayTimeout,
        app_error_status(e) == 502 <==> e is BadGateway,
        app_error_status(e) == 400 <==> e is BadRequest,
        app_error_status(e) == 404 <==> e is NotFound,
        app_error_status(e) == 500 <==> e is Internal,
{
}

} // verus!
