//! The errors of the API and how each of them is answered.
//!
//! The handlers return errors and know nothing of status codes. What a client gets to see of an
//! error is decided here: a status, a body of one and the same shape, and for a refusal by the
//! rate limiter the time to wait.

use vstd::prelude::*;

use crate::domain::RepoError;
use crate::text::{decimal, to_decimal};
use crate::time::{Duration, NANOS_PER_SEC};

verus! {

/// `201 Created`.
pub const CREATED: u16 = 201;

/// `204 No Content`.
pub const NO_CONTENT: u16 = 204;

/// `307 Temporary Redirect`.
pub const TEMPORARY_REDIRECT: u16 = 307;

/// `404 Not Found`.
pub const NOT_FOUND: u16 = 404;

/// `409 Conflict`.
pub const CONFLICT: u16 = 409;

/// `413 Payload Too Large`.
pub const PAYLOAD_TOO_LARGE: u16 = 413;

/// `415 Unsupported Media Type`.
pub const UNSUPPORTED_MEDIA_TYPE: u16 = 415;

/// `422 Unprocessable Entity`.
pub const UNPROCESSABLE_ENTITY: u16 = 422;

/// `429 Too Many Requests`.
pub const TOO_MANY_REQUESTS: u16 = 429;

/// `500 Internal Server Error`.
pub const INTERNAL_SERVER_ERROR: u16 = 500;

/// Why a request was not served.
#[derive(Debug)]
pub enum AppError {
    /// There is no such resource.
    NotFound,
    /// The code of the link belongs to another one.
    CodeTaken,
    /// The client has created too many links; it may try again after `retry_after`.
    RateLimited { retry_after: Duration },
    /// The request is well-formed and makes no sense.
    Validation(String),
    /// The body could not be read; `status` says in what way.
    InvalidBody { status: u16, message: String },
    /// Anything unforeseen. The details are for the log only.
    Internal(String),
}

/// An error as a value.
pub ghost enum ErrorView {
    NotFound,
    CodeTaken,
    RateLimited { retry_after: nat },
    Validation(Seq<char>),
    InvalidBody { status: u16, message: Seq<char> },
    Internal(Seq<char>),
}

impl View for AppError {
    type V = ErrorView;

    open spec fn view(&self) -> ErrorView {
        match *self {
            AppError::NotFound => ErrorView::NotFound,
            AppError::CodeTaken => ErrorView::CodeTaken,
            AppError::RateLimited { retry_after } => ErrorView::RateLimited {
                retry_after: retry_after@,
            },
            AppError::Validation(message) => ErrorView::Validation(message@),
            AppError::InvalidBody { status, message } => ErrorView::InvalidBody {
                status,
                message: message@,
            },
            AppError::Internal(details) => ErrorView::Internal(details@),
        }
    }
}

/// The body of every error answer.
#[derive(Debug)]
pub struct ErrorBody {
    /// What went wrong, for programs.
    pub code: String,
    /// What went wrong, for people.
    pub message: String,
    /// Under which id the request stands in the log.
    pub request_id: Option<String>,
}

/// The answer to a request that was not served.
#[derive(Debug)]
pub struct ErrorResponse {
    pub status: u16,
    /// The value of `Retry-After`, where the answer has that header.
    pub retry_after: Option<String>,
    pub body: ErrorBody,
}

impl ErrorResponse {
    /// Whether this is the answer to `error` for the request logged under `request_id`.
    pub open spec fn answers(self, error: ErrorView, request_id: Option<String>) -> bool {
        &&& self.status == error.status()
        &&& self.body.code@ == error.code()
        &&& self.body.message@ == error.message()
        &&& self.body.request_id == request_id
        &&& match self.retry_after {
            Some(value) => error.retry_after() == Some(value@),
            None => error.retry_after() is None,
        }
    }
}

impl ErrorView {
    /// The status of the answer.
    pub open spec fn status(self) -> u16 {
        match self {
            ErrorView::NotFound => NOT_FOUND,
            ErrorView::CodeTaken => CONFLICT,
            ErrorView::RateLimited { .. } => TOO_MANY_REQUESTS,
            ErrorView::Validation(_) => UNPROCESSABLE_ENTITY,
            ErrorView::InvalidBody { status, .. } => status,
            ErrorView::Internal(_) => INTERNAL_SERVER_ERROR,
        }
    }

    /// The word for the error in the body.
    pub open spec fn code(self) -> Seq<char> {
        match self {
            ErrorView::NotFound => "not_found"@,
            ErrorView::CodeTaken => "code_taken"@,
            ErrorView::RateLimited { .. } => "rate_limited"@,
            ErrorView::Validation(_) => "validation_error"@,
            ErrorView::InvalidBody { status, .. } => if status == PAYLOAD_TOO_LARGE {
                "payload_too_large"@
            } else if status == UNSUPPORTED_MEDIA_TYPE {
                "unsupported_media_type"@
            } else if status == UNPROCESSABLE_ENTITY {
                "validation_error"@
            } else {
                "bad_request"@
            },
            ErrorView::Internal(_) => "internal"@,
        }
    }

    /// The sentence for the error in the body.
    pub open spec fn message(self) -> Seq<char> {
        match self {
            ErrorView::NotFound => "resource not found"@,
            ErrorView::CodeTaken => "code is already taken"@,
            ErrorView::RateLimited { .. } => "rate limit exceeded, retry later"@,
            ErrorView::Validation(message) => message,
            ErrorView::InvalidBody { message, .. } => message,
            ErrorView::Internal(_) => "internal error"@,
        }
    }

    /// The value of `Retry-After`: the whole seconds to wait, one at least.
    pub open spec fn retry_after(self) -> Option<Seq<char>> {
        match self {
            ErrorView::RateLimited { retry_after } => {
                let secs = retry_after / (NANOS_PER_SEC as nat);
                Some(
                    decimal(
                        if secs >= 1 {
                            secs
                        } else {
                            1
                        },
                    ),
                )
            },
            _ => None,
        }
    }
}

impl AppError {
    /// The status of the answer.
    pub fn status(&self) -> (status: u16)
        ensures
            status == self@.status(),
    {
        match self {
            AppError::NotFound => NOT_FOUND,
            AppError::CodeTaken => CONFLICT,
            AppError::RateLimited { .. } => TOO_MANY_REQUESTS,
            AppError::Validation(_) => UNPROCESSABLE_ENTITY,
            AppError::InvalidBody { status, .. } => *status,
            AppError::Internal(_) => INTERNAL_SERVER_ERROR,
        }
    }

    /// The word for the error in the body.
    pub fn code(&self) -> (code: &'static str)
        ensures
            code@ == self@.code(),
    {
        match self {
            AppError::NotFound => "not_found",
            AppError::CodeTaken => "code_taken",
            AppError::RateLimited { .. } => "rate_limited",
            AppError::Validation(_) => "validation_error",
            AppError::InvalidBody { status, .. } => if *status == PAYLOAD_TOO_LARGE {
                "payload_too_large"
            } else if *status == UNSUPPORTED_MEDIA_TYPE {
                "unsupported_media_type"
            } else if *status == UNPROCESSABLE_ENTITY {
                "validation_error"
            } else {
                "bad_request"
            },
            AppError::Internal(_) => "internal",
        }
    }

    /// The sentence for the error in the body. It tells nothing of an internal error.
    pub fn message(&self) -> (message: String)
        ensures
            message@ == self@.message(),
    {
        match self {
            AppError::NotFound => "resource not found".to_owned(),
            AppError::CodeTaken => "code is already taken".to_owned(),
            AppError::RateLimited { .. } => "rate limit exceeded, retry later".to_owned(),
            AppError::Validation(message) => message.clone(),
            AppError::InvalidBody { message, .. } => message.clone(),
            AppError::Internal(_) => "internal error".to_owned(),
        }
    }

    /// The answer to the request that is logged under `request_id`.
    pub fn into_response(self, request_id: Option<String>) -> (response: ErrorResponse)
        ensures
            response.answers(self@, request_id),
    {
        let retry_after = match &self {
            AppError::RateLimited { retry_after } => {
                let secs = retry_after.as_secs();
                Some(
                    to_decimal(
                        if secs >= 1 {
                            secs
                        } else {
                            1
                        },
                    ),
                )
            },
            _ => None,
        };
        ErrorResponse {
            status: self.status(),
            retry_after,
            body: ErrorBody {
                code: self.code().to_owned(),
                message: self.message(),
                request_id,
            },
        }
    }
}

impl From<RepoError> for AppError {
    fn from(err: RepoError) -> (error: Self) {
        match err {
            RepoError::NotFound(_) => AppError::NotFound,
            RepoError::CodeTaken(_) => AppError::CodeTaken,
        }
    }
}

impl vstd::std_specs::convert::FromSpecImpl<RepoError> for AppError {
    open spec fn obeys_from_spec() -> bool {
        true
    }

    open spec fn from_spec(err: RepoError) -> Self {
        match err {
            RepoError::NotFound(_) => AppError::NotFound,
            RepoError::CodeTaken(_) => AppError::CodeTaken,
        }
    }
}

/// The error that a repository's refusal amounts to.
pub open spec fn refusal(err: RepoError) -> ErrorView {
    match err {
        RepoError::NotFound(_) => ErrorView::NotFound,
        RepoError::CodeTaken(_) => ErrorView::CodeTaken,
    }
}

/// What the reader of a JSON body has to say of one that it rejects.
#[derive(Debug)]
pub struct BodyRejection {
    pub status: u16,
    pub message: String,
}

/// A value that was read from a JSON body.
#[derive(Debug)]
pub struct AppJson<T>(pub T);

impl<T> AppJson<T> {
    /// Whether `value` is right for a body that was read as `read`.
    pub open spec fn is_taken(
        read: Result<T, BodyRejection>,
        value: Result<AppJson<T>, AppError>,
    ) -> bool {
        match read {
            Ok(v) => value == Ok::<AppJson<T>, AppError>(AppJson(v)),
            Err(rejection) => value matches Err(e) && e@ == (ErrorView::InvalidBody {
                status: rejection.status,
                message: rejection.message@,
            }),
        }
    }

    /// Takes the value that was read, or turns the rejection into an error of the API.
    pub fn from_request(read: Result<T, BodyRejection>) -> (value: Result<AppJson<T>, AppError>)
        ensures
            AppJson::is_taken(read, value),
    {
        match read {
            Ok(v) => Ok(AppJson(v)),
            Err(rejection) => Err(
                AppError::InvalidBody { status: rejection.status, message: rejection.message },
            ),
        }
    }
}

} // verus!
