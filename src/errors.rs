//! The error taxonomy of the service and how each error is answered over HTTP.
use vstd::prelude::*;

verus! {

/// The failures that the session layer reports.
#[derive(Clone, Debug)]
pub enum AppError {
    NotFound(String),
    BadRequest(String),
    Unauthorized,
    Forbidden,
    InternalServerError,
    InternalServerErrorWithContext(String),
    Conflict(String),
    InvalidToken(String),
    PreconditionFailed(String),
}

/// The JSON body of an error response.
#[derive(Clone, Debug)]
pub struct HttpError {
    pub error: String,
}

impl HttpError {
    pub fn new(error: String) -> (r: Self)
        ensures
            r.error == error,
    {
        Self { error }
    }
}

/// The HTTP status that answers `e`.
pub open spec fn status_of(e: AppError) -> u16 {
    match e {
        AppError::NotFound(_) => 404,
        AppError::BadRequest(_) => 400,
        AppError::Unauthorized => 401,
        AppError::Forbidden => 403,
        AppError::InternalServerError => 500,
        AppError::InternalServerErrorWithContext(_) => 500,
        AppError::Conflict(_) => 409,
        AppError::InvalidToken(_) => 401,
        AppError::PreconditionFailed(_) => 412,
    }
}

/// The message shown to the client for `e`.
pub open spec fn message_of(e: AppError) -> Seq<char> {
    match e {
        AppError::NotFound(m) => m@,
        AppError::BadRequest(m) => m@,
        AppError::InternalServerErrorWithContext(m) => m@,
        AppError::Conflict(m) => m@,
        AppError::InvalidToken(m) => m@,
        AppError::PreconditionFailed(m) => m@,
        AppError::Unauthorized => "authentication is required to access this resource"@,
        AppError::Forbidden => "user does not have privilege to access this resource"@,
        AppError::InternalServerError => "unexpected error has occurred"@,
    }
}

impl AppError {
    /// The HTTP status code of the response to this error.
    pub fn status_code(&self) -> (r: u16)
        ensures
            r == status_of(*self),
    {
        match self {
            AppError::NotFound(_) => 404,
            AppError::BadRequest(_) => 400,
            AppError::Unauthorized => 401,
            AppError::Forbidden => 403,
            AppError::InternalServerError => 500,
            AppError::InternalServerErrorWithContext(_) => 500,
            AppError::Conflict(_) => 409,
            AppError::InvalidToken(_) => 401,
            AppError::PreconditionFailed(_) => 412,
        }
    }

    /// The message shown to the client: the carried text, or a fixed sentence for
    /// the errors that carry none. Nothing tells which check failed behind an
    /// `Unauthorized`.
    pub fn message(&self) -> (r: String)
        ensures
            r@ == message_of(*self),
    {
        match self {
            AppError::NotFound(m) => m.clone(),
            AppError::BadRequest(m) => m.clone(),
            AppError::InternalServerErrorWithContext(m) => m.clone(),
            AppError::Conflict(m) => m.clone(),
            AppError::InvalidToken(m) => m.clone(),
            AppError::PreconditionFailed(m) => m.clone(),
            AppError::Unauthorized => String::from_str("authentication is required to access this resource"),
            AppError::Forbidden => String::from_str("user does not have privilege to access this resource"),
            AppError::InternalServerError => String::from_str("unexpected error has occurred"),
        }
    }

    /// The body of the response to this error.
    pub fn to_http_error(&self) -> (r: HttpError)
        ensures
            r.error@ == message_of(*self),
    {
        HttpError::new(self.message())
    }
}

} // verus!
