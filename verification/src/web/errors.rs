//! The failures that a handler can answer with.

use vstd::prelude::*;

verus! {

/// A failure of the application.
pub enum AppError {
    BadRequest,
    UserNotFound,
    InternalError,
}

/// The status number that `error` is answered with.
pub open spec fn status_of(error: AppError) -> u16 {
    match error {
        AppError::InternalError => 500,
        AppError::BadRequest => 400,
        AppError::UserNotFound => 404,
    }
}

/// The message that `error` is answered with.
pub open spec fn message_of(error: AppError) -> Seq<char> {
    match error {
        AppError::InternalError => "Internal Server Error"@,
        AppError::BadRequest => "Bad Request"@,
        AppError::UserNotFound => "User Not Found"@,
    }
}

impl AppError {
    /// The status number and the message of the answer to this failure.
    pub fn into_response(self) -> (answer: (u16, &'static str))
        ensures
            answer.0 == status_of(self),
            answer.1@ == message_of(self),
    {
        match self {
            AppError::InternalError => (500, "Internal Server Error"),
            AppError::BadRequest => (400, "Bad Request"),
            AppError::UserNotFound => (404, "User Not Found"),
        }
    }
}

/// What can go wrong with a form sent in parts.
#[derive(Debug)]
pub enum MultipartError {
    NoName,
    InvalidValue,
    ReadError,
}

/// How `error` is written out.
pub open spec fn multipart_text(error: MultipartError) -> Seq<char> {
    match error {
        MultipartError::NoName => "No named field in multipart"@,
        MultipartError::InvalidValue => "Invalid value in multipart"@,
        MultipartError::ReadError => "Reading multipart error"@,
    }
}

impl MultipartError {
    /// The failure written out.
    pub fn fmt(&self) -> (text: String)
        ensures
            text@ == multipart_text(*self),
    {
        match self {
            MultipartError::NoName => "No named field in multipart".to_owned(),
            MultipartError::InvalidValue => "Invalid value in multipart".to_owned(),
            MultipartError::ReadError => "Reading multipart error".to_owned(),
        }
    }
}

} // verus!
