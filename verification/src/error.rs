//! What can go wrong in the library, as one type.

use vstd::prelude::*;

use crate::text::push_decimal;

verus! {

/// The error of oxigraph's storage.
#[verifier::external_type_specification]
#[verifier::external_body]
pub struct ExStorageError(oxigraph::store::StorageError);

/// The error of oxigraph's loaders.
#[verifier::external_type_specification]
#[verifier::external_body]
pub struct ExLoaderError(oxigraph::store::LoaderError);

/// The error of oxigraph's serializers.
#[verifier::external_type_specification]
#[verifier::external_body]
pub struct ExSerializerError(oxigraph::store::SerializerError);

/// The error of oxigraph's query evaluation, syntax errors included.
#[verifier::external_type_specification]
#[verifier::external_body]
pub struct ExQueryEvaluationError(oxigraph::sparql::QueryEvaluationError);

/// The error of std for bytes that are not UTF-8.
#[verifier::external_type_specification]
#[verifier::external_body]
pub struct ExFromUtf8Error(std::string::FromUtf8Error);

/// The error of std for input and output.
#[verifier::external_type_specification]
#[verifier::external_body]
pub struct ExIoError(std::io::Error);

/// The part of the version-control service that an error came from, as far
/// as the store tells them apart.
#[derive(Clone, Copy, Debug, PartialEq, Eq, Structural)]
pub enum GitErrorClass {
    Reference,
    Other,
}

/// The kind of an error of the version-control service, as far as the store
/// tells them apart.
#[derive(Clone, Copy, Debug, PartialEq, Eq, Structural)]
pub enum GitErrorCode {
    Exists,
    Other,
}

/// An error of the version-control service, in plain values.
#[derive(Debug)]
pub struct GitError {
    pub class: GitErrorClass,
    pub code: GitErrorCode,
    pub message: String,
}

/// Every failure of the library.
#[derive(Debug)]
pub enum Error {
    /// A failure that is only a text.
    String(String),
    /// The key of a request is missing or wrong.
    Unauthorized(String),
    /// A graph file is not UTF-8.
    FromUtf8Error(std::string::FromUtf8Error),
    /// The triple store failed.
    StorageError(oxigraph::store::StorageError),
    /// A Turtle document could not be loaded.
    LoaderError(oxigraph::store::LoaderError),
    /// A triple store could not be written as Turtle.
    SerializerError(oxigraph::store::SerializerError),
    /// A query could not be parsed or evaluated.
    EvaluationError(oxigraph::sparql::QueryEvaluationError),
    /// A result could not be written.
    IOError(std::io::Error),
    /// The version-control service failed.
    GitError(GitError),
    /// The upstream history has diverged from the local one.
    NonFastForward,
    /// A write carries a timestamp that is older than the latest commit.
    OutOfOrder { timestamp: u64, latest: u64 },
    /// A commit message does not start with the timestamp of its commit.
    TimestampMismatch { timestamp: u64, found: u64 },
}

/// The text of an error whose text the library itself makes; empty for the
/// errors that carry one of another crate.
pub open spec fn message_text(error: Error) -> Seq<char> {
    match error {
        Error::String(text) => text@,
        Error::Unauthorized(text) => "Unauthorized: "@ + text@,
        Error::GitError(e) => e.message@,
        Error::NonFastForward => "Not able to fast-forward repo."@,
        Error::OutOfOrder { timestamp, latest } => "timestamp "@ + crate::text::decimal(
            timestamp as nat,
        ) + " is older than the latest commit at "@ + crate::text::decimal(latest as nat),
        Error::TimestampMismatch { timestamp, found } => "commit message carries timestamp "@
            + crate::text::decimal(found as nat) + " in place of "@ + crate::text::decimal(
            timestamp as nat,
        ),
        _ => Seq::empty(),
    }
}

/// Whether the text of `error` comes from another crate.
pub open spec fn is_foreign(error: Error) -> bool {
    match error {
        Error::FromUtf8Error(_) => true,
        Error::StorageError(_) => true,
        Error::LoaderError(_) => true,
        Error::SerializerError(_) => true,
        Error::EvaluationError(_) => true,
        Error::IOError(_) => true,
        _ => false,
    }
}

impl Error {
    /// The error as a text for people.
    pub fn message(&self) -> (text: String)
        ensures
            !is_foreign(*self) ==> text@ == message_text(*self),
    {
        match self {
            Error::String(text) => text.clone(),
            Error::Unauthorized(reason) => {
                let mut text = String::from_str("Unauthorized: ");
                text.append(reason.as_str());
                text
            },
            Error::FromUtf8Error(e) => e.to_string(),
            Error::StorageError(e) => e.to_string(),
            Error::LoaderError(e) => e.to_string(),
            Error::SerializerError(e) => e.to_string(),
            Error::EvaluationError(e) => e.to_string(),
            Error::IOError(e) => e.to_string(),
            Error::GitError(e) => e.message.clone(),
            Error::NonFastForward => String::from_str("Not able to fast-forward repo."),
            Error::OutOfOrder { timestamp, latest } => {
                let mut text = String::from_str("timestamp ");
                push_decimal(&mut text, *timestamp);
                text.append(" is older than the latest commit at ");
                push_decimal(&mut text, *latest);
                text
            },
            Error::TimestampMismatch { timestamp, found } => {
                let mut text = String::from_str("commit message carries timestamp ");
                push_decimal(&mut text, *found);
                text.append(" in place of ");
                push_decimal(&mut text, *timestamp);
                text
            },
        }
    }
}

/// The status of the response to an unauthorized request.
pub const UNAUTHORIZED: u16 = 401;

/// The status of the response to every other failure.
pub const INTERNAL_SERVER_ERROR: u16 = 500;

/// The response to a request that failed.
#[derive(Debug)]
pub struct ErrorResponse {
    pub status: u16,
    pub body: crate::models::Error,
}

impl Error {
    /// The response that reports the error: `401` with a message for an
    /// unauthorized request, `500` with an error text for everything else.
    pub fn error_response(&self) -> (response: ErrorResponse)
        ensures
            self is Unauthorized ==> response.status == UNAUTHORIZED && response.body.error is None
                && response.body.message is Some,
            !(self is Unauthorized) ==> response.status == INTERNAL_SERVER_ERROR
                && response.body.message is None && response.body.error is Some,
            !is_foreign(*self) ==> (response.body.message matches Some(text) ==> text@
                == message_text(*self)),
            !is_foreign(*self) ==> (response.body.error matches Some(text) ==> text@
                == message_text(*self)),
    {
        match self {
            Error::Unauthorized(_) => ErrorResponse {
                status: UNAUTHORIZED,
                body: crate::models::Error::message(self.message()),
            },
            _ => ErrorResponse {
                status: INTERNAL_SERVER_ERROR,
                body: crate::models::Error::error(self.message()),
            },
        }
    }
}

} // verus!
