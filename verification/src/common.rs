//! The error of every operation of the library.

use vstd::prelude::*;
use vstd::string::*;
use crate::text::join2;

verus! {

/// Why an operation did not go through. Every error is shown to the caller
/// as one line of text, see [`ServiceError::message`].
#[derive(Debug, Clone)]
pub enum ServiceError {
    /// No session has this identifier.
    SessionNotFound(String),
    /// No project has this identifier.
    ProjectNotFound(String),
    /// The input is not acceptable; the text says why.
    Validation(String),
    /// No usable credential for the completion service.
    Config(String),
    /// The completion service or the coding agent reported a failure.
    Engine(String),
    /// State could not be loaded, rendered or saved.
    Persistence(String),
    /// The caller is not who the operation asks for.
    Auth(String),
    /// No stream of progress waits under this session identifier.
    NoActiveStream(String),
}

pub ghost enum ErrorView {
    SessionNotFound(Seq<char>),
    ProjectNotFound(Seq<char>),
    Validation(Seq<char>),
    Config(Seq<char>),
    Engine(Seq<char>),
    Persistence(Seq<char>),
    Auth(Seq<char>),
    NoActiveStream(Seq<char>),
}

impl View for ServiceError {
    type V = ErrorView;

    open spec fn view(&self) -> ErrorView {
        match self {
            ServiceError::SessionNotFound(s) => ErrorView::SessionNotFound(s@),
            ServiceError::ProjectNotFound(s) => ErrorView::ProjectNotFound(s@),
            ServiceError::Validation(s) => ErrorView::Validation(s@),
            ServiceError::Config(s) => ErrorView::Config(s@),
            ServiceError::Engine(s) => ErrorView::Engine(s@),
            ServiceError::Persistence(s) => ErrorView::Persistence(s@),
            ServiceError::Auth(s) => ErrorView::Auth(s@),
            ServiceError::NoActiveStream(s) => ErrorView::NoActiveStream(s@),
        }
    }
}

impl ErrorView {
    /// The line of text that stands for this error.
    pub open spec fn message(self) -> Seq<char> {
        match self {
            ErrorView::SessionNotFound(id) => "session not found: "@ + id,
            ErrorView::ProjectNotFound(id) => "project not found: "@ + id,
            ErrorView::Validation(m) => m,
            ErrorView::Config(m) => m,
            ErrorView::Engine(m) => m,
            ErrorView::Persistence(m) => m,
            ErrorView::Auth(m) => m,
            ErrorView::NoActiveStream(id) => "No active stream for session "@ + id,
        }
    }
}

impl ServiceError {
    /// The line of text that stands for this error.
    pub fn message(&self) -> (out: String)
        ensures
            out@ == self@.message(),
    {
        match self {
            ServiceError::SessionNotFound(id) => join2("session not found: ", id.as_str()),
            ServiceError::ProjectNotFound(id) => join2("project not found: ", id.as_str()),
            ServiceError::Validation(m) => m.clone(),
            ServiceError::Config(m) => m.clone(),
            ServiceError::Engine(m) => m.clone(),
            ServiceError::Persistence(m) => m.clone(),
            ServiceError::Auth(m) => m.clone(),
            ServiceError::NoActiveStream(id) => join2("No active stream for session ", id.as_str()),
        }
    }
}

/// The result of an operation.
pub type AppResult<T> = Result<T, ServiceError>;

} // verus!
