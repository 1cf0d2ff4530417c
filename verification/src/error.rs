//! What can go wrong in a request, and how it is reported.

use vstd::prelude::*;
use vstd::string::StringExecFns;
use crate::lexer::ParseError;
use crate::query::EvaluationError;

verus! {

/// The kinds of failure, without their free-text detail.
#[derive(Debug, Clone, Copy, PartialEq, Eq, Structural)]
pub enum ErrorKind {
    /// The query text is not a query.
    Parse(ParseError),
    /// The engine failed to read or to write.
    Store,
    /// Stored bytes are not a document.
    Deserialization,
    /// A condition could not be evaluated.
    Evaluation(EvaluationError),
    /// Nothing is stored under the id.
    NotFound,
}

/// A failure, with the detail that the failing part gave.
#[derive(Debug, Clone, PartialEq, Eq)]
pub enum DocError {
    Parse(ParseError),
    Store(String),
    Deserialization(String),
    Evaluation(EvaluationError),
    NotFound,
}

/// The mathematical value of a [`DocError`].
pub enum Failure {
    Parse(ParseError),
    Store(Seq<char>),
    Deserialization(Seq<char>),
    Evaluation(EvaluationError),
    NotFound,
}

impl View for DocError {
    type V = Failure;

    open spec fn view(&self) -> Failure {
        match self {
            DocError::Parse(e) => Failure::Parse(*e),
            DocError::Store(detail) => Failure::Store(detail@),
            DocError::Deserialization(detail) => Failure::Deserialization(detail@),
            DocError::Evaluation(e) => Failure::Evaluation(*e),
            DocError::NotFound => Failure::NotFound,
        }
    }
}

/// The kind of a failure.
pub open spec fn kind_of(failure: Failure) -> ErrorKind {
    match failure {
        Failure::Parse(e) => ErrorKind::Parse(e),
        Failure::Store(_) => ErrorKind::Store,
        Failure::Deserialization(_) => ErrorKind::Deserialization,
        Failure::Evaluation(e) => ErrorKind::Evaluation(e),
        Failure::NotFound => ErrorKind::NotFound,
    }
}

/// The text that reports a failure: what failed, then the detail.
pub open spec fn message_of(failure: Failure) -> Seq<char> {
    match failure {
        Failure::Parse(e) => "Invalid query: "@ + e.message_text(),
        Failure::Store(detail) => "Database error: "@ + detail,
        Failure::Deserialization(detail) => "Error deserializing document: "@ + detail,
        Failure::Evaluation(e) => "Error evaluating query: "@ + e.message_text(),
        Failure::NotFound => "Document not found"@,
    }
}

/// The status under which a failure of this kind is answered: a fault of
/// the query is the client's, a missing document is not found, and all the
/// rest is the server's.
pub open spec fn status_of(kind: ErrorKind) -> u16 {
    match kind {
        ErrorKind::Parse(_) => 400,
        ErrorKind::NotFound => 404,
        _ => 500,
    }
}

impl DocError {
    /// The kind of this failure.
    pub fn kind(&self) -> (kind: ErrorKind)
        ensures
            kind == kind_of(self@),
    {
        match self {
            DocError::Parse(e) => ErrorKind::Parse(*e),
            DocError::Store(_) => ErrorKind::Store,
            DocError::Deserialization(_) => ErrorKind::Deserialization,
            DocError::Evaluation(e) => ErrorKind::Evaluation(*e),
            DocError::NotFound => ErrorKind::NotFound,
        }
    }

    /// The HTTP status under which this failure is answered.
    pub fn status_code(&self) -> (code: u16)
        ensures
            code == status_of(kind_of(self@)),
    {
        match self {
            DocError::Parse(_) => 400,
            DocError::NotFound => 404,
            _ => 500,
        }
    }

    /// The text of the answer: what failed, then the detail.
    pub fn message(&self) -> (text: String)
        ensures
            text@ == message_of(self@),
    {
        match self {
            DocError::Parse(e) => "Invalid query: ".to_owned().concat(e.message().as_str()),
            DocError::Store(detail) => "Database error: ".to_owned().concat(detail.as_str()),
            DocError::Deserialization(detail) => "Error deserializing document: ".to_owned().concat(
                detail.as_str(),
            ),
            DocError::Evaluation(e) => "Error evaluating query: ".to_owned().concat(
                e.message().as_str(),
            ),
            DocError::NotFound => "Document not found".to_owned(),
        }
    }
}

} // verus!
