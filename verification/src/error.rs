//! The errors of the store and of the range resolver, and what a caller is told of them.

use crate::response::{
    Response, ResponseView, FORBIDDEN, NOT_FOUND, RANGE_NOT_SATISFIABLE, UNPROCESSABLE_ENTITY,
};
use vstd::prelude::*;

verus! {

/// One of the two bounds of a range.
#[derive(Clone, Copy, Debug, PartialEq, Eq, Structural)]
pub enum PaginationField {
    Start,
    End,
}

impl PaginationField {
    /// The characters of the name of the parameter that holds this bound.
    pub open spec fn label(self) -> Seq<char> {
        match self {
            PaginationField::Start => "start"@,
            PaginationField::End => "end"@,
        }
    }

    /// The name of the parameter that holds this bound.
    pub fn name(self) -> (name: &'static str)
        ensures
            name@ == self.label(),
    {
        match self {
            PaginationField::Start => "start",
            PaginationField::End => "end",
        }
    }
}

/// What can go wrong in the store and in the range resolver.
#[derive(Debug, PartialEq, Eq)]
pub enum Error {
    /// A bound of the range is no unsigned integer: the text that was given, and which bound.
    ParseError(String, PaginationField),
    /// A required parameter was not given.
    MissingParameters,
    /// The range starts behind its end.
    NonProcessable,
    /// The range ends behind the last item.
    OutOfBounds,
    /// No question has the identifier that was named.
    QuestionNotFound,
}

/// An [`Error`] as a plain mathematical value.
pub enum ErrorView {
    ParseError(Seq<char>, PaginationField),
    MissingParameters,
    NonProcessable,
    OutOfBounds,
    QuestionNotFound,
}

impl View for Error {
    type V = ErrorView;

    open spec fn view(&self) -> ErrorView {
        match self {
            Error::ParseError(text, field) => ErrorView::ParseError(text@, *field),
            Error::MissingParameters => ErrorView::MissingParameters,
            Error::NonProcessable => ErrorView::NonProcessable,
            Error::OutOfBounds => ErrorView::OutOfBounds,
            Error::QuestionNotFound => ErrorView::QuestionNotFound,
        }
    }
}

impl ErrorView {
    /// The sentence that tells a caller of the error.
    pub open spec fn message(self) -> Seq<char> {
        match self {
            ErrorView::ParseError(text, field) => "Cannot parse parameter: "@ + field.label() + "="@
                + text,
            ErrorView::MissingParameters => "Missing one or more parameters"@,
            ErrorView::NonProcessable => "Start parameter cannot be greater than end parameter"@,
            ErrorView::OutOfBounds => "Not enough questions, please lower your end parameter"@,
            ErrorView::QuestionNotFound => "Question not found"@,
        }
    }
}

impl Error {
    /// The sentence that tells a caller of the error.
    pub fn message(&self) -> (text: String)
        ensures
            text@ == self@.message(),
    {
        match self {
            Error::ParseError(given, field) => {
                let mut text = "Cannot parse parameter: ".to_owned();
                text.append(field.name());
                text.append("=");
                text.append(given.as_str());
                text
            },
            Error::MissingParameters => "Missing one or more parameters".to_owned(),
            Error::NonProcessable => {
                "Start parameter cannot be greater than end parameter".to_owned()
            },
            Error::OutOfBounds => {
                "Not enough questions, please lower your end parameter".to_owned()
            },
            Error::QuestionNotFound => "Question not found".to_owned(),
        }
    }
}

impl Clone for Error {
    fn clone(&self) -> (copy: Self)
        ensures
            copy@ == self@,
    {
        match self {
            Error::ParseError(given, field) => Error::ParseError(given.clone(), *field),
            Error::MissingParameters => Error::MissingParameters,
            Error::NonProcessable => Error::NonProcessable,
            Error::OutOfBounds => Error::OutOfBounds,
            Error::QuestionNotFound => Error::QuestionNotFound,
        }
    }
}

/// Why a request got no regular answer.
#[derive(Debug, PartialEq, Eq)]
pub enum Failure {
    /// The store or the range resolver refused it.
    Domain(Error),
    /// It came from an origin that is not allowed; the transport's words for it.
    ForbiddenOrigin(String),
    /// Its body could not be read; the transport's words for it.
    MalformedBody(String),
    /// Anything else: no route matched it.
    UnmatchedRoute,
}

/// A [`Failure`] as a plain mathematical value.
pub enum FailureView {
    Domain(ErrorView),
    ForbiddenOrigin(Seq<char>),
    MalformedBody(Seq<char>),
    UnmatchedRoute,
}

impl View for Failure {
    type V = FailureView;

    open spec fn view(&self) -> FailureView {
        match self {
            Failure::Domain(error) => FailureView::Domain(error@),
            Failure::ForbiddenOrigin(words) => FailureView::ForbiddenOrigin(words@),
            Failure::MalformedBody(words) => FailureView::MalformedBody(words@),
            Failure::UnmatchedRoute => FailureView::UnmatchedRoute,
        }
    }
}

impl FailureView {
    /// The response that tells a caller of the failure: every error of the store and of
    /// the range resolver goes out under one status code with its own sentence, a failure
    /// of the transport under the code of its kind.
    pub open spec fn response(self) -> ResponseView {
        match self {
            FailureView::Domain(error) => ResponseView {
                status: RANGE_NOT_SATISFIABLE,
                body: error.message(),
            },
            FailureView::ForbiddenOrigin(words) => ResponseView { status: FORBIDDEN, body: words },
            FailureView::MalformedBody(words) => ResponseView {
                status: UNPROCESSABLE_ENTITY,
                body: words,
            },
            FailureView::UnmatchedRoute => ResponseView {
                status: NOT_FOUND,
                body: "Route not found"@,
            },
        }
    }
}

/// Turns a failure into the response that tells a caller of it.
pub fn return_error(failure: &Failure) -> (response: Response)
    ensures
        response@ == failure@.response(),
{
    match failure {
        Failure::Domain(error) => Response { status: RANGE_NOT_SATISFIABLE, body: error.message() },
        Failure::ForbiddenOrigin(words) => Response { status: FORBIDDEN, body: words.clone() },
        Failure::MalformedBody(words) => Response {
            status: UNPROCESSABLE_ENTITY,
            body: words.clone(),
        },
        Failure::UnmatchedRoute => Response {
            status: NOT_FOUND,
            body: "Route not found".to_owned(),
        },
    }
}

} // verus!
