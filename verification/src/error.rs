//! The ways in which a run can fail.

use vstd::prelude::*;
use vstd::string::StringExecFns;
use crate::text::{decimal, push_decimal};

verus! {

/// An error that ends a run.
#[derive(Clone, Debug, PartialEq)]
pub enum Error {
    /// The model client failed; the text is the client's own message.
    Llm(String),
    /// The sandbox failed; the text is the sandbox's own message.
    Sandbox(String),
    /// The response held no code block.
    NoCodeFound,
    /// The iteration budget, given here, was used up.
    MaxIterations(usize),
    /// The model stopped the agent.
    Completed(String),
    /// The finish value could not be accepted as the requested result.
    Deserialization(String),
}

/// The result of an operation of this library.
pub type Result<T> = core::result::Result<T, Error>;

/// The mathematical value of an [`Error`].
pub enum ErrorView {
    Llm(Seq<char>),
    Sandbox(Seq<char>),
    NoCodeFound,
    MaxIterations(nat),
    Completed(Seq<char>),
    Deserialization(Seq<char>),
}

impl View for Error {
    type V = ErrorView;

    open spec fn view(&self) -> ErrorView {
        match self {
            Error::Llm(t) => ErrorView::Llm(t@),
            Error::Sandbox(t) => ErrorView::Sandbox(t@),
            Error::NoCodeFound => ErrorView::NoCodeFound,
            Error::MaxIterations(n) => ErrorView::MaxIterations(*n as nat),
            Error::Completed(t) => ErrorView::Completed(t@),
            Error::Deserialization(t) => ErrorView::Deserialization(t@),
        }
    }
}

/// What an error says of itself.
pub open spec fn error_text(e: ErrorView) -> Seq<char> {
    match e {
        ErrorView::Llm(t) => "LLM error: "@ + t,
        ErrorView::Sandbox(t) => "Sandbox error: "@ + t,
        ErrorView::NoCodeFound => "No code block found in response"@,
        ErrorView::MaxIterations(n) => "Maximum iterations ("@ + decimal(n) + ") reached"@,
        ErrorView::Completed(t) => "Agent completed: "@ + t,
        ErrorView::Deserialization(t) => "Deserialization error: "@ + t,
    }
}

impl Error {
    /// What the error says of itself.
    pub fn message(&self) -> (s: String)
        ensures
            s@ == error_text(self@),
    {
        match self {
            Error::Llm(t) => {
                let mut s = String::from_str("LLM error: ");
                s.append(t.as_str());
                s
            },
            Error::Sandbox(t) => {
                let mut s = String::from_str("Sandbox error: ");
                s.append(t.as_str());
                s
            },
            Error::NoCodeFound => String::from_str("No code block found in response"),
            Error::MaxIterations(n) => {
                let mut s = String::from_str("Maximum iterations (");
                push_decimal(&mut s, *n as u64);
                s.append(") reached");
                s
            },
            Error::Completed(t) => {
                let mut s = String::from_str("Agent completed: ");
                s.append(t.as_str());
                s
            },
            Error::Deserialization(t) => {
                let mut s = String::from_str("Deserialization error: ");
                s.append(t.as_str());
                s
            },
        }
    }

    /// A copy of the error.
    pub fn copy(&self) -> (e: Error)
        ensures
            e@ == self@,
    {
        match self {
            Error::Llm(t) => Error::Llm(t.clone()),
            Error::Sandbox(t) => Error::Sandbox(t.clone()),
            Error::NoCodeFound => Error::NoCodeFound,
            Error::MaxIterations(n) => Error::MaxIterations(*n),
            Error::Completed(t) => Error::Completed(t.clone()),
            Error::Deserialization(t) => Error::Deserialization(t.clone()),
        }
    }
}

} // verus!
