//! Errors of the SDK's own logic.

use vstd::prelude::*;

use crate::text::{decimal, u64_to_decimal};

verus! {

/// What the library's logic can report. Failures of the operating system or
/// of JSON encoding belong to the code that does that work.
#[derive(Debug, Clone, PartialEq, Eq)]
pub enum Error {
    InvalidConfig(String),
    Process(String),
    Api { status: u16, body: String },
    AlreadyStarted,
}

/// Mathematical value of an [`Error`], with texts by their characters.
pub enum ErrorView {
    InvalidConfig(Seq<char>),
    Process(Seq<char>),
    Api { status: u16, body: Seq<char> },
    AlreadyStarted,
}

impl View for Error {
    type V = ErrorView;

    open spec fn view(&self) -> ErrorView {
        match self {
            Error::InvalidConfig(m) => ErrorView::InvalidConfig(m@),
            Error::Process(m) => ErrorView::Process(m@),
            Error::Api { status, body } => ErrorView::Api { status: *status, body: body@ },
            Error::AlreadyStarted => ErrorView::AlreadyStarted,
        }
    }
}

/// A configuration error with the given message.
pub fn invalid_config(message: &str) -> (e: Error)
    ensures
        e@ == ErrorView::InvalidConfig(message@),
{
    Error::InvalidConfig(message.to_string())
}

/// The text that describes an error to a reader.
pub open spec fn message_spec(e: ErrorView) -> Seq<char> {
    match e {
        ErrorView::InvalidConfig(m) => "invalid configuration: "@ + m,
        ErrorView::Process(m) => "process error: "@ + m,
        ErrorView::Api { status, body } => "api error (status "@ + decimal(status as nat) + "): "@
            + body,
        ErrorView::AlreadyStarted => "machine already started"@,
    }
}

impl Error {
    /// The text that describes this error to a reader.
    pub fn message(&self) -> (r: String)
        ensures
            r@ == message_spec(self@),
    {
        match self {
            Error::InvalidConfig(m) => {
                let mut s = String::from_str("invalid configuration: ");
                s.append(m.as_str());
                s
            },
            Error::Process(m) => {
                let mut s = String::from_str("process error: ");
                s.append(m.as_str());
                s
            },
            Error::Api { status, body } => {
                let mut s = String::from_str("api error (status ");
                s.append(u64_to_decimal(*status as u64).as_str());
                s.append("): ");
                s.append(body.as_str());
                s
            },
            Error::AlreadyStarted => String::from_str("machine already started"),
        }
    }
}

} // verus!
