//! The ways in which a request or a snapshot can be turned down.

use vstd::prelude::*;
use vstd::string::StringExecFns;

verus! {

/// Why the library refused an input.
#[derive(Debug, PartialEq, Eq)]
pub enum Error {
    /// The request holds no command, or a command lacks an argument it needs,
    /// or an argument cannot be read.
    ProtocolError,
    /// The verb is none of those the engine knows; the verb is kept as sent.
    UnknownCommand(String),
    /// The snapshot ends too early or holds text that is not UTF-8.
    EncodingError,
}

/// The mathematical form of an [`Error`].
pub enum ErrorView {
    ProtocolError,
    UnknownCommand(Seq<char>),
    EncodingError,
}

impl View for Error {
    type V = ErrorView;

    open spec fn view(&self) -> ErrorView {
        match self {
            Error::ProtocolError => ErrorView::ProtocolError,
            Error::UnknownCommand(name) => ErrorView::UnknownCommand(name@),
            Error::EncodingError => ErrorView::EncodingError,
        }
    }
}

/// The text that tells a client about an error.
pub open spec fn message_text(e: ErrorView) -> Seq<char> {
    match e {
        ErrorView::ProtocolError => "Request is malformed"@,
        ErrorView::UnknownCommand(name) => "Command is not recognized "@ + name,
        ErrorView::EncodingError => "Snapshot is malformed"@,
    }
}

/// The view of a result whose both sides have a view.
pub open spec fn result_view<T: View, E: View>(r: Result<T, E>) -> Result<T::V, E::V> {
    match r {
        Ok(t) => Ok(t@),
        Err(e) => Err(e@),
    }
}

impl Error {
    /// The text that tells a client about this error.
    pub fn message(&self) -> (text: String)
        ensures
            text@ == message_text(self@),
    {
        match self {
            Error::ProtocolError => String::from_str("Request is malformed"),
            Error::UnknownCommand(name) => {
                let mut text = String::from_str("Command is not recognized ");
                text.append(name.as_str());
                text
            },
            Error::EncodingError => String::from_str("Snapshot is malformed"),
        }
    }
}

} // verus!
