//! The failures that the library reports.

use vstd::prelude::*;

verus! {

/// What can go wrong before a request is sent or while its reply is decoded.
#[derive(Clone, Debug, PartialEq, Eq)]
pub enum Error {
    /// The conversation does not end on a user request.
    IncorrectContext,
    /// An image data URL whose payload is not valid base64.
    InvalidBase64Url,
    /// The provider reported a generation error; the text is its message.
    ResponseError(String),
}

/// The mathematical value of a failure.
pub ghost enum ErrorView {
    IncorrectContext,
    InvalidBase64Url,
    ResponseError(Seq<char>),
}

impl View for Error {
    type V = ErrorView;

    open spec fn view(&self) -> ErrorView {
        match self {
            Error::IncorrectContext => ErrorView::IncorrectContext,
            Error::InvalidBase64Url => ErrorView::InvalidBase64Url,
            Error::ResponseError(message) => ErrorView::ResponseError(message@),
        }
    }
}

impl Error {
    /// The text shown to a user for this failure.
    pub open spec fn text(self) -> Seq<char> {
        match self {
            Error::IncorrectContext => "Incorrect context - missing a new user request"@,
            Error::InvalidBase64Url => "Encoded base64 string is invalid"@,
            Error::ResponseError(message) => "AI-generation error: "@ + message@,
        }
    }

    /// Renders the failure as text.
    pub fn message(&self) -> (r: String)
        ensures
            r@ == self.text(),
    {
        match self {
            Error::IncorrectContext => String::from_str(
                "Incorrect context - missing a new user request",
            ),
            Error::InvalidBase64Url => String::from_str("Encoded base64 string is invalid"),
            Error::ResponseError(message) => String::from_str("AI-generation error: ").concat(
                message.as_str(),
            ),
        }
    }
}

} // verus!
