//! The failures that the library reports.

use vstd::prelude::*;

verus! {

/// A failure of one unit of work: one sport's batch, or one game's detail.
#[derive(Debug)]
pub enum Error {
    /// A provider could not be reached; the text is the transport's message.
    FetchError(String),
    /// A field is missing from a provider's document, or has the wrong type.
    ParseError(String),
    /// The text names no sport.
    InvalidSportType(String),
    /// A provider's body is no JSON document; the text is the parser's message.
    DeserializationError(String),
    /// The text is no timestamp of the expected form, or lies outside the
    /// years that a nanosecond count can express.
    TimeParseError(String),
    /// The text is no number of the expected form.
    IntegerParseError(String),
    /// A provider reported a status code that the library does not know.
    UnknownStatus(String),
}

/// An `Error` with its message as a sequence of characters.
pub ghost enum ErrorView {
    FetchError(Seq<char>),
    ParseError(Seq<char>),
    InvalidSportType(Seq<char>),
    DeserializationError(Seq<char>),
    TimeParseError(Seq<char>),
    IntegerParseError(Seq<char>),
    UnknownStatus(Seq<char>),
}

impl View for Error {
    type V = ErrorView;

    open spec fn view(&self) -> ErrorView {
        match self {
            Error::FetchError(m) => ErrorView::FetchError(m@),
            Error::ParseError(m) => ErrorView::ParseError(m@),
            Error::InvalidSportType(m) => ErrorView::InvalidSportType(m@),
            Error::DeserializationError(m) => ErrorView::DeserializationError(m@),
            Error::TimeParseError(m) => ErrorView::TimeParseError(m@),
            Error::IntegerParseError(m) => ErrorView::IntegerParseError(m@),
            Error::UnknownStatus(m) => ErrorView::UnknownStatus(m@),
        }
    }
}

impl Error {
    /// The message that the error carries.
    pub fn message(&self) -> (r: &str)
        ensures
            r@ == match self@ {
                ErrorView::FetchError(m) => m,
                ErrorView::ParseError(m) => m,
                ErrorView::InvalidSportType(m) => m,
                ErrorView::DeserializationError(m) => m,
                ErrorView::TimeParseError(m) => m,
                ErrorView::IntegerParseError(m) => m,
                ErrorView::UnknownStatus(m) => m,
            },
    {
        match self {
            Error::FetchError(m) => m.as_str(),
            Error::ParseError(m) => m.as_str(),
            Error::InvalidSportType(m) => m.as_str(),
            Error::DeserializationError(m) => m.as_str(),
            Error::TimeParseError(m) => m.as_str(),
            Error::IntegerParseError(m) => m.as_str(),
            Error::UnknownStatus(m) => m.as_str(),
        }
    }
}

} // verus!
