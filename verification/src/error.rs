//! The error type shared by all parsers and collectors.

use vstd::prelude::*;

verus! {

/// Why a collector failed: either the backing source could not be read at
/// all, or it was read but its content violated the expected format.
#[derive(Debug)]
pub enum CollectorError {
    /// The backing file could not be opened or read; `message` carries the
    /// operating-system error text supplied by the caller that did the read.
    FileRead { path: String, message: String },
    /// The content was read but a field did not have the expected shape;
    /// `field` describes the offending location and `raw` holds the text
    /// that failed to parse.
    Parse { path: String, field: String, raw: String },
}

/// Mathematical image of a `CollectorError`, used throughout the parsers'
/// specifications.
#[verifier::ext_equal]
pub enum ErrorView {
    FileRead { path: Seq<char>, message: Seq<char> },
    Parse { path: Seq<char>, field: Seq<char>, raw: Seq<char> },
}

impl View for CollectorError {
    type V = ErrorView;

    open spec fn view(&self) -> ErrorView {
        match self {
            CollectorError::FileRead { path, message } => ErrorView::FileRead {
                path: path@,
                message: message@,
            },
            CollectorError::Parse { path, field, raw } => ErrorView::Parse {
                path: path@,
                field: field@,
                raw: raw@,
            },
        }
    }
}

impl DeepView for CollectorError {
    type V = ErrorView;

    open spec fn deep_view(&self) -> ErrorView {
        self.view()
    }
}

/// Shorthand for the parse-failure image that the specifications build.
pub open spec fn parse_error(path: Seq<char>, field: Seq<char>, raw: Seq<char>) -> ErrorView {
    ErrorView::Parse { path, field, raw }
}

} // verus!
