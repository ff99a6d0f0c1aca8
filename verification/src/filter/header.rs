//! Request headers.
use vstd::prelude::*;

use crate::decimal::IntErrorKind;

pub mod accept_encoding;
pub mod authorization;
pub mod content_range;
pub mod range;

verus! {

/// Why a `Range` or `Content-Range` header could not be read.
#[derive(Debug)]
pub enum RangeParseError {
    MissingUnit,
    MissingSize,
    MissingHyphenMinus(String),
    ValueParseError(IntErrorKind),
    RangeEmpty,
    NoRange,
    Backwards,
}

/// `RangeParseError` with its text as characters.
pub enum RangeParseErrorView {
    MissingUnit,
    MissingSize,
    MissingHyphenMinus(Seq<char>),
    ValueParseError(IntErrorKind),
    RangeEmpty,
    NoRange,
    Backwards,
}

impl View for RangeParseError {
    type V = RangeParseErrorView;

    open spec fn view(&self) -> RangeParseErrorView {
        match self {
            RangeParseError::MissingUnit => RangeParseErrorView::MissingUnit,
            RangeParseError::MissingSize => RangeParseErrorView::MissingSize,
            RangeParseError::MissingHyphenMinus(s) => RangeParseErrorView::MissingHyphenMinus(s@),
            RangeParseError::ValueParseError(k) => RangeParseErrorView::ValueParseError(*k),
            RangeParseError::RangeEmpty => RangeParseErrorView::RangeEmpty,
            RangeParseError::NoRange => RangeParseErrorView::NoRange,
            RangeParseError::Backwards => RangeParseErrorView::Backwards,
        }
    }
}

impl RangeParseError {
    /// The status of the response to a request whose range header failed to
    /// parse: 400 Bad Request, sent with `Accept-Ranges: bytes`.
    pub fn status_code(&self) -> (r: u16)
        ensures
            r == 400,
    {
        400
    }
}

} // verus!
