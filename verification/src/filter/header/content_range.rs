//! The `Content-Range` header of a patch request.
use vstd::prelude::*;

use super::{RangeParseError, RangeParseErrorView};
use crate::decimal::{parse_usize, parse_usize_spec};
use crate::text::{chars_eq_str, chars_of, split_once, split_once_spec, string_of};

verus! {

broadcast use vstd::string::group_string_axioms;

/// A `Content-Range` header: `unit start-end/size`, where the range and the
/// size may each be `*`.
#[derive(Debug)]
pub struct ContentRange {
    pub unit: String,
    pub range: Option<(usize, usize)>,
    pub size: Option<usize>,
}

/// `ContentRange` with its unit as characters.
pub struct ContentRangeView {
    pub unit: Seq<char>,
    pub range: Option<(usize, usize)>,
    pub size: Option<usize>,
}

impl View for ContentRange {
    type V = ContentRangeView;

    open spec fn view(&self) -> ContentRangeView {
        ContentRangeView { unit: self.unit@, range: self.range, size: self.size }
    }
}

/// The reading of the size part: `*` or a number.
pub open spec fn content_size_spec(size: Seq<char>) -> Result<Option<usize>, RangeParseErrorView> {
    if size == "*"@ {
        Ok(None)
    } else {
        match parse_usize_spec(size) {
            Ok(n) => Ok(Some(n)),
            Err(k) => Err(RangeParseErrorView::ValueParseError(k)),
        }
    }
}

/// The reading of the range part: `*` or `start-end`.
pub open spec fn content_span_spec(range: Seq<char>) -> Result<
    Option<(usize, usize)>,
    RangeParseErrorView,
> {
    if range == "*"@ {
        Ok(None)
    } else {
        match split_once_spec(range, '-') {
            None => Err(RangeParseErrorView::MissingHyphenMinus(range)),
            Some((a, b)) => match parse_usize_spec(a) {
                Err(k) => Err(RangeParseErrorView::ValueParseError(k)),
                Ok(start) => match parse_usize_spec(b) {
                    Err(k) => Err(RangeParseErrorView::ValueParseError(k)),
                    Ok(end) => Ok(Some((start, end))),
                },
            },
        }
    }
}

/// The reading of a `Content-Range` header; the size is read before the range.
pub open spec fn parse_content_range_spec(header: Seq<char>) -> Result<
    ContentRangeView,
    RangeParseErrorView,
> {
    match split_once_spec(header, ' ') {
        None => Err(RangeParseErrorView::MissingUnit),
        Some((unit, data)) => match split_once_spec(data, '/') {
            None => Err(RangeParseErrorView::MissingSize),
            Some((range, size)) => match content_size_spec(size) {
                Err(e) => Err(e),
                Ok(size) => match content_span_spec(range) {
                    Err(e) => Err(e),
                    Ok(range) => Ok(ContentRangeView { unit, range, size }),
                },
            },
        },
    }
}

impl ContentRange {
    /// Reads a `Content-Range` header.
    pub fn parse(header: &str) -> (r: Result<ContentRange, RangeParseError>)
        ensures
            match r {
                Ok(v) => parse_content_range_spec(header@) == Ok::<
                    ContentRangeView,
                    RangeParseErrorView,
                >(v@),
                Err(e) => parse_content_range_spec(header@) == Err::<
                    ContentRangeView,
                    RangeParseErrorView,
                >(e@),
            },
    {
        let cs = chars_of(header);
        let (unit, range_data) = match split_once(cs.as_slice(), ' ') {
            Some(pair) => pair,
            None => return Err(RangeParseError::MissingUnit),
        };
        let unit = string_of(unit.as_slice());
        let (range, size) = match split_once(range_data.as_slice(), '/') {
            Some(pair) => pair,
            None => return Err(RangeParseError::MissingSize),
        };
        let size = if chars_eq_str(size.as_slice(), "*") {
            None
        } else {
            match parse_usize(size.as_slice()) {
                Ok(n) => Some(n),
                Err(k) => return Err(RangeParseError::ValueParseError(k)),
            }
        };
        let range = if chars_eq_str(range.as_slice(), "*") {
            None
        } else {
            let (start, end) = match split_once(range.as_slice(), '-') {
                Some(pair) => pair,
                None => return Err(RangeParseError::MissingHyphenMinus(string_of(range.as_slice()))),
            };
            let start = match parse_usize(start.as_slice()) {
                Ok(n) => n,
                Err(k) => return Err(RangeParseError::ValueParseError(k)),
            };
            let end = match parse_usize(end.as_slice()) {
                Ok(n) => n,
                Err(k) => return Err(RangeParseError::ValueParseError(k)),
            };
            Some((start, end))
        };
        Ok(ContentRange { unit, size, range })
    }
}

} // verus!
