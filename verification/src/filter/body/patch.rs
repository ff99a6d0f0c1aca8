//! Binary patches: bytes to write at an offset, placed by a `Content-Range` header.
use vstd::prelude::*;

use crate::filter::header::content_range::ContentRange;

verus! {

/// Why a binary patch was refused.
#[derive(Debug, Clone, Copy, PartialEq, Eq, Structural)]
pub enum InvalidPatch {
    EmptyPatch,
    LengthMismatch,
    RangeMisordered,
    BoundsExceeded,
    UnexpectedSize,
    UnknownUnit,
}

impl InvalidPatch {
    /// The status of the response to a refused patch: 400 Bad Request.
    pub fn status_code(&self) -> (r: u16)
        ensures
            r == 400,
    {
        400
    }
}

/// Bytes to write at `start`, and the length the whole resource is expected to have.
pub struct BinaryPatch {
    pub start: usize,
    pub data: Vec<u8>,
    pub expected_length: Option<usize>,
}

/// Why a patch with this range and this many bytes is refused, if it is.
pub open spec fn patch_error(range: Option<(usize, usize)>, len: nat) -> Option<InvalidPatch> {
    match range {
        Some((start, end)) => if start == end {
            Some(InvalidPatch::EmptyPatch)
        } else if start > end {
            Some(InvalidPatch::RangeMisordered)
        } else if end - start != len {
            Some(InvalidPatch::LengthMismatch)
        } else {
            None
        },
        None => None,
    }
}

impl BinaryPatch {
    /// A patch of `data` placed by `content_range`: refused when the range is
    /// empty, backwards, or not as long as the data; it starts at the range's
    /// start, or at 0 when the range is `*`.
    pub fn new(data: Vec<u8>, content_range: ContentRange) -> (r: Result<Self, InvalidPatch>)
        ensures
            match patch_error(content_range.range, data@.len()) {
                Some(e) => r == Err::<Self, InvalidPatch>(e),
                None => r matches Ok(p) && p.data@ == data@ && p.expected_length
                    == content_range.size && p.start == (match content_range.range {
                    Some((start, _)) => start,
                    None => 0,
                }),
            },
    {
        let expected_length = content_range.size;
        if let Some((start, end)) = content_range.range {
            if start == end {
                return Err(InvalidPatch::EmptyPatch);
            }
            if start > end {
                return Err(InvalidPatch::RangeMisordered);
            }
            if (end - start) != data.len() {
                return Err(InvalidPatch::LengthMismatch);
            }
        }
        let start = match content_range.range {
            Some((start, _end)) => start,
            None => 0,
        };
        Ok(Self { start, data, expected_length })
    }
}

} // verus!
