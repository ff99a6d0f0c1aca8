//! The `Range` request header (RFC 9110, section 14) and the ranges of a
//! resource that it selects.
use vstd::prelude::*;

use std::ops::Range as OpsRange;

use tinyrand::{RandRange, Seeded};

use super::content_range::{parse_content_range_spec, ContentRangeView};
use super::{RangeParseError, RangeParseErrorView};
use crate::decimal::{format_u64, int_to_dec, parse_usize, parse_usize_spec, IntErrorKind};
use crate::text::{chars_eq_str, chars_of, pieces_view, push_chars, split_chars, split_once,
    split_once_spec, split_spec, string_of};

verus! {

broadcast use vstd::string::group_string_axioms;

/// Why a range cannot be applied to a resource.
#[derive(Debug, Clone, Copy, PartialEq, Eq, Structural)]
pub enum RangeIndexError {
    UnknownUnit,
    TooLarge(usize),
}

impl RangeIndexError {
    /// The status of the response: 400 for an unknown unit, 416 (range not
    /// satisfiable) for a range past the end.
    pub fn status_code(&self) -> (r: u16)
        ensures
            r == (match self {
                RangeIndexError::UnknownUnit => 400u16,
                RangeIndexError::TooLarge(_) => 416u16,
            }),
    {
        match self {
            RangeIndexError::UnknownUnit => 400,
            RangeIndexError::TooLarge(_) => 416,
        }
    }

    /// The `Content-Range` header sent with the response: `bytes */{length}`
    /// for a range past the end, none otherwise.
    pub fn content_range(&self) -> (r: Option<String>)
        ensures
            match self {
                RangeIndexError::UnknownUnit => r is None,
                RangeIndexError::TooLarge(length) => r matches Some(s) && s@ == "bytes */"@
                    + int_to_dec(*length as int),
            },
    {
        match self {
            RangeIndexError::UnknownUnit => None,
            RangeIndexError::TooLarge(length) => {
                let mut s = String::new();
                let prefix = chars_of("bytes */");
                push_chars(&mut s, prefix.as_slice());
                let digits = format_u64(*length as u64);
                push_chars(&mut s, digits.as_slice());
                Some(s)
            },
        }
    }

    /// The message of the error.
    pub fn to_string(&self) -> (r: String)
        ensures
            r@ == "cannot index with range: "@ + (match self {
                RangeIndexError::UnknownUnit => "unit not supported"@,
                RangeIndexError::TooLarge(_) => "range exceeds bounds"@,
            }),
    {
        let mut s = String::new();
        let prefix = chars_of("cannot index with range: ");
        push_chars(&mut s, prefix.as_slice());
        let reason = match self {
            RangeIndexError::UnknownUnit => chars_of("unit not supported"),
            RangeIndexError::TooLarge(_) => chars_of("range exceeds bounds"),
        };
        push_chars(&mut s, reason.as_slice());
        s
    }
}

/// One range of a `Range` header: `start-end`, `start-` or `-suffix`.
#[derive(Debug)]
pub enum HttpRange {
    FromStartToEnd(OpsRange<usize>),
    FromStartToLast(usize),
    FromEndToLast(usize),
}

/// The bytes `start..end` as a range.
pub open spec fn span(start: int, end: int) -> OpsRange<usize> {
    OpsRange { start: start as usize, end: end as usize }
}

/// The byte range that a range selects in a resource of `length` bytes
/// (RFC 9110, section 14.1.2): a suffix longer than the resource selects all of
/// it; a range that starts past the end, or that ends past it or before its
/// start, is too large.
pub open spec fn with_length_spec(range: HttpRange, length: usize) -> Result<
    OpsRange<usize>,
    RangeIndexError,
> {
    match range {
        HttpRange::FromEndToLast(from_end) => if from_end > length {
            Ok(span(0, length as int))
        } else {
            Ok(span(length - from_end, length as int))
        },
        HttpRange::FromStartToLast(start) => if start <= length {
            Ok(span(start as int, length as int))
        } else {
            Err(RangeIndexError::TooLarge(length))
        },
        HttpRange::FromStartToEnd(r) => if r.start <= r.end && r.end <= length {
            Ok(r)
        } else {
            Err(RangeIndexError::TooLarge(length))
        },
    }
}

/// The byte range a response serves for a range: what it selects, where that
/// holds at least one byte. A range that selects no byte cannot be satisfied
/// (RFC 9110, section 14.1.2) and is answered as too large.
pub open spec fn selection_spec(range: HttpRange, length: usize) -> Result<
    OpsRange<usize>,
    RangeIndexError,
> {
    match with_length_spec(range, length) {
        Ok(r) => if r.start < r.end {
            Ok(r)
        } else {
            Err(RangeIndexError::TooLarge(length))
        },
        Err(e) => Err(e),
    }
}

/// The reading of one range of a `Range` header.
pub open spec fn parse_http_range_spec(s: Seq<char>) -> Result<HttpRange, RangeParseErrorView> {
    match split_once_spec(s, '-') {
        None => Err(RangeParseErrorView::MissingHyphenMinus(s)),
        Some((a, b)) => if a.len() == 0 && b.len() == 0 {
            Err(RangeParseErrorView::RangeEmpty)
        } else if a.len() == 0 {
            match parse_usize_spec(b) {
                Ok(n) => Ok(HttpRange::FromEndToLast(n)),
                Err(k) => Err(RangeParseErrorView::ValueParseError(k)),
            }
        } else if b.len() == 0 {
            match parse_usize_spec(a) {
                Ok(n) => Ok(HttpRange::FromStartToLast(n)),
                Err(k) => Err(RangeParseErrorView::ValueParseError(k)),
            }
        } else {
            match parse_usize_spec(a) {
                Err(k) => Err(RangeParseErrorView::ValueParseError(k)),
                Ok(start) => match parse_usize_spec(b) {
                    Err(k) => Err(RangeParseErrorView::ValueParseError(k)),
                    Ok(end) => if end < start {
                        Err(RangeParseErrorView::Backwards)
                    } else if end == usize::MAX {
                        Err(RangeParseErrorView::ValueParseError(IntErrorKind::PosOverflow))
                    } else {
                        Ok(HttpRange::FromStartToEnd(span(start as int, end + 1)))
                    },
                },
            }
        },
    }
}

/// The readings of the comma-separated ranges of a header, up to the first
/// that fails.
pub open spec fn parse_http_ranges_spec(pieces: Seq<Seq<char>>) -> Result<
    Seq<HttpRange>,
    RangeParseErrorView,
>
    decreases pieces.len(),
{
    if pieces.len() == 0 {
        Ok(seq![])
    } else {
        match parse_http_range_spec(pieces[0]) {
            Err(e) => Err(e),
            Ok(r) => match parse_http_ranges_spec(pieces.drop_first()) {
                Err(e) => Err(e),
                Ok(rs) => Ok(seq![r] + rs),
            },
        }
    }
}

impl HttpRange {
    /// The byte range selected in a resource of `length` bytes,
    /// `with_length_spec`.
    pub fn with_length(&self, length: usize) -> (r: Result<OpsRange<usize>, RangeIndexError>)
        ensures
            r == with_length_spec(*self, length),
            r matches Ok(v) ==> v.start <= v.end && v.end <= length,
    {
        match self {
            HttpRange::FromEndToLast(from_end) => if *from_end > length {
                Ok(OpsRange { start: 0, end: length })
            } else {
                Ok(OpsRange { start: length - *from_end, end: length })
            },
            HttpRange::FromStartToLast(start) => if *start <= length {
                Ok(OpsRange { start: *start, end: length })
            } else {
                Err(RangeIndexError::TooLarge(length))
            },
            HttpRange::FromStartToEnd(range) => if range.start <= range.end && range.end <= length {
                Ok(OpsRange { start: range.start, end: range.end })
            } else {
                Err(RangeIndexError::TooLarge(length))
            },
        }
    }

    /// The byte range a response serves for the range, `selection_spec`.
    pub fn selection(&self, length: usize) -> (r: Result<OpsRange<usize>, RangeIndexError>)
        ensures
            r == selection_spec(*self, length),
            r matches Ok(v) ==> v.start < v.end && v.end <= length,
    {
        let v = self.with_length(length)?;
        if v.start < v.end {
            Ok(v)
        } else {
            Err(RangeIndexError::TooLarge(length))
        }
    }

    /// A copy of the range.
    pub fn copy(&self) -> (r: HttpRange)
        ensures
            r == *self,
    {
        match self {
            HttpRange::FromEndToLast(n) => HttpRange::FromEndToLast(*n),
            HttpRange::FromStartToLast(n) => HttpRange::FromStartToLast(*n),
            HttpRange::FromStartToEnd(r) => HttpRange::FromStartToEnd(
                OpsRange { start: r.start, end: r.end },
            ),
        }
    }

    /// Reads one range of a `Range` header. The last position of `start-last`
    /// is inclusive (RFC 9110, section 14.1.2), so it reads as the range
    /// `start..last + 1`; a last position with no successor overflows.
    pub fn parse(range: &[char]) -> (r: Result<HttpRange, RangeParseError>)
        ensures
            match r {
                Ok(h) => parse_http_range_spec(range@) == Ok::<HttpRange, RangeParseErrorView>(h),
                Err(e) => parse_http_range_spec(range@) == Err::<HttpRange, RangeParseErrorView>(e@),
            },
    {
        let (a, b) = match split_once(range, '-') {
            Some(pair) => pair,
            None => return Err(RangeParseError::MissingHyphenMinus(string_of(range))),
        };
        if a.len() == 0 && b.len() == 0 {
            return Err(RangeParseError::RangeEmpty);
        }
        if a.len() == 0 {
            return match parse_usize(b.as_slice()) {
                Ok(n) => Ok(HttpRange::FromEndToLast(n)),
                Err(k) => Err(RangeParseError::ValueParseError(k)),
            };
        }
        if b.len() == 0 {
            return match parse_usize(a.as_slice()) {
                Ok(n) => Ok(HttpRange::FromStartToLast(n)),
                Err(k) => Err(RangeParseError::ValueParseError(k)),
            };
        }
        let start = match parse_usize(a.as_slice()) {
            Ok(n) => n,
            Err(k) => return Err(RangeParseError::ValueParseError(k)),
        };
        let end = match parse_usize(b.as_slice()) {
            Ok(n) => n,
            Err(k) => return Err(RangeParseError::ValueParseError(k)),
        };
        if end < start {
            Err(RangeParseError::Backwards)
        } else if end == usize::MAX {
            Err(RangeParseError::ValueParseError(IntErrorKind::PosOverflow))
        } else {
            Ok(HttpRange::FromStartToEnd(OpsRange { start, end: end + 1 }))
        }
    }
}

/// A `Range` header: a unit and one or more ranges, or no header at all.
#[derive(Debug)]
pub enum Range {
    Multi { unit: String, ranges: Vec<HttpRange> },
    Single { unit: String, range: HttpRange },
    Absent,
}

/// `Range` with its text as characters.
pub enum RangeView {
    Multi { unit: Seq<char>, ranges: Seq<HttpRange> },
    Single { unit: Seq<char>, range: HttpRange },
    Absent,
}

impl View for Range {
    type V = RangeView;

    open spec fn view(&self) -> RangeView {
        match self {
            Range::Multi { unit, ranges } => RangeView::Multi { unit: unit@, ranges: ranges@ },
            Range::Single { unit, range } => RangeView::Single { unit: unit@, range: *range },
            Range::Absent => RangeView::Absent,
        }
    }
}

/// The reading of a `Range` header: `unit=range,range,...`.
pub open spec fn parse_range_spec(header: Seq<char>) -> Result<RangeView, RangeParseErrorView> {
    match split_once_spec(header, '=') {
        None => Err(RangeParseErrorView::MissingUnit),
        Some((unit, data)) => match parse_http_ranges_spec(split_spec(data, ',')) {
            Err(e) => Err(e),
            Ok(rs) => if rs.len() == 0 {
                Err(RangeParseErrorView::NoRange)
            } else if rs.len() == 1 {
                Ok(RangeView::Single { unit, range: rs[0] })
            } else {
                Ok(RangeView::Multi { unit, ranges: rs })
            },
        },
    }
}

impl Range {
    /// Reads a `Range` header.
    pub fn parse(header: &str) -> (r: Result<Range, RangeParseError>)
        ensures
            match r {
                Ok(v) => parse_range_spec(header@) == Ok::<RangeView, RangeParseErrorView>(v@),
                Err(e) => parse_range_spec(header@) == Err::<RangeView, RangeParseErrorView>(e@),
            },
    {
        let cs = chars_of(header);
        let (unit, data) = match split_once(cs.as_slice(), '=') {
            Some(pair) => pair,
            None => return Err(RangeParseError::MissingUnit),
        };
        let unit = string_of(unit.as_slice());
        let pieces = split_chars(data.as_slice(), ',');
        let ghost pv = pieces_view(pieces@);
        let mut ranges: Vec<HttpRange> = Vec::new();
        let mut i: usize = 0;
        assert(pv.skip(0) == pv);
        while i < pieces.len()
            invariant
                i <= pieces.len(),
                pv == pieces_view(pieces@),
                pv == split_spec(data@, ','),
                split_once_spec(header@, '=') == Some((unit@, data@)),
                parse_http_ranges_spec(pv) == (match parse_http_ranges_spec(pv.skip(i as int)) {
                    Err(e) => Err(e),
                    Ok(rs) => Ok(ranges@ + rs),
                }),
            decreases pieces.len() - i,
        {
            assert(pv.skip(i as int)[0] == pieces@[i as int]@);
            assert(pv.skip(i as int).drop_first() == pv.skip(i + 1));
            match HttpRange::parse(pieces[i].as_slice()) {
                Ok(h) => {
                    let ghost before = ranges@;
                    ranges.push(h);
                    proof {
                        match parse_http_ranges_spec(pv.skip(i + 1)) {
                            Ok(rs) => {
                                assert(before + (seq![h] + rs) =~= ranges@ + rs);
                            },
                            Err(_) => {},
                        }
                    }
                },
                Err(e) => {
                    assert(parse_http_ranges_spec(pv.skip(i as int)) == Err::<
                        Seq<HttpRange>,
                        RangeParseErrorView,
                    >(e@));
                    return Err(e);
                },
            }
            i = i + 1;
        }
        assert(pv.skip(i as int).len() == 0);
        assert(ranges@ + Seq::<HttpRange>::empty() == ranges@);
        if ranges.len() == 0 {
            Err(RangeParseError::NoRange)
        } else if ranges.len() == 1 {
            let range = ranges.pop().unwrap();
            assert(range == ranges@.push(range)[0]);
            Ok(Range::Single { unit, range })
        } else {
            Ok(Range::Multi { unit, ranges })
        }
    }

    /// The header that `option` holds, or the absent header where it holds none.
    pub fn from_option(option: Option<Range>) -> (r: Range)
        ensures
            r == (match option {
                None => Range::Absent,
                Some(v) => v,
            }),
    {
        match option {
            None => Range::Absent,
            Some(value) => value,
        }
    }

    /// The byte range that a single range serves, checked before its unit is:
    /// only `bytes` is known.
    pub fn single_range(unit: &str, range: &HttpRange, length: usize) -> (r: Result<
        OpsRange<usize>,
        RangeIndexError,
    >)
        ensures
            r == (match selection_spec(*range, length) {
                Err(e) => Err(e),
                Ok(v) => if unit@ == "bytes"@ {
                    Ok(v)
                } else {
                    Err(RangeIndexError::UnknownUnit)
                },
            }),
    {
        let selected = range.selection(length)?;
        let cs = chars_of(unit);
        if chars_eq_str(cs.as_slice(), "bytes") {
            Ok(selected)
        } else {
            Err(RangeIndexError::UnknownUnit)
        }
    }
}

/// The `Content-Range` value of a partial response that serves the bytes
/// `start..end`: `bytes {start}-{last}/{length}`, where the last position
/// `end - 1` is inclusive (RFC 9110, section 14.4).
pub open spec fn content_range_text(start: usize, end: usize, length: usize) -> Seq<char> {
    "bytes "@ + int_to_dec(start as int) + "-"@ + int_to_dec(end - 1) + "/"@ + int_to_dec(
        length as int,
    )
}

/// The `Content-Range` value of a partial response that serves the bytes
/// `start..end` of `length`.
pub fn content_range_header(start: usize, end: usize, length: usize) -> (r: String)
    requires
        start < end,
    ensures
        r@ == content_range_text(start, end, length),
{
    let mut s = String::new();
    let a = chars_of("bytes ");
    push_chars(&mut s, a.as_slice());
    let d = format_u64(start as u64);
    push_chars(&mut s, d.as_slice());
    let b = chars_of("-");
    push_chars(&mut s, b.as_slice());
    let d = format_u64((end - 1) as u64);
    push_chars(&mut s, d.as_slice());
    let c = chars_of("/");
    push_chars(&mut s, c.as_slice());
    let d = format_u64(length as u64);
    push_chars(&mut s, d.as_slice());
    s
}

/// Law: the `Content-Range` value written for a partial response is read back
/// by the `Content-Range` reader as the same unit, first and last position,
/// and length.
pub proof fn lemma_content_range_round_trip(start: usize, end: usize, length: usize)
    requires
        start < end,
    ensures
        parse_content_range_spec(content_range_text(start, end, length)) == Ok::<
            ContentRangeView,
            RangeParseErrorView,
        >(ContentRangeView { unit: "bytes"@, range: Some((start, (end - 1) as usize)), size: Some(length) }),
{
    reveal_strlit("bytes ");
    reveal_strlit("bytes");
    reveal_strlit("-");
    reveal_strlit("/");
    reveal_strlit("*");
    let d1 = int_to_dec(start as int);
    let d2 = int_to_dec(end - 1);
    let d3 = int_to_dec(length as int);
    crate::decimal::lemma_nat_to_dec_lacks(start as nat, ' ');
    crate::decimal::lemma_nat_to_dec_lacks(start as nat, '-');
    crate::decimal::lemma_nat_to_dec_lacks(start as nat, '/');
    crate::decimal::lemma_nat_to_dec_lacks((end - 1) as nat, '/');
    crate::decimal::lemma_nat_to_dec_lacks(length as nat, '*');
    let range_part = d1 + seq!['-'] + d2;
    let rest = range_part + seq!['/'] + d3;
    let h = content_range_text(start, end, length);
    assert(h =~= "bytes"@ + seq![' '] + rest);
    assert(!"bytes"@.contains(' ')) by {
        if "bytes"@.contains(' ') {
            let j = choose|j: int| 0 <= j < 5 && "bytes"@[j] == ' ';
        }
    }
    crate::text::lemma_split_once_at("bytes"@, ' ', rest);
    assert(!range_part.contains('/')) by {
        if range_part.contains('/') {
            let j = choose|j: int| 0 <= j < range_part.len() && range_part[j] == '/';
            if j < d1.len() {
                assert(d1[j] == '/');
                assert(d1.contains('/'));
            } else if j == d1.len() {
            } else {
                assert(d2[j - d1.len() - 1] == '/');
                assert(d2.contains('/'));
            }
        }
    }
    crate::text::lemma_split_once_at(range_part, '/', d3);
    assert(d3 != "*"@) by {
        if d3 == "*"@ {
            assert(d3[0] == '*');
        }
    }
    assert(range_part != "*"@) by {
        assert(range_part.len() >= 3);
    }
    crate::text::lemma_split_once_at(d1, '-', d2);
    crate::decimal::lemma_parse_int_to_dec(start as int, 0, usize::MAX as int);
    crate::decimal::lemma_parse_int_to_dec(end - 1, 0, usize::MAX as int);
    crate::decimal::lemma_parse_int_to_dec(length as int, 0, usize::MAX as int);
}

/// A selected range of a resource, with its bytes and the length that its part
/// header reports.
pub struct DataRange {
    pub data: Vec<u8>,
    pub range: OpsRange<usize>,
    pub length: usize,
}

/// Failure to answer a range request: a range that cannot be applied, or a
/// failed read of the resource.
pub enum RangeOrReadError<E> {
    RangeErr(RangeIndexError),
    ReadErr(E),
}

/// Gaps between selected ranges narrower than this are read through.
pub const INBETWEEN_THRESHOLD: usize = 32;

/// Where a range starting at `key` goes in ranges sorted by start: after every
/// range that starts at or before it.
pub open spec fn upper_pos(s: Seq<OpsRange<usize>>, key: usize) -> int
    decreases s.len(),
{
    if s.len() == 0 {
        0
    } else if s[0].start > key {
        0
    } else {
        1 + upper_pos(s.drop_first(), key)
    }
}

/// The ranges ordered by start, ranges with equal starts kept in their order
/// (a stable sort).
pub open spec fn sort_by_start(s: Seq<OpsRange<usize>>) -> Seq<OpsRange<usize>>
    decreases s.len(),
{
    if s.len() == 0 {
        s
    } else {
        let sorted = sort_by_start(s.drop_last());
        sorted.insert(upper_pos(sorted, s.last().start), s.last())
    }
}

/// One step of coalescing: a range that starts less than the threshold after
/// the end of the last kept range replaces that range's end; any other range
/// is kept on its own.
pub open spec fn coalesce_step(acc: Seq<OpsRange<usize>>, r: OpsRange<usize>) -> Seq<
    OpsRange<usize>,
> {
    let last = acc.last();
    let gap: int = if r.start >= last.end {
        r.start - last.end
    } else {
        0
    };
    if gap < INBETWEEN_THRESHOLD {
        acc.update(acc.len() - 1, span(last.start as int, r.end as int))
    } else {
        acc.push(r)
    }
}

/// The ranges after coalescing, left to right.
pub open spec fn coalesce(rs: Seq<OpsRange<usize>>) -> Seq<OpsRange<usize>>
    decreases rs.len(),
{
    if rs.len() <= 1 {
        rs
    } else {
        coalesce_step(coalesce(rs.drop_last()), rs.last())
    }
}

/// The byte ranges each range serves, up to the first that fails.
pub open spec fn with_length_all(ranges: Seq<HttpRange>, length: usize) -> Result<
    Seq<OpsRange<usize>>,
    RangeIndexError,
>
    decreases ranges.len(),
{
    if ranges.len() == 0 {
        Ok(seq![])
    } else {
        match with_length_all(ranges.drop_last(), length) {
            Err(e) => Err(e),
            Ok(rs) => match selection_spec(ranges.last(), length) {
                Err(e) => Err(e),
                Ok(r) => Ok(rs.push(r)),
            },
        }
    }
}

/// Every range holds at least one byte and ends within `length`.
pub open spec fn spans_within(rs: Seq<OpsRange<usize>>, length: usize) -> bool {
    forall|i: int| 0 <= i < rs.len() ==> #[trigger] rs[i].start < rs[i].end && rs[i].end <= length
}

proof fn lemma_sort_within(s: Seq<OpsRange<usize>>, length: usize)
    requires
        spans_within(s, length),
    ensures
        spans_within(sort_by_start(s), length),
    decreases s.len(),
{
    if s.len() > 0 {
        let prev = s.drop_last();
        lemma_sort_within(prev, length);
        let sorted = sort_by_start(prev);
        lemma_upper_pos(sorted, s.last().start);
        let p = upper_pos(sorted, s.last().start);
        let out = sorted.insert(p, s.last());
        assert forall|i: int| 0 <= i < out.len() implies #[trigger] out[i].start < out[i].end
            && out[i].end <= length by {
            if i < p {
                assert(out[i] == sorted[i]);
            } else if i > p {
                assert(out[i] == sorted[i - 1]);
            }
        }
    }
}

proof fn lemma_coalesce_within(rs: Seq<OpsRange<usize>>, length: usize)
    requires
        rs.len() > 0,
        spans_within(rs, length),
        forall|i: int, j: int| 0 <= i <= j < rs.len() ==> rs[i].start <= rs[j].start,
    ensures
        spans_within(coalesce(rs), length),
        coalesce(rs).len() > 0,
        coalesce(rs).last().start <= rs.last().start,
    decreases rs.len(),
{
    lemma_coalesce_nonempty(rs);
    if rs.len() > 1 {
        let prev = rs.drop_last();
        assert(spans_within(prev, length));
        lemma_coalesce_within(prev, length);
        assert(prev.last() == rs[rs.len() - 2]);
        let acc = coalesce(prev);
        let out = coalesce(rs);
        assert(rs.last().start < rs.last().end && rs.last().end <= length);
        assert forall|i: int| 0 <= i < out.len() implies #[trigger] out[i].start < out[i].end
            && out[i].end <= length by {
            if i < acc.len() - 1 {
                assert(out[i] == acc[i]);
            }
        }
    }
}

/// The byte ranges a multi-range request reads: the unit must be `bytes`,
/// every range must be satisfiable, and the ranges are sorted by start and
/// coalesced.
pub open spec fn resolve_ranges_spec(unit: Seq<char>, ranges: Seq<HttpRange>, length: usize) -> Result<
    Seq<OpsRange<usize>>,
    RangeIndexError,
> {
    if unit != "bytes"@ {
        Err(RangeIndexError::UnknownUnit)
    } else {
        match with_length_all(ranges, length) {
            Err(e) => Err(e),
            Ok(rs) => Ok(coalesce(sort_by_start(rs))),
        }
    }
}

proof fn lemma_upper_pos(s: Seq<OpsRange<usize>>, key: usize)
    ensures
        0 <= upper_pos(s, key) <= s.len(),
    decreases s.len(),
{
    if s.len() > 0 && s[0].start <= key {
        lemma_upper_pos(s.drop_first(), key);
    }
}

proof fn lemma_upper_pos_unique(s: Seq<OpsRange<usize>>, key: usize, k: int)
    requires
        0 <= k <= s.len(),
        forall|j: int| 0 <= j < k ==> s[j].start <= key,
        k < s.len() ==> s[k].start > key,
    ensures
        upper_pos(s, key) == k,
    decreases s.len(),
{
    if s.len() > 0 && k > 0 {
        assert forall|j: int| 0 <= j < k - 1 implies s.drop_first()[j].start <= key by {
            assert(s.drop_first()[j] == s[j + 1]);
        }
        lemma_upper_pos_unique(s.drop_first(), key, k - 1);
    }
}

proof fn lemma_sort_len(s: Seq<OpsRange<usize>>)
    ensures
        sort_by_start(s).len() == s.len(),
    decreases s.len(),
{
    if s.len() > 0 {
        lemma_sort_len(s.drop_last());
        lemma_upper_pos(sort_by_start(s.drop_last()), s.last().start);
    }
}

/// The ranges sorted by start, stably.
pub fn sort_ranges_by_start(ranges: &[OpsRange<usize>]) -> (r: Vec<OpsRange<usize>>)
    ensures
        r@ == sort_by_start(ranges@),
{
    let mut out: Vec<OpsRange<usize>> = Vec::new();
    let mut i: usize = 0;
    assert(ranges@.take(0) =~= Seq::<OpsRange<usize>>::empty());
    while i < ranges.len()
        invariant
            i <= ranges.len(),
            out@ == sort_by_start(ranges@.take(i as int)),
        decreases ranges.len() - i,
    {
        let key = ranges[i].start;
        let mut j: usize = 0;
        while j < out.len() && out[j].start <= key
            invariant
                j <= out.len(),
                forall|m: int| 0 <= m < j ==> out@[m].start <= key,
            decreases out.len() - j,
        {
            j = j + 1;
        }
        proof {
            lemma_upper_pos_unique(out@, key, j as int);
            let t = ranges@.take(i + 1);
            assert(t.drop_last() == ranges@.take(i as int));
            assert(t.last() == ranges@[i as int]);
        }
        out.insert(j, OpsRange { start: ranges[i].start, end: ranges[i].end });
        i = i + 1;
    }
    assert(ranges@.take(ranges.len() as int) == ranges@);
    out
}

proof fn lemma_coalesce_nonempty(rs: Seq<OpsRange<usize>>)
    requires
        rs.len() > 0,
    ensures
        coalesce(rs).len() > 0,
    decreases rs.len(),
{
    if rs.len() > 1 {
        lemma_coalesce_nonempty(rs.drop_last());
    }
}

/// Coalesces ranges left to right, reading through gaps narrower than the
/// threshold.
pub fn coalesce_ranges(ranges: &[OpsRange<usize>]) -> (r: Vec<OpsRange<usize>>)
    requires
        ranges.len() > 0,
    ensures
        r@ == coalesce(ranges@),
{
    let mut out: Vec<OpsRange<usize>> = Vec::new();
    out.push(OpsRange { start: ranges[0].start, end: ranges[0].end });
    assert(ranges@.take(1) =~= seq![ranges@[0]]);
    let mut i: usize = 1;
    while i < ranges.len()
        invariant
            1 <= i <= ranges.len(),
            out@ == coalesce(ranges@.take(i as int)),
            out@.len() > 0,
        decreases ranges.len() - i,
    {
        let ghost t = ranges@.take(i + 1);
        assert(t.drop_last() == ranges@.take(i as int));
        assert(t.last() == ranges@[i as int]);
        let last = out.len() - 1;
        let gap = ranges[i].start.saturating_sub(out[last].end);
        if gap < INBETWEEN_THRESHOLD {
            let start = out[last].start;
            out.set(last, OpsRange { start, end: ranges[i].end });
        } else {
            out.push(OpsRange { start: ranges[i].start, end: ranges[i].end });
        }
        proof {
            lemma_coalesce_nonempty(t);
        }
        i = i + 1;
    }
    assert(ranges@.take(ranges.len() as int) == ranges@);
    out
}

/// Coalesced ranges lie at least the threshold apart: each starts no sooner
/// than the threshold after the end of the one before it.
pub proof fn lemma_coalesced_ranges_apart(rs: Seq<OpsRange<usize>>)
    requires
        rs.len() > 0,
    ensures
        forall|i: int|
            0 <= i < coalesce(rs).len() - 1 ==> coalesce(rs)[i + 1].start >= coalesce(rs)[i].end
                + INBETWEEN_THRESHOLD,
    decreases rs.len(),
{
    if rs.len() > 1 {
        lemma_coalesced_ranges_apart(rs.drop_last());
        lemma_coalesce_nonempty(rs.drop_last());
        let acc = coalesce(rs.drop_last());
        let out = coalesce(rs);
        assert forall|i: int| 0 <= i < out.len() - 1 implies out[i + 1].start >= out[i].end
            + INBETWEEN_THRESHOLD by {
            if i + 1 < acc.len() {
                assert(out[i] == acc[i] || i == acc.len() - 1);
                assert(out[i + 1].start == acc[i + 1].start);
            }
        }
    }
}

/// The byte ranges that a multi-range request reads (the ranges part of
/// answering such a request).
pub fn resolve_ranges(unit: &str, ranges: &[HttpRange], length: usize) -> (r: Result<
    Vec<OpsRange<usize>>,
    RangeIndexError,
>)
    requires
        ranges.len() > 0,
    ensures
        match r {
            Ok(v) => resolve_ranges_spec(unit@, ranges@, length) == Ok::<
                Seq<OpsRange<usize>>,
                RangeIndexError,
            >(v@),
            Err(e) => resolve_ranges_spec(unit@, ranges@, length) == Err::<
                Seq<OpsRange<usize>>,
                RangeIndexError,
            >(e),
        },
        (r matches Ok(v) ==> spans_within(v@, length)),
{
    let cs = chars_of(unit);
    if !chars_eq_str(cs.as_slice(), "bytes") {
        return Err(RangeIndexError::UnknownUnit);
    }
    let mut selected: Vec<OpsRange<usize>> = Vec::new();
    let mut i: usize = 0;
    assert(ranges@.take(0) =~= Seq::<HttpRange>::empty());
    while i < ranges.len()
        invariant
            i <= ranges.len(),
            unit@ == "bytes"@,
            with_length_all(ranges@.take(i as int), length) == Ok::<
                Seq<OpsRange<usize>>,
                RangeIndexError,
            >(selected@),
            selected@.len() == i,
            spans_within(selected@, length),
        decreases ranges.len() - i,
    {
        let ghost t = ranges@.take(i + 1);
        assert(t.drop_last() == ranges@.take(i as int));
        assert(t.last() == ranges@[i as int]);
        let r = ranges[i].selection(length);
        match r {
            Ok(v) => {
                selected.push(v);
            },
            Err(e) => {
                proof {
                    lemma_with_length_all_stops(ranges@, length, i as int);
                }
                return Err(e);
            },
        }
        i = i + 1;
    }
    assert(ranges@.take(ranges.len() as int) == ranges@);
    let sorted = sort_ranges_by_start(selected.as_slice());
    proof {
        lemma_sort_len(selected@);
        lemma_sort_within(selected@, length);
        lemma_sorted_by_start(selected@);
        lemma_coalesce_within(sorted@, length);
    }
    Ok(coalesce_ranges(sorted.as_slice()))
}

/// The header that opens one part of a multipart range response.
pub open spec fn part_header(boundary: Seq<char>, range: OpsRange<usize>, length: usize) -> Seq<
    char,
> {
    boundary + "\r\ncontent-type: application/octet-stream\r\ncontent-range: bytes "@ + int_to_dec(
        range.start as int,
    ) + "-"@ + int_to_dec(range.end - 1) + "/"@ + int_to_dec(length as int) + "\r\n\r\n"@
}

/// Each part's header followed by its bytes, in order.
pub open spec fn parts_bytes(datas: Seq<DataRange>, boundary: Seq<char>) -> Seq<u8>
    decreases datas.len(),
{
    if datas.len() == 0 {
        seq![]
    } else {
        parts_bytes(datas.drop_last(), boundary) + vstd::utf8::encode_utf8(
            part_header(boundary, datas.last().range, datas.last().length),
        ) + datas.last().data@
    }
}

fn part_header_text(boundary: &str, range: &OpsRange<usize>, length: usize) -> (r: String)
    requires
        range.start < range.end,
    ensures
        r@ == part_header(boundary@, *range, length),
{
    let mut s = String::new();
    let b = chars_of(boundary);
    push_chars(&mut s, b.as_slice());
    let t = chars_of("\r\ncontent-type: application/octet-stream\r\ncontent-range: bytes ");
    push_chars(&mut s, t.as_slice());
    let d = format_u64(range.start as u64);
    push_chars(&mut s, d.as_slice());
    let t = chars_of("-");
    push_chars(&mut s, t.as_slice());
    let d = format_u64((range.end - 1) as u64);
    push_chars(&mut s, d.as_slice());
    let t = chars_of("/");
    push_chars(&mut s, t.as_slice());
    let d = format_u64(length as u64);
    push_chars(&mut s, d.as_slice());
    let t = chars_of("\r\n\r\n");
    push_chars(&mut s, t.as_slice());
    s
}

/// The body of a multipart range response: each part's header and bytes, then
/// the closing boundary.
pub fn merge_ranges(datas: &[DataRange], boundary: &str) -> (r: Vec<u8>)
    requires
        forall|i: int| 0 <= i < datas.len() ==> #[trigger] datas@[i].range.start < datas@[i].range.end,
    ensures
        r@ == parts_bytes(datas@, boundary@) + vstd::utf8::encode_utf8(boundary@),
{
    let mut joined: Vec<u8> = Vec::new();
    let mut i: usize = 0;
    assert(datas@.take(0) =~= Seq::<DataRange>::empty());
    while i < datas.len()
        invariant
            i <= datas.len(),
            forall|j: int| 0 <= j < datas.len() ==> #[trigger] datas@[j].range.start < datas@[j].range.end,
            joined@ == parts_bytes(datas@.take(i as int), boundary@),
        decreases datas.len() - i,
    {
        let ghost t = datas@.take(i + 1);
        assert(t.drop_last() == datas@.take(i as int));
        assert(t.last() == datas@[i as int]);
        let header = part_header_text(boundary, &datas[i].range, datas[i].length);
        joined.extend_from_slice(header.as_str().as_bytes());
        joined.extend_from_slice(datas[i].data.as_slice());
        i = i + 1;
    }
    assert(datas@.take(datas.len() as int) == datas@);
    joined.extend_from_slice(boundary.as_bytes());
    joined
}

/// `needle` occurs somewhere in `hay`.
pub open spec fn occurs_in(hay: Seq<u8>, needle: Seq<u8>) -> bool {
    exists|i: int| 0 <= i && i + needle.len() <= hay.len() && #[trigger] hay.subrange(i, i + needle.len()) == needle
}

/// Whether `needle` occurs in `hay` as a run of consecutive bytes.
pub fn contains_window(hay: &[u8], needle: &[u8]) -> (r: bool)
    requires
        needle.len() > 0,
    ensures
        r == occurs_in(hay@, needle@),
{
    if needle.len() > hay.len() {
        return false;
    }
    let last = hay.len() - needle.len();
    let mut i: usize = 0;
    while i <= last
        invariant
            needle.len() <= hay.len(),
            last == hay.len() - needle.len(),
            i <= last + 1,
            forall|k: int| 0 <= k < i ==> #[trigger] hay@.subrange(k, k + needle.len()) != needle@,
        decreases last + 1 - i,
    {
        let mut j: usize = 0;
        let mut same = true;
        while j < needle.len()
            invariant
                i + needle.len() <= hay.len(),
                j <= needle.len(),
                same == (forall|m: int| 0 <= m < j ==> hay@[i + m] == needle@[m]),
            decreases needle.len() - j,
        {
            if hay[i + j] != needle[j] {
                same = false;
            }
            j = j + 1;
        }
        if same {
            assert(hay@.subrange(i as int, i + needle.len()) =~= needle@);
            return true;
        }
        proof {
            let m = choose|m: int| 0 <= m < needle.len() && hay@[i + m] != needle@[m];
            assert(hay@.subrange(i as int, i + needle.len())[m] != needle@[m]);
        }
        i = i + 1;
    }
    false
}

/// Whether a multipart boundary occurs in the bytes of any part; such a
/// boundary is not used.
pub fn boundary_collides(datas: &[DataRange], boundary: &str) -> (r: bool)
    requires
        boundary@.len() > 0,
    ensures
        r == exists|k: int|
            0 <= k < datas.len() && occurs_in(
                #[trigger] datas@[k].data@,
                vstd::utf8::encode_utf8(boundary@),
            ),
{
    let needle = boundary.as_bytes();
    proof {
        lemma_encode_nonempty(boundary@);
    }
    let mut k: usize = 0;
    while k < datas.len()
        invariant
            k <= datas.len(),
            needle@ == vstd::utf8::encode_utf8(boundary@),
            needle@.len() > 0,
            forall|m: int| 0 <= m < k ==> !occurs_in(#[trigger] datas@[m].data@, needle@),
        decreases datas.len() - k,
    {
        if contains_window(datas[k].data.as_slice(), needle) {
            return true;
        }
        k = k + 1;
    }
    false
}

proof fn lemma_encode_nonempty(cs: Seq<char>)
    requires
        cs.len() > 0,
    ensures
        vstd::utf8::encode_utf8(cs).len() > 0,
{
    assert(vstd::utf8::encode_scalar(cs[0] as u32).len() > 0);
}

proof fn lemma_with_length_all_stops(ranges: Seq<HttpRange>, length: usize, i: int)
    requires
        0 <= i < ranges.len(),
        with_length_all(ranges.take(i), length) is Ok,
        selection_spec(ranges[i], length) is Err,
    ensures
        with_length_all(ranges, length) == Err::<Seq<OpsRange<usize>>, RangeIndexError>(
            selection_spec(ranges[i], length)->Err_0,
        ),
    decreases ranges.len(),
{
    if i == ranges.len() - 1 {
        assert(ranges.drop_last() == ranges.take(i));
    } else {
        assert(ranges.drop_last().take(i) == ranges.take(i));
        assert(ranges.drop_last()[i] == ranges[i]);
        lemma_with_length_all_stops(ranges.drop_last(), length, i);
    }
}

/// The numbers that a `tinyrand::Wyrand` seeded with `seed` draws, one after
/// another, from `start..end`, `count` of them. `Wyrand` holds nothing but its
/// seed, so these depend on the arguments alone.
pub uninterp spec fn wyrand_draws(seed: u64, count: nat, start: u16, end: u16) -> Seq<u16>;

/// Seeds a `tinyrand::Wyrand` with `seed` (`Seeded::seed`) and calls
/// `RandRange::<u16>::next_range(start..end)` on it `count` times, keeping the
/// numbers in the order drawn. `next_range` asserts that the range is not
/// empty and gives `start` plus a number below `end - start`. Claims that the
/// numbers are `wyrand_draws(seed, count, start, end)`, that there are `count`
/// of them and that each lies in the range.
#[verifier::external_body]
fn draw_in_range(seed: u64, count: usize, start: u16, end: u16) -> (r: Vec<u16>)
    requires
        start < end,
    ensures
        r@ == wyrand_draws(seed, count as nat, start, end),
        r@.len() == count,
        forall|i: int| 0 <= i < r@.len() ==> start <= #[trigger] r@[i] < end,
{
    let mut generator = <tinyrand::Wyrand as Seeded>::seed(seed);
    (0..count).map(|_| generator.next_range(start..end)).collect()
}

/// Whether a text is a boundary as `random_boundary_string` makes them: `--`
/// and eight lowercase letters.
pub open spec fn is_boundary_text(t: Seq<char>) -> bool {
    &&& t.len() == 10
    &&& t[0] == '-' && t[1] == '-'
    &&& forall|i: int| 2 <= i < 10 ==> 'a' <= #[trigger] t[i] <= 'z'
}

/// The eight letters of the boundary made from `seed`: the letters whose codes
/// a generator seeded with `seed` draws from `a..=z`.
pub open spec fn boundary_letters(seed: u64) -> Seq<char> {
    wyrand_draws(seed, 8, 97, 123).map_values(|c: u16| c as char)
}

/// A boundary from eight character codes of lowercase letters: `--` and the
/// letters in order.
pub fn boundary_from_codes(codes: &[u16]) -> (r: String)
    requires
        codes@.len() == 8,
        forall|i: int| 0 <= i < 8 ==> 97 <= #[trigger] codes@[i] < 123,
    ensures
        r@ == seq!['-', '-'] + codes@.map_values(|c: u16| c as char),
        is_boundary_text(r@),
{
    let mut cs: Vec<char> = Vec::new();
    cs.push('-');
    cs.push('-');
    let mut i: usize = 0;
    while i < 8
        invariant
            i <= 8,
            codes@.len() == 8,
            forall|j: int| 0 <= j < 8 ==> 97 <= #[trigger] codes@[j] < 123,
            cs@.len() == 2 + i,
            cs@[0] == '-' && cs@[1] == '-',
            forall|j: int| 2 <= j < 2 + i ==> #[trigger] cs@[j] == codes@[j - 2] as char,
            forall|j: int| 2 <= j < 2 + i ==> 'a' <= #[trigger] cs@[j] <= 'z',
        decreases 8 - i,
    {
        let code = codes[i];
        let c = (code as u8) as char;
        assert(c == code as char && 'a' <= c <= 'z') by {
            assert(code as u8 == code);
        }
        cs.push(c);
        i = i + 1;
    }
    assert(cs@ =~= seq!['-', '-'] + codes@.map_values(|c: u16| c as char));
    string_of(cs.as_slice())
}

/// A boundary for a multipart body: `--` and eight lowercase letters drawn
/// from `a..=z` by a generator seeded with `seed`.
pub fn random_boundary_string(seed: u64) -> (r: String)
    ensures
        r@ == seq!['-', '-'] + boundary_letters(seed),
        is_boundary_text(r@),
{
    let codes = draw_in_range(seed, 8, 97, 123);
    boundary_from_codes(codes.as_slice())
}

proof fn lemma_upper_pos_split(s: Seq<OpsRange<usize>>, key: usize)
    ensures
        0 <= upper_pos(s, key) <= s.len(),
        forall|j: int| 0 <= j < upper_pos(s, key) ==> s[j].start <= key,
        upper_pos(s, key) < s.len() ==> s[upper_pos(s, key)].start > key,
    decreases s.len(),
{
    if s.len() > 0 && s[0].start <= key {
        lemma_upper_pos_split(s.drop_first(), key);
        assert forall|j: int| 0 <= j < upper_pos(s, key) implies s[j].start <= key by {
            if j > 0 {
                assert(s[j] == s.drop_first()[j - 1]);
            }
        }
    }
}

/// Law: ranges sorted by start come in order of their starts, and are the
/// same ranges, each as often as before.
pub proof fn lemma_sorted_by_start(s: Seq<OpsRange<usize>>)
    ensures
        forall|i: int, j: int|
            0 <= i <= j < sort_by_start(s).len() ==> sort_by_start(s)[i].start <= sort_by_start(
                s,
            )[j].start,
        sort_by_start(s).to_multiset() == s.to_multiset(),
    decreases s.len(),
{
    broadcast use vstd::seq_lib::to_multiset_insert, vstd::seq_lib::to_multiset_build;

    if s.len() > 0 {
        let prev = s.drop_last();
        lemma_sorted_by_start(prev);
        lemma_sort_len(prev);
        let sorted = sort_by_start(prev);
        let key = s.last().start;
        let p = upper_pos(sorted, key);
        lemma_upper_pos_split(sorted, key);
        let out = sorted.insert(p, s.last());
        assert(out == sort_by_start(s));
        assert forall|i: int, j: int| 0 <= i <= j < out.len() implies out[i].start <= out[j].start by {
            if i < p && j < p {
                assert(out[i] == sorted[i] && out[j] == sorted[j]);
            } else if i < p && j == p {
                assert(out[i] == sorted[i]);
            } else if i < p {
                assert(out[i] == sorted[i] && out[j] == sorted[j - 1]);
            } else if i == p && j > p {
                assert(out[j] == sorted[j - 1]);
                assert(sorted[p].start > key);
                assert(sorted[p].start <= sorted[j - 1].start);
            } else if i > p {
                assert(out[i] == sorted[i - 1] && out[j] == sorted[j - 1]);
            }
        }
        assert(s == prev.push(s.last()));
    }
}

/// Whether ranges come in order of their starts, with ends that never go back.
pub open spec fn starts_and_ends_ordered(rs: Seq<OpsRange<usize>>) -> bool {
    forall|i: int, j: int|
        0 <= i <= j < rs.len() ==> rs[i].start <= rs[j].start && rs[i].end <= rs[j].end
}

proof fn lemma_coalesce_last(rs: Seq<OpsRange<usize>>)
    requires
        rs.len() > 0,
        starts_and_ends_ordered(rs),
    ensures
        coalesce(rs).len() > 0,
        coalesce(rs).last().end == rs.last().end,
        coalesce(rs).last().start <= rs.last().start,
    decreases rs.len(),
{
    lemma_coalesce_nonempty(rs);
    if rs.len() > 1 {
        let prev = rs.drop_last();
        assert(starts_and_ends_ordered(prev));
        lemma_coalesce_last(prev);
        assert(prev.last() == rs[rs.len() - 2]);
    }
}

/// Whether a range lies within one of the ranges.
pub open spec fn covered(outs: Seq<OpsRange<usize>>, r: OpsRange<usize>) -> bool {
    exists|k: int| 0 <= k < outs.len() && #[trigger] outs[k].start <= r.start && r.end <= outs[k].end
}

/// Law: where the ranges come in order of their starts and their ends never
/// go back, every range lies within one of the coalesced ranges. (A range that
/// lies inside the one before it, as `0..100` then `10..20`, cuts the coalesced
/// range short at its own end.)
pub proof fn lemma_coalesced_ranges_cover(rs: Seq<OpsRange<usize>>)
    requires
        rs.len() > 0,
        starts_and_ends_ordered(rs),
    ensures
        forall|i: int| 0 <= i < rs.len() ==> covered(coalesce(rs), #[trigger] rs[i]),
    decreases rs.len(),
{
    if rs.len() > 1 {
        let prev = rs.drop_last();
        assert(starts_and_ends_ordered(prev));
        lemma_coalesced_ranges_cover(prev);
        lemma_coalesce_last(prev);
        let acc = coalesce(prev);
        let r = rs.last();
        let out = coalesce(rs);
        assert(out == coalesce_step(acc, r));
        let n: int = acc.len() as int;
        assert(prev.last() == rs[rs.len() - 2]);
        assert forall|i: int| 0 <= i < rs.len() implies covered(out, #[trigger] rs[i]) by {
            if i == rs.len() - 1 {
                if out.len() == n {
                    assert(out[n - 1].start == acc[n - 1].start);
                    assert(out[n - 1].end == r.end);
                    assert(out[n - 1].start <= rs[i].start && rs[i].end <= out[n - 1].end);
                } else {
                    assert(out[n] == r);
                    assert(out[n].start <= rs[i].start && rs[i].end <= out[n].end);
                }
            } else {
                assert(rs[i] == prev[i]);
                assert(covered(acc, prev[i]));
                let k = choose|k: int|
                    0 <= k < acc.len() && #[trigger] acc[k].start <= prev[i].start && prev[i].end
                        <= acc[k].end;
                if out.len() == n && k == n - 1 {
                    assert(acc[k].end == prev.last().end);
                    assert(prev.last().end <= r.end);
                    assert(out[k].start == acc[k].start && out[k].end == r.end);
                    assert(out[k].start <= rs[i].start && rs[i].end <= out[k].end);
                } else {
                    assert(out[k] == acc[k]);
                    assert(out[k].start <= rs[i].start && rs[i].end <= out[k].end);
                }
            }
        }
    } else {
        assert(coalesce(rs) == rs);
        assert(coalesce(rs)[0].start <= rs[0].start && rs[0].end <= coalesce(rs)[0].end);
    }
}

} // verus!
