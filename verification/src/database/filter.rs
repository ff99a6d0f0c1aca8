//! Ranges that filter listings: `a..b`, `a..`, `..b`, a single value, or none.
use vstd::prelude::*;

use crate::decimal::{format_i64, format_u64, int_to_dec, parse_int, parse_int_spec, IntErrorKind};
use crate::text::{chars_of, push_chars, split_once_pair, split_once_pair_spec};

verus! {

broadcast use vstd::string::group_string_axioms;

/// An integer type that a filter range can bound.
pub trait RangeValue: Sized + Copy {
    spec fn spec_value(&self) -> int;

    spec fn spec_min() -> int;

    spec fn spec_max() -> int;

    /// `self <= other`.
    fn le(&self, other: &Self) -> (r: bool)
        ensures
            r == (self.spec_value() <= other.spec_value()),
    ;

    /// `self == other`.
    fn same(&self, other: &Self) -> (r: bool)
        ensures
            r == (self.spec_value() == other.spec_value()),
    ;

    /// The decimal text of the value, as `Display` writes it.
    fn to_chars(&self) -> (r: Vec<char>)
        ensures
            r@ == int_to_dec(self.spec_value()),
    ;

    /// Reads a value as `str::parse` does.
    fn parse_chars(cs: &[char]) -> (r: Result<Self, IntErrorKind>)
        ensures
            match r {
                Ok(v) => parse_int_spec(cs@, Self::spec_min(), Self::spec_max()) == Ok::<
                    int,
                    IntErrorKind,
                >(v.spec_value()),
                Err(e) => parse_int_spec(cs@, Self::spec_min(), Self::spec_max()) == Err::<
                    int,
                    IntErrorKind,
                >(e),
            },
    ;

    /// Values lie within the type's bounds, which hold 0.
    proof fn lemma_bounds(&self)
        ensures
            Self::spec_min() <= self.spec_value() <= Self::spec_max(),
            Self::spec_min() <= 0 <= Self::spec_max(),
    ;

    /// Every integer within the bounds is the value of exactly one value.
    proof fn lemma_unique(a: Self, b: Self)
        ensures
            a.spec_value() == b.spec_value() ==> a == b,
    ;
}

impl RangeValue for u64 {
    open spec fn spec_value(&self) -> int {
        *self as int
    }

    open spec fn spec_min() -> int {
        0
    }

    open spec fn spec_max() -> int {
        u64::MAX as int
    }

    fn le(&self, other: &Self) -> (r: bool) {
        *self <= *other
    }

    fn same(&self, other: &Self) -> (r: bool) {
        *self == *other
    }

    fn to_chars(&self) -> (r: Vec<char>) {
        format_u64(*self)
    }

    fn parse_chars(cs: &[char]) -> (r: Result<Self, IntErrorKind>) {
        match parse_int(cs, 0, u64::MAX as i128) {
            Ok(v) => Ok(v as u64),
            Err(e) => Err(e),
        }
    }

    proof fn lemma_bounds(&self) {
    }

    proof fn lemma_unique(a: Self, b: Self) {
    }
}

impl RangeValue for u32 {
    open spec fn spec_value(&self) -> int {
        *self as int
    }

    open spec fn spec_min() -> int {
        0
    }

    open spec fn spec_max() -> int {
        u32::MAX as int
    }

    fn le(&self, other: &Self) -> (r: bool) {
        *self <= *other
    }

    fn same(&self, other: &Self) -> (r: bool) {
        *self == *other
    }

    fn to_chars(&self) -> (r: Vec<char>) {
        format_u64(*self as u64)
    }

    fn parse_chars(cs: &[char]) -> (r: Result<Self, IntErrorKind>) {
        match parse_int(cs, 0, u32::MAX as i128) {
            Ok(v) => Ok(v as u32),
            Err(e) => Err(e),
        }
    }

    proof fn lemma_bounds(&self) {
    }

    proof fn lemma_unique(a: Self, b: Self) {
    }
}

impl RangeValue for u8 {
    open spec fn spec_value(&self) -> int {
        *self as int
    }

    open spec fn spec_min() -> int {
        0
    }

    open spec fn spec_max() -> int {
        u8::MAX as int
    }

    fn le(&self, other: &Self) -> (r: bool) {
        *self <= *other
    }

    fn same(&self, other: &Self) -> (r: bool) {
        *self == *other
    }

    fn to_chars(&self) -> (r: Vec<char>) {
        format_u64(*self as u64)
    }

    fn parse_chars(cs: &[char]) -> (r: Result<Self, IntErrorKind>) {
        match parse_int(cs, 0, u8::MAX as i128) {
            Ok(v) => Ok(v as u8),
            Err(e) => Err(e),
        }
    }

    proof fn lemma_bounds(&self) {
    }

    proof fn lemma_unique(a: Self, b: Self) {
    }
}

impl RangeValue for usize {
    open spec fn spec_value(&self) -> int {
        *self as int
    }

    open spec fn spec_min() -> int {
        0
    }

    open spec fn spec_max() -> int {
        usize::MAX as int
    }

    fn le(&self, other: &Self) -> (r: bool) {
        *self <= *other
    }

    fn same(&self, other: &Self) -> (r: bool) {
        *self == *other
    }

    fn to_chars(&self) -> (r: Vec<char>) {
        format_u64(*self as u64)
    }

    fn parse_chars(cs: &[char]) -> (r: Result<Self, IntErrorKind>) {
        match parse_int(cs, 0, usize::MAX as i128) {
            Ok(v) => Ok(v as usize),
            Err(e) => Err(e),
        }
    }

    proof fn lemma_bounds(&self) {
    }

    proof fn lemma_unique(a: Self, b: Self) {
    }
}

impl RangeValue for i64 {
    open spec fn spec_value(&self) -> int {
        *self as int
    }

    open spec fn spec_min() -> int {
        i64::MIN as int
    }

    open spec fn spec_max() -> int {
        i64::MAX as int
    }

    fn le(&self, other: &Self) -> (r: bool) {
        *self <= *other
    }

    fn same(&self, other: &Self) -> (r: bool) {
        *self == *other
    }

    fn to_chars(&self) -> (r: Vec<char>) {
        format_i64(*self)
    }

    fn parse_chars(cs: &[char]) -> (r: Result<Self, IntErrorKind>) {
        match parse_int(cs, i64::MIN as i128, i64::MAX as i128) {
            Ok(v) => Ok(v as i64),
            Err(e) => Err(e),
        }
    }

    proof fn lemma_bounds(&self) {
    }

    proof fn lemma_unique(a: Self, b: Self) {
    }
}

impl RangeValue for i32 {
    open spec fn spec_value(&self) -> int {
        *self as int
    }

    open spec fn spec_min() -> int {
        i32::MIN as int
    }

    open spec fn spec_max() -> int {
        i32::MAX as int
    }

    fn le(&self, other: &Self) -> (r: bool) {
        *self <= *other
    }

    fn same(&self, other: &Self) -> (r: bool) {
        *self == *other
    }

    fn to_chars(&self) -> (r: Vec<char>) {
        format_i64(*self as i64)
    }

    fn parse_chars(cs: &[char]) -> (r: Result<Self, IntErrorKind>) {
        match parse_int(cs, i32::MIN as i128, i32::MAX as i128) {
            Ok(v) => Ok(v as i32),
            Err(e) => Err(e),
        }
    }

    proof fn lemma_bounds(&self) {
    }

    proof fn lemma_unique(a: Self, b: Self) {
    }
}

/// A range of values: a value is in it when it is at or after the start, if
/// any, and at or before the end, if any.
#[derive(Debug)]
pub struct FilterRange<T> {
    pub start: Option<T>,
    pub end: Option<T>,
}

/// The text of a filter range: `start..end` with an open bound left out, a
/// single value where both bounds are that value, and no text at all for the
/// range open at both ends.
pub open spec fn filter_text<T: RangeValue>(r: FilterRange<T>) -> Seq<char> {
    match (r.start, r.end) {
        (Some(s), Some(e)) => if s.spec_value() == e.spec_value() {
            int_to_dec(e.spec_value())
        } else {
            int_to_dec(s.spec_value()) + ".."@ + int_to_dec(e.spec_value())
        },
        (Some(s), None) => int_to_dec(s.spec_value()) + ".."@,
        (None, Some(e)) => ".."@ + int_to_dec(e.spec_value()),
        (None, None) => Seq::<char>::empty(),
    }
}

/// One end of a range: empty for none, else a number.
pub open spec fn bound_spec<T: RangeValue>(s: Seq<char>) -> Result<Option<int>, IntErrorKind> {
    if s.len() == 0 {
        Ok(None)
    } else {
        match parse_int_spec(s, T::spec_min(), T::spec_max()) {
            Ok(v) => Ok(Some(v)),
            Err(e) => Err(e),
        }
    }
}

/// The reading of a filter range: empty for the open range; `start..end` with
/// either side possibly empty; or one number, for the range of that value alone.
/// Values are given as integers.
pub open spec fn parse_filter_spec<T: RangeValue>(v: Seq<char>) -> Result<
    (Option<int>, Option<int>),
    IntErrorKind,
> {
    if v.len() == 0 {
        Ok((None, None))
    } else {
        match split_once_pair_spec(v, '.') {
            Some((a, b)) => match bound_spec::<T>(a) {
                Err(e) => Err(e),
                Ok(start) => match bound_spec::<T>(b) {
                    Err(e) => Err(e),
                    Ok(end) => Ok((start, end)),
                },
            },
            None => match parse_int_spec(v, T::spec_min(), T::spec_max()) {
                Ok(n) => Ok((Some(n), Some(n))),
                Err(e) => Err(e),
            },
        }
    }
}

/// The integer of an optional value.
pub open spec fn opt_value<T: RangeValue>(o: Option<T>) -> Option<int> {
    match o {
        Some(v) => Some(v.spec_value()),
        None => None,
    }
}

impl<T: RangeValue> FilterRange<T> {
    /// Whether the value lies in the range.
    pub fn contains(&self, value: T) -> (r: bool)
        ensures
            r == ((self.start matches Some(s) ==> s.spec_value() <= value.spec_value()) && (
            self.end matches Some(e) ==> value.spec_value() <= e.spec_value())),
    {
        let after_start = match &self.start {
            Some(start) => start.le(&value),
            None => true,
        };
        let before_end = match &self.end {
            Some(end) => value.le(end),
            None => true,
        };
        after_start && before_end
    }

    /// Whether the range bounds nothing.
    pub fn is_open(&self) -> (r: bool)
        ensures
            r == (self.start is None && self.end is None),
    {
        self.start.is_none() && self.end.is_none()
    }

    /// The open range.
    pub fn default() -> (r: Self)
        ensures
            r.start is None,
            r.end is None,
    {
        Self { start: None, end: None }
    }

    /// The text of the range, `filter_text`; `parse` reads it back as the
    /// same range.
    pub fn to_string(&self) -> (r: String)
        ensures
            r@ == filter_text(*self),
            parse_filter_spec::<T>(r@) == Ok::<(Option<int>, Option<int>), IntErrorKind>(
                (opt_value(self.start), opt_value(self.end)),
            ),
    {
        proof {
            lemma_filter_round_trip(*self);
        }
        let mut s = String::new();
        let dots = chars_of("..");
        match (&self.start, &self.end) {
            (Some(start), Some(end)) => {
                if start.same(end) {
                    push_chars(&mut s, end.to_chars().as_slice());
                } else {
                    push_chars(&mut s, start.to_chars().as_slice());
                    push_chars(&mut s, dots.as_slice());
                    push_chars(&mut s, end.to_chars().as_slice());
                }
            },
            (Some(start), None) => {
                push_chars(&mut s, start.to_chars().as_slice());
                push_chars(&mut s, dots.as_slice());
            },
            (None, Some(end)) => {
                push_chars(&mut s, dots.as_slice());
                push_chars(&mut s, end.to_chars().as_slice());
            },
            (None, None) => {},
        }
        s
    }

    /// Reads a range from its text.
    pub fn parse(v: &str) -> (r: Result<Self, IntErrorKind>)
        ensures
            match r {
                Ok(f) => parse_filter_spec::<T>(v@) == Ok::<(Option<int>, Option<int>), IntErrorKind>(
                    (opt_value(f.start), opt_value(f.end)),
                ),
                Err(e) => parse_filter_spec::<T>(v@) == Err::<
                    (Option<int>, Option<int>),
                    IntErrorKind,
                >(e),
            },
    {
        let cs = chars_of(v);
        if cs.len() == 0 {
            return Ok(Self::default());
        }
        match split_once_pair(cs.as_slice(), '.') {
            Some((start, end)) => {
                let start = if start.len() == 0 {
                    None
                } else {
                    Some(T::parse_chars(start.as_slice())?)
                };
                let end = if end.len() == 0 {
                    None
                } else {
                    Some(T::parse_chars(end.as_slice())?)
                };
                Ok(Self { start, end })
            },
            None => {
                let number = T::parse_chars(cs.as_slice())?;
                Ok(Self { start: Some(number), end: Some(number) })
            },
        }
    }
}

proof fn lemma_dec_no_dot(n: int)
    ensures
        !int_to_dec(n).contains('.'),
        int_to_dec(n).len() > 0,
{
    let m: nat = if n < 0 {
        (-n) as nat
    } else {
        n as nat
    };
    crate::decimal::lemma_nat_to_dec_lacks(m, '.');
    if n < 0 && int_to_dec(n).contains('.') {
        let t = int_to_dec(n);
        let j = choose|j: int| 0 <= j < t.len() && t[j] == '.';
        assert(t == seq!['-'] + crate::decimal::nat_to_dec(m));
        assert(j > 0);
        assert(crate::decimal::nat_to_dec(m)[j - 1] == '.');
    }
}

/// Law: the text of a filter range reads back as the same range.
pub proof fn lemma_filter_round_trip<T: RangeValue>(r: FilterRange<T>)
    ensures
        parse_filter_spec::<T>(filter_text(r)) == Ok::<(Option<int>, Option<int>), IntErrorKind>(
            (opt_value(r.start), opt_value(r.end)),
        ),
{
    reveal_strlit("..");
    match (r.start, r.end) {
        (Some(s), Some(e)) => {
            s.lemma_bounds();
            e.lemma_bounds();
            lemma_dec_no_dot(s.spec_value());
            lemma_dec_no_dot(e.spec_value());
            crate::decimal::lemma_parse_int_to_dec(e.spec_value(), T::spec_min(), T::spec_max());
            crate::decimal::lemma_parse_int_to_dec(s.spec_value(), T::spec_min(), T::spec_max());
            if s.spec_value() == e.spec_value() {
                crate::text::lemma_no_pair(int_to_dec(e.spec_value()), '.');
            } else {
                assert(int_to_dec(s.spec_value()) + ".."@ + int_to_dec(e.spec_value()) =~= int_to_dec(
                    s.spec_value(),
                ) + seq!['.', '.'] + int_to_dec(e.spec_value()));
                crate::text::lemma_split_once_pair_at(
                    int_to_dec(s.spec_value()),
                    '.',
                    int_to_dec(e.spec_value()),
                );
            }
        },
        (Some(s), None) => {
            s.lemma_bounds();
            lemma_dec_no_dot(s.spec_value());
            crate::decimal::lemma_parse_int_to_dec(s.spec_value(), T::spec_min(), T::spec_max());
            assert(int_to_dec(s.spec_value()) + ".."@ =~= int_to_dec(s.spec_value()) + seq![
                '.',
                '.',
            ] + Seq::<char>::empty());
            crate::text::lemma_split_once_pair_at(
                int_to_dec(s.spec_value()),
                '.',
                Seq::<char>::empty(),
            );
        },
        (None, Some(e)) => {
            e.lemma_bounds();
            lemma_dec_no_dot(e.spec_value());
            crate::decimal::lemma_parse_int_to_dec(e.spec_value(), T::spec_min(), T::spec_max());
            assert(".."@ + int_to_dec(e.spec_value()) =~= Seq::<char>::empty() + seq!['.', '.']
                + int_to_dec(e.spec_value()));
            assert(!Seq::<char>::empty().contains('.'));
            crate::text::lemma_split_once_pair_at(
                Seq::<char>::empty(),
                '.',
                int_to_dec(e.spec_value()),
            );
        },
        (None, None) => {},
    }
}

/// Reads filter ranges of `T` from the text a query string holds for them.
pub struct FilterRangeVisitor<T> {
    pub marker: std::marker::PhantomData<T>,
}

impl<T: RangeValue> FilterRangeVisitor<T> {
    /// A reader of ranges of `T`.
    pub fn new() -> (r: Self) {
        FilterRangeVisitor { marker: std::marker::PhantomData }
    }

    /// What the reader expects.
    pub fn expecting(&self) -> (r: &'static str)
        ensures
            r@ == "A number or range"@,
    {
        "A number or range"
    }

    /// Reads a range from its text: `parse_filter_spec`, which reads back the
    /// text `FilterRange::to_string` writes as the same range.
    pub fn visit_str(&self, v: &str) -> (r: Result<FilterRange<T>, IntErrorKind>)
        ensures
            match r {
                Ok(f) => parse_filter_spec::<T>(v@) == Ok::<(Option<int>, Option<int>), IntErrorKind>(
                    (opt_value(f.start), opt_value(f.end)),
                ),
                Err(e) => parse_filter_spec::<T>(v@) == Err::<
                    (Option<int>, Option<int>),
                    IntErrorKind,
                >(e),
            },
    {
        FilterRange::parse(v)
    }
}

} // verus!
