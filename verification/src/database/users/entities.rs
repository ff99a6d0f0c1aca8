//! Directory entries: users read from LDAP and the times LDAP writes.
use vstd::prelude::*;
use vstd::utf8::{encode_utf8, is_ascii_chars, is_ascii_chars_encode_utf8, is_continuation_byte};

use chrono::{Datelike, Timelike};

use crate::decimal::{
    format_zero_padded, is_digit, lemma_nat_to_dec_digits, lemma_nat_to_dec_short,
    lemma_parse_zero_padded, nat_to_dec, padded, parse_i32, parse_i32_spec, parse_u32,
    parse_u32_spec, zero_padded, zeros,
};
use crate::database::faction_member::JoinIntent;
use crate::text::{chars_eq, chars_of, push_char, push_chars};

verus! {

/// Why an LDAP time was refused.
#[derive(Debug, Clone, Copy, PartialEq, Eq, Structural)]
pub enum TimestampParseError {
    IncorrectTimestampLength,
    IncorrectTimestampSuffix,
    IncorrectTimestampYear,
    IncorrectTimestampMonth,
    IncorrectTimestampDay,
    IncorrectTimestampHour,
    IncorrectTimestampMinute,
    IncorrectTimestampSecond,
    InvalidDate,
    InvalidTime,
}

/// A UTC time field by field, as LDAP writes it: `YYYYMMDDHHMMSSZ`.
#[derive(Debug, Clone, Copy, PartialEq, Eq, Structural)]
pub struct LDAPTimestamp {
    pub year: i32,
    pub month: u32,
    pub day: u32,
    pub hour: u32,
    pub minute: u32,
    pub second: u32,
}

/// Whether a year has a leap day in the proleptic Gregorian calendar.
pub open spec fn is_leap_year(year: int) -> bool {
    (year % 4 == 0 && year % 100 != 0) || year % 400 == 0
}

/// The number of days of a month.
pub open spec fn days_in_month(year: int, month: int) -> int {
    if month == 2 {
        if is_leap_year(year) {
            29
        } else {
            28
        }
    } else if month == 4 || month == 6 || month == 9 || month == 11 {
        30
    } else {
        31
    }
}

/// Whether a calendar date exists in the range of years that `chrono` holds.
pub open spec fn date_exists(year: i32, month: u32, day: u32) -> bool {
    &&& -262143 <= year <= 262142
    &&& 1 <= month <= 12
    &&& 1 <= day <= days_in_month(year as int, month as int)
}

/// Whether a time of day exists (no leap second).
pub open spec fn time_exists(hour: u32, minute: u32, second: u32) -> bool {
    hour < 24 && minute < 60 && second < 60
}

/// The number of days from 1970-01-01 to a date of the proleptic Gregorian
/// calendar (negative before it), counted in eras of 400 years from
/// 0000-03-01.
pub open spec fn days_from_civil(year: int, month: int, day: int) -> int {
    let y = if month <= 2 {
        year - 1
    } else {
        year
    };
    let era = y / 400;
    let year_of_era = y - era * 400;
    let shifted_month = if month > 2 {
        month - 3
    } else {
        month + 9
    };
    let day_of_year = (153 * shifted_month + 2) / 5 + day - 1;
    let day_of_era = year_of_era * 365 + year_of_era / 4 - year_of_era / 100 + day_of_year;
    era * 146097 + day_of_era - 719468
}

/// The number of non-leap seconds from 1970-01-01 00:00:00 to a date and time.
pub open spec fn unix_seconds(
    year: i32,
    month: u32,
    day: u32,
    hour: u32,
    minute: u32,
    second: u32,
) -> int {
    days_from_civil(year as int, month as int, day as int) * 86400 + hour * 3600 + minute * 60
        + second
}

/// Whether a count of seconds since 1970-01-01 in UTC names a moment in the
/// years `chrono` holds: from -262143-01-01 00:00:00 to 262142-12-31 23:59:59.
pub open spec fn in_calendar_range(seconds: int) -> bool {
    unix_seconds(-262143i32, 1, 1, 0, 0, 0) <= seconds <= unix_seconds(262142i32, 12, 31, 23, 59, 59)
}

/// The date and time `chrono` gives a count of seconds since 1970-01-01 in UTC,
/// where the count is in its range.
pub uninterp spec fn chrono_civil_of(seconds: i64) -> Option<(i32, u32, u32, u32, u32, u32)>;

/// Calls `chrono::NaiveDate::from_ymd_opt` and tells whether it made a date.
/// Claims what its documentation says: it does exactly for the dates that exist,
/// in the years `chrono` holds (from -262143 to 262142, its `MIN_YEAR` and
/// `MAX_YEAR`).
#[verifier::external_body]
fn calendar_date_exists(year: i32, month: u32, day: u32) -> (r: bool)
    ensures
        r == date_exists(year, month, day),
{
    chrono::NaiveDate::from_ymd_opt(year, month, day).is_some()
}

/// Calls `chrono::NaiveDate::from_ymd_opt`, `NaiveDate::and_hms_opt` and
/// `NaiveDateTime::signed_duration_since(NaiveDateTime::UNIX_EPOCH).num_seconds()`.
/// Claims that a count comes back exactly when the date and the time exist, and
/// that it is `unix_seconds` of the fields: the proleptic Gregorian count of
/// days since 1970-01-01 in seconds, plus the time of day.
#[verifier::external_body]
#[allow(deprecated)]
fn calendar_to_unix(
    year: i32,
    month: u32,
    day: u32,
    hour: u32,
    minute: u32,
    second: u32,
) -> (r: Option<i64>)
    ensures
        r.is_some() == (date_exists(year, month, day) && time_exists(hour, minute, second)),
        r.is_some() ==> r.unwrap() == unix_seconds(year, month, day, hour, minute, second),
{
    let date = chrono::NaiveDate::from_ymd_opt(year, month, day)?;
    let moment = date.and_hms_opt(hour, minute, second)?;
    Some(moment.signed_duration_since(chrono::NaiveDateTime::UNIX_EPOCH).num_seconds())
}

/// Calls `chrono::DateTime::from_timestamp(seconds, 0)` and reads the fields of
/// the result (`year`, `month`, `day`, `hour`, `minute`, `second`). Claims that
/// the result is `chrono_civil_of(seconds)`, and, where there is one, that its
/// date and time exist and count back to `seconds`, and that there is one
/// exactly for the counts in the years `chrono` holds (`from_timestamp` goes
/// through `NaiveDate::from_num_days_from_ce_opt`, which refuses the years
/// outside `MIN_YEAR..=MAX_YEAR`).
#[verifier::external_body]
fn unix_to_calendar(seconds: i64) -> (r: Option<(i32, u32, u32, u32, u32, u32)>)
    ensures
        r == chrono_civil_of(seconds),
        r is Some <==> in_calendar_range(seconds as int),
        r matches Some((y, mo, d, h, mi, s)) ==> date_exists(y, mo, d) && time_exists(h, mi, s)
            && unix_seconds(y, mo, d, h, mi, s) == seconds,
{
    let t = chrono::DateTime::from_timestamp(seconds, 0)?;
    Some((t.year(), t.month(), t.day(), t.hour(), t.minute(), t.second()))
}

/// The text bytes `lo..hi`, each read as the character of its code.
pub open spec fn field_chars(b: Seq<u8>, lo: int, hi: int) -> Seq<char> {
    b.subrange(lo, hi).map_values(|x: u8| x as char)
}

/// What the text of an LDAP time reads as. Each field is parsed as `str::parse`
/// parses it, which goes by the bytes of the text.
pub open spec fn timestamp_spec(b: Seq<u8>) -> Result<LDAPTimestamp, TimestampParseError> {
    if b.len() != 15 {
        Err(TimestampParseError::IncorrectTimestampLength)
    } else if b[14] != 90u8 {
        Err(TimestampParseError::IncorrectTimestampSuffix)
    } else {
        match parse_i32_spec(field_chars(b, 0, 4)) {
            Err(_) => Err(TimestampParseError::IncorrectTimestampYear),
            Ok(year) => match parse_u32_spec(field_chars(b, 4, 6)) {
                Err(_) => Err(TimestampParseError::IncorrectTimestampMonth),
                Ok(month) => match parse_u32_spec(field_chars(b, 6, 8)) {
                    Err(_) => Err(TimestampParseError::IncorrectTimestampDay),
                    Ok(day) => match parse_u32_spec(field_chars(b, 8, 10)) {
                        Err(_) => Err(TimestampParseError::IncorrectTimestampHour),
                        Ok(hour) => match parse_u32_spec(field_chars(b, 10, 12)) {
                            Err(_) => Err(TimestampParseError::IncorrectTimestampMinute),
                            Ok(minute) => match parse_u32_spec(field_chars(b, 12, 14)) {
                                Err(_) => Err(TimestampParseError::IncorrectTimestampSecond),
                                Ok(second) => Ok(
                                    LDAPTimestamp { year, month, day, hour, minute, second },
                                ),
                            },
                        },
                    },
                },
            },
        }
    }
}

/// Whether reading the fields of a 15-byte text cuts it only between
/// characters: the text is cut before bytes 14, 4, 6, 8, 10 and 12, each cut made
/// only once the fields before it were read.
pub open spec fn timestamp_cuts_fit(b: Seq<u8>) -> bool {
    b.len() == 15 ==> {
        &&& !is_continuation_byte(b[14])
        &&& b[14] == 90u8 ==> {
            &&& !is_continuation_byte(b[4])
            &&& parse_i32_spec(field_chars(b, 0, 4)) is Ok ==> {
                &&& !is_continuation_byte(b[6])
                &&& parse_u32_spec(field_chars(b, 4, 6)) is Ok ==> {
                    &&& !is_continuation_byte(b[8])
                    &&& parse_u32_spec(field_chars(b, 6, 8)) is Ok ==> {
                        &&& !is_continuation_byte(b[10])
                        &&& parse_u32_spec(field_chars(b, 8, 10)) is Ok ==> !is_continuation_byte(
                            b[12],
                        )
                    }
                }
            }
        }
    }
}

/// The text LDAP writes for a time: `{:04}{:02}{:02}{:02}{:02}{:02}Z`.
pub open spec fn timestamp_text(t: LDAPTimestamp) -> Seq<char> {
    zero_padded(t.year as int, 4) + zero_padded(t.month as int, 2) + zero_padded(t.day as int, 2)
        + zero_padded(t.hour as int, 2) + zero_padded(t.minute as int, 2) + zero_padded(
        t.second as int,
        2,
    ) + seq!['Z']
}

/// The seconds since 1970 of a time, or why it names no moment.
pub open spec fn unix_time_spec(t: LDAPTimestamp) -> Result<i64, TimestampParseError> {
    if !date_exists(t.year, t.month, t.day) {
        Err(TimestampParseError::InvalidDate)
    } else if !time_exists(t.hour, t.minute, t.second) {
        Err(TimestampParseError::InvalidTime)
    } else {
        Ok(unix_seconds(t.year, t.month, t.day, t.hour, t.minute, t.second) as i64)
    }
}

/// The time of a tuple of fields.
pub open spec fn timestamp_of(f: (i32, u32, u32, u32, u32, u32)) -> LDAPTimestamp {
    LDAPTimestamp { year: f.0, month: f.1, day: f.2, hour: f.3, minute: f.4, second: f.5 }
}

fn byte_chars(b: &[u8], lo: usize, hi: usize) -> (r: Vec<char>)
    requires
        lo <= hi <= b.len(),
    ensures
        r@ == field_chars(b@, lo as int, hi as int),
{
    let mut r: Vec<char> = Vec::new();
    let mut i = lo;
    while i < hi
        invariant
            lo <= i <= hi <= b.len(),
            r@ == field_chars(b@, lo as int, i as int),
        decreases hi - i,
    {
        r.push(b[i] as char);
        i = i + 1;
        assert(r@ =~= field_chars(b@, lo as int, i as int));
    }
    r
}

impl LDAPTimestamp {
    /// Reads an LDAP time.
    pub fn parse(value: &str) -> (r: Result<Self, TimestampParseError>)
        requires
            timestamp_cuts_fit(encode_utf8(value@)),
        ensures
            r == timestamp_spec(encode_utf8(value@)),
    {
        let b = value.as_bytes();
        if b.len() != 15 {
            return Err(TimestampParseError::IncorrectTimestampLength);
        }
        if b[14] != 90u8 {
            return Err(TimestampParseError::IncorrectTimestampSuffix);
        }
        let f = byte_chars(b, 0, 4);
        let year = match parse_i32(f.as_slice()) {
            Ok(v) => v,
            Err(_) => {
                return Err(TimestampParseError::IncorrectTimestampYear);
            },
        };
        let f = byte_chars(b, 4, 6);
        let month = match parse_u32(f.as_slice()) {
            Ok(v) => v,
            Err(_) => {
                return Err(TimestampParseError::IncorrectTimestampMonth);
            },
        };
        let f = byte_chars(b, 6, 8);
        let day = match parse_u32(f.as_slice()) {
            Ok(v) => v,
            Err(_) => {
                return Err(TimestampParseError::IncorrectTimestampDay);
            },
        };
        let f = byte_chars(b, 8, 10);
        let hour = match parse_u32(f.as_slice()) {
            Ok(v) => v,
            Err(_) => {
                return Err(TimestampParseError::IncorrectTimestampHour);
            },
        };
        let f = byte_chars(b, 10, 12);
        let minute = match parse_u32(f.as_slice()) {
            Ok(v) => v,
            Err(_) => {
                return Err(TimestampParseError::IncorrectTimestampMinute);
            },
        };
        let f = byte_chars(b, 12, 14);
        let second = match parse_u32(f.as_slice()) {
            Ok(v) => v,
            Err(_) => {
                return Err(TimestampParseError::IncorrectTimestampSecond);
            },
        };
        Ok(LDAPTimestamp { year, month, day, hour, minute, second })
    }

    /// The text LDAP writes for the time.
    pub fn to_string(&self) -> (r: String)
        ensures
            r@ == timestamp_text(*self),
    {
        let mut s = String::new();
        let f = format_zero_padded(self.year as i64, 4);
        push_chars(&mut s, f.as_slice());
        let f = format_zero_padded(self.month as i64, 2);
        push_chars(&mut s, f.as_slice());
        let f = format_zero_padded(self.day as i64, 2);
        push_chars(&mut s, f.as_slice());
        let f = format_zero_padded(self.hour as i64, 2);
        push_chars(&mut s, f.as_slice());
        let f = format_zero_padded(self.minute as i64, 2);
        push_chars(&mut s, f.as_slice());
        let f = format_zero_padded(self.second as i64, 2);
        push_chars(&mut s, f.as_slice());
        push_char(&mut s, 'Z');
        s
    }

    /// The seconds since 1970-01-01 00:00:00 UTC of the time.
    pub fn unix_time(&self) -> (r: Result<i64, TimestampParseError>)
        ensures
            r == unix_time_spec(*self),
    {
        if !calendar_date_exists(self.year, self.month, self.day) {
            return Err(TimestampParseError::InvalidDate);
        }
        match calendar_to_unix(self.year, self.month, self.day, self.hour, self.minute, self.second) {
            Some(v) => Ok(v),
            None => Err(TimestampParseError::InvalidTime),
        }
    }

    /// The time of a count of seconds since 1970, for counts in
    /// `chrono`'s range. Its seconds since 1970 are the count again.
    pub fn from_unix(value: i64) -> (r: Self)
        requires
            in_calendar_range(value as int),
        ensures
            r == timestamp_of(chrono_civil_of(value)->0),
            unix_time_spec(r) == Ok::<i64, TimestampParseError>(value),
    {
        match unix_to_calendar(value) {
            Some((year, month, day, hour, minute, second)) => LDAPTimestamp {
                year,
                month,
                day,
                hour,
                minute,
                second,
            },
            None => vstd::pervasive::unreached(),
        }
    }

    /// The time of a count of seconds since 1970, or `None` where the count is
    /// outside `chrono`'s range.
    pub fn try_from_unix(value: i64) -> (r: Option<Self>)
        ensures
            r is Some <==> in_calendar_range(value as int),
            r is Some <==> chrono_civil_of(value) is Some,
            r matches Some(t) ==> t == timestamp_of(chrono_civil_of(value)->0) && unix_time_spec(t)
                == Ok::<i64, TimestampParseError>(value),
    {
        match unix_to_calendar(value) {
            Some(_) => Some(Self::from_unix(value)),
            None => None,
        }
    }
}

proof fn lemma_zero_padded_shape(n: int, w: int)
    requires
        w == 2 || w == 4,
        n >= 0 ==> n < 10000 && (w == 4 || n < 100),
        n < 0 ==> -n < 1000 && w == 4,
    ensures
        zero_padded(n, w).len() == w,
        forall|i: int|
            0 <= i < w ==> #[trigger] zero_padded(n, w)[i] == '-' || is_digit(zero_padded(n, w)[i]),
{
    let k: nat = if n < 0 { (-n) as nat } else { n as nat };
    lemma_nat_to_dec_short(k);
    lemma_nat_to_dec_digits(k);
    let d = nat_to_dec(k);
    let ww = if n < 0 { w - 1 } else { w };
    let body = padded(d, ww);
    if n < 0 {
        assert(k < 1000);
        assert(d.len() <= 3);
    } else if w == 4 {
        assert(d.len() <= 4);
    } else {
        assert(k < 100);
        assert(d.len() <= 2);
    }
    assert(d.len() <= ww);
    assert(body.len() == ww);
    assert forall|i: int| 0 <= i < ww implies is_digit(#[trigger] body[i]) by {
        if d.len() < ww {
            if i < ww - d.len() {
                assert(body[i] == zeros(ww - d.len())[i]);
            } else {
                assert(body[i] == d[i - (ww - d.len())]);
            }
        }
    }
    if n < 0 {
        assert forall|i: int| 0 <= i < w implies #[trigger] zero_padded(n, w)[i] == '-' || is_digit(
            zero_padded(n, w)[i],
        ) by {
            if i > 0 {
                assert(zero_padded(n, w)[i] == body[i - 1]);
            }
        }
    }
}

/// The bytes of an ASCII text, read back as characters, are the text.
proof fn lemma_ascii_fields(text: Seq<char>, lo: int, hi: int)
    requires
        0 <= lo <= hi <= text.len(),
        is_ascii_chars(text),
    ensures
        encode_utf8(text).len() == text.len(),
        field_chars(encode_utf8(text), lo, hi) == text.subrange(lo, hi),
        forall|i: int| 0 <= i < text.len() ==> #[trigger] encode_utf8(text)[i] < 128,
{
    is_ascii_chars_encode_utf8(text);
    let b = encode_utf8(text);
    assert forall|i: int| 0 <= i < text.len() implies #[trigger] b[i] < 128 by {
        assert(text[i] as u8 == b[i]);
    }
    assert forall|i: int| 0 <= i < hi - lo implies #[trigger] field_chars(b, lo, hi)[i] == text[lo + i]
        by {
        let c = text[lo + i];
        assert(c as u8 == b[lo + i]);
        assert((c as u8) as char == c);
    }
    assert(field_chars(b, lo, hi) =~= text.subrange(lo, hi));
}

/// Law: the text written for a time whose year has at most four characters
/// (from -999 to 9999) and whose other fields have at most two reads back as
/// the same time, and reading it cuts the text only between characters.
pub proof fn lemma_timestamp_text_round_trip(t: LDAPTimestamp)
    requires
        -999 <= t.year <= 9999,
        t.month <= 99,
        t.day <= 99,
        t.hour <= 99,
        t.minute <= 99,
        t.second <= 99,
    ensures
        timestamp_cuts_fit(encode_utf8(timestamp_text(t))),
        timestamp_spec(encode_utf8(timestamp_text(t))) == Ok::<LDAPTimestamp, TimestampParseError>(t),
{
    let p0 = zero_padded(t.year as int, 4);
    let p1 = zero_padded(t.month as int, 2);
    let p2 = zero_padded(t.day as int, 2);
    let p3 = zero_padded(t.hour as int, 2);
    let p4 = zero_padded(t.minute as int, 2);
    let p5 = zero_padded(t.second as int, 2);
    lemma_zero_padded_shape(t.year as int, 4);
    lemma_zero_padded_shape(t.month as int, 2);
    lemma_zero_padded_shape(t.day as int, 2);
    lemma_zero_padded_shape(t.hour as int, 2);
    lemma_zero_padded_shape(t.minute as int, 2);
    lemma_zero_padded_shape(t.second as int, 2);
    let text = timestamp_text(t);
    assert(text.len() == 15);
    assert(text.subrange(0, 4) =~= p0);
    assert(text.subrange(4, 6) =~= p1);
    assert(text.subrange(6, 8) =~= p2);
    assert(text.subrange(8, 10) =~= p3);
    assert(text.subrange(10, 12) =~= p4);
    assert(text.subrange(12, 14) =~= p5);
    assert(text[14] == 'Z');
    assert forall|i: int| 0 <= i < text.len() implies '\0' <= #[trigger] text[i] <= '\u{7f}' by {
        if i < 4 {
            assert(text[i] == p0[i]);
        } else if i < 6 {
            assert(text[i] == p1[i - 4]);
        } else if i < 8 {
            assert(text[i] == p2[i - 6]);
        } else if i < 10 {
            assert(text[i] == p3[i - 8]);
        } else if i < 12 {
            assert(text[i] == p4[i - 10]);
        } else if i < 14 {
            assert(text[i] == p5[i - 12]);
        }
    }
    let b = encode_utf8(text);
    lemma_ascii_fields(text, 0, 4);
    lemma_ascii_fields(text, 4, 6);
    lemma_ascii_fields(text, 6, 8);
    lemma_ascii_fields(text, 8, 10);
    lemma_ascii_fields(text, 10, 12);
    lemma_ascii_fields(text, 12, 14);
    is_ascii_chars_encode_utf8(text);
    assert(b[14] == 90u8) by {
        assert(text[14] as u8 == b[14]);
    }
    assert(b[4] < 128 && b[6] < 128 && b[8] < 128 && b[10] < 128 && b[12] < 128 && b[14] < 128);
    lemma_parse_zero_padded(t.year as int, 4, i32::MIN as int, i32::MAX as int);
    lemma_parse_zero_padded(t.month as int, 2, 0, u32::MAX as int);
    lemma_parse_zero_padded(t.day as int, 2, 0, u32::MAX as int);
    lemma_parse_zero_padded(t.hour as int, 2, 0, u32::MAX as int);
    lemma_parse_zero_padded(t.minute as int, 2, 0, u32::MAX as int);
    lemma_parse_zero_padded(t.second as int, 2, 0, u32::MAX as int);
}

/// An entry found by a directory search: its name and its attributes, each
/// with its values.
#[derive(Debug, Clone)]
pub struct SearchEntry {
    pub dn: String,
    pub attrs: Vec<(String, Vec<String>)>,
}

/// The values of the first attribute of that name.
pub open spec fn attribute_values(attrs: Seq<(Seq<char>, Seq<Seq<char>>)>, name: Seq<char>) -> Option<
    Seq<Seq<char>>,
>
    decreases attrs.len(),
{
    if attrs.len() == 0 {
        None
    } else if attrs[0].0 == name {
        Some(attrs[0].1)
    } else {
        attribute_values(attrs.drop_first(), name)
    }
}

/// The first value of an attribute, where it has one.
pub open spec fn first_value_spec(attrs: Seq<(Seq<char>, Seq<Seq<char>>)>, name: Seq<char>) -> Option<
    Seq<char>,
> {
    match attribute_values(attrs, name) {
        Some(vs) => if vs.len() > 0 {
            Some(vs[0])
        } else {
            None
        },
        None => None,
    }
}

impl SearchEntry {
    /// The first value of an attribute of the entry.
    pub fn first_value(&self, name: &str) -> (r: Option<&String>)
        ensures
            match r {
                Some(v) => first_value_spec(self.attrs.deep_view(), name@) == Some(v@),
                None => first_value_spec(self.attrs.deep_view(), name@) is None,
            },
    {
        let key = chars_of(name);
        let ghost all = self.attrs.deep_view();
        let mut i: usize = 0;
        assert(all.skip(0) =~= all);
        while i < self.attrs.len()
            invariant
                i <= self.attrs.len(),
                all == self.attrs.deep_view(),
                key@ == name@,
                attribute_values(all, name@) == attribute_values(all.skip(i as int), name@),
            decreases self.attrs.len() - i,
        {
            let k = chars_of(self.attrs[i].0.as_str());
            assert(all[i as int].0 == self.attrs[i as int].0@);
            assert(all.skip(i as int).drop_first() =~= all.skip(i + 1));
            if chars_eq(k.as_slice(), key.as_slice()) {
                let vs = &self.attrs[i].1;
                assert(all[i as int].1 == vs.deep_view());
                if vs.len() > 0 {
                    assert(vs.deep_view()[0] == vs[0]@);
                    return Some(&vs[0]);
                } else {
                    return None;
                }
            }
            i = i + 1;
        }
        None
    }

    /// The number of values of an attribute of the entry, none where it is
    /// missing.
    pub fn value_count(&self, name: &str) -> (r: usize)
        ensures
            r == match attribute_values(self.attrs.deep_view(), name@) {
                Some(vs) => vs.len(),
                None => 0,
            },
    {
        let key = chars_of(name);
        let ghost all = self.attrs.deep_view();
        let mut i: usize = 0;
        assert(all.skip(0) =~= all);
        while i < self.attrs.len()
            invariant
                i <= self.attrs.len(),
                all == self.attrs.deep_view(),
                key@ == name@,
                attribute_values(all, name@) == attribute_values(all.skip(i as int), name@),
            decreases self.attrs.len() - i,
        {
            let k = chars_of(self.attrs[i].0.as_str());
            assert(all[i as int].0 == self.attrs[i as int].0@);
            assert(all.skip(i as int).drop_first() =~= all.skip(i + 1));
            if chars_eq(k.as_slice(), key.as_slice()) {
                assert(all[i as int].1 == self.attrs[i as int].1.deep_view());
                return self.attrs[i].1.len();
            }
            i = i + 1;
        }
        0
    }
}

/// Why a directory entry is no user.
#[derive(Debug, Clone, Copy, PartialEq, Eq, Structural)]
pub enum UserParseError {
    MissingId,
    MissingTimestamp,
    BadTimestamp(TimestampParseError),
}

/// A user of the directory.
#[derive(Debug, Clone)]
pub struct User {
    pub id: String,
    pub name: String,
    pub created_at: i64,
}

/// The seconds since 1970 of the text of an LDAP time, or why it names none.
pub open spec fn ldap_seconds_spec(text: Seq<char>) -> Result<i64, TimestampParseError> {
    match timestamp_spec(encode_utf8(text)) {
        Err(e) => Err(e),
        Ok(t) => unix_time_spec(t),
    }
}

/// What a directory entry reads as: the user's id, name and creation time.
pub open spec fn user_entry_spec(
    attrs: Seq<(Seq<char>, Seq<Seq<char>>)>,
    id_field: Seq<char>,
    username_field: Seq<char>,
) -> Result<(Seq<char>, Seq<char>, i64), UserParseError> {
    match first_value_spec(attrs, id_field) {
        None => Err(UserParseError::MissingId),
        Some(id) => match first_value_spec(attrs, username_field) {
            None => Err(UserParseError::MissingId),
            Some(name) => match first_value_spec(attrs, "createTimestamp"@) {
                None => Err(UserParseError::MissingTimestamp),
                Some(text) => match ldap_seconds_spec(text) {
                    Err(e) => Err(UserParseError::BadTimestamp(e)),
                    Ok(created_at) => Ok((id, name, created_at)),
                },
            },
        },
    }
}

/// Whether reading a user from a directory entry cuts its creation time only
/// between characters, where it gets that far.
pub open spec fn user_entry_cuts_fit(
    attrs: Seq<(Seq<char>, Seq<Seq<char>>)>,
    id_field: Seq<char>,
    username_field: Seq<char>,
) -> bool {
    first_value_spec(attrs, id_field) is Some && first_value_spec(attrs, username_field) is Some
        ==> match first_value_spec(attrs, "createTimestamp"@) {
        Some(text) => timestamp_cuts_fit(encode_utf8(text)),
        None => true,
    }
}

/// The seconds since 1970 of the text of an LDAP time.
pub fn ldap_seconds(text: &str) -> (r: Result<i64, TimestampParseError>)
    requires
        timestamp_cuts_fit(encode_utf8(text@)),
    ensures
        r == ldap_seconds_spec(text@),
{
    match LDAPTimestamp::parse(text) {
        Err(e) => Err(e),
        Ok(t) => t.unix_time(),
    }
}

impl User {
    /// The attributes a search asks for to read users: the configured id and
    /// user name attributes and the creation time.
    pub fn search_fields<'a>(id_field: &'a str, username_field: &'a str) -> (r: [&'a str; 3])
        ensures
            r@ == seq![id_field, username_field, "createTimestamp"],
    {
        [id_field, username_field, "createTimestamp"]
    }

    /// The user of a directory entry, with the id and
    /// user name read from the configured attributes.
    pub fn from_entry(entry: &SearchEntry, id_field: &str, username_field: &str) -> (r: Result<
        Self,
        UserParseError,
    >)
        requires
            user_entry_cuts_fit(entry.attrs.deep_view(), id_field@, username_field@),
        ensures
            match (r, user_entry_spec(entry.attrs.deep_view(), id_field@, username_field@)) {
                (Ok(u), Ok((id, name, created_at))) => u.id@ == id && u.name@ == name
                    && u.created_at == created_at,
                (Err(e), Err(f)) => e == f,
                _ => false,
            },
    {
        let id = match entry.first_value(id_field) {
            Some(v) => v.clone(),
            None => {
                return Err(UserParseError::MissingId);
            },
        };
        let name = match entry.first_value(username_field) {
            Some(v) => v.clone(),
            None => {
                return Err(UserParseError::MissingId);
            },
        };
        let created_at = match entry.first_value("createTimestamp") {
            Some(v) => match ldap_seconds(v.as_str()) {
                Ok(c) => c,
                Err(e) => {
                    return Err(UserParseError::BadTimestamp(e));
                },
            },
            None => {
                return Err(UserParseError::MissingTimestamp);
            },
        };
        Ok(User { id, name, created_at })
    }
}

/// A membership of a user in a faction of the directory.
#[derive(Debug, Clone)]
pub struct FactionMember {
    pub faction_id: String,
    pub user_id: String,
    pub owner: bool,
    pub join_intent: JoinIntent,
}

impl FactionMember {
    /// A membership that both the user and the faction want.
    pub fn new(faction_id: String, user_id: String, owner: bool) -> (r: Self)
        ensures
            r.faction_id@ == faction_id@,
            r.user_id@ == user_id@,
            r.owner == owner,
            r.join_intent.member && r.join_intent.faction,
    {
        let join_intent = JoinIntent::default();
        FactionMember { owner, join_intent, faction_id, user_id }
    }
}

/// Why a directory entry is no faction.
#[derive(Debug, Clone, Copy, PartialEq, Eq, Structural)]
pub enum FactionParseError {
    MissingId,
    MissingName,
    MissingTimestamp,
    BadTimestamp(TimestampParseError),
}

/// A faction of the directory.
#[derive(Debug, Clone)]
pub struct Faction {
    pub id: String,
    pub name: String,
    pub created_at: i64,
    pub size: usize,
}

/// What a directory entry reads as: the faction's id, name, creation time and
/// number of members.
pub open spec fn faction_entry_spec(attrs: Seq<(Seq<char>, Seq<Seq<char>>)>) -> Result<
    (Seq<char>, Seq<char>, i64, nat),
    FactionParseError,
> {
    match first_value_spec(attrs, "cn"@) {
        None => Err(FactionParseError::MissingId),
        Some(id) => match first_value_spec(attrs, "pxlsspaceFactionName"@) {
            None => Err(FactionParseError::MissingName),
            Some(name) => match first_value_spec(attrs, "createTimestamp"@) {
                None => Err(FactionParseError::MissingTimestamp),
                Some(text) => match ldap_seconds_spec(text) {
                    Err(e) => Err(FactionParseError::BadTimestamp(e)),
                    Ok(created_at) => Ok(
                        (
                            id,
                            name,
                            created_at,
                            match attribute_values(attrs, "member"@) {
                                Some(vs) => vs.len(),
                                None => 0,
                            },
                        ),
                    ),
                },
            },
        },
    }
}

/// Whether reading a faction from a directory entry cuts its creation time
/// only between characters, where it gets that far.
pub open spec fn faction_entry_cuts_fit(attrs: Seq<(Seq<char>, Seq<Seq<char>>)>) -> bool {
    first_value_spec(attrs, "cn"@) is Some && first_value_spec(attrs, "pxlsspaceFactionName"@) is Some
        ==> match first_value_spec(attrs, "createTimestamp"@) {
        Some(text) => timestamp_cuts_fit(encode_utf8(text)),
        None => true,
    }
}

impl Faction {
    /// The attributes a search asks for to read factions.
    pub fn search_fields() -> (r: [&'static str; 4])
        ensures
            r@ == seq!["cn", "pxlsspaceFactionName", "createTimestamp", "member"],
    {
        ["cn", "pxlsspaceFactionName", "createTimestamp", "member"]
    }

    /// The faction of a directory entry; its size is
    /// the number of its members.
    pub fn from_entry(entry: &SearchEntry) -> (r: Result<Self, FactionParseError>)
        requires
            faction_entry_cuts_fit(entry.attrs.deep_view()),
        ensures
            match (r, faction_entry_spec(entry.attrs.deep_view())) {
                (Ok(f), Ok((id, name, created_at, size))) => f.id@ == id && f.name@ == name
                    && f.created_at == created_at && f.size == size,
                (Err(e), Err(g)) => e == g,
                _ => false,
            },
    {
        let id = match entry.first_value("cn") {
            Some(v) => v.clone(),
            None => {
                return Err(FactionParseError::MissingId);
            },
        };
        let name = match entry.first_value("pxlsspaceFactionName") {
            Some(v) => v.clone(),
            None => {
                return Err(FactionParseError::MissingName);
            },
        };
        let created_at = match entry.first_value("createTimestamp") {
            Some(v) => match ldap_seconds(v.as_str()) {
                Ok(c) => c,
                Err(e) => {
                    return Err(FactionParseError::BadTimestamp(e));
                },
            },
            None => {
                return Err(FactionParseError::MissingTimestamp);
            },
        };
        let size = entry.value_count("member");
        Ok(Faction { id, name, created_at, size })
    }
}

fn splits_char(b: &[u8], i: usize) -> (r: bool)
    requires
        i < b.len(),
    ensures
        r == is_continuation_byte(b@[i as int]),
{
    0x80u8 <= b[i] && b[i] <= 0xbfu8
}

impl LDAPTimestamp {
    /// Whether reading the text cuts it only between characters: where this
    /// is false, reading it would stop the program.
    pub fn cuts_fit(value: &str) -> (r: bool)
        ensures
            r == timestamp_cuts_fit(encode_utf8(value@)),
    {
        let b = value.as_bytes();
        if b.len() != 15 {
            return true;
        }
        if splits_char(b, 14) {
            return false;
        }
        if b[14] != 90u8 {
            return true;
        }
        if splits_char(b, 4) {
            return false;
        }
        let f = byte_chars(b, 0, 4);
        if parse_i32(f.as_slice()).is_err() {
            return true;
        }
        if splits_char(b, 6) {
            return false;
        }
        let f = byte_chars(b, 4, 6);
        if parse_u32(f.as_slice()).is_err() {
            return true;
        }
        if splits_char(b, 8) {
            return false;
        }
        let f = byte_chars(b, 6, 8);
        if parse_u32(f.as_slice()).is_err() {
            return true;
        }
        if splits_char(b, 10) {
            return false;
        }
        let f = byte_chars(b, 8, 10);
        if parse_u32(f.as_slice()).is_err() {
            return true;
        }
        !splits_char(b, 12)
    }
}

impl User {
    /// Whether reading a user from the entry cuts its creation time only
    /// between characters: where this is false, reading it would stop the
    /// program.
    pub fn entry_cuts_fit(entry: &SearchEntry, id_field: &str, username_field: &str) -> (r: bool)
        ensures
            r == user_entry_cuts_fit(entry.attrs.deep_view(), id_field@, username_field@),
    {
        if entry.first_value(id_field).is_none() || entry.first_value(username_field).is_none() {
            return true;
        }
        match entry.first_value("createTimestamp") {
            Some(t) => LDAPTimestamp::cuts_fit(t.as_str()),
            None => true,
        }
    }
}

impl Faction {
    /// Whether reading a faction from the entry cuts its creation time only
    /// between characters: where this is false, reading it would stop the
    /// program.
    pub fn entry_cuts_fit(entry: &SearchEntry) -> (r: bool)
        ensures
            r == faction_entry_cuts_fit(entry.attrs.deep_view()),
    {
        if entry.first_value("cn").is_none() || entry.first_value("pxlsspaceFactionName").is_none() {
            return true;
        }
        match entry.first_value("createTimestamp") {
            Some(t) => LDAPTimestamp::cuts_fit(t.as_str()),
            None => true,
        }
    }
}

} // verus!
