use pxls_rs::database::user::{User, UserModel, UserSpecifier};
use pxls_rs::filter::body::patch::{BinaryPatch, InvalidPatch};
use pxls_rs::filter::header::accept_encoding::accepts_gzip;
use pxls_rs::filter::header::authorization::{bearer_token, Bearer, BearerError, ValidationError};
use pxls_rs::filter::header::content_range::ContentRange;
use pxls_rs::filter::header::range::{
    boundary_collides, boundary_from_codes, coalesce_ranges, content_range_header, merge_ranges, random_boundary_string,
    resolve_ranges, sort_ranges_by_start, DataRange, HttpRange, Range, RangeIndexError,
};
use pxls_rs::filter::header::RangeParseError;
use pxls_rs::decimal::IntErrorKind;

fn chars(s: &str) -> Vec<char> {
    s.chars().collect()
}

#[test]
fn range_header_single_and_multi() {
    match Range::parse("bytes=0-99").unwrap() {
        Range::Single { unit, range } => {
            assert_eq!(unit, "bytes");
            // the last position is inclusive: bytes 0 to 99 are 100 bytes
            assert!(matches!(range, HttpRange::FromStartToEnd(r) if r.start == 0 && r.end == 100));
        },
        _ => panic!("expected a single range"),
    }
    match Range::parse("bytes=0-1,5-,-20").unwrap() {
        Range::Multi { unit, ranges } => {
            assert_eq!(unit, "bytes");
            assert_eq!(ranges.len(), 3);
            assert!(matches!(ranges[1], HttpRange::FromStartToLast(5)));
            assert!(matches!(ranges[2], HttpRange::FromEndToLast(20)));
        },
        _ => panic!("expected several ranges"),
    }
}

#[test]
fn range_header_errors() {
    assert!(matches!(Range::parse("bytes"), Err(RangeParseError::MissingUnit)));
    assert!(matches!(Range::parse("bytes=5"), Err(RangeParseError::MissingHyphenMinus(s)) if s == "5"));
    assert!(matches!(Range::parse("bytes=-"), Err(RangeParseError::RangeEmpty)));
    assert!(matches!(Range::parse("bytes=9-3"), Err(RangeParseError::Backwards)));
    assert!(matches!(
        Range::parse("bytes=a-3"),
        Err(RangeParseError::ValueParseError(IntErrorKind::InvalidDigit))
    ));
    assert!(matches!(
        Range::parse("bytes=0-18446744073709551615"),
        Err(RangeParseError::ValueParseError(IntErrorKind::PosOverflow))
    ));
    assert_eq!(RangeParseError::NoRange.status_code(), 400);
    assert!(matches!(Range::from_option(None), Range::Absent));
}

#[test]
fn http_range_lengths() {
    let r = HttpRange::parse(&chars("-10")).unwrap();
    let span = r.with_length(100).unwrap();
    assert_eq!((span.start, span.end), (90, 100));
    let r = HttpRange::parse(&chars("95-")).unwrap();
    let span = r.with_length(100).unwrap();
    assert_eq!((span.start, span.end), (95, 100));
    let r = HttpRange::parse(&chars("10-200")).unwrap();
    assert!(matches!(r.with_length(100), Err(RangeIndexError::TooLarge(100))));
    let span = HttpRange::parse(&chars("10-99")).unwrap().with_length(100).unwrap();
    assert_eq!((span.start, span.end), (10, 100));
    assert!(matches!(HttpRange::parse(&chars("10-100")).unwrap().with_length(100), Err(RangeIndexError::TooLarge(100))));
    // a suffix longer than the resource selects all of it
    let span = HttpRange::FromEndToLast(500).with_length(100).unwrap();
    assert_eq!((span.start, span.end), (0, 100));
    // a start past the end cannot be satisfied
    assert!(matches!(HttpRange::FromStartToLast(101).with_length(100), Err(RangeIndexError::TooLarge(100))));
    let span = HttpRange::FromStartToLast(100).with_length(100).unwrap();
    assert_eq!((span.start, span.end), (100, 100));
    // selecting no byte is not served
    assert!(matches!(HttpRange::FromStartToLast(100).selection(100), Err(RangeIndexError::TooLarge(100))));
    assert!(matches!(HttpRange::FromEndToLast(0).selection(100), Err(RangeIndexError::TooLarge(100))));
    let span = HttpRange::FromEndToLast(7).selection(100).unwrap();
    assert_eq!((span.start, span.end), (93, 100));
    assert_eq!(RangeIndexError::TooLarge(100).status_code(), 416);
    assert_eq!(RangeIndexError::UnknownUnit.status_code(), 400);
    assert_eq!(RangeIndexError::TooLarge(100).content_range().unwrap(), "bytes */100");
    assert!(RangeIndexError::UnknownUnit.content_range().is_none());
}

#[test]
fn single_range_checks_the_unit() {
    let r = HttpRange::FromStartToEnd(2..5);
    let span = Range::single_range("bytes", &r, 10).unwrap();
    assert_eq!((span.start, span.end), (2, 5));
    assert!(matches!(Range::single_range("lines", &r, 10), Err(RangeIndexError::UnknownUnit)));
    match Range::parse("bytes=0-4").unwrap() {
        Range::Single { unit, range } => {
            let span = Range::single_range(&unit, &range, 10).unwrap();
            assert_eq!((span.start, span.end), (0, 5));
            assert_eq!(content_range_header(span.start, span.end, 10), "bytes 0-4/10");
        },
        _ => panic!("expected a single range"),
    }
}

#[test]
fn content_range_values() {
    assert_eq!(content_range_header(0, 100, 1000), "bytes 0-99/1000");
    let c = ContentRange::parse("bytes 0-99/1000").unwrap();
    assert_eq!(c.unit, "bytes");
    assert_eq!(c.range, Some((0, 99)));
    assert_eq!(c.size, Some(1000));
    let c = ContentRange::parse("bytes */1000").unwrap();
    assert_eq!(c.range, None);
    let c = ContentRange::parse("bytes 4-8/*").unwrap();
    assert_eq!(c.size, None);
    assert!(matches!(ContentRange::parse("bytes"), Err(RangeParseError::MissingUnit)));
    assert!(matches!(ContentRange::parse("bytes 0-99"), Err(RangeParseError::MissingSize)));
    assert!(matches!(ContentRange::parse("bytes 4/10"), Err(RangeParseError::MissingHyphenMinus(_))));
}

#[test]
fn ranges_are_sorted_and_coalesced() {
    let sorted = sort_ranges_by_start(&[40..50, 0..10, 100..120]);
    assert_eq!(sorted, vec![0..10, 40..50, 100..120]);
    // gaps under 32 bytes are closed, wider ones kept
    let merged = coalesce_ranges(&sorted);
    assert_eq!(merged, vec![0..50, 100..120]);
    // a range inside the one before it ends the coalesced range at its own end
    assert_eq!(coalesce_ranges(&[0..100, 10..20]), vec![0..20]);
    // ranges with equal starts keep their order
    assert_eq!(sort_ranges_by_start(&[5..9, 1..2, 5..6]), vec![1..2, 5..9, 5..6]);
    let resolved = resolve_ranges(
        "bytes",
        &[HttpRange::FromEndToLast(10), HttpRange::FromStartToEnd(0..5)],
        100,
    ).unwrap();
    assert_eq!(resolved, vec![0..5, 90..100]);
    assert!(matches!(
        resolve_ranges("bytes", &[HttpRange::FromStartToEnd(0..5), HttpRange::FromEndToLast(0)], 100),
        Err(RangeIndexError::TooLarge(100))
    ));
    assert!(matches!(
        resolve_ranges("lines", &[HttpRange::FromStartToLast(0)], 10),
        Err(RangeIndexError::UnknownUnit)
    ));
}

#[test]
fn multipart_body_layout() {
    let datas = vec![DataRange { data: vec![1, 2], range: 0..2, length: 8 }];
    let body = merge_ranges(&datas, "--b");
    let mut expected = b"--b\r\ncontent-type: application/octet-stream\r\ncontent-range: bytes 0-1/8\r\n\r\n".to_vec();
    expected.extend_from_slice(&[1, 2]);
    expected.extend_from_slice(b"--b");
    assert_eq!(body, expected);
    assert!(boundary_collides(&[DataRange { data: b"x--by".to_vec(), range: 0..5, length: 5 }], "--b"));
    assert!(!boundary_collides(&datas, "--b"));
}

#[test]
fn random_boundaries_have_their_shape() {
    for seed in [0u64, 1, 42, u64::MAX] {
        let b = random_boundary_string(seed);
        assert_eq!(b.len(), 10);
        assert!(b.starts_with("--"));
        assert!(b[2..].chars().all(|c| c.is_ascii_lowercase()));
    }
}

#[test]
fn random_boundaries_follow_the_seed() {
    assert_eq!(random_boundary_string(0), "--qnvpdkpp");
    assert_eq!(random_boundary_string(1), "--yrzirlqm");
    assert_eq!(random_boundary_string(42), "--swgcpsrn");
    assert_eq!(random_boundary_string(7), random_boundary_string(7));
}

#[test]
fn boundaries_from_codes() {
    assert_eq!(boundary_from_codes(&[97, 98, 99, 100, 101, 102, 103, 122]), "--abcdefgz");
}

#[test]
fn gzip_acceptance() {
    assert!(accepts_gzip("gzip"));
    assert!(accepts_gzip("deflate, gzip;q=0.5"));
    assert!(accepts_gzip(" gzip , br"));
    assert!(!accepts_gzip("deflate, br"));
    assert!(!accepts_gzip("gzipx"));
}

#[test]
fn bearer_tokens() {
    assert_eq!(bearer_token("Bearer abc.def").unwrap(), "abc.def");
    assert_eq!(bearer_token("Bearer a b").unwrap(), "a b");
    assert!(matches!(bearer_token("Bearer"), Err(BearerError::MissingToken)));
    assert!(matches!(bearer_token("Basic abc"), Err(BearerError::Invalid)));
    assert_eq!(BearerError::Invalid.status_code(), 400);
    assert_eq!(BearerError::ValidationError(ValidationError::JWTError).status_code(), 401);
    assert_eq!(BearerError::ValidationError(ValidationError::NoValidKeys).status_code(), 500);
}

#[test]
fn bearer_becomes_authenticated_user() {
    let bearer = Bearer::from_claims(100, "sub-1".to_string(), "alice".to_string());
    let user = User::from(UserModel {
        id: 4,
        subject: "sub-1".to_string(),
        name: "alice".to_string(),
        created_at: 0,
    });
    let auth = bearer.into_user(&user);
    assert_eq!(*auth.specifier(), UserSpecifier(4));
    assert!(auth.is_valid_at(Some(99)));
    assert!(!auth.is_valid_at(Some(100)));
    assert!(auth.is_valid_at(None));
}

#[test]
fn binary_patches() {
    let range = |r, s| ContentRange { unit: "bytes".to_string(), range: r, size: s };
    let p = BinaryPatch::new(vec![1, 2, 3], range(Some((4, 7)), Some(10))).unwrap();
    assert_eq!(p.start, 4);
    assert_eq!(p.expected_length, Some(10));
    let p = BinaryPatch::new(vec![1], range(None, None)).unwrap();
    assert_eq!(p.start, 0);
    assert!(matches!(BinaryPatch::new(vec![], range(Some((3, 3)), None)), Err(InvalidPatch::EmptyPatch)));
    assert!(matches!(BinaryPatch::new(vec![1], range(Some((5, 3)), None)), Err(InvalidPatch::RangeMisordered)));
    assert!(matches!(BinaryPatch::new(vec![1], range(Some((0, 3)), None)), Err(InvalidPatch::LengthMismatch)));
    assert_eq!(InvalidPatch::EmptyPatch.status_code(), 400);
}
