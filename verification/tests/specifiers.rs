use pxls_rs::database::ban::{BanListSpecifier, BanSpecifier};
use pxls_rs::database::board::BoardSpecifier;
use pxls_rs::database::placement::{PlacementListSpecifier, PlacementSpecifier};
use pxls_rs::database::specifier::{
    Id, PathPart, SpecfierParseError, Specifier, SpecifierParser, SpecifierTextError,
};
use pxls_rs::database::user::UserSpecifier;
use pxls_rs::decimal::IntErrorKind;

#[test]
fn user_specifier_round_trip() {
    let user = UserSpecifier(5);
    assert_eq!(user.to_uri(), "/users/5");
    assert_eq!(UserSpecifier::from_uri("/users/5").unwrap(), UserSpecifier(5));
    assert_eq!(UserSpecifier::from_uri(&UserSpecifier(-12).to_uri()).unwrap(), UserSpecifier(-12));
}

#[test]
fn ban_specifier_round_trip() {
    let ban = BanSpecifier { user: 3, ban: 7 };
    assert_eq!(ban.to_uri(), "/users/3/bans/7");
    let back = BanSpecifier::from_uri("/users/3/bans/7").unwrap();
    assert_eq!(back, ban);
    assert_eq!(back.list(), BanListSpecifier { user: 3 });
    assert_eq!(BanListSpecifier::from(&UserSpecifier(3)).to_uri(), "/users/3/bans");
}

#[test]
fn placement_specifier_keeps_large_positions() {
    let p = PlacementSpecifier { board: 1, position: u64::MAX };
    assert_eq!(p.to_uri(), "/boards/1/pixels/18446744073709551615");
    let back = PlacementSpecifier::from_uri("/boards/1/pixels/18446744073709551615").unwrap();
    assert_eq!(back.board, 1);
    assert_eq!(back.position, u64::MAX);
    assert_eq!(PlacementListSpecifier::from(BoardSpecifier(4)).to_uri(), "/boards/4/pixels");
}

#[test]
fn specifier_path_errors() {
    assert!(matches!(UserSpecifier::from_uri("users/5"), Err(SpecfierParseError::PathNotAbsolute)));
    assert!(matches!(
        UserSpecifier::from_uri("/boards/5"),
        Err(SpecfierParseError::Expected(PathPart::Path("users")))
    ));
    assert!(matches!(UserSpecifier::from_uri("/users"), Err(SpecfierParseError::UnexpectedEnd)));
    assert!(matches!(UserSpecifier::from_uri("/users/5/"), Err(SpecfierParseError::ExpectedEnd)));
    assert!(matches!(
        UserSpecifier::from_uri("/users/x"),
        Err(SpecfierParseError::ParseFailed(IntErrorKind::InvalidDigit))
    ));
    assert!(matches!(
        UserSpecifier::from_uri("/users/2147483648"),
        Err(SpecfierParseError::ParseFailed(IntErrorKind::PosOverflow))
    ));
}

#[test]
fn specifier_error_status_codes() {
    assert_eq!(SpecfierParseError::ParseFailed(IntErrorKind::Empty).status_code(), 400);
    assert_eq!(SpecfierParseError::PathNotAbsolute.status_code(), 404);
    assert_eq!(SpecfierParseError::UnexpectedEnd.status_code(), 404);
}

#[test]
fn id_display() {
    assert_eq!(Id::I32(-4).to_string(), "-4");
    assert_eq!(Id::U64(18446744073709551615).to_string(), "18446744073709551615");
}

#[test]
fn specifier_parser_reads_uris() {
    let parser = SpecifierParser::<UserSpecifier>::new("A user uri");
    assert_eq!(parser.expecting(), "A user uri");
    assert_eq!(parser.visit_str("/users/12").unwrap(), UserSpecifier(12));
    assert_eq!(parser.visit_str("http://example.org/users/9").unwrap(), UserSpecifier(9));
    assert!(matches!(parser.visit_str("/users/a b"), Err(SpecifierTextError::Uri(_))));
    assert!(matches!(
        parser.visit_str("/roles/1"),
        Err(SpecifierTextError::Specifier(SpecfierParseError::Expected(_)))
    ));
}
