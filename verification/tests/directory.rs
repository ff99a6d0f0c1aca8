use pxls_rs::database::users::connection::LDAPConnectionManager;
use pxls_rs::database::users::entities::{
    ldap_seconds, Faction, FactionMember, FactionParseError, LDAPTimestamp, SearchEntry,
    TimestampParseError, User, UserParseError,
};
use pxls_rs::database::users::{
    users_search_filter, CreateError, DeleteError, FetchError, UpdateError, UsersDatabaseError,
};

fn ts(year: i32, month: u32, day: u32, hour: u32, minute: u32, second: u32) -> LDAPTimestamp {
    LDAPTimestamp { year, month, day, hour, minute, second }
}

fn entry(attrs: &[(&str, &[&str])]) -> SearchEntry {
    SearchEntry {
        dn: "cn=x".to_string(),
        attrs: attrs
            .iter()
            .map(|(k, vs)| (k.to_string(), vs.iter().map(|v| v.to_string()).collect()))
            .collect(),
    }
}

#[test]
fn ldap_times_parse_field_by_field() {
    assert_eq!(LDAPTimestamp::parse("20240131235959Z"), Ok(ts(2024, 1, 31, 23, 59, 59)));
    assert_eq!(LDAPTimestamp::parse("2024013123595Z"), Err(TimestampParseError::IncorrectTimestampLength));
    assert_eq!(LDAPTimestamp::parse("20240131235959X"), Err(TimestampParseError::IncorrectTimestampSuffix));
    assert_eq!(LDAPTimestamp::parse("2O240131235959Z"), Err(TimestampParseError::IncorrectTimestampYear));
    assert_eq!(LDAPTimestamp::parse("2024ab31235959Z"), Err(TimestampParseError::IncorrectTimestampMonth));
    assert_eq!(LDAPTimestamp::parse("202401xx235959Z"), Err(TimestampParseError::IncorrectTimestampDay));
    assert_eq!(LDAPTimestamp::parse("20240131 35959Z"), Err(TimestampParseError::IncorrectTimestampHour));
    assert_eq!(LDAPTimestamp::parse("2024013123-959Z"), Err(TimestampParseError::IncorrectTimestampMinute));
    assert_eq!(LDAPTimestamp::parse("202401312359 9Z"), Err(TimestampParseError::IncorrectTimestampSecond));
    // a sign counts toward the field, as `str::parse` reads it
    assert_eq!(LDAPTimestamp::parse("-00101312359+9Z"), Ok(ts(-1, 1, 31, 23, 59, 9)));
    // the length is counted in bytes
    assert_eq!(LDAPTimestamp::parse("ééééééé"), Err(TimestampParseError::IncorrectTimestampLength));
}

#[test]
fn ldap_times_are_written_back() {
    assert_eq!(ts(2024, 1, 31, 23, 59, 59).to_string(), "20240131235959Z");
    assert_eq!(ts(7, 2, 3, 4, 5, 6).to_string(), "00070203040506Z");
    assert_eq!(ts(-5, 1, 1, 0, 0, 0).to_string(), "-0050101000000Z");
    let t = ts(-999, 12, 31, 0, 0, 0);
    assert_eq!(LDAPTimestamp::parse(&t.to_string()), Ok(t));
}

#[test]
fn ldap_times_in_seconds() {
    assert_eq!(ts(2024, 1, 31, 23, 59, 59).unix_time(), Ok(1706745599));
    assert_eq!(ts(1970, 1, 1, 0, 0, 0).unix_time(), Ok(0));
    assert_eq!(ts(1969, 12, 31, 23, 59, 59).unix_time(), Ok(-1));
    assert_eq!(ts(2023, 2, 29, 0, 0, 0).unix_time(), Err(TimestampParseError::InvalidDate));
    assert_eq!(ts(2024, 2, 29, 0, 0, 0).unix_time(), Ok(1709164800));
    assert_eq!(ts(2024, 13, 1, 0, 0, 0).unix_time(), Err(TimestampParseError::InvalidDate));
    assert_eq!(ts(2024, 1, 31, 24, 0, 0).unix_time(), Err(TimestampParseError::InvalidTime));
    assert_eq!(ts(2024, 1, 31, 23, 59, 60).unix_time(), Err(TimestampParseError::InvalidTime));
    assert_eq!(ldap_seconds("19700101000001Z"), Ok(1));
}

#[test]
fn ldap_times_from_seconds() {
    assert_eq!(LDAPTimestamp::from_unix(0), ts(1970, 1, 1, 0, 0, 0));
    assert_eq!(LDAPTimestamp::from_unix(1700000000), ts(2023, 11, 14, 22, 13, 20));
    assert_eq!(LDAPTimestamp::from_unix(1706745599).unix_time(), Ok(1706745599));
    assert_eq!(LDAPTimestamp::try_from_unix(-1), Some(ts(1969, 12, 31, 23, 59, 59)));
    assert_eq!(LDAPTimestamp::try_from_unix(i64::MAX), None);
    // the first and last seconds of the years chrono holds, and one past each
    assert_eq!(LDAPTimestamp::try_from_unix(-8334601228800), Some(ts(-262143, 1, 1, 0, 0, 0)));
    assert_eq!(LDAPTimestamp::try_from_unix(-8334601228801), None);
    assert_eq!(LDAPTimestamp::try_from_unix(8210266876799), Some(ts(262142, 12, 31, 23, 59, 59)));
    assert_eq!(LDAPTimestamp::try_from_unix(8210266876800), None);
}

#[test]
fn users_from_entries() {
    assert_eq!(User::search_fields("uid", "cn"), ["uid", "cn", "createTimestamp"]);
    let e = entry(&[("uid", &["u1", "u2"]), ("cn", &["Alice"]), ("createTimestamp", &["19700101000010Z"])]);
    let u = User::from_entry(&e, "uid", "cn").unwrap();
    assert_eq!((u.id.as_str(), u.name.as_str(), u.created_at), ("u1", "Alice", 10));
    let e = entry(&[("cn", &["Alice"])]);
    assert_eq!(User::from_entry(&e, "uid", "cn").unwrap_err(), UserParseError::MissingId);
    // a missing name is reported as a missing id
    let e = entry(&[("uid", &["u1"])]);
    assert_eq!(User::from_entry(&e, "uid", "cn").unwrap_err(), UserParseError::MissingId);
    let e = entry(&[("uid", &["u1"]), ("cn", &["A"]), ("createTimestamp", &[])]);
    assert_eq!(User::from_entry(&e, "uid", "cn").unwrap_err(), UserParseError::MissingTimestamp);
    let e = entry(&[("uid", &["u1"]), ("cn", &["A"]), ("createTimestamp", &["yesterday"])]);
    assert_eq!(
        User::from_entry(&e, "uid", "cn").unwrap_err(),
        UserParseError::BadTimestamp(TimestampParseError::IncorrectTimestampLength)
    );
    assert_eq!(e.first_value("cn").unwrap(), "A");
    assert!(e.first_value("mail").is_none());
}

#[test]
fn factions_from_entries() {
    assert_eq!(Faction::search_fields(), ["cn", "pxlsspaceFactionName", "createTimestamp", "member"]);
    let e = entry(&[
        ("cn", &["f1"]),
        ("pxlsspaceFactionName", &["Blue"]),
        ("createTimestamp", &["19700101000100Z"]),
        ("member", &["a", "b", "c"]),
    ]);
    let f = Faction::from_entry(&e).unwrap();
    assert_eq!((f.id.as_str(), f.name.as_str(), f.created_at, f.size), ("f1", "Blue", 60, 3));
    let e = entry(&[("cn", &["f1"]), ("pxlsspaceFactionName", &["Blue"]), ("createTimestamp", &["19700101000100Z"])]);
    assert_eq!(Faction::from_entry(&e).unwrap().size, 0);
    let e = entry(&[("cn", &["f1"])]);
    assert_eq!(Faction::from_entry(&e).unwrap_err(), FactionParseError::MissingName);
    let e = entry(&[("cn", &["f1"]), ("pxlsspaceFactionName", &["Blue"]), ("createTimestamp", &["19700230000100Z"])]);
    assert_eq!(
        Faction::from_entry(&e).unwrap_err(),
        FactionParseError::BadTimestamp(TimestampParseError::InvalidDate)
    );
    let m = FactionMember::new("f1".to_string(), "u1".to_string(), true);
    assert!(m.owner && m.join_intent.member && m.join_intent.faction);
}

#[test]
fn user_search_filters() {
    assert_eq!(users_search_filter("uid", None, None, None), "(uid=*)");
    assert_eq!(users_search_filter("uid", Some("bob"), None, None), "(&(uid=*)(displayName=bob))");
    assert_eq!(
        users_search_filter("uid", None, Some(ts(2024, 1, 2, 3, 4, 5)), Some(ts(2025, 1, 1, 0, 0, 0))),
        "(&(uid=*)(createTimestamp>=20240102030405Z)(createTimestamp<=20250101000000Z))"
    );
}

#[test]
fn directory_errors_answer_with_statuses() {
    assert_eq!(UsersDatabaseError::Fetch(FetchError::NoItems).status_code(), 404);
    assert_eq!(UsersDatabaseError::Update(UpdateError::NoItem).status_code(), 404);
    assert_eq!(UsersDatabaseError::Delete(DeleteError::NoItem).status_code(), 404);
    assert_eq!(UsersDatabaseError::Fetch(FetchError::InvalidPage).status_code(), 400);
    assert_eq!(UsersDatabaseError::Create(CreateError::AlreadyExists).status_code(), 409);
    assert_eq!(UsersDatabaseError::Fetch(FetchError::LdapError("down".to_string())).status_code(), 500);
    assert_eq!(UsersDatabaseError::Delete(DeleteError::LdapError("down".to_string())).status_code(), 500);
}

#[test]
fn bind_names() {
    assert_eq!(LDAPConnectionManager::bind_dn("admin", "dc=example,dc=org"), "cn=admin,dc=example,dc=org");
}

#[test]
fn reading_a_time_cuts_only_between_characters() {
    assert!(LDAPTimestamp::cuts_fit("20240131235959Z"));
    assert!(LDAPTimestamp::cuts_fit("ééééééé"));
    // the last byte of this 15-byte text is inside `é`
    assert_eq!("2024013123595é".len(), 15);
    assert!(!LDAPTimestamp::cuts_fit("2024013123595é"));
    // the year is refused before the cut after it matters
    assert!(LDAPTimestamp::cuts_fit("2é24013123599Z"));
    assert_eq!(LDAPTimestamp::parse("2é24013123599Z"), Err(TimestampParseError::IncorrectTimestampYear));
    // the cut after the year falls inside `é`
    assert!(!LDAPTimestamp::cuts_fit("202é013123599Z"));
    let e = entry(&[("uid", &["u1"]), ("cn", &["A"]), ("createTimestamp", &["2024013123595é"])]);
    assert!(!User::entry_cuts_fit(&e, "uid", "cn"));
    assert!(User::entry_cuts_fit(&e, "mail", "cn"));
    assert!(!Faction::entry_cuts_fit(&entry(&[("cn", &["f"]), ("pxlsspaceFactionName", &["F"]), ("createTimestamp", &["2024013123595é"])])));
}
