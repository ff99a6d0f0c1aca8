use pxls_rs::database::filter::FilterRange;
use pxls_rs::database::users::entities::LDAPTimestamp;
use pxls_rs::database::users::{
    change_outcome, creation_outcome, entry_dn, equals_filter, faction_name_pattern,
    faction_members_page_link, factions_page_link, factions_search_filter, ldap_page_link, member_id, member_ids, membership,
    membership_outcome, permissions_filter, roles_page_link, single_entry, split_on_chars, user_dn,
    user_roles_filter, user_roles_page_link, users_by_id_filter, ChangeOutcome, FactionFilter,
    FetchError, LdapPageToken, MembershipStep, RoleFilter,
};

fn chars(s: &str) -> Vec<char> {
    s.chars().collect()
}

#[test]
fn names_and_filters_escape_values() {
    assert_eq!(user_dn("bob", "uid", "users", "dc=example,dc=org"), "uid=bob,ou=users,dc=example,dc=org");
    assert_eq!(user_dn("a*(b)\\", "uid", "u", "b"), "uid=a\\2a\\28b\\29\\5c,ou=u,b");
    assert_eq!(entry_dn("mod", "roles", "dc=x"), "cn=mod,ou=roles,dc=x");
    assert_eq!(equals_filter("uid", "x*"), "(uid=x\\2a)");
    assert_eq!(users_by_id_filter("uid", &["a", "b"]), "(|(uid=a)(uid=b))");
    assert_eq!(users_by_id_filter("uid", &[]), "(|)");
}

#[test]
fn role_filters() {
    assert_eq!(user_roles_filter("uid=a,ou=u", None, None, None), "(member=uid=a,ou=u)");
    assert_eq!(
        user_roles_filter("uid=a,ou=u", Some("default"), Some("mod"), None),
        "(&(|(member=uid=a,ou=u)(cn=default))(cn=mod))"
    );
    assert_eq!(
        user_roles_filter("d", None, None, Some("http://i")),
        "(&(member=d)(pxlsspaceIcon=http://i))"
    );
    assert_eq!(permissions_filter(Some("guest"), Some("uid=a")), "(|(cn=guest)(member=uid=a))");
    assert_eq!(permissions_filter(None, None), "(|)");
}

#[test]
fn faction_name_patterns_collapse_wildcards() {
    assert_eq!(faction_name_pattern("blue"), "blue");
    assert_eq!(faction_name_pattern("bl*e"), "bl*e");
    assert_eq!(faction_name_pattern("b**e"), "b*e");
    assert_eq!(faction_name_pattern("*b*"), "*b*");
    assert_eq!(faction_name_pattern("**"), "*");
    assert_eq!(faction_name_pattern("***"), "*");
    assert_eq!(faction_name_pattern("(x)"), "\\28x\\29");
    assert_eq!(faction_name_pattern(""), "");
    let pieces = split_on_chars(&chars("a\\2ab\\2a"), &chars("\\2a"));
    assert_eq!(pieces, vec![chars("a"), chars("b"), chars("")]);
}

#[test]
fn faction_filters() {
    assert_eq!(factions_search_filter(None, None, None), "(cn=*)");
    assert_eq!(factions_search_filter(Some("r*d"), None, None), "(&(pxlsspaceFactionName=r*d))");
    let t = LDAPTimestamp { year: 2024, month: 5, day: 6, hour: 7, minute: 8, second: 9 };
    assert_eq!(
        factions_search_filter(None, Some(t), Some(t)),
        "(&(createTimestamp>=20240506070809Z)(createTimestamp<=20240506070809Z))"
    );
}

#[test]
fn directory_page_links() {
    let page = LdapPageToken(b"cookie".to_vec());
    assert_eq!(ldap_page_link("/x", 3, &page), "/x?limit=3&page=Y29va2ll");
    let roles = RoleFilter { name: Some("a b".to_string()), icon: Some("x/y".to_string()) };
    assert_eq!(roles_page_link(2, &page, &roles), "/roles?limit=2&page=Y29va2ll&name=a&icon=x");
    assert_eq!(
        user_roles_page_link("u1", 2, &page, &roles),
        "/users/u1/roles?limit=2&page=Y29va2ll&name=a&icon=x/y"
    );
    let factions = FactionFilter {
        name: None,
        created_at: FilterRange { start: None, end: Some(10) },
        size: FilterRange { start: Some(2), end: Some(2) },
    };
    assert_eq!(
        faction_members_page_link("f1", 5, &page, Some(false)),
        "/factions/f1/members?limit=5&page=Y29va2ll&owner=false"
    );
    assert_eq!(faction_members_page_link("f1", 5, &page, None), "/factions/f1/members?limit=5&page=Y29va2ll");
    assert_eq!(
        factions_page_link(4, &page, &factions),
        "/factions?limit=4&page=Y29va2ll&created_at=..10&size=2"
    );
}

#[test]
fn directory_answers() {
    assert_eq!(change_outcome(0), ChangeOutcome::Done);
    assert_eq!(change_outcome(32), ChangeOutcome::NoItem);
    assert_eq!(change_outcome(50), ChangeOutcome::Failed);
    assert_eq!(change_outcome(68), ChangeOutcome::Failed);
    assert_eq!(creation_outcome(68), ChangeOutcome::AlreadyExists);
    assert_eq!(creation_outcome(0), ChangeOutcome::Done);
    assert_eq!(creation_outcome(32), ChangeOutcome::Failed);
    assert!(matches!(single_entry::<u8>(vec![]), Err(FetchError::NoItems)));
    assert!(matches!(single_entry(vec![7u8]), Ok(7)));
    assert!(matches!(single_entry(vec![1u8, 2]), Err(FetchError::AmbiguousItems)));
}

#[test]
fn member_ids_from_names() {
    assert_eq!(member_id("uid=bob,ou=users,dc=x"), "bob");
    assert_eq!(member_id("cn=x,ou=users"), "");
    assert_eq!(member_id("uid=é,ou=u"), "é");
    assert_eq!(member_id("ééé,x"), "é");
    let dns = vec!["uid=a,ou=u".to_string(), "uid=bc,ou=u".to_string()];
    assert_eq!(member_ids(&dns), vec!["a".to_string(), "bc".to_string()]);
    let owners = vec!["uid=bc,ou=u".to_string()];
    assert_eq!(membership(&dns, &owners, "uid=a,ou=u"), Some(false));
    assert_eq!(membership(&dns, &owners, "uid=bc,ou=u"), Some(true));
    assert_eq!(membership(&dns, &owners, "uid=z,ou=u"), None);
}

#[test]
fn membership_result_codes() {
    let outcome = membership_outcome;
    assert_eq!(outcome(MembershipStep::Add, 0), ChangeOutcome::Done);
    assert_eq!(outcome(MembershipStep::Add, 20), ChangeOutcome::AlreadyExists);
    assert_eq!(outcome(MembershipStep::Add, 32), ChangeOutcome::NoItem);
    assert_eq!(outcome(MembershipStep::EditOwner, 20), ChangeOutcome::Done);
    assert_eq!(outcome(MembershipStep::RemoveOwner, 16), ChangeOutcome::Done);
    assert_eq!(outcome(MembershipStep::RemoveOwner, 32), ChangeOutcome::NoItem);
    assert_eq!(outcome(MembershipStep::RemoveMember, 16), ChangeOutcome::NoItem);
    assert_eq!(outcome(MembershipStep::RemoveMember, 1), ChangeOutcome::Failed);
}
