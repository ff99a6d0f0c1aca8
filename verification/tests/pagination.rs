use pxls_rs::database::ban::BanPageToken;
use pxls_rs::database::faction::{factions_page, FactionFull, FactionsPageToken};
use pxls_rs::database::faction_member::{
    user_factions_page, FactionMemberFull, FactionMembersPageToken, UserFactionMemberListSpecifier,
    UserFactionsPageToken,
};
use pxls_rs::database::placement::{PlacementPageToken, PlacementTokenError};
use pxls_rs::database::report::ReportPageToken;
use pxls_rs::database::role::{RolesPageToken, UserRolesPageToken};
use pxls_rs::database::user::UsersPageToken;
use pxls_rs::database::users::LdapPageToken;
use pxls_rs::filter::response::paginated_list::{next_anchor, page_link, PageToken, PaginationOptions};

#[test]
fn next_page_only_when_more_items_were_fetched() {
    assert_eq!(next_anchor(11, 10), Some(9));
    assert_eq!(next_anchor(10, 10), None);
    assert_eq!(next_anchor(0, 10), None);
    // a limit of zero behaves as a limit of one
    assert_eq!(next_anchor(2, 0), Some(0));
    assert_eq!(next_anchor(1, 0), None);
    assert_eq!(next_anchor(usize::MAX, usize::MAX), None);
}

#[test]
fn page_links() {
    assert_eq!(page_link("/factions", "5", 10), "/factions?page=5&limit=10");
    let token = FactionsPageToken(7);
    assert_eq!(page_link("/factions", &token.to_string(), 0), "/factions?page=7&limit=0");
}

#[test]
fn start_tokens_are_zero() {
    assert_eq!(BanPageToken::start().0, 0);
    assert_eq!(RolesPageToken::start().0, 0);
    assert_eq!(UserRolesPageToken::default().0, 0);
    assert_eq!(ReportPageToken::start().0, 0);
    assert_eq!(UsersPageToken::start().0, 0);
    let p = PlacementPageToken::start();
    assert_eq!((p.id, p.timestamp), (0, 0));
    assert!(LdapPageToken::start().0.is_empty());
    let options = PaginationOptions { page: BanPageToken::default(), limit: Some(3) };
    assert_eq!(options.page.0, 0);
    assert_eq!(options.limit, Some(3));
}

#[test]
fn tokens_from_rows_reinterpret_ids() {
    assert_eq!(BanPageToken::after(-1).0, u32::MAX);
    assert_eq!(RolesPageToken::after(12).0, 12);
    assert_eq!(BanPageToken(42).to_string(), "42");
    assert_eq!(ReportPageToken(usize::MAX).to_string(), usize::MAX.to_string());
    let faction = FactionFull { id: 9, name: "f".to_string(), icon: None, created_at: 0, size: 2 };
    assert_eq!(FactionsPageToken::from_faction(&faction).0, 9);
    let member = FactionMemberFull {
        invited: true,
        imposed: false,
        owner: false,
        faction_id: 3,
        faction_name: "f".to_string(),
        faction_icon: None,
        faction_created_at: 0,
        faction_size: 1,
        member_id: 8,
        member_subject: "s".to_string(),
        member_name: "m".to_string(),
        member_created_at: 0,
    };
    assert_eq!(FactionMembersPageToken::from_member(&member).0, 8);
    assert_eq!(UserFactionsPageToken::from_member(&member).0, 3);
}

#[test]
fn placement_tokens() {
    let t = PlacementPageToken { id: 7, timestamp: 1000 };
    assert_eq!(t.to_string(), "1000_7");
    let back = PlacementPageToken::parse("1000_7").unwrap();
    assert_eq!((back.id, back.timestamp), (7, 1000));
    assert_eq!(PlacementPageToken::parse("1000").unwrap_err(), PlacementTokenError::MissingUnderscore);
    assert_eq!(PlacementPageToken::parse("1000_x").unwrap_err(), PlacementTokenError::IdInvalid);
    assert_eq!(PlacementPageToken::parse("x_7").unwrap_err(), PlacementTokenError::TimestampInvalid);
    // the id is read first
    assert_eq!(PlacementPageToken::parse("x_y").unwrap_err(), PlacementTokenError::IdInvalid);
    // the text splits at its first underscore
    assert_eq!(PlacementPageToken::parse("1_2_3").unwrap_err(), PlacementTokenError::IdInvalid);
    let t = PlacementPageToken { id: usize::MAX, timestamp: u32::MAX };
    let back = PlacementPageToken::parse(&t.to_string()).unwrap();
    assert_eq!((back.id, back.timestamp), (usize::MAX, u32::MAX));
}

#[test]
fn ldap_tokens_are_url_safe_base64() {
    let t = LdapPageToken(vec![0xfb, 0xff]);
    assert_eq!(t.to_string(), "-_8=");
    assert_eq!(LdapPageToken(b"cookie".to_vec()).to_string(), "Y29va2ll");
    assert_eq!(LdapPageToken::parse("-_8=").unwrap().0, vec![0xfb, 0xff]);
    assert!(LdapPageToken::parse("*").is_err());
    let cookie = vec![0, 1, 2, 250, 251, 252, 253];
    assert_eq!(LdapPageToken::parse(&LdapPageToken(cookie.clone()).to_string()).unwrap().0, cookie);
}

fn faction_row(id: i32) -> FactionFull {
    FactionFull { id, name: format!("f{id}"), icon: Some("https://example.org/i.png".to_string()), created_at: 5, size: 2 }
}

#[test]
fn faction_pages_take_the_limit_and_link_onwards() {
    let rows = vec![faction_row(4), faction_row(7), faction_row(9)];
    let page = factions_page(&rows, 2);
    assert_eq!(page.items.len(), 2);
    assert_eq!(page.items[1].id.0, 7);
    assert_eq!(page.items[1].name, "f7");
    assert!(page.items[1].icon.is_some());
    assert_eq!(page.items[1].size, 2);
    assert_eq!(page.next.as_deref(), Some("/factions?page=7&limit=2"));
    assert!(page.previous.is_none());
    assert!(factions_page(&rows[..2], 2).next.is_none());
    assert_eq!(factions_page(&rows, 10).items.len(), 3);
}

fn membership_row(faction_id: i32) -> FactionMemberFull {
    FactionMemberFull {
        invited: true,
        imposed: false,
        owner: faction_id == 3,
        faction_id,
        faction_name: format!("f{faction_id}"),
        faction_icon: None,
        faction_created_at: 0,
        faction_size: 1,
        member_id: 8,
        member_subject: "s".to_string(),
        member_name: "m".to_string(),
        member_created_at: 11,
    }
}

#[test]
fn user_faction_pages_keep_every_row_and_link_onwards() {
    let rows = vec![membership_row(3), membership_row(5), membership_row(6)];
    let list = UserFactionMemberListSpecifier { user: 8 };
    let page = user_factions_page(&rows, &list, 2);
    assert_eq!(page.items.len(), 3);
    assert_eq!(page.items[0].faction.id.0, 3);
    assert!(page.items[0].member.owner);
    assert!(!page.items[1].member.owner);
    assert_eq!((page.items[1].member.id.faction, page.items[1].member.id.member), (5, 8));
    assert_eq!(page.items[1].member.user.name, "m");
    assert!(page.items[1].member.join_intent.faction && !page.items[1].member.join_intent.member);
    assert_eq!(page.next.as_deref(), Some("/users/8/factions?page=5&limit=2"));
    assert!(user_factions_page(&rows[..2], &list, 2).next.is_none());
}
