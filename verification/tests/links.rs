use pxls_rs::database::board::BoardSpecifier;
use pxls_rs::database::filter::FilterRange;
use pxls_rs::database::placement::{
    placements_page, placements_page_link, PlacementFilter, PlacementListSpecifier, PlacementPageToken,
};
use pxls_rs::database::report::{ReportModel, ReportStatus};
use pxls_rs::database::sector::PlacementModel;
use pxls_rs::database::user::{UserModel, UserSpecifier};
use pxls_rs::database::users::{users_page_link, LdapPageToken, UserFilter};

fn open<T>() -> FilterRange<T> {
    FilterRange { start: None, end: None }
}

fn placement_link(user: Option<&str>) -> String {
    let filter = PlacementFilter {
        color: FilterRange { start: Some(1), end: Some(3) },
        user: user.map(|u| u.to_string()),
        position: open(),
        timestamp: FilterRange { start: None, end: Some(7) },
    };
    placements_page_link(
        &PlacementListSpecifier::from(BoardSpecifier(2)),
        &PlacementPageToken { id: 5, timestamp: 9 },
        10,
        &filter,
    )
}

#[test]
fn placement_page_links_carry_the_filter() {
    assert_eq!(placement_link(None), "/boards/2/pixels?page=9_5&limit=10&color=1..3&timestamp=..7");
    // only the first piece of the form-encoded user name is kept
    assert_eq!(placement_link(Some("ab c")), "/boards/2/pixels?page=9_5&limit=10&color=1..3&user=ab&timestamp=..7");
    assert_eq!(placement_link(Some(" x")), "/boards/2/pixels?page=9_5&limit=10&color=1..3&user=+&timestamp=..7");
    assert_eq!(placement_link(Some("é")), "/boards/2/pixels?page=9_5&limit=10&color=1..3&user=%C3&timestamp=..7");
    assert_eq!(placement_link(Some("")), "/boards/2/pixels?page=9_5&limit=10&color=1..3&timestamp=..7");
    let row = PlacementModel { id: 11, board: 2, position: 0, color: 0, timestamp: 40, user_id: 1 };
    let t = PlacementPageToken::from_model(&row);
    assert_eq!((t.id, t.timestamp), (11, 40));
}

#[test]
fn user_page_links_carry_the_filter() {
    let filter = UserFilter { name: Some("bob smith".to_string()), created_at: FilterRange { start: Some(-5), end: None } };
    assert_eq!(
        users_page_link(5, &LdapPageToken(b"cookie".to_vec()), &filter),
        "/users?limit=5&page=Y29va2ll&name=bob&created_at=-5.."
    );
    let filter = UserFilter { name: None, created_at: open() };
    assert_eq!(users_page_link(1, &LdapPageToken(vec![]), &filter), "/users?limit=1&page=");
}

#[test]
fn report_revisions() {
    let first = ReportModel::first_revision("griefing".to_string(), Some(&UserSpecifier(3)), 100);
    assert_eq!((first.revision, first.closed, first.reporter, first.timestamp), (1, false, Some(3), 100));
    assert_eq!(first.status(), ReportStatus::Opened);
    let closed = first.revise(Some(ReportStatus::Closed), None, 200);
    assert_eq!((closed.revision, closed.closed, closed.reason.as_str(), closed.timestamp), (2, true, "griefing", 200));
    assert_eq!(closed.status(), ReportStatus::Closed);
    let renamed = closed.revise(None, Some("spam".to_string()), 300);
    assert_eq!((renamed.revision, renamed.closed, renamed.reason.as_str(), renamed.reporter), (3, true, "spam", Some(3)));
    let anonymous = ReportModel::first_revision("x".to_string(), None, 0);
    assert_eq!(anonymous.reporter, None);
}

fn placement_row(id: i64, timestamp: i32) -> (PlacementModel, UserModel) {
    (
        PlacementModel { id, board: 2, position: id * 10, color: 3, timestamp, user_id: 4 },
        UserModel { id: 4, subject: "sub".to_string(), name: "ann".to_string(), created_at: 1 },
    )
}

#[test]
fn placement_pages_take_the_limit_and_link_onwards() {
    let filter = PlacementFilter { color: open(), user: None, position: open(), timestamp: open() };
    let list = PlacementListSpecifier::from(BoardSpecifier(2));
    let rows = vec![placement_row(1, 11), placement_row(2, 12), placement_row(3, 13)];
    let page = placements_page(&rows, &list, 2, &filter);
    assert_eq!(page.items.len(), 2);
    assert_eq!((page.items[1].position, page.items[1].color, page.items[1].modified), (20, 3, 12));
    assert_eq!(page.items[0].user.name, "ann");
    assert_eq!(page.next.as_deref(), Some("/boards/2/pixels?page=12_2&limit=2"));
    assert!(page.previous.is_none());
    // no row past the page: no next page
    let last = placements_page(&rows[..2], &list, 2, &filter);
    assert_eq!(last.items.len(), 2);
    assert!(last.next.is_none());
    let short = placements_page(&rows[..1], &list, 5, &filter);
    assert_eq!(short.items.len(), 1);
    assert!(short.next.is_none());
}
