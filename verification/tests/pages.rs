use pxls_rs::database::ban::{bans_page, BanFull, BanListSpecifier};
use pxls_rs::database::faction::faction_name_like;
use pxls_rs::database::faction_member::{faction_members_page, FactionMemberFull, FactionMemberListSpecifier};
use pxls_rs::database::report::{
    report_history_page, reports_page, Artifact, ArtifactModel, ArtifactParseError, ArtifactType,
    ReportHistorySpecifier, ReportModel, ReportStatus,
};
use pxls_rs::database::user::UserModel;

fn ban_row(id: i32, issuer: Option<i32>) -> BanFull {
    BanFull {
        id,
        created_at: 10,
        expires_at: Some(-1),
        reason: Some("spam".to_string()),
        user_id: 3,
        user_subject: "u".to_string(),
        user_name: "una".to_string(),
        user_created_at: 1,
        issuer,
        issuer_subject: issuer.map(|_| "i".to_string()),
        issuer_name: issuer.map(|_| "ivy".to_string()),
        issuer_created_at: issuer.map(|_| 2),
    }
}

#[test]
fn ban_pages_take_the_limit_and_link_onwards() {
    let rows = vec![ban_row(4, Some(9)), ban_row(6, None), ban_row(8, None)];
    let list = BanListSpecifier { user: 3 };
    let page = bans_page(&rows, &list, 2);
    assert_eq!(page.items.len(), 2);
    assert_eq!((page.items[0].id.user, page.items[0].id.ban), (3, 4));
    assert_eq!(page.items[0].expires_at, Some(u64::MAX));
    assert_eq!(page.items[0].issuer.as_ref().unwrap().name, "ivy");
    assert!(page.items[1].issuer.is_none());
    assert_eq!(page.items[1].reason.as_deref(), Some("spam"));
    assert_eq!(page.next.as_deref(), Some("/users/3/bans?page=6&limit=2"));
    assert!(bans_page(&rows[..2], &list, 2).next.is_none());
}

fn member_row(member_id: i32) -> FactionMemberFull {
    FactionMemberFull {
        invited: false,
        imposed: true,
        owner: member_id == 1,
        faction_id: 2,
        faction_name: "f".to_string(),
        faction_icon: Some("https://example.org/i.png".to_string()),
        faction_created_at: 0,
        faction_size: 3,
        member_id,
        member_subject: "s".to_string(),
        member_name: format!("m{member_id}"),
        member_created_at: 4,
    }
}

#[test]
fn faction_member_pages_keep_every_row_and_link_onwards() {
    let rows = vec![member_row(1), member_row(5), member_row(7)];
    let list = FactionMemberListSpecifier { faction: 2 };
    let page = faction_members_page(&rows, &list, 2);
    assert_eq!(page.items.len(), 3);
    assert!(page.items[0].owner);
    assert_eq!(page.items[2].user.name, "m7");
    assert_eq!(page.items[1].faction.icon.as_ref().unwrap().as_str(), "https://example.org/i.png");
    assert_eq!(page.next.as_deref(), Some("/factions/2/members?page=5&limit=2"));
}

fn report_row(id: i32, revision: i32) -> (ReportModel, Option<UserModel>) {
    (
        ReportModel { id, revision, closed: revision > 1, reason: "bad".to_string(), reporter: Some(6), timestamp: 30 },
        Some(UserModel { id: 6, subject: "s".to_string(), name: "rex".to_string(), created_at: 0 }),
    )
}

fn artifact_row(uri: &str) -> ArtifactModel {
    ArtifactModel { uri: uri.to_string(), timestamp: 12 }
}

#[test]
fn report_pages_read_their_artifacts() {
    let rows = vec![report_row(1, 1), report_row(2, 1), report_row(3, 1)];
    let artifacts = vec![vec![artifact_row("/boards/1/pixels/4294967296")], vec![]];
    let page = reports_page(&rows, &artifacts, 2).unwrap();
    assert_eq!(page.items.len(), 2);
    assert_eq!(page.items[0].id.0, 1);
    assert_eq!(page.items[0].status, ReportStatus::Opened);
    assert_eq!(page.items[0].reporter.as_ref().unwrap().name, "rex");
    assert_eq!(page.items[0].artifacts.len(), 1);
    assert_eq!(page.items[0].artifacts[0].kind, ArtifactType::Placement);
    assert_eq!(page.items[0].artifacts[0].timestamp, 12);
    assert_eq!(page.items[0].artifacts[0].reference.path(), "/boards/1/pixels/4294967296");
    assert_eq!(page.next.as_deref(), Some("/reports?page=2&limit=2"));
    // an artifact row that names no artifact fails the page
    let broken = vec![vec![artifact_row("/nothing/here")], vec![]];
    assert!(matches!(reports_page(&rows, &broken, 2), Err(ArtifactParseError::Type)));
}

#[test]
fn report_history_pages_link_by_revision() {
    let rows = vec![report_row(4, 1), report_row(4, 2)];
    let artifacts = vec![vec![]];
    let page = report_history_page(&rows, &artifacts, &ReportHistorySpecifier(4), 1).unwrap();
    assert_eq!(page.items.len(), 1);
    assert_eq!(page.next.as_deref(), Some("/reports/4/history?page=1&limit=1"));
    let page = report_history_page(&rows, &[vec![], vec![]], &ReportHistorySpecifier(4), 5).unwrap();
    assert_eq!(page.items[1].status, ReportStatus::Closed);
    assert!(page.next.is_none());
}

#[test]
fn artifacts_keep_the_parsed_link() {
    let a = Artifact::parse("/boards/1/pixels/4294967296", 7).unwrap();
    assert_eq!(a.reference, "/boards/1/pixels/4294967296".parse::<http::Uri>().unwrap());
    assert_eq!((a.kind, a.timestamp), (ArtifactType::Placement, 7));
}

#[test]
fn faction_name_filters_become_like_patterns() {
    assert_eq!(faction_name_like("red*team"), "red%team");
    assert_eq!(faction_name_like("*o'k\\*"), "%o\\'k\\\\%");
    assert_eq!(faction_name_like(""), "");
    assert_eq!(faction_name_like("a\nb"), "a\\nb");
}
