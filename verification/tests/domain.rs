use pxls_rs::database::ban::{BanFull, BanStatus};
use pxls_rs::database::board::{cache_window, CacheWindow, IDLE_TIMEOUT};
use pxls_rs::database::board_notice::BoardNoticeListSpecifier;
use pxls_rs::database::faction::{Faction, FactionFull, FactionModel};
use pxls_rs::database::faction_member::{FactionMemberFull, JoinIntent};
use pxls_rs::database::filter::{FilterRange, FilterRangeVisitor};
use pxls_rs::database::icon::parse_icon;
use pxls_rs::database::placement::{CachedPlacement, LastPlacement};
use pxls_rs::database::report::{artifact_type, Artifact, ArtifactParseError, ArtifactType, ReportStatus};
use pxls_rs::database::sector::{
    sector_from_model, BufferRead, MaskValue, PlacementModel, SectorBuffer, SectorModel, WriteBuffer,
};
use pxls_rs::database::user::UserSpecifier;
use pxls_rs::decimal::IntErrorKind;

fn full(issuer: Option<i32>) -> BanFull {
    BanFull {
        id: 1,
        created_at: 10,
        expires_at: Some(20),
        reason: Some("spam".to_string()),
        user_id: 2,
        user_subject: "s2".to_string(),
        user_name: "bob".to_string(),
        user_created_at: 5,
        issuer,
        issuer_subject: issuer.map(|_| "s3".to_string()),
        issuer_name: issuer.map(|_| "eve".to_string()),
        issuer_created_at: issuer.map(|_| 6),
    }
}

#[test]
fn ban_rows_split() {
    let (ban, user, issuer) = full(Some(3)).split();
    assert_eq!((ban.id, ban.user_id, ban.issuer, ban.expires_at), (1, 2, Some(3), Some(20)));
    assert_eq!((user.id, user.name.as_str()), (2, "bob"));
    let issuer = issuer.unwrap();
    assert_eq!((issuer.id, issuer.subject.as_str(), issuer.created_at), (3, "s3", 6));
    let (_, _, issuer) = full(None).split();
    assert!(issuer.is_none());
}

#[test]
fn ban_status() {
    assert_eq!(BanStatus::from_bans(1, Some(5)), BanStatus::Permabanned);
    assert_eq!(BanStatus::from_bans(0, Some(5)), BanStatus::BannedUntil(5));
    assert_eq!(BanStatus::from_bans(0, None), BanStatus::NotBanned);
    assert_eq!(BanStatus::default(), BanStatus::NotBanned);
    assert!(BanStatus::BannedUntil(5).is_banned_at(5));
    assert!(!BanStatus::BannedUntil(5).is_banned_at(6));
    assert!(BanStatus::Permabanned.is_banned_at(u64::MAX));
    assert!(!BanStatus::NotBanned.is_banned_at(0));
    assert!(BanStatus::Permabanned.is_banned());
    assert!(!BanStatus::NotBanned.is_banned());
    assert!(!BanStatus::BannedUntil(0).is_banned());
}

#[test]
fn cache_windows() {
    let w = cache_window(1000, 400, 6, 30);
    assert_eq!(w, CacheWindow { timestamp: 600, idle_begin: 600 - IDLE_TIMEOUT, cooldown_begin: 420 });
    let w = cache_window(400, 1000, 0, 30);
    assert_eq!(w, CacheWindow { timestamp: 1, idle_begin: 0, cooldown_begin: 1 });
}

#[test]
fn artifacts() {
    let a = Artifact::parse("/boards/1/pixels/2", 5).unwrap();
    assert_eq!((a.kind, a.timestamp), (ArtifactType::Placement, 5));
    assert_eq!(a.reference.path(), "/boards/1/pixels/2");
    assert_eq!(Artifact::parse("http://example.org/report/7", 0).unwrap().kind, ArtifactType::Report);
    assert_eq!(artifact_type("/boards/4"), Some(ArtifactType::Board));
    assert_eq!(artifact_type("//boards//4/"), Some(ArtifactType::Board));
    assert_eq!(artifact_type("/boards/4/notice/1"), Some(ArtifactType::BoardNotice));
    assert_eq!(artifact_type("/notice/1"), Some(ArtifactType::Notice));
    assert_eq!(artifact_type("/faction/1"), Some(ArtifactType::Faction));
    assert_eq!(artifact_type("/faction/1/member/2"), Some(ArtifactType::Faction));
    assert_eq!(artifact_type("/user/anyone"), Some(ArtifactType::User));
    assert_eq!(artifact_type("/role/admin"), Some(ArtifactType::Role));
    assert_eq!(artifact_type("/boards/x"), None);
    assert_eq!(artifact_type("/boards/4294967296"), None);
    assert_eq!(artifact_type("/users/1"), None);
    assert!(matches!(Artifact::parse("/boards/x", 0), Err(ArtifactParseError::Type)));
    assert!(matches!(Artifact::parse("/a b", 0), Err(ArtifactParseError::Uri(_))));
    assert_eq!(ReportStatus::from_closed(true), ReportStatus::Closed);
    assert!(!ReportStatus::Opened.is_closed());
}

#[test]
fn factions() {
    let model = FactionModel { id: 4, name: "Red".to_string(), icon: Some("https://example.org/i.png".to_string()), created_at: 9 };
    let full = FactionFull::from_model_and_size(model, 3);
    assert_eq!((full.id, full.size), (4, 3));
    let f = Faction::from_full(full);
    assert_eq!(f.specifier().0, 4);
    assert_eq!(f.icon.unwrap().as_str(), "https://example.org/i.png");
    assert_eq!(f.size, 3);
    let bad = FactionFull { id: 1, name: "x".to_string(), icon: Some("not a url".to_string()), created_at: 0, size: -1 };
    let f = Faction::from_full(bad);
    assert!(f.icon.is_none());
    assert_eq!(f.size, usize::MAX);
    assert!(parse_icon(&None).is_none());
    let member = FactionMemberFull {
        invited: true,
        imposed: false,
        owner: true,
        faction_id: 3,
        faction_name: "f".to_string(),
        faction_icon: None,
        faction_created_at: 0,
        faction_size: 1,
        member_id: 8,
        member_subject: "s".to_string(),
        member_name: "m".to_string(),
        member_created_at: 0,
    };
    let intent = member.join_intent();
    assert!(intent.faction && !intent.member);
    assert_eq!(member.specifier().member, 8);
    assert_eq!(member.faction().id, 3);
    let d = JoinIntent::default();
    assert!(d.member && d.faction);
}

#[test]
fn placements_from_rows() {
    let row = |id, timestamp| PlacementModel { id, board: 1, position: 3, color: 300, timestamp, user_id: 7 };
    let c = CachedPlacement::from_model(&row(1, -1));
    assert_eq!((c.modified, c.user), (u32::MAX, UserSpecifier(7)));
    let l = LastPlacement::from_model(&row(2, 50));
    assert_eq!((l.id, l.modified, l.color), (2, 50, 44));
    let (a, b) = LastPlacement::last_two(&vec![row(9, 3), row(8, 2), row(7, 1)]);
    assert_eq!(a.unwrap().id, 9);
    assert_eq!(b.unwrap().id, 8);
    let (a, b) = LastPlacement::last_two(&vec![]);
    assert!(a.is_none() && b.is_none());
}

#[test]
fn filter_ranges() {
    let r = FilterRange::<u64>::parse("5..10").unwrap();
    assert_eq!((r.start, r.end), (Some(5), Some(10)));
    assert!(r.contains(5) && r.contains(10) && !r.contains(11));
    assert_eq!(r.to_string(), "5..10");
    let r = FilterRange::<u64>::parse("7").unwrap();
    assert_eq!((r.start, r.end), (Some(7), Some(7)));
    assert_eq!(r.to_string(), "7");
    let r = FilterRange::<i64>::parse("..-3").unwrap();
    assert_eq!((r.start, r.end), (None, Some(-3)));
    assert_eq!(r.to_string(), "..-3");
    let r = FilterRange::<u32>::parse("").unwrap();
    assert!(r.is_open());
    assert_eq!(r.to_string(), "");
    assert_eq!(FilterRange::<u8>::parse("300").unwrap_err(), IntErrorKind::PosOverflow);
    assert!(FilterRange::<u64>::default().is_open());
    let _ = BoardNoticeListSpecifier { board: 1 };
}

#[test]
fn write_buffers_report_changes() {
    let mut b = WriteBuffer::new(vec![0; 8], 2);
    assert!(matches!(b.readback(), BufferRead::Full(d) if d == vec![0; 8]));
    b.write(1, 9);
    assert_eq!(b.read(1), 9);
    match b.readback() {
        BufferRead::Delta(c) => {
            assert_eq!(c.len(), 1);
            assert_eq!((c[0].position, c[0].data), (1, 9));
        },
        BufferRead::Full(_) => panic!("expected changes"),
    }
    b.write_u32(1, 0x0403_0201);
    assert_eq!(b.read_u32(1), 0x0403_0201);
    assert_eq!(b.data()[4..8], [1, 2, 3, 4]);
    // the four bytes of a number are kept together, even past the limit
    match b.readback() {
        BufferRead::Delta(c) => {
            let got: Vec<(usize, u8)> = c.iter().map(|c| (c.position, c.data)).collect();
            assert_eq!(got, vec![(4, 1), (5, 2), (6, 3), (7, 4)]);
        },
        BufferRead::Full(_) => panic!("expected changes"),
    }
    b.write(0, 1);
    b.write(2, 1);
    // the limit of two changes is reached: the next write drops them
    b.write(3, 1);
    assert!(matches!(b.readback(), BufferRead::Full(d) if d == vec![1, 9, 1, 1, 1, 2, 3, 4]));
    assert_eq!(SectorBuffer::Timestamps.size(), 4);
    assert_eq!(SectorBuffer::Colors.size(), 1);
    assert_eq!(MaskValue::try_from_primitive(1).unwrap().value(), 1);
    assert_eq!(MaskValue::try_from_primitive(3), Err(3));
}

#[test]
fn sectors_replay_placements() {
    let model = SectorModel { board: 1, sector: 0, mask: vec![1; 4], initial: vec![5; 4] };
    let p = |position, color, timestamp| PlacementModel { id: 0, board: 1, position, color, timestamp, user_id: 1 };
    let s = sector_from_model(model, &[p(1, 2, 10), p(1, 3, 20), p(6, 4, 30)], 10);
    assert_eq!(*s.colors.data(), vec![5, 3, 4, 5]);
    assert_eq!(s.timestamps.read_u32(1), 20);
    assert_eq!(s.timestamps.read_u32(2), 30);
    assert_eq!(s.density.read_u32(1), 2);
    assert_eq!(s.density.read_u32(0), 0);
    assert_eq!(*s.initial.data(), vec![5; 4]);
}

#[test]
fn filter_visitor_reads_back_written_ranges() {
    let visitor = FilterRangeVisitor::<i64>::new();
    assert_eq!(visitor.expecting(), "A number or range");
    for (start, end) in [(Some(-5i64), Some(9i64)), (Some(9), Some(-5)), (Some(3), Some(3)), (None, Some(-1)), (Some(i64::MIN), None), (None, None)] {
        let r = FilterRange { start, end };
        let back = visitor.visit_str(&r.to_string()).unwrap();
        assert_eq!((back.start, back.end), (start, end));
    }
    assert_eq!(visitor.visit_str("x").unwrap_err(), IntErrorKind::InvalidDigit);
}
