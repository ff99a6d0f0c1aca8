use pxls_rs::database::ban::{BanStatus, BansCache};
use pxls_rs::database::board::{placement_statistics, UserStats};
use pxls_rs::database::color::{palette_from_rows, Color, ColorModel};
use pxls_rs::database::sector::{sector_from_model, sector_positions, Sector, SectorBuffer, SectorModel};
use pxls_rs::database::user::UserSpecifier;

#[test]
fn ban_cache_reads_back_what_was_stored() {
    let mut cache = BansCache::new();
    let alice = UserSpecifier(1);
    let bob = UserSpecifier(2);
    assert_eq!(cache.cached(&alice), None);
    cache.store(&alice, BanStatus::BannedUntil(50));
    cache.store(&bob, BanStatus::Permabanned);
    assert_eq!(cache.cached(&alice), Some(BanStatus::BannedUntil(50)));
    cache.store(&alice, BanStatus::NotBanned);
    assert_eq!(cache.cached(&alice), Some(BanStatus::NotBanned));
    cache.invalidate(&alice);
    assert_eq!(cache.cached(&alice), None);
    assert_eq!(cache.cached(&bob), Some(BanStatus::Permabanned));
}

#[test]
fn palettes_keep_the_last_row_of_an_index() {
    let row = |index, name: &str, value, system_only| ColorModel {
        board: 1,
        index,
        name: name.to_string(),
        value,
        system_only,
    };
    let palette = palette_from_rows(vec![row(0, "white", 0xffffff, false), row(1, "black", 0, true), row(0, "red", -1, false)]);
    assert_eq!(palette.len(), 2);
    assert_eq!(palette[&0].name, "red");
    assert_eq!(palette[&0].value, u32::MAX);
    assert!(palette[&1].system_only);
    let c = Color::from_model(row(3, "blue", 255, false));
    assert_eq!((c.name.as_str(), c.value, c.system_only), ("blue", 255, false));
}

#[test]
fn sector_geometry() {
    assert_eq!(sector_positions(100, 3), (300, 399));
    assert_eq!(sector_positions(100, -1), (-100, -1));
    assert_eq!(sector_positions(0, 5), (0, -1));
    let (mask, initial) = Sector::blank_buffers(3);
    assert_eq!(mask, vec![0, 0, 0]);
    assert_eq!(initial, vec![0, 0, 0]);
    let s = sector_from_model(SectorModel { board: 1, sector: 0, mask: vec![1, 2], initial: vec![7, 8] }, &[], 4);
    assert_eq!(s.saved_data(SectorBuffer::Initial), vec![7, 8]);
    assert_eq!(s.saved_data(SectorBuffer::Mask), vec![1, 2]);
}

#[test]
fn placement_statistics_add_up_per_user_and_color() {
    let rows = [
        UserStats { user_id: 1, color: 2, count: 5 },
        UserStats { user_id: 1, color: 3, count: 1 },
        UserStats { user_id: 2, color: 2, count: 7 },
        UserStats { user_id: 1, color: 258, count: 4 },
    ];
    let stats = placement_statistics(&rows);
    assert_eq!(stats.len(), 2);
    // 258 is color 2 once reinterpreted as a byte
    assert_eq!(stats[&1][&2], 9);
    assert_eq!(stats[&1][&3], 1);
    assert_eq!(stats[&2][&2], 7);
    assert!(placement_statistics(&[]).is_empty());
}
