use voxel_village::voxel_discovery::{DiscoveryStore, LandmarkKind, MAX_PER_PLAYER};
use voxel_village::voxel_farbond::{FarBondClock, FARBOND_MIN_INTERVAL_SECS};
use voxel_village::voxel_fetch::deliver_line;
use voxel_village::voxel_gift::{
    gift_thanks_line, item_wish_thanks_line, jam_thanks_line, stew_thanks_line,
    treasure_gift_thanks_line,
};
use voxel_village::voxel_harvest_stock::AutumnStockTracker;

#[test]
fn gift_thanks_law_on_names() {
    for affinity in [0usize, 1, 2, 3, 9] {
        for pick in 0..6usize {
            let line = gift_thanks_line("木頭", "小美", affinity, pick);
            assert!(!line.is_empty());
            assert!(line.contains("木頭"));
            assert!(!line.contains("{item}"));
            assert!(!line.contains("{name}"));
            if affinity > 0 {
                assert!(line.contains("小美"));
            }
        }
    }
    // A stranger's thanks does not depend on the player; a tier depends only on pick % 3.
    assert_eq!(gift_thanks_line("木頭", "甲", 0, 4), gift_thanks_line("木頭", "", 7, 1));
    assert_eq!(gift_thanks_line("木頭", "甲", 3, 2), gift_thanks_line("木頭", "甲", 100, 5));
}

#[test]
fn single_slot_thanks_laws() {
    for affinity in [0usize, 1, 3] {
        for pick in 0..3usize {
            let jam = jam_thanks_line("阿光", affinity, pick);
            let stew = stew_thanks_line("阿光", affinity, pick);
            let crystal = treasure_gift_thanks_line("阿光", affinity, pick);
            for line in [&jam, &stew, &crystal] {
                assert!(!line.is_empty());
                assert!(!line.contains("{name}"));
                if affinity > 0 {
                    assert!(line.contains("阿光"));
                }
            }
            assert!(stew.contains("湯"));
            assert!(crystal.contains("冰晶"));
        }
    }
    assert_eq!(treasure_gift_thanks_line("阿光", 5, 2), treasure_gift_thanks_line("阿光", 1, 2));
    assert_eq!(treasure_gift_thanks_line("甲", 0, 1), treasure_gift_thanks_line("", 9, 1));
}

#[test]
fn wish_thanks_law_every_frame() {
    for resident in ["AB", "AC", "AD", "AE"] {
        let line = item_wish_thanks_line(resident, "麵包", "旅人");
        assert!(line.contains("麵包"));
        assert!(line.contains("旅人"));
        assert!(!line.contains("{p}"));
        assert!(!line.contains("{i}"));
        assert!(line.chars().count() <= 40);
    }
}

#[test]
fn deliver_line_law() {
    for pick in 0..12usize {
        let full = deliver_line("石頭", 7, 7, pick);
        let part = deliver_line("石頭", 7, 3, pick);
        assert!(full.contains("7") && full.contains("石頭"));
        assert!(part.contains("3") && part.contains("石頭"));
        for line in [&full, &part] {
            assert!(!line.contains("{n}"));
            assert!(!line.contains("{item}"));
        }
        assert_ne!(full, part);
    }
}

#[test]
fn discovery_key_stays_after_cap_drops_entry() {
    let mut s = DiscoveryStore::new();
    assert!(s.record("阿光", LandmarkKind::Ruin, (0, 0), 0, 60, 0).is_some());
    for i in 1..=MAX_PER_PLAYER as i32 {
        assert!(s.record("阿光", LandmarkKind::Ruin, (i, i), i, 60, i).is_some());
    }
    // The first entry has been pushed out of the list by the cap...
    assert!(s.list_for("阿光").iter().all(|e| !(e.dedup_x == 0 && e.dedup_z == 0)));
    // ...but its key is still remembered.
    assert!(s.record("阿光", LandmarkKind::Ruin, (0, 0), 0, 60, 0).is_none());
}

#[test]
fn farbond_mark_then_due_after_interval() {
    let mut c = FarBondClock::new();
    assert!(c.due("r1", 1000));
    c.mark("r1", 1000);
    assert!(!c.due("r1", 1000));
    assert!(!c.due("r1", 1000 + FARBOND_MIN_INTERVAL_SECS - 1));
    assert!(c.due("r1", 1000 + FARBOND_MIN_INTERVAL_SECS));
    assert!(c.due("r2", 1000));
}

#[test]
fn autumn_first_claimed_once_per_autumn() {
    let mut t = AutumnStockTracker::new();
    t.sync_season(true);
    assert!(t.claim_first());
    assert!(!t.claim_first());
    t.sync_season(true);
    assert!(!t.claim_first());
    t.sync_season(false);
    t.sync_season(true);
    assert!(t.claim_first());
    assert!(!t.claim_first());
}
