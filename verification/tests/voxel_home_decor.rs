use voxel_village::voxel_furniture::{BANNER_ID, CARPET_ID, FLOWERPOT_ID, TABLE_ID};
use voxel_village::voxel_home_decor::{
    display_feed_line, display_memory_line, display_thanks_line, is_decor_item, slot_offset,
    wanted_bubble, wanted_feed_line, wanted_memory_line, wish_fulfilled_feed_line,
    wish_fulfilled_thanks_line, DecorEntry, DecorStore, DECOR_SLOT_MAX, SAY_MAX_CHARS,
};

#[test]
fn slot_offset_deterministic_and_bounded() {
    for i in 0..10 {
        let (dx, dz) = slot_offset(i);
        assert_eq!((dx, dz), slot_offset(i), "純函式應確定性");
        assert!(dx.abs() <= 4 && dz.abs() <= 4, "位移應在合理小範圍內");
    }
}

#[test]
fn slot_offset_wraps_safely_past_cap() {
    // 越界索引（超過 DECOR_SLOT_MAX）不 panic，安全取模。
    let _ = slot_offset(DECOR_SLOT_MAX);
    let _ = slot_offset(DECOR_SLOT_MAX * 100 + 7);
}

#[test]
fn is_decor_item_matches_furniture() {
    for id in [CARPET_ID, FLOWERPOT_ID, TABLE_ID, BANNER_ID] {
        assert!(is_decor_item(id));
    }
    for id in [0u8, 5, 19, 45, 101] {
        assert!(!is_decor_item(id), "id={id} 不該被認成裝飾傢俱");
    }
}

#[test]
fn add_piece_dedups_same_item() {
    let mut s = DecorStore::new();
    assert!(s.add_piece("露娜", 102).is_some());
    assert!(s.add_piece("露娜", 102).is_none(), "已展示過同款不應再累積");
    assert_eq!(s.displayed_for("露娜"), &[102]);
}

#[test]
fn add_piece_caps_at_max_slots() {
    let mut s = DecorStore::new();
    assert!(s.add_piece("露娜", 102).is_some());
    assert!(s.add_piece("露娜", 103).is_some());
    assert!(s.add_piece("露娜", 104).is_some());
    assert_eq!(s.displayed_for("露娜").len(), DECOR_SLOT_MAX);
    // 第 4 款（不同 id、格位已滿）應被拒絕，不超過上限。
    assert!(s.add_piece("露娜", 105).is_none(), "展示格已滿應拒絕新增");
    assert_eq!(s.displayed_for("露娜").len(), DECOR_SLOT_MAX);
}

#[test]
fn add_piece_independent_per_resident() {
    let mut s = DecorStore::new();
    s.add_piece("露娜", 102);
    assert!(!s.has_piece("諾娃", 102), "不同居民各自獨立累積");
    assert_eq!(s.displayed_for("諾娃"), &[] as &[u8]);
}

#[test]
fn from_entries_replays_with_same_dedup_and_cap_rules() {
    let entries = vec![
        DecorEntry { resident: "露娜".into(), item_id: 102, seq: 0 },
        DecorEntry { resident: "露娜".into(), item_id: 102, seq: 1 }, // 重複，應被去重
        DecorEntry { resident: "露娜".into(), item_id: 103, seq: 2 },
        DecorEntry { resident: "露娜".into(), item_id: 104, seq: 3 },
        DecorEntry { resident: "露娜".into(), item_id: 105, seq: 4 }, // 超過上限，應被忽略
    ];
    let s = DecorStore::from_entries(entries);
    assert_eq!(s.displayed_for("露娜"), &[102, 103, 104]);
}

#[test]
fn from_entries_next_seq_continues_after_max() {
    let entries = vec![
        DecorEntry { resident: "露娜".into(), item_id: 102, seq: 5 },
        DecorEntry { resident: "諾娃".into(), item_id: 103, seq: 2 },
    ];
    let mut s = DecorStore::from_entries(entries);
    let rec = s.add_piece("賽勒", 104).unwrap();
    assert_eq!(rec.seq, 6, "新記錄序號應接續在已存在的最大序號之後");
}

#[test]
fn set_wanted_rejects_already_owned_piece() {
    let mut s = DecorStore::new();
    s.add_piece("露娜", 102);
    assert!(!s.set_wanted("露娜", 102), "已擁有的款式不該再嚮往");
    assert_eq!(s.wanted_for("露娜"), None);
}

#[test]
fn set_wanted_no_change_if_same_as_current() {
    let mut s = DecorStore::new();
    assert!(s.set_wanted("露娜", 103));
    assert!(!s.set_wanted("露娜", 103), "重複設同一款不算新變化");
    assert_eq!(s.wanted_for("露娜"), Some(103));
}

#[test]
fn set_wanted_can_switch_target() {
    let mut s = DecorStore::new();
    s.set_wanted("露娜", 103);
    assert!(s.set_wanted("露娜", 104), "換目標算新變化");
    assert_eq!(s.wanted_for("露娜"), Some(104));
}

#[test]
fn clear_wanted_resets_to_none() {
    let mut s = DecorStore::new();
    s.set_wanted("露娜", 103);
    s.clear_wanted("露娜");
    assert_eq!(s.wanted_for("露娜"), None);
}

#[test]
fn wanted_independent_per_resident() {
    let mut s = DecorStore::new();
    s.set_wanted("露娜", 103);
    assert_eq!(s.wanted_for("諾娃"), None);
}

#[test]
fn display_thanks_line_contains_item_name_and_bounded() {
    for pick in 0..5 {
        let line = display_thanks_line("花盆", pick);
        assert!(line.contains("花盆"));
        assert!(line.chars().count() <= SAY_MAX_CHARS);
    }
}

#[test]
fn wish_fulfilled_thanks_line_contains_item_name_and_bounded() {
    for pick in 0..5 {
        let line = wish_fulfilled_thanks_line("掛旗", pick);
        assert!(line.contains("掛旗"));
        assert!(line.chars().count() <= SAY_MAX_CHARS);
    }
}

#[test]
fn wanted_bubble_contains_names_and_bounded() {
    for pick in 0..5 {
        let line = wanted_bubble("露娜", "小地毯", pick);
        assert!(line.contains("露娜"));
        assert!(line.contains("小地毯"));
        assert!(line.chars().count() <= SAY_MAX_CHARS);
    }
}

#[test]
fn feed_lines_contain_names_and_item() {
    assert!(display_feed_line("露娜", "小圓桌").contains("露娜"));
    assert!(display_feed_line("露娜", "小圓桌").contains("小圓桌"));
    assert!(wish_fulfilled_feed_line("諾娃", "花盆").contains("諾娃"));
    assert!(wanted_feed_line("賽勒", "奧瑞", "掛旗").contains("賽勒"));
    assert!(wanted_feed_line("賽勒", "奧瑞", "掛旗").contains("奧瑞"));
    assert!(wanted_feed_line("賽勒", "奧瑞", "掛旗").contains("掛旗"));
}

#[test]
fn memory_lines_contain_item_or_neighbor() {
    assert!(display_memory_line("小地毯").contains("小地毯"));
    assert!(wanted_memory_line("露娜", "花盆").contains("露娜"));
    assert!(wanted_memory_line("露娜", "花盆").contains("花盆"));
}

#[test]
fn decor_log_replays_to_store_and_exact_text() {
    let mut s = DecorStore::new();
    let mut log: Vec<DecorEntry> = Vec::new();
    for (who, id) in [("露娜", 102u8), ("諾娃", 103), ("露娜", 102), ("露娜", 104)] {
        if let Some(e) = s.add_piece(who, id) {
            log.push(e);
        }
    }
    let r = DecorStore::from_entries(log);
    assert_eq!(r.displayed_for("露娜"), s.displayed_for("露娜"));
    assert_eq!(r.displayed_for("諾娃"), &[103]);
    assert_eq!(slot_offset(5), (0, -2));
    assert_eq!(wanted_bubble("露娜", "小地毯", 4), "每次經過露娜家都會多看兩眼那件小地毯，好想擁有一件。");
    // Numbering wraps after the largest value.
    let w = DecorStore::from_entries(vec![DecorEntry { resident: "露娜".into(), item_id: 102, seq: u64::MAX }]);
    let mut w = w;
    assert_eq!(w.add_piece("諾娃", 103).unwrap().seq, 0);
}
