use voxel_village::voxel_farm::{CropKind, CARROT_ID, POTATO_ID, WHEAT_ID};
use voxel_village::voxel_giftgarden::{
    crop_code, crop_name, harvest_feed_line, harvest_memory_line, harvest_say_line, parse_key,
    pos_key, produce_gift, GiftGardenEntry, GiftGardenStore, CROP_CARROT, CROP_POTATO,
    CROP_WHEAT,
};

#[test]
fn crop_code_maps_all_kinds() {
    assert_eq!(crop_code(CropKind::Wheat), CROP_WHEAT);
    assert_eq!(crop_code(CropKind::Carrot), CROP_CARROT);
    assert_eq!(crop_code(CropKind::Potato), CROP_POTATO);
}

#[test]
fn crop_name_covers_and_defaults() {
    assert_eq!(crop_name(CROP_WHEAT), "小麥");
    assert_eq!(crop_name(CROP_CARROT), "胡蘿蔔");
    assert_eq!(crop_name(CROP_POTATO), "馬鈴薯");
    assert_eq!(crop_name(99), "作物"); // 未知代碼防呆
}

#[test]
fn produce_gift_matches_crop() {
    assert_eq!(produce_gift(CROP_WHEAT), (WHEAT_ID, 1));
    assert_eq!(produce_gift(CROP_CARROT), (CARROT_ID, 1));
    assert_eq!(produce_gift(CROP_POTATO), (POTATO_ID, 2)); // 馬鈴薯量大
}

#[test]
fn pos_key_roundtrip() {
    assert_eq!(pos_key(1, -2, 300), "1,-2,300");
    assert_eq!(parse_key("1,-2,300"), Some((1, -2, 300)));
    assert_eq!(parse_key("1,2"), None);
    assert_eq!(parse_key("1,2,3,4"), None);
    assert_eq!(parse_key("a,b,c"), None);
}

#[test]
fn record_and_plots_for() {
    let mut s = GiftGardenStore::new();
    assert!(s.is_empty());
    s.record("1,4,1", "res-luna", "旅人", CROP_WHEAT);
    assert!(!s.is_empty());
    let plots = s.plots_for("res-luna", "旅人");
    assert_eq!(plots, vec![("1,4,1".to_string(), CROP_WHEAT)]);
    // 別的居民 / 別的玩家撈不到。
    assert!(s.plots_for("res-nova", "旅人").is_empty());
    assert!(s.plots_for("res-luna", "路人").is_empty());
}

#[test]
fn plots_for_sorted_and_multi() {
    let mut s = GiftGardenStore::new();
    s.record("5,4,5", "r", "p", CROP_CARROT);
    s.record("1,4,1", "r", "p", CROP_WHEAT);
    s.record("3,4,3", "r", "other", CROP_POTATO); // 別的玩家
    let plots = s.plots_for("r", "p");
    // 只回這位玩家的兩畦、且按座標鍵排序。
    assert_eq!(
        plots,
        vec![("1,4,1".to_string(), CROP_WHEAT), ("5,4,5".to_string(), CROP_CARROT)]
    );
}

#[test]
fn remove_returns_event_and_clears() {
    let mut s = GiftGardenStore::new();
    s.record("2,4,2", "r", "p", CROP_POTATO);
    let ev = s.remove("2,4,2").expect("有這畦應回移除事件");
    assert!(ev.removed);
    assert_eq!(ev.crop, CROP_POTATO);
    assert!(s.plots_for("r", "p").is_empty());
    // 再移除同座標回 None（不產生多餘事件）。
    assert!(s.remove("2,4,2").is_none());
}

#[test]
fn record_returns_persist_event() {
    let mut s = GiftGardenStore::new();
    let ev = s.record("0,4,0", "res-x", "阿明", CROP_CARROT);
    assert!(!ev.removed);
    assert_eq!(ev.pos, "0,4,0");
    assert_eq!(ev.resident_id, "res-x");
    assert_eq!(ev.player, "阿明");
    assert_eq!(ev.crop, CROP_CARROT);
}

#[test]
fn from_entries_takes_latest_seq() {
    let entries = vec![
        GiftGardenEntry {
            pos: "0,4,0".into(),
            resident_id: "r".into(),
            player: "p".into(),
            crop: CROP_WHEAT,
            removed: false,
            seq: 0,
        },
        // 收成回贈：移除事件（seq 較大）。
        GiftGardenEntry {
            pos: "0,4,0".into(),
            resident_id: "r".into(),
            player: "p".into(),
            crop: CROP_WHEAT,
            removed: true,
            seq: 2,
        },
        // 亂序的舊事件，不該蓋掉最新。
        GiftGardenEntry {
            pos: "0,4,0".into(),
            resident_id: "r".into(),
            player: "p".into(),
            crop: CROP_WHEAT,
            removed: false,
            seq: 1,
        },
    ];
    let s = GiftGardenStore::from_entries(entries);
    assert!(s.plots_for("r", "p").is_empty(), "最新是 removed＝已收成回贈");
    assert_eq!(s.next_seq(), 3);
}

#[test]
fn from_entries_keeps_active_plot() {
    let entries = vec![GiftGardenEntry {
        pos: "7,4,7".into(),
        resident_id: "res-luna".into(),
        player: "旅人".into(),
        crop: CROP_POTATO,
        removed: false,
        seq: 5,
    }];
    let s = GiftGardenStore::from_entries(entries);
    assert_eq!(s.plots_for("res-luna", "旅人"), vec![("7,4,7".to_string(), CROP_POTATO)]);
    assert_eq!(s.next_seq(), 6);
}

#[test]
fn say_line_rotates_and_names() {
    let a = harvest_say_line("露娜", "小麥", 0);
    let b = harvest_say_line("露娜", "小麥", 1);
    assert_ne!(a, b, "不同 pick 給不同台詞");
    for p in 0..8 {
        let s = harvest_say_line("露娜", "馬鈴薯", p);
        assert!(s.contains("馬鈴薯"), "台詞要提到作物");
    }
    assert!(harvest_say_line("諾娃", "胡蘿蔔", 0).contains("諾娃"));
}

#[test]
fn say_line_empty_player_uses_you() {
    assert!(harvest_say_line("", "小麥", 0).contains("你"));
}

#[test]
fn memory_line_has_prefix_and_names() {
    let m = harvest_memory_line("露娜", "小麥");
    assert!(m.starts_with("🌾"), "記憶要帶前綴供日記歸類");
    assert!(m.contains("露娜") && m.contains("小麥"));
}

#[test]
fn feed_line_names_both_and_crop() {
    let f = harvest_feed_line("諾娃", "旅人", "胡蘿蔔");
    assert!(f.contains("諾娃") && f.contains("旅人") && f.contains("胡蘿蔔"));
}


#[test]
fn giftgarden_keys_and_lines_exact() {
    assert_eq!(pos_key(-2147483648, 0, 2147483647), "-2147483648,0,2147483647");
    assert_eq!(parse_key("-2147483648,+5,2147483647"), Some((-2147483648, 5, 2147483647)));
    assert_eq!(parse_key("2147483648,0,0"), None);
    assert_eq!(parse_key("1,,3"), None);
    assert_eq!(parse_key("-,1,2"), None);
    assert_eq!(harvest_say_line("", "小麥", 2), "多虧你的小麥種子，我也有收成了——這頭一把留給你！");
    assert_eq!(harvest_feed_line("諾娃", "", "胡蘿蔔"), "諾娃收成了有人送的種子長成的胡蘿蔔，把第一把收穫回贈給有人～");
    assert_eq!(produce_gift(9), (WHEAT_ID, 1));
}

#[test]
fn giftgarden_log_replays_to_store() {
    let mut s = GiftGardenStore::new();
    let mut log: Vec<GiftGardenEntry> = Vec::new();
    log.push(s.record("1,4,1", "r", "p", CROP_WHEAT));
    log.push(s.record("2,4,2", "r", "p", CROP_POTATO));
    log.push(s.remove("1,4,1").unwrap());
    log.push(s.record("2,4,2", "r", "q", CROP_CARROT));
    let replayed = GiftGardenStore::from_entries(log);
    assert_eq!(replayed.plots_for("r", "p"), s.plots_for("r", "p"));
    assert_eq!(replayed.plots_for("r", "q"), vec![("2,4,2".to_string(), CROP_CARROT)]);
    assert_eq!(replayed.next_seq(), s.next_seq());
}

#[test]
fn every_position_key_reads_back() {
    for (x, y, z) in [(0, 0, 0), (-12, 64, 7), (i32::MIN, i32::MAX, -1), (123456, -98765, 42)] {
        let k = voxel_village::voxel_giftgarden::pos_key(x, y, z);
        assert_eq!(voxel_village::voxel_giftgarden::parse_key(&k), Some((x, y, z)));
    }
}
