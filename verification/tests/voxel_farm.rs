use voxel_village::voxel_farm::{
    effective_grow_secs, CropKind, FarmEvent, FarmStore, BAKED_POTATO_ID, BREAD_ID, CARROT_GROW_SECS,
    CARROT_ID, CARROT_IRRIGATED_GROW_SECS, CARROT_SEEDS_ID, FARM_WATER_RANGE, GROW_SECS,
    IRRIGATED_GROW_SECS, POTATO_GROW_SECS, POTATO_ID, POTATO_IRRIGATED_GROW_SECS, POTATO_SEEDS_ID,
    SEEDS_ID, WHEAT_ID,
};

#[test]
fn plant_creates_plot() {
    let mut s = FarmStore::new();
    s.plant(1, 5, 2, 1000, CropKind::Wheat);
    assert!(s.has_plot(1, 5, 2));
    assert!(!s.has_plot(0, 0, 0));
}

#[test]
fn remove_clears_plot() {
    let mut s = FarmStore::new();
    s.plant(3, 5, 7, 1000, CropKind::Wheat);
    s.remove(3, 5, 7);
    assert!(!s.has_plot(3, 5, 7));
}

#[test]
fn voxel_farm_immature_before_grow_secs() {
    let mut s = FarmStore::new();
    s.plant(0, 5, 0, 1000, CropKind::Wheat);
    // planted_secs=1000, now=1089（剛好差 89 秒，未達 90 秒門檻）
    assert!(s.mature_plots(1000 + GROW_SECS - 1).is_empty());
}

#[test]
fn voxel_farm_mature_at_exactly_grow_secs() {
    let mut s = FarmStore::new();
    s.plant(0, 5, 0, 1000, CropKind::Wheat);
    // planted_secs=1000, now=1090（剛好 90 秒 → 成熟）
    let m = s.mature_plots(1000 + GROW_SECS);
    assert_eq!(m.len(), 1);
    assert!(m.contains(&(0, 5, 0)));
}

#[test]
fn mature_well_past_grow_secs() {
    let mut s = FarmStore::new();
    s.plant(2, 5, 3, 500, CropKind::Wheat);
    let m = s.mature_plots(1000); // 差 500 秒 >> 90 秒
    assert!(m.contains(&(2, 5, 3)));
}

#[test]
fn only_mature_plots_returned() {
    let mut s = FarmStore::new();
    s.plant(0, 5, 0, 1000, CropKind::Wheat); // planted 1000，差10秒未熟
    s.plant(1, 5, 0, 910, CropKind::Wheat);  // planted 910，差100秒 > 90：成熟
    // now_secs = 1010
    let m = s.mature_plots(1010);
    assert_eq!(m.len(), 1);
    assert!(m.contains(&(1, 5, 0)));
    assert!(!m.contains(&(0, 5, 0)));
}

#[test]
fn remove_after_harvest_clears_store() {
    let mut s = FarmStore::new();
    s.plant(5, 5, 5, 0, CropKind::Wheat);
    let mature = s.mature_plots(GROW_SECS);
    for c in &mature {
        s.remove(c.0, c.1, c.2);
    }
    assert!(!s.has_plot(5, 5, 5));
}

#[test]
fn plant_overwrites_resets_timer() {
    let mut s = FarmStore::new();
    s.plant(0, 5, 0, 1000, CropKind::Wheat);
    // 重新種：計時器重置到 2000
    s.plant(0, 5, 0, 2000, CropKind::Wheat);
    // 在 2000+89 時應未熟（以新計時為準）
    assert!(s.mature_plots(2000 + GROW_SECS - 1).is_empty());
    // 2000+90 才熟
    assert_eq!(s.mature_plots(2000 + GROW_SECS).len(), 1);
}

#[test]
fn empty_store_no_mature_plots() {
    let s = FarmStore::new();
    assert!(s.mature_plots(99999).is_empty());
}

#[test]
fn multiple_plots_all_mature() {
    let mut s = FarmStore::new();
    s.plant(0, 5, 0, 0, CropKind::Wheat);
    s.plant(1, 5, 0, 0, CropKind::Wheat);
    s.plant(2, 5, 0, 0, CropKind::Wheat);
    let m = s.mature_plots(GROW_SECS);
    assert_eq!(m.len(), 3);
}

#[test]
fn item_ids_unique_and_in_range() {
    // 四個物品 id 互不相同
    assert_ne!(SEEDS_ID, WHEAT_ID);
    assert_ne!(SEEDS_ID, BREAD_ID);
    assert_ne!(WHEAT_ID, BREAD_ID);
    // 皆在合法 u8 範圍；14 是 SEEDS 不被方塊 enum 佔用，18/19 同理。
    assert_eq!(SEEDS_ID, 14);
    assert_eq!(WHEAT_ID, 18);
    assert_eq!(BREAD_ID, 19);
}

#[test]
fn effective_grow_secs_values() {
    assert_eq!(effective_grow_secs(CropKind::Wheat, true),  IRRIGATED_GROW_SECS);
    assert_eq!(effective_grow_secs(CropKind::Wheat, false), GROW_SECS);
    // 水耕應比普通快（若 IRRIGATED_GROW_SECS 被誤改就能抓到）。
    assert!(IRRIGATED_GROW_SECS < GROW_SECS, "水耕應比普通生長更快");
}

#[test]
fn carrot_item_ids_unique_and_in_range() {
    assert_ne!(CARROT_SEEDS_ID, CARROT_ID);
    assert_ne!(CARROT_SEEDS_ID, SEEDS_ID);
    assert_ne!(CARROT_ID, WHEAT_ID);
    assert_ne!(CARROT_ID, BREAD_ID);
    assert_eq!(CARROT_SEEDS_ID, 48);
    assert_eq!(CARROT_ID, 49);
}

#[test]
fn carrot_grows_faster_than_wheat_both_dry_and_irrigated() {
    assert!(CARROT_GROW_SECS < GROW_SECS, "胡蘿蔔應比小麥快熟");
    assert!(
        CARROT_IRRIGATED_GROW_SECS < IRRIGATED_GROW_SECS,
        "胡蘿蔔水耕也應比小麥水耕快熟"
    );
    assert!(
        CARROT_IRRIGATED_GROW_SECS < CARROT_GROW_SECS,
        "胡蘿蔔水耕應比胡蘿蔔乾燥快熟"
    );
}

#[test]
fn effective_grow_secs_carrot_values() {
    assert_eq!(effective_grow_secs(CropKind::Carrot, false), CARROT_GROW_SECS);
    assert_eq!(effective_grow_secs(CropKind::Carrot, true), CARROT_IRRIGATED_GROW_SECS);
}

#[test]
fn carrot_plot_matures_at_carrot_pace_not_wheat_pace() {
    let mut s = FarmStore::new();
    s.plant(0, 5, 0, 0, CropKind::Carrot);
    // 60 秒時（胡蘿蔔門檻）應成熟。
    let mature = s.mature_plots_irrigated(CARROT_GROW_SECS, |_, _, _| false);
    assert_eq!(mature.len(), 1);
    assert_eq!(mature[0], ((0, 5, 0), CropKind::Carrot));
    // 89 秒（小麥門檻前一秒）不該被誤判為還沒到——胡蘿蔔早在 60 秒就該熟過了，
    // 這裡改用一顆全新的胡蘿蔔驗證「59 秒未熟」。
    let mut s2 = FarmStore::new();
    s2.plant(1, 5, 0, 0, CropKind::Carrot);
    assert!(s2.mature_plots_irrigated(CARROT_GROW_SECS - 1, |_, _, _| false).is_empty());
}

#[test]
fn mixed_wheat_and_carrot_plots_each_use_own_pace() {
    let mut s = FarmStore::new();
    s.plant(0, 5, 0, 0, CropKind::Wheat);  // 90 秒才熟
    s.plant(1, 5, 0, 0, CropKind::Carrot); // 60 秒就熟
    // 60 秒時：只有胡蘿蔔熟。
    let at_60 = s.mature_plots_irrigated(CARROT_GROW_SECS, |_, _, _| false);
    assert_eq!(at_60, vec![((1, 5, 0), CropKind::Carrot)]);
    // 90 秒時：兩者都熟。
    let at_90 = s.mature_plots_irrigated(GROW_SECS, |_, _, _| false);
    assert_eq!(at_90.len(), 2);
}

#[test]
fn replant_can_change_crop_kind() {
    // 同一格重種可換作物種類（覆蓋語意包含換種）。
    let mut s = FarmStore::new();
    s.plant(0, 5, 0, 0, CropKind::Wheat);
    s.plant(0, 5, 0, 100, CropKind::Carrot);
    let mature = s.mature_plots_irrigated(100 + CARROT_GROW_SECS, |_, _, _| false);
    assert_eq!(mature, vec![((0, 5, 0), CropKind::Carrot)]);
}

#[test]
fn potato_item_ids_unique_and_in_range() {
    assert_ne!(POTATO_SEEDS_ID, POTATO_ID);
    assert_ne!(POTATO_SEEDS_ID, SEEDS_ID);
    assert_ne!(POTATO_SEEDS_ID, CARROT_SEEDS_ID);
    assert_ne!(POTATO_ID, WHEAT_ID);
    assert_ne!(POTATO_ID, CARROT_ID);
    assert_ne!(POTATO_ID, BREAD_ID);
    assert_eq!(POTATO_SEEDS_ID, 52);
    assert_eq!(POTATO_ID, 53);
}

#[test]
fn baked_potato_id_unique_and_after_cooked_fish() {
    // 烤地薯 v1：id 64，接在烤魚(63)之後首個空號；不撞任何農作/種子 id。
    assert_eq!(BAKED_POTATO_ID, 64);
    assert_ne!(BAKED_POTATO_ID, POTATO_ID); // 生馬鈴薯 vs 烤地薯是兩件不同物品
    assert_ne!(BAKED_POTATO_ID, POTATO_SEEDS_ID);
    assert_ne!(BAKED_POTATO_ID, BREAD_ID);
    assert_ne!(BAKED_POTATO_ID, CARROT_ID);
    assert!(BAKED_POTATO_ID > 63, "應排在烤魚(63)之後");
}

#[test]
fn potato_grows_slower_than_wheat_and_carrot_both_dry_and_irrigated() {
    assert!(POTATO_GROW_SECS > GROW_SECS, "馬鈴薯應比小麥慢熟");
    assert!(POTATO_GROW_SECS > CARROT_GROW_SECS, "馬鈴薯應比胡蘿蔔慢熟");
    assert!(
        POTATO_IRRIGATED_GROW_SECS < POTATO_GROW_SECS,
        "馬鈴薯水耕應比馬鈴薯乾燥快熟"
    );
}

#[test]
fn effective_grow_secs_potato_values() {
    assert_eq!(effective_grow_secs(CropKind::Potato, false), POTATO_GROW_SECS);
    assert_eq!(effective_grow_secs(CropKind::Potato, true), POTATO_IRRIGATED_GROW_SECS);
}

#[test]
fn potato_plot_matures_at_potato_pace_not_wheat_or_carrot_pace() {
    let mut s = FarmStore::new();
    s.plant(0, 5, 0, 0, CropKind::Potato);
    let mature = s.mature_plots_irrigated(POTATO_GROW_SECS, |_, _, _| false);
    assert_eq!(mature.len(), 1);
    assert_eq!(mature[0], ((0, 5, 0), CropKind::Potato));
    let mut s2 = FarmStore::new();
    s2.plant(1, 5, 0, 0, CropKind::Potato);
    assert!(s2.mature_plots_irrigated(POTATO_GROW_SECS - 1, |_, _, _| false).is_empty());
}

#[test]
fn mixed_wheat_carrot_potato_plots_each_use_own_pace() {
    let mut s = FarmStore::new();
    s.plant(0, 5, 0, 0, CropKind::Wheat);   // 90 秒才熟
    s.plant(1, 5, 0, 0, CropKind::Carrot);  // 60 秒就熟
    s.plant(2, 5, 0, 0, CropKind::Potato);  // 120 秒才熟
    let at_60 = s.mature_plots_irrigated(CARROT_GROW_SECS, |_, _, _| false);
    assert_eq!(at_60, vec![((1, 5, 0), CropKind::Carrot)]);
    let at_90 = s.mature_plots_irrigated(GROW_SECS, |_, _, _| false);
    assert_eq!(at_90.len(), 2); // 小麥 + 胡蘿蔔，馬鈴薯仍未熟
    let at_120 = s.mature_plots_irrigated(POTATO_GROW_SECS, |_, _, _| false);
    assert_eq!(at_120.len(), 3); // 三者皆熟
}

#[test]
fn irrigated_plot_matures_faster() {
    let mut s = FarmStore::new();
    s.plant(0, 5, 0, 0, CropKind::Wheat);
    // 45 秒時：水耕成熟、普通未熟。
    assert_eq!(s.mature_plots_irrigated(IRRIGATED_GROW_SECS, |_, _, _| true).len(), 1);
    assert!(s.mature_plots_irrigated(IRRIGATED_GROW_SECS, |_, _, _| false).is_empty());
}

#[test]
fn non_irrigated_plot_matures_at_normal_time() {
    let mut s = FarmStore::new();
    s.plant(3, 5, 3, 0, CropKind::Wheat);
    // 90 秒時：有水/無水都成熟。
    assert_eq!(s.mature_plots_irrigated(GROW_SECS, |_, _, _| false).len(), 1);
    assert_eq!(s.mature_plots_irrigated(GROW_SECS, |_, _, _| true).len(), 1);
}

#[test]
fn irrigated_not_mature_before_45s() {
    let mut s = FarmStore::new();
    s.plant(0, 5, 0, 0, CropKind::Wheat);
    // 44 秒時即便有水也未熟。
    assert!(s.mature_plots_irrigated(IRRIGATED_GROW_SECS - 1, |_, _, _| true).is_empty());
}

#[test]
fn mixed_irrigated_and_dry_plots() {
    let mut s = FarmStore::new();
    s.plant(0, 5, 0, 0, CropKind::Wheat); // 乾燥農地
    s.plant(10, 5, 0, 0, CropKind::Wheat); // 水耕農地
    // 45 秒時只有水耕的成熟。
    let mature = s.mature_plots_irrigated(IRRIGATED_GROW_SECS, |x, _, _| x == 10);
    assert_eq!(mature.len(), 1);
    assert!(mature.contains(&((10, 5, 0), CropKind::Wheat)));
}

#[test]
fn farm_water_range_is_positive() {
    assert!(FARM_WATER_RANGE > 0, "水耕偵測範圍應大於 0");
}

#[test]
fn nudge_growth_advances_maturity() {
    let mut s = FarmStore::new();
    s.plant(0, 5, 0, 1000, CropKind::Wheat);
    // 原本 1090 才成熟；把生長推進 30 秒（planted 1000→970）→ 1060 就成熟。
    assert!(s.mature_plots(1060).is_empty()); // 推進前 1060 未熟
    let e = s.nudge_growth(0, 5, 0, 30).expect("該格存在");
    assert_eq!(e.planted_secs, Some(970)); // 事件帶更新後計時（1000-30）
    assert_eq!(e.kind, Some(CropKind::Wheat));
    assert!(!s.mature_plots(1060).is_empty()); // 推進後 1060 已熟
}

#[test]
fn nudge_growth_returns_none_for_missing_plot() {
    let mut s = FarmStore::new();
    assert!(s.nudge_growth(1, 2, 3, 10).is_none());
}

#[test]
fn nudge_growth_saturates_at_zero() {
    let mut s = FarmStore::new();
    s.plant(0, 5, 0, 5, CropKind::Wheat);
    // 推進量超過 planted_secs 也不會 underflow（saturating_sub）：planted 5→0。
    assert!(s.nudge_growth(0, 5, 0, 999).is_some());
    // planted 已歸 0，到 GROW_SECS(90) 秒即成熟（不會因 underflow 變成永不成熟）。
    assert!(!s.mature_plots(GROW_SECS).is_empty());
}

#[test]
fn plant_emits_event_and_bumps_seq() {
    let mut s = FarmStore::new();
    let e0 = s.plant(1, 5, 2, 1000, CropKind::Carrot);
    assert_eq!((e0.x, e0.y, e0.z), (1, 5, 2));
    assert_eq!(e0.planted_secs, Some(1000));
    assert_eq!(e0.kind, Some(CropKind::Carrot));
    assert_eq!(e0.seq, 0);
    let e1 = s.plant(3, 5, 4, 1100, CropKind::Wheat);
    assert_eq!(e1.seq, 1); // 序號單調遞增
}

#[test]
fn remove_emits_event_only_when_plot_existed() {
    let mut s = FarmStore::new();
    s.plant(0, 5, 0, 1000, CropKind::Wheat);
    let e = s.remove(0, 5, 0).expect("有記錄才回 Some");
    assert_eq!(e.planted_secs, None); // 移除事件無計時/種類
    assert_eq!(e.kind, None);
    // 再移除同格（已不存在）→ None，不落空事件。
    assert!(s.remove(0, 5, 0).is_none());
}

#[test]
fn from_events_replays_plant_and_remove() {
    // plant → 幾筆後 remove → 該格不該還在；另一格 plant 未 remove → 還在且計時正確。
    let events = vec![
        FarmEvent { x: 0, y: 5, z: 0, planted_secs: Some(1000), kind: Some(CropKind::Wheat), seq: 0 },
        FarmEvent { x: 1, y: 5, z: 0, planted_secs: Some(1100), kind: Some(CropKind::Potato), seq: 1 },
        FarmEvent { x: 0, y: 5, z: 0, planted_secs: None, kind: None, seq: 2 }, // 移除 (0,5,0)
    ];
    let s = FarmStore::from_events(events);
    assert!(!s.has_plot(0, 5, 0)); // 已被移除事件清掉
    assert!(s.has_plot(1, 5, 0));  // 只 plant 未 remove → 留著
    assert_eq!(s.next_seq, 3);     // 續號 = 最大 seq + 1
    // 計時續存：(1,5,0) 馬鈴薯 1100 種下，在 1100+120 才成熟。
    assert!(s.mature_plots_irrigated(1100 + POTATO_GROW_SECS - 1, |_, _, _| false).is_empty());
    assert_eq!(s.mature_plots_irrigated(1100 + POTATO_GROW_SECS, |_, _, _| false).len(), 1);
}

#[test]
fn from_events_nudge_overrides_planted_secs() {
    // 種下 1000 → 照料 nudge 到 970（同格再一筆 plant-型事件）→ replay 取最後值。
    let events = vec![
        FarmEvent { x: 0, y: 5, z: 0, planted_secs: Some(1000), kind: Some(CropKind::Wheat), seq: 0 },
        FarmEvent { x: 0, y: 5, z: 0, planted_secs: Some(970), kind: Some(CropKind::Wheat), seq: 1 },
    ];
    let s = FarmStore::from_events(events);
    // 以 970 為準：970+90=1060 就成熟（若誤用 1000 則要 1090）。
    assert!(!s.mature_plots(1060).is_empty());
}

#[test]
fn from_empty_events_is_empty() {
    let s = FarmStore::from_events(vec![]);
    assert_eq!(s.next_seq, 0);
    assert!(s.mature_plots(99999).is_empty());
}

#[test]
fn plant_remove_replay_roundtrip_via_recorded_events() {
    // 模擬真實流程：邊操作邊收集事件 → from_events 重建 → 狀態一致。
    let mut live = FarmStore::new();
    let mut log: Vec<FarmEvent> = Vec::new();
    log.push(live.plant(2, 5, 3, 500, CropKind::Carrot));
    log.push(live.plant(4, 5, 6, 600, CropKind::Wheat));
    if let Some(e) = live.remove(2, 5, 3) {
        log.push(e);
    }
    let rebuilt = FarmStore::from_events(log);
    assert_eq!(rebuilt.has_plot(2, 5, 3), live.has_plot(2, 5, 3)); // 皆 false
    assert_eq!(rebuilt.has_plot(4, 5, 6), live.has_plot(4, 5, 6)); // 皆 true
    assert_eq!(rebuilt.next_seq, live.next_seq);
}

#[test]
fn plot_list_reports_plant_order_and_crop() {
    let mut s = FarmStore::new();
    s.plant(1, 2, 3, 10, CropKind::Potato);
    s.plant(4, 5, 6, 20, CropKind::Carrot);
    s.plant(1, 2, 3, 30, CropKind::Wheat);
    let plots = s.plot_list();
    assert_eq!(plots.len(), 2);
    assert_eq!((plots[0].x, plots[0].planted_secs, plots[0].kind), (1, 30, CropKind::Wheat));
    assert_eq!((plots[1].z, plots[1].kind), (6, CropKind::Carrot));
    assert_eq!(s.next_seq, 3);
}

#[test]
fn remaining_secs_counts_down_to_ripeness() {
    let p = voxel_village::voxel_farm::FarmPlot { x: 1, y: 5, z: 2, planted_secs: 1000, kind: CropKind::Wheat };
    assert_eq!(voxel_village::voxel_farm::remaining_secs(&p, 1000, false), Some(GROW_SECS));
    assert_eq!(voxel_village::voxel_farm::remaining_secs(&p, 1000 + GROW_SECS - 1, false), Some(1));
    assert_eq!(voxel_village::voxel_farm::remaining_secs(&p, 1000 + GROW_SECS, false), None);
    assert_eq!(voxel_village::voxel_farm::remaining_secs(&p, 1000 + IRRIGATED_GROW_SECS, true), None);
    let late = voxel_village::voxel_farm::FarmPlot { x: 0, y: 0, z: 0, planted_secs: u64::MAX - 1, kind: CropKind::Potato };
    assert_eq!(voxel_village::voxel_farm::remaining_secs(&late, 5, false), Some(u64::MAX - 5));
}
