use voxel_village::voxel_envoy_mark::{feed_line, recall_line, DeedKind, EnvoyMarkStore};

#[test]
fn wire_roundtrips_for_all_kinds() {
    for k in [DeedKind::SaveShadow, DeedKind::Gift, DeedKind::Flower] {
        assert_eq!(DeedKind::from_wire(k.to_wire()), Some(k));
    }
    assert_eq!(DeedKind::from_wire(0), None);
    assert_eq!(DeedKind::from_wire(99), None, "未知編號安全回 None、不 panic");
}

#[test]
fn record_increments_count_and_seq() {
    let mut s = EnvoyMarkStore::from_entries(Vec::new());
    let r1 = s.record("vox_res_0", "諾娃", DeedKind::SaveShadow);
    assert_eq!(r1.count, 1);
    let r2 = s.record("vox_res_0", "諾娃", DeedKind::SaveShadow);
    assert_eq!(r2.count, 2, "同居民同善舉再記一次應累積");
    assert!(r2.last_seq > r1.last_seq, "序號應嚴格遞增");
}

#[test]
fn different_kinds_are_separate_buckets() {
    let mut s = EnvoyMarkStore::from_entries(Vec::new());
    s.record("vox_res_0", "諾娃", DeedKind::Gift);
    s.record("vox_res_0", "諾娃", DeedKind::Flower);
    let deeds = s.deeds_for("vox_res_0");
    assert_eq!(deeds.len(), 2, "送禮與送花應分開兩格");
    assert_eq!(s.total_count(), 2);
}

#[test]
fn latest_kind_tracks_most_recent_deed() {
    let mut s = EnvoyMarkStore::from_entries(Vec::new());
    s.record("vox_res_1", "露娜", DeedKind::SaveShadow);
    s.record("vox_res_1", "露娜", DeedKind::Flower);
    assert_eq!(s.latest_kind_for("vox_res_1"), Some(DeedKind::Flower), "最近一件應為野花");
    // 再送一次禮 → 最近一件變禮物。
    s.record("vox_res_1", "露娜", DeedKind::Gift);
    assert_eq!(s.latest_kind_for("vox_res_1"), Some(DeedKind::Gift));
}

#[test]
fn latest_kind_none_when_no_marks() {
    let s = EnvoyMarkStore::from_entries(Vec::new());
    assert_eq!(s.latest_kind_for("vox_res_9"), None);
}

#[test]
fn residents_with_marks_is_deduped_and_sorted() {
    let mut s = EnvoyMarkStore::from_entries(Vec::new());
    s.record("vox_res_2", "米拉", DeedKind::Gift);
    s.record("vox_res_2", "米拉", DeedKind::Flower);
    s.record("vox_res_0", "諾娃", DeedKind::SaveShadow);
    assert_eq!(s.residents_with_marks(), vec!["vox_res_0".to_string(), "vox_res_2".to_string()]);
}

#[test]
fn from_entries_reconstructs_and_continues_seq() {
    let mut s = EnvoyMarkStore::from_entries(Vec::new());
    s.record("vox_res_0", "諾娃", DeedKind::SaveShadow);
    s.record("vox_res_0", "諾娃", DeedKind::SaveShadow);
    let entries = s.to_entries();
    let mut s2 = EnvoyMarkStore::from_entries(entries);
    assert_eq!(s2.deeds_for("vox_res_0")[0].count, 2, "重建後次數保留");
    // 重建後再記一件，序號必須大於重建前的最大序號。
    let r = s2.record("vox_res_0", "諾娃", DeedKind::Gift);
    assert!(r.last_seq >= 3, "重建後序號應接續遞增");
}

#[test]
fn record_updates_resident_name_on_rename() {
    let mut s = EnvoyMarkStore::from_entries(Vec::new());
    s.record("vox_res_0", "舊名", DeedKind::Gift);
    let r = s.record("vox_res_0", "新名", DeedKind::Gift);
    assert_eq!(r.resident_name, "新名", "改名後快照名字應更新");
}

#[test]
fn recall_line_is_deterministic_and_carries_name() {
    let a = recall_line("引夢使者", DeedKind::SaveShadow, 0);
    let b = recall_line("引夢使者", DeedKind::SaveShadow, 0);
    assert_eq!(a, b);
    assert!(a.contains("引夢使者"));
    assert!(a.contains("暗影"), "驅散暗影的回想應提到暗影");
    assert!(!a.contains("{p}") && !a.contains("{d}"), "佔位符應全被替換");
}

#[test]
fn recall_line_clauses_differ_by_kind() {
    let shadow = recall_line("旅人", DeedKind::SaveShadow, 2);
    let flower = recall_line("旅人", DeedKind::Flower, 2);
    assert!(shadow.contains("暗影"));
    assert!(flower.contains("野花"));
    assert_ne!(shadow, flower);
}

#[test]
fn recall_line_pick_wraps_without_panic() {
    let line = recall_line("旅人", DeedKind::Gift, usize::MAX);
    assert!(!line.is_empty());
}

#[test]
fn recall_frames_are_distinct() {
    let lines: std::collections::HashSet<String> =
        (0..4).map(|p| recall_line("旅人", DeedKind::Gift, p)).collect();
    assert_eq!(lines.len(), 4, "四句框架應各不相同");
}

#[test]
fn feed_line_mentions_resident_and_player_and_no_newline() {
    let line = feed_line("諾娃", "引夢使者", DeedKind::Flower);
    assert!(line.contains("諾娃"));
    assert!(line.contains("引夢使者"));
    assert!(line.contains("野花"));
    assert!(!line.contains('\n'));
}

#[test]
fn labels_are_stable_nonempty() {
    for k in [DeedKind::SaveShadow, DeedKind::Gift, DeedKind::Flower] {
        assert!(!k.label().is_empty());
    }
}

#[test]
fn recall_line_replaces_placeholders_in_order() {
    assert_eq!(
        recall_line("旅人", DeedKind::Flower, 1),
        "我常想起你摘來送我的那束野花，旅人，謝謝你。"
    );
    // A {d} inside the player's name is replaced too, as the chained replacement does.
    assert_eq!(
        recall_line("{d}", DeedKind::Gift, 0),
        "你特地送到我手上的那份心意，還記得嗎——你特地送到我手上的那份心意，我到現在都記著。"
    );
    assert_eq!(feed_line("諾娃", "引夢使者", DeedKind::Gift), "諾娃想起了引夢使者為她餽贈禮物的那份情。");
}

#[test]
fn saved_records_overwrite_their_bucket() {
    let mut s = EnvoyMarkStore::from_entries(Vec::new());
    let a = s.record("vox_res_0", "諾娃", DeedKind::Gift);
    let b = s.record("vox_res_0", "諾娃", DeedKind::Gift);
    // Replaying an older and a newer snapshot of one bucket keeps the newer one only.
    let s2 = EnvoyMarkStore::from_entries(vec![a, b]);
    let deeds = s2.deeds_for("vox_res_0");
    assert_eq!(deeds.len(), 1);
    assert_eq!(deeds[0].count, 2);
    assert_eq!(s2.total_count(), 2);
    assert_eq!(s2.to_entries().len(), 1);
}

#[test]
fn saved_snapshot_reloads_to_the_same_ledger() {
    let mut s = EnvoyMarkStore::from_entries(Vec::new());
    s.record("vox_res_0", "露娜", DeedKind::Gift);
    s.record("vox_res_1", "星禾", DeedKind::Flower);
    s.record("vox_res_0", "露娜", DeedKind::Gift);
    s.record("vox_res_0", "露娜", DeedKind::SaveShadow);
    let snapshot = s.to_entries();
    let reloaded = EnvoyMarkStore::from_entries(snapshot.clone());
    let again = reloaded.to_entries();
    assert_eq!(again.len(), snapshot.len());
    for (a, b) in again.iter().zip(snapshot.iter()) {
        assert_eq!(a.resident_id, b.resident_id);
        assert_eq!(a.kind, b.kind);
        assert_eq!(a.count, b.count);
        assert_eq!(a.last_seq, b.last_seq);
    }
    assert_eq!(reloaded.total_count(), 4);
}
