use voxel_village::voxel_elder::{
    elder_defuse_feed_line, elder_defuse_say_line, elder_feed_line, elder_memory_line,
    elder_say_line, is_elder_moment, pick_defuse_topic, ElderEntry, ElderStore, ELDER_SECS,
    YEAR_SECS,
};

#[test]
fn founders_never_become_elder() {
    // 初始四位居民 birth_unix == 0：無「誕生時刻」，永不觸發晚年（比照 942 誠實取捨）。
    assert!(!is_elder_moment(0, 0, false));
    assert!(!is_elder_moment(0, 999_999_999, false));
}

#[test]
fn newborn_not_elder_until_threshold() {
    let birth = 1_000_000;
    assert!(!is_elder_moment(birth, birth, false));
    assert!(!is_elder_moment(birth, birth + ELDER_SECS - 1, false));
    assert!(is_elder_moment(birth, birth + ELDER_SECS, false));
    assert!(is_elder_moment(birth, birth + ELDER_SECS * 5, false));
}

#[test]
fn elder_moment_idempotent_when_already_marked() {
    let birth = 1_000_000;
    let old = birth + ELDER_SECS;
    assert!(is_elder_moment(birth, old, false));
    assert!(!is_elder_moment(birth, old, true)); // 已步入過 → 不重複觸發
}

#[test]
fn is_elder_moment_handles_clock_going_backwards() {
    // now < birth_unix（時鐘回退等異常）：saturating_sub → 0，非晚年，不 panic。
    assert!(!is_elder_moment(1_000_000, 500_000, false));
}

#[test]
fn elder_secs_is_three_ether_years() {
    assert_eq!(ELDER_SECS, YEAR_SECS * 3);
}

#[test]
fn elder_say_line_mentions_name_and_varies_with_pick() {
    let a = elder_say_line("露娜", 0);
    let b = elder_say_line("露娜", 1);
    assert!(a.contains('露'));
    assert_ne!(a, b);
}

#[test]
fn elder_say_line_empty_name_falls_back() {
    let line = elder_say_line("", 0);
    assert!(line.contains('我'));
    assert!(!line.is_empty());
}

#[test]
fn elder_memory_line_is_permanent_essence_and_single_line() {
    let line = elder_memory_line();
    assert!(line.contains("一定會"));
    assert!(!line.contains('\n'));
    assert!(!line.is_empty());
}

#[test]
fn elder_feed_line_mentions_name() {
    let line = elder_feed_line("諾娃");
    assert!(line.contains("諾娃"));
    assert!(line.contains("長者"));
}

#[test]
fn elder_feed_line_empty_name_falls_back() {
    let line = elder_feed_line("");
    assert!(!line.is_empty());
}

#[test]
fn elder_defuse_say_line_mentions_host_and_varies_with_pick() {
    let a = elder_defuse_say_line("賽勒", 0);
    let b = elder_defuse_say_line("賽勒", 1);
    assert!(a.contains("賽勒"));
    assert_ne!(a, b);
}

#[test]
fn elder_defuse_feed_line_mentions_both_names() {
    let line = elder_defuse_feed_line("露娜", "諾娃", 2);
    assert!(line.contains("露娜"));
    assert!(line.contains("諾娃"));
}

#[test]
fn pick_defuse_topic_wraps_around_deterministically() {
    let n = 6;
    assert_eq!(pick_defuse_topic(0), pick_defuse_topic(n));
    assert_eq!(pick_defuse_topic(1), pick_defuse_topic(n + 1));
}

#[test]
fn pick_defuse_topic_covers_all_entries_across_first_cycle() {
    let n = 6;
    let seen: std::collections::HashSet<&str> = (0..n).map(pick_defuse_topic).collect();
    assert_eq!(seen.len(), n);
}

#[test]
fn elder_store_round_trip_and_idempotent_mark() {
    let mut store = ElderStore::new();
    assert!(!store.has("vox_res_0"));
    assert!(store.mark("vox_res_0")); // 第一次 → true
    assert!(!store.mark("vox_res_0")); // 已標記過 → false，冪等
    assert!(store.has("vox_res_0"));

    let restored = ElderStore::from_entries(vec![ElderEntry { resident: "vox_res_1".into() }]);
    assert!(restored.has("vox_res_1"));
    assert!(!restored.has("vox_res_0"));
}

#[test]
fn elder_store_snapshot_is_independent_copy() {
    let mut store = ElderStore::new();
    store.mark("vox_res_2");
    let snap = store.snapshot();
    store.mark("vox_res_3");
    assert!(snap.contains(&"vox_res_2".to_string()));
    assert!(!snap.contains(&"vox_res_3".to_string())); // 快照不受之後的變更影響
}

#[test]
fn elder_lines_are_exact() {
    assert_eq!(elder_say_line("露娜", 1), "露娜這些年看著這片天地一點一滴長大，如今也算是村裡的長者了。");
    assert_eq!(elder_feed_line(""), "一位居民不知不覺也走到了晚年，成了村裡受人敬重的長者");
    assert_eq!(elder_defuse_say_line("賽勒", 6), "「該誰澆花呀……」賽勒笑了笑擺擺手，這點小事，值得吵嗎？");
    assert_eq!(
        elder_defuse_feed_line("露娜", "諾娃", 5),
        "露娜本想跟諾娃為了誰吃掉了最後一顆胡蘿蔔拌幾句嘴，卻被長者的從容一笑帶過了"
    );
    // Long names are cut to twelve characters.
    let long = "長".repeat(20);
    assert!(elder_feed_line(&long).starts_with(&"長".repeat(12)));
    assert!(!elder_feed_line(&long).starts_with(&"長".repeat(13)));
}
