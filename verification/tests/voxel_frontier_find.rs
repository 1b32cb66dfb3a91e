use voxel_village::voxel_frontier_find::{
    clip_name, finds, found_bubble, found_feed_line, found_memory_line,
};

#[test]
fn found_bubble_names_player_and_bearing_within_limit() {
    for pick in 0..8 {
        let s = found_bubble("阿宅", "東方", pick);
        assert!(s.contains("阿宅"), "應點名玩家: {s}");
        assert!(s.contains("東方"), "應帶上遠行方位: {s}");
        assert!(s.chars().count() <= 40, "泡泡框限制 40 字: {s}");
    }
}

#[test]
fn found_bubble_templates_are_distinct() {
    let lines: std::collections::HashSet<String> =
        (0..4).map(|p| found_bubble("旅人", "西方", p)).collect();
    assert_eq!(lines.len(), 4, "四句應各不相同");
}

#[test]
fn found_bubble_wraps_pick_index() {
    // pick 超出模板數也不 panic，且與取餘後同索引結果一致。
    let a = found_bubble("旅人", "南方", 4);
    let b = found_bubble("旅人", "南方", 0);
    assert_eq!(a, b);
}

#[test]
fn found_bubble_clips_long_player_name() {
    let long_name = "超級無敵霹靂長的玩家顯示名字測試用";
    let s = found_bubble(long_name, "北方", 0);
    assert!(s.chars().count() <= 40, "超長玩家名截斷後仍不破泡泡框: {s}");
}

#[test]
fn found_memory_line_names_player_and_bearing_no_newline() {
    let line = found_memory_line("阿宅", "東方");
    assert!(line.contains("阿宅"));
    assert!(line.contains("東方"));
    assert!(!line.contains('\n'));
}

#[test]
fn found_feed_line_names_both_and_bearing() {
    let line = found_feed_line("露娜", "阿宅", "東方");
    assert!(line.contains("露娜"));
    assert!(line.contains("阿宅"));
    assert!(line.contains("東方"));
}

#[test]
fn clip_name_bounds_length() {
    let long_name = "一二三四五六七八九十十一十二";
    assert!(clip_name(long_name).chars().count() <= 8);
    assert_eq!(clip_name("短名"), "短名");
}


#[test]
fn finds_needs_every_gate() {
    assert!(finds(true, true, true, true));
    assert!(!finds(false, true, true, true));
    assert!(!finds(true, false, true, true));
    assert!(!finds(true, true, false, true));
    assert!(!finds(true, true, true, false));
}

#[test]
fn frontier_find_exact_text() {
    assert_eq!(found_bubble("阿宅", "東方", 3), "阿宅，你也太厲害了，連我躲到東方都被你找到。");
    assert_eq!(found_memory_line("阿\n宅", "東方"), "阿 宅一路追到東方的邊陲找到正在遠行的我，那份特地跑一趟的心意，我記下了。");
    assert_eq!(found_feed_line("露娜", "阿宅", "西方"), "阿宅在西方的邊陲，巧遇了正在遠行的露娜——牠很驚喜你追了這麼遠來找牠。");
}
