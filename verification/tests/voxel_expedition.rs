use voxel_village::voxel_expedition::{
    arrive_bubble, arrive_memory_summary, embark_bubble, embark_feed_line, return_bubble,
    return_feed_line, SAY_MAX_CHARS,
};

#[test]
fn bubbles_and_memory_nonempty_capped_and_mention_bearing() {
    for pick in 0..6 {
        let e = embark_bubble("東方", pick);
        let a = arrive_bubble("西方", pick);
        let r = return_bubble(pick);
        assert!(!e.is_empty() && e.chars().count() <= SAY_MAX_CHARS);
        assert!(!a.is_empty() && a.chars().count() <= SAY_MAX_CHARS);
        assert!(!r.is_empty() && r.chars().count() <= SAY_MAX_CHARS);
    }
    // 啟程泡泡與抵達記憶都點出方位。
    assert!(embark_bubble("南方", 0).contains("南方"));
    assert!(arrive_memory_summary("北方").contains("北方"));
    assert!(!arrive_memory_summary("東方").is_empty());
}

#[test]
fn bubbles_rotate_by_pick() {
    // 不同 pick 至少有兩種不同的啟程泡泡（輪替、不永遠同一句）。
    let a = embark_bubble("東方", 0);
    let b = embark_bubble("東方", 1);
    let c = embark_bubble("東方", 2);
    assert!(a != b || b != c);
}

#[test]
fn feed_lines_nonempty() {
    assert!(!embark_feed_line("東方").is_empty());
    assert!(embark_feed_line("南方").contains("南方"));
    assert!(!return_feed_line().is_empty());
}

#[test]
fn expedition_lines_are_exact() {
    assert_eq!(embark_bubble("東方", 4), "待在城裡太久了，我想一個人去東方的荒野走走。");
    assert_eq!(arrive_bubble("北方", 2), "遠離人聲的荒野，安安靜靜的，真好。");
    assert_eq!(return_bubble(1), "走了好遠一圈，還是家附近讓人安心～");
    assert_eq!(embark_feed_line("西方"), "獨自往西方的邊陲遠行了");
}
