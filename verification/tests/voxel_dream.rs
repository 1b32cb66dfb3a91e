use voxel_village::voxel_dream::{dream_bubble, dream_feed_line, pick_dream, DREAM_CORE_CHARS, DREAM_MAX_CHARS};

#[test]
fn pick_dream_rotates_and_handles_empty() {
    // 空候選 → None（無可夢的珍貴往事 ＝ 無夢好眠）。
    assert_eq!(pick_dream(0, 0), None);
    assert_eq!(pick_dream(0, 999), None);
    // 單筆 → 就是牠。
    assert_eq!(pick_dream(1, 0), Some(0));
    assert_eq!(pick_dream(1, 7), Some(0));
    // 多筆 → 隨 pick 輪替（逐夢變化，不整夜同一夢）。
    assert_eq!(pick_dream(3, 0), Some(0));
    assert_eq!(pick_dream(3, 1), Some(1));
    assert_eq!(pick_dream(3, 2), Some(2));
    assert_eq!(pick_dream(3, 3), Some(0));
    // pick 取模不越界（極大值）。
    assert!(pick_dream(3, usize::MAX).is_some());
}

#[test]
fn dream_bubbles_vary_with_pick_and_are_bounded() {
    let s = "和奧瑞一起把那片地整平了";
    let a = dream_bubble(s, 0);
    let b = dream_bubble(s, 1);
    let c = dream_bubble(s, 2);
    assert_ne!(a, b);
    assert_ne!(b, c);
    for line in [&a, &b, &c] {
        assert!(!line.is_empty());
        assert!(line.chars().count() <= DREAM_MAX_CHARS);
        // 每句都嵌進了記憶核心的開頭（夢見的確實是那段往事）。
        assert!(line.contains("整"));
    }
    // pick 取模不越界。
    let _ = dream_bubble(s, usize::MAX);
}

#[test]
fn long_memory_is_trimmed_into_core() {
    // 遠超上限的長記憶：核心被截到 DREAM_CORE_CHARS，泡泡整體仍在上限內。
    let long: String = "很".repeat(200);
    let bubble = dream_bubble(&long, 0);
    assert!(bubble.chars().count() <= DREAM_MAX_CHARS);
    let feed = dream_feed_line(&long);
    // Feed 帶固定語幹 + 至多 DREAM_CORE_CHARS 個核心字。
    let stem = "在睡夢裡又回到了那天——";
    assert!(feed.starts_with(stem));
    assert!(feed.chars().count() <= stem.chars().count() + DREAM_CORE_CHARS);
}

#[test]
fn feed_line_embeds_core_and_is_nonempty() {
    let s = "玩家教我燒玻璃";
    let feed = dream_feed_line(s);
    assert!(feed.contains("燒玻璃"));
    assert!(!feed.is_empty());
}

#[test]
fn empty_or_whitespace_memory_does_not_panic() {
    // 邊界：空字串／全空白不 panic，泡泡與 Feed 仍是合法字串。
    let _ = dream_bubble("", 0);
    let _ = dream_bubble("   ", 1);
    let _ = dream_bubble("　", 2);
    let _ = dream_feed_line("");
    let _ = dream_feed_line("   ");
}

#[test]
fn dream_bubble_templates_are_exact() {
    assert_eq!(dream_bubble("  玩家教我燒玻璃 ", 0), "💤 夢裡又回到那時候……玩家教我燒玻璃");
    assert_eq!(dream_bubble("玩家教我燒玻璃", 1), "睡夢中，玩家教我燒玻璃……的畫面又浮了上來 💤");
    assert_eq!(dream_bubble("玩家教我燒玻璃", 5), "💤 夢見了……玩家教我燒玻璃");
    assert_eq!(dream_feed_line("　和奧瑞　"), "在睡夢裡又回到了那天——和奧瑞");
}
