use voxel_village::voxel_dreamshare::{dreamshare_feed_line, dreamshare_line, dreamshare_memory_line, DREAMSHARE_MAX_CHARS};

#[test]
fn share_line_embeds_name_and_core_and_is_bounded() {
    let core = "和奧瑞一起把那片地整平了";
    let a = dreamshare_line(core, "阿光", 0);
    let b = dreamshare_line(core, "阿光", 1);
    let c = dreamshare_line(core, "阿光", 2);
    // 三組模板確定性輪替、彼此不同。
    assert_ne!(a, b);
    assert_ne!(b, c);
    for line in [&a, &b, &c] {
        assert!(!line.is_empty());
        assert!(line.chars().count() <= DREAMSHARE_MAX_CHARS);
        assert!(line.contains("阿光"), "應嵌玩家名");
    }
    // 至少一組把夢核心嵌了進去（截斷後開頭仍在）。
    assert!(a.contains("整") || b.contains("整") || c.contains("整"));
    // pick 取模不越界。
    let _ = dreamshare_line(core, "阿光", usize::MAX);
}

#[test]
fn long_core_is_trimmed_and_line_stays_bounded() {
    let long: String = "很".repeat(200);
    for pick in 0..3 {
        let line = dreamshare_line(&long, "諾瓦", pick);
        assert!(line.chars().count() <= DREAMSHARE_MAX_CHARS, "超長夢核心仍不破泡泡框");
        assert!(!line.is_empty());
    }
}

#[test]
fn empty_core_falls_back_to_generic_share() {
    // 空 / 全空白夢核心 → 落回通用分享句，仍非空、仍在上限、不 panic。
    for c in ["", "   ", "　"] {
        for pick in 0..3 {
            let line = dreamshare_line(c, "阿光", pick);
            assert!(!line.is_empty());
            assert!(line.chars().count() <= DREAMSHARE_MAX_CHARS);
        }
    }
}

#[test]
fn empty_player_name_falls_back_without_panicking() {
    // 訪客名空（呼叫端本會濾掉，但純函式仍要安全）→ 落回不嵌名模板、不 panic。
    let line = dreamshare_line("和奧瑞一起整地", "", 0);
    assert!(!line.is_empty());
    assert!(line.chars().count() <= DREAMSHARE_MAX_CHARS);
    let line2 = dreamshare_line("和奧瑞一起整地", "   ", 1);
    assert!(!line2.is_empty());
}

#[test]
fn memory_line_embeds_name_but_not_dream_content() {
    let m = dreamshare_memory_line("諾瓦");
    assert!(m.contains("諾瓦"), "記憶應含玩家名");
    assert!(!m.is_empty());
    // 記憶刻意停在情節層、不夾帶夢核心內容（隱私姿態同 781 掏心）。
    assert!(!m.contains("整地"));
    // 空名落回不 panic、仍非空。
    let m2 = dreamshare_memory_line("");
    assert!(!m2.is_empty());
}

#[test]
fn feed_line_embeds_names_and_handles_empty() {
    let f = dreamshare_feed_line("露娜", "阿光");
    assert!(f.contains("露娜"));
    assert!(f.contains("阿光"));
    // 空居民名 / 空玩家名皆落回通用稱呼、不 panic、非空。
    let f2 = dreamshare_feed_line("", "");
    assert!(!f2.is_empty());
    assert!(f2.contains("一位居民"));
    let f3 = dreamshare_feed_line("露娜", "");
    assert!(f3.contains("露娜"));
    assert!(!f3.is_empty());
}

#[test]
fn dreamshare_templates_are_exact() {
    assert_eq!(dreamshare_line("整地", "阿光", 0), "阿光，我昨晚做了個夢，夢見……整地呢。");
    assert_eq!(dreamshare_line("整地", " ", 2), "跟你說，我昨晚夢見了……整地。");
    assert_eq!(dreamshare_line(" ", "阿光", 1), "昨晚睡得真好，還做了個溫柔的夢。");
    assert_eq!(dreamshare_memory_line(" 諾瓦 "), "我把昨晚做的夢，說給了諾瓦聽，心裡覺得跟對方親近了些。");
    assert_eq!(dreamshare_feed_line("露娜", ""), "露娜把昨晚做的夢，說給了路過的旅人聽。");
}

#[test]
fn dreamshare_line_names_the_player() {
    for pick in 0..6 {
        let line = dreamshare_line("一片發光的花海", "  小美 ", pick);
        assert!(line.contains("小美"), "{line}");
        assert!(!line.is_empty());
        assert_eq!(dreamshare_line("", "小美", pick), dreamshare_line("", "阿光", pick));
        assert_eq!(dreamshare_line("花海", "小美", pick), dreamshare_line("花海", "小美", pick % 3));
    }
}
