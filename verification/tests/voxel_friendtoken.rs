use voxel_village::voxel::Block;
use voxel_village::voxel_friendtoken::{
    token_block, token_feed_line, token_memory_line, token_say_line, TOKEN_SAY_MAX_CHARS,
};

#[test]
fn token_block_always_in_range() {
    // 任意 pick（含大值、環繞）都落在候選內、永不 panic。
    for pick in [0usize, 1, 2, 3, 99, 1000, usize::MAX] {
        let b = token_block(pick);
        assert!(
            b == Block::Torch || b == Block::IceLantern,
            "信物方塊應恆為候選發光方塊，pick={pick} 得 {b:?}"
        );
    }
    // 相鄰 pick 會輪替（確定性、有變化）。
    assert_ne!(token_block(0), token_block(1), "相鄰 pick 應挑到不同信物");
    assert_eq!(token_block(0), token_block(2), "配對序循環應確定性");
}

#[test]
fn say_line_embeds_name_and_fits_frame() {
    let s = token_say_line("諾娃", 0);
    assert!(s.contains("諾娃"), "立信物泡泡應嵌入對方名：{s}");
    assert!(!s.is_empty(), "泡泡非空");
    assert!(
        s.chars().count() <= TOKEN_SAY_MAX_CHARS,
        "泡泡不得超過框上限：{}",
        s.chars().count()
    );
    // 確定性輪替：同 pick 同名同句。
    assert_eq!(token_say_line("諾娃", 0), token_say_line("諾娃", 0));
}

#[test]
fn say_line_super_long_name_truncated_not_broken() {
    let long = "諾".repeat(100);
    let s = token_say_line(&long, 1);
    assert!(!s.is_empty(), "超長名仍非空");
    assert!(
        s.chars().count() <= TOKEN_SAY_MAX_CHARS,
        "超長名截到框內：{}",
        s.chars().count()
    );
}

#[test]
fn say_line_empty_name_falls_back() {
    let s = token_say_line("   ", 2);
    assert!(!s.is_empty(), "空白名落回通用稱呼、非空");
    assert!(s.contains("老朋友"), "空白名應落回『老朋友』通用稱呼：{s}");
}

#[test]
fn feed_line_embeds_both_names() {
    let s = token_feed_line("露娜", "諾娃");
    assert!(s.contains("露娜") && s.contains("諾娃"), "動態牆句應含雙方名：{s}");
    assert!(s.chars().count() <= TOKEN_SAY_MAX_CHARS, "動態牆句不破框");
    // 空名雙側落回通用稱呼、仍非空不 panic。
    let s2 = token_feed_line("", "");
    assert!(!s2.is_empty() && s2.contains("居民"), "空名落回通用稱呼：{s2}");
}

#[test]
fn memory_line_embeds_friend_only_no_break() {
    let s = token_memory_line("賽勒");
    assert!(s.contains("賽勒"), "記憶應嵌對方名：{s}");
    assert!(s.contains("老朋友"), "記憶停在『成了老朋友』情節層：{s}");
    assert!(s.chars().count() <= TOKEN_SAY_MAX_CHARS, "記憶不破框");
    // 超長名截斷不膨脹、空名落回。
    assert!(token_memory_line(&"賽".repeat(80)).chars().count() <= TOKEN_SAY_MAX_CHARS);
    assert!(!token_memory_line("").is_empty());
}


#[test]
fn friendtoken_exact_text() {
    assert_eq!(token_block(3), Block::IceLantern);
    assert_eq!(token_say_line("諾娃", 4), "和諾娃處成了老朋友，這盞小燈，就當作我們友誼的信物。");
    assert_eq!(token_feed_line(" ", "諾娃"), "一位居民為和諾娃的友誼，在家旁點起了一盞友誼的燈。");
    assert_eq!(token_memory_line("\t"), "我和一位老朋友成了老朋友，在家旁點起一盞燈，紀念我們這段情誼。");
}
