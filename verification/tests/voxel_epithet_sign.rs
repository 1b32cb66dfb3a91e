use voxel_village::voxel_epithet_sign::{honor_feed_line, honor_sign_text, is_honor_sign, HONOR_PREFIX};
use voxel_village::voxel_playerepithet::PlayerRole;

#[test]
fn honor_text_carries_epithet_and_prefix() {
    let t = honor_sign_text(PlayerRole::Maker);
    assert_eq!(t, "此地常客·造物者");
    assert!(t.starts_with(HONOR_PREFIX));
    assert!(is_honor_sign(&t));
}

#[test]
fn honor_text_for_every_role_is_nonempty_and_recognized() {
    for role in [
        PlayerRole::Maker,
        PlayerRole::Giver,
        PlayerRole::Trader,
        PlayerRole::Companion,
    ] {
        let t = honor_sign_text(role);
        assert!(!t.is_empty());
        assert!(is_honor_sign(&t), "{t} 應被辨識為名號牌");
        // 牌面確實含該名號字樣。
        assert!(t.contains(role.epithet()));
    }
}

#[test]
fn is_honor_sign_rejects_ordinary_signs() {
    // 749 居民立牌命名、玩家自寫的牌都不該被誤判成名號牌。
    assert!(!is_honor_sign("露娜的家"));
    assert!(!is_honor_sign("往礦坑↓"));
    assert!(!is_honor_sign(""));
    assert!(!is_honor_sign("常客")); // 少了前綴的分隔點，不誤判
}

#[test]
fn honor_feed_embeds_name_role_and_handles_empty() {
    let f = honor_feed_line("露娜", "阿海", PlayerRole::Trader);
    assert!(f.contains("露娜"));
    assert!(f.contains("阿海"));
    assert!(f.contains("老搭檔"));
    // 空玩家名安全退成泛稱、不露破碎字串。
    let f2 = honor_feed_line("露娜", "", PlayerRole::Trader);
    assert!(f2.contains("露娜"));
    assert!(f2.contains("老搭檔"));
    assert!(!f2.contains("記作這一帶的「老搭檔」的"));
}

#[test]
fn honor_feed_line_is_exact() {
    assert_eq!(honor_feed_line("露娜", "阿海", PlayerRole::Maker), "露娜 在自家門旁刻了一塊牌，把 阿海 記作這一帶的「造物者」");
    assert_eq!(honor_feed_line("露娜", "", PlayerRole::Companion), "露娜 在自家門旁刻了一塊牌，把這位旅人記作這一帶的「常來的老友」");
}
