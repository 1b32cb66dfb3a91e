use voxel_village::voxel_fond_greeting::{
    detect_context, fond_greeting_line, FriendContext, FOND_AFFINITY,
};

#[test]
fn detect_context_gift_from_keyword_song_lai() {
    let summaries = vec!["收到了旅人送來的木頭，心裡暖暖的".to_string()];
    assert_eq!(detect_context(&summaries), FriendContext::PlayerGaveGift);
}

#[test]
fn detect_context_gift_from_keyword_song_wo() {
    let summaries = vec!["旅人送我麵包——這個人很體貼".to_string()];
    assert_eq!(detect_context(&summaries), FriendContext::PlayerGaveGift);
}

#[test]
fn detect_context_trade() {
    let summaries = vec!["和小美以物易物：我給了種子，換來了木頭，感覺不錯".to_string()];
    assert_eq!(detect_context(&summaries), FriendContext::Traded);
}

#[test]
fn detect_context_fallback_to_just_talked() {
    let summaries = vec!["聊到了星空與夜晚的美麗".to_string(), "分享了旅人的見聞".to_string()];
    assert_eq!(detect_context(&summaries), FriendContext::JustTalked);
}

#[test]
fn detect_context_empty_is_just_talked() {
    assert_eq!(detect_context(&[]), FriendContext::JustTalked);
}

#[test]
fn detect_context_gift_wins_over_trade() {
    // 先有交易記憶、後有送禮記憶（更新）→ 應回 PlayerGaveGift（從最新掃）。
    let summaries = vec![
        "和小明以物易物：我給了石頭，換來了種子".to_string(),
        "收到了小明送來的玻璃，心裡暖暖的".to_string(),
    ];
    assert_eq!(detect_context(&summaries), FriendContext::PlayerGaveGift);
}

#[test]
fn fond_greeting_contains_player_name() {
    for ctx in [FriendContext::PlayerGaveGift, FriendContext::Traded, FriendContext::JustTalked] {
        let line = fond_greeting_line("小美", &ctx, 0);
        assert!(line.contains("小美"), "台詞應含玩家名：{line}");
    }
}

#[test]
fn fond_greeting_stays_within_40_chars() {
    let long_name = "超長玩家名字TEST";
    for ctx in [FriendContext::PlayerGaveGift, FriendContext::Traded, FriendContext::JustTalked] {
        for pick in 0..3 {
            let line = fond_greeting_line(long_name, &ctx, pick);
            let chars = line.chars().count();
            assert!(chars <= 40, "超過 40 字（{chars}）：{line}");
        }
    }
}

#[test]
fn fond_greeting_empty_name_uses_fallback() {
    for ctx in [FriendContext::PlayerGaveGift, FriendContext::Traded, FriendContext::JustTalked] {
        let line = fond_greeting_line("", &ctx, 0);
        // 空名字退回「旅人」——不 panic、不空字串
        assert!(!line.is_empty(), "空名字不該回空字串");
        assert!(line.contains("旅人"), "空名字應退回「旅人」：{line}");
    }
}

#[test]
fn fond_greeting_pick_wraps_safely() {
    // pick 遠大於句池長度不 panic
    for pick in [0, 1, 2, 99, usize::MAX / 2] {
        let line = fond_greeting_line("星星", &FriendContext::JustTalked, pick);
        assert!(!line.is_empty());
    }
}

#[test]
fn fond_affinity_threshold_sane() {
    assert!(FOND_AFFINITY >= 4, "門檻太低——4 筆以下還不夠「老友」");
    assert!(FOND_AFFINITY <= 8, "門檻太高——8 筆以上幾乎沒人能觸發");
}


#[test]
fn fond_greeting_exact_text() {
    assert_eq!(fond_greeting_line("小美", &FriendContext::Traded, 4), "嗨，小美！手邊又攢了些材料，想換換。");
    assert_eq!(fond_greeting_line("超長玩家名字TEST", &FriendContext::PlayerGaveGift, 1), "超長玩家名字！你送的那份心意我一直記著。");
    // A gift anywhere outranks a trade, whichever is newer.
    let s = vec!["旅人送我麵包".to_string(), "和小美以物易物".to_string(), "聊天".to_string()];
    assert_eq!(detect_context(&s), FriendContext::PlayerGaveGift);
    let s = vec!["聊天".to_string(), "和小美以物易物".to_string(), "分享見聞".to_string()];
    assert_eq!(detect_context(&s), FriendContext::Traded);
}

#[test]
fn detect_context_older_gift_outranks_newer_trade() {
    let summaries = vec![
        "收到了小明送來的玻璃，心裡暖暖的".to_string(),
        "和小明以物易物：我給了石頭，換來了種子".to_string(),
    ];
    assert_eq!(detect_context(&summaries), FriendContext::PlayerGaveGift);
}
