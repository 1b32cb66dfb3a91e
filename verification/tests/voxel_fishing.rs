use voxel_village::voxel_fishing::{
    bite_secs, bite_secs_for, cast_hint, cast_hint_for, catch_feed_line, catch_self_line,
    fish_name_zh, is_deep_water, is_rare_catch, is_water_block, pick_catch, pick_catch_ctx,
    pick_catch_for, too_early_hint, FishContext, ABYSSAL_CATCH_MOD, ABYSSAL_FISH_ID,
    ABYSSAL_SNOW_CATCH_MOD, AETHER_FISH_ID, BITE_MAX_SECS, BITE_MIN_SECS, COOKED_FISH_ID,
    DEEP_WATER_DEPTH, FISHING_ROD_ID, FISH_ID, MOONFISH_ID, RAIN_BITE_MAX_SECS,
    RAIN_BITE_MIN_SECS,
};

/// A test context.
fn ctx(raining: bool, night: bool, deep: bool, snow: bool) -> FishContext {
    FishContext { raining, night, deep, snow }
}

#[test]
fn water_blocks_are_castable_solids_are_not() {
    assert!(is_water_block(7), "來源水可下竿");
    for lvl in 24..=30 {
        assert!(is_water_block(lvl), "流動水 level {lvl} 可下竿");
    }
    // 陸地/建材不是水，不能對著它拋竿。
    for solid in [0u8, 1, 2, 3, 4, 5, 8, 9, 10, 23, 31] {
        assert!(!is_water_block(solid), "方塊 {solid} 不該可下竿");
    }
    // 流動水範圍邊界外（23=鐵磚、31=火把）不算水。
    assert!(!is_water_block(23));
    assert!(!is_water_block(31));
}

#[test]
fn pick_catch_is_deterministic_and_both_outcomes_reachable() {
    // 同一 roll 恆得同一結果。
    assert_eq!(pick_catch(10), pick_catch(10));
    // roll % 5 == 0 → 乙太魚；否則小魚。
    assert_eq!(pick_catch(0), AETHER_FISH_ID);
    assert_eq!(pick_catch(5), AETHER_FISH_ID);
    assert_eq!(pick_catch(1), FISH_ID);
    assert_eq!(pick_catch(4), FISH_ID);
    // 掃一段連續 roll，兩種漁獲都要出現（分佈健康、不會永遠只釣到一種）。
    let mut common = 0;
    let mut rare = 0;
    for r in 0..100u64 {
        match pick_catch(r) {
            AETHER_FISH_ID => rare += 1,
            FISH_ID => common += 1,
            other => panic!("非預期漁獲 id {other}"),
        }
    }
    assert_eq!(rare, 20, "100 竿裡稀有魚恰好 1/5");
    assert_eq!(common, 80);
    assert!(common > rare, "小魚該比乙太魚常見");
}

#[test]
fn bite_secs_always_within_bounds() {
    for r in 0..1000u64 {
        let s = bite_secs(r);
        assert!(
            (BITE_MIN_SECS..=BITE_MAX_SECS).contains(&s),
            "roll {r} 的上鉤秒數 {s} 落在範圍外"
        );
    }
    // 邊界都要搆得到（不是永遠固定一個值）。
    assert!((0..1000u64).map(bite_secs).any(|s| s == BITE_MIN_SECS));
    assert!((0..1000u64).map(bite_secs).any(|s| s == BITE_MAX_SECS));
}

#[test]
fn names_and_lines_are_grounded() {
    assert_eq!(fish_name_zh(FISH_ID), "小魚");
    assert_eq!(fish_name_zh(AETHER_FISH_ID), "乙太魚");
    assert_eq!(fish_name_zh(COOKED_FISH_ID), "烤魚");
    assert_eq!(fish_name_zh(FISHING_ROD_ID), "釣竿");
    // 稀有與普通漁獲的自述與 feed 台詞要分岔、且點名漁獲/玩家。
    assert!(catch_self_line(AETHER_FISH_ID).contains("乙太魚"));
    assert!(catch_self_line(FISH_ID).contains("小魚"));
    let feed = catch_feed_line("露米", AETHER_FISH_ID);
    assert!(feed.contains("露米") && feed.contains("乙太魚"));
    assert!(catch_feed_line("諾亞", FISH_ID).contains("諾亞"));
}

#[test]
fn rain_pick_catch_boosts_rare_chance_without_penalty() {
    // 同一 roll，晴天/雨天恆與各自模式的原函式一致（無回歸）。
    for r in 0..50u64 {
        assert_eq!(pick_catch(r), pick_catch_for(r, false));
    }
    // 雨天門檻收窄成 1/3，掃一段連續 roll 驗證比例確實提高、且仍非必得（只獎不罰）。
    let mut rain_rare = 0;
    let mut sun_rare = 0;
    for r in 0..300u64 {
        if pick_catch_for(r, true) == AETHER_FISH_ID {
            rain_rare += 1;
        }
        if pick_catch_for(r, false) == AETHER_FISH_ID {
            sun_rare += 1;
        }
    }
    assert_eq!(rain_rare, 100, "300 竿裡雨天稀有魚恰好 1/3");
    assert_eq!(sun_rare, 60, "300 竿裡晴天稀有魚恰好 1/5");
    assert!(rain_rare > sun_rare, "雨天稀有魚該比晴天更容易釣到");
    assert!(rain_rare < 300, "雨天仍非必得，只是機率提高");
}

#[test]
fn rain_bite_secs_faster_but_still_bounded_and_no_regression() {
    // 同一 roll，晴天恆與原函式一致（無回歸）。
    for r in 0..50u64 {
        assert_eq!(bite_secs(r), bite_secs_for(r, false));
    }
    for r in 0..1000u64 {
        let s = bite_secs_for(r, true);
        assert!(
            (RAIN_BITE_MIN_SECS..=RAIN_BITE_MAX_SECS).contains(&s),
            "雨天 roll {r} 的上鉤秒數 {s} 落在範圍外"
        );
    }
    // 邊界都要搆得到。
    assert!((0..1000u64).map(|r| bite_secs_for(r, true)).any(|s| s == RAIN_BITE_MIN_SECS));
    assert!((0..1000u64).map(|r| bite_secs_for(r, true)).any(|s| s == RAIN_BITE_MAX_SECS));
    // 雨天上界比晴天下界還快——整體明顯更緊湊（只獎不罰，不會比晴天慢）。
    assert!(RAIN_BITE_MAX_SECS < BITE_MAX_SECS);
    assert!(RAIN_BITE_MAX_SECS <= BITE_MIN_SECS + 1);
}

#[test]
fn cast_hint_mentions_rain_only_when_raining() {
    assert_eq!(cast_hint(), cast_hint_for(false));
    assert!(!cast_hint_for(false).contains("雨"));
    assert!(cast_hint_for(true).contains("雨"));
}

#[test]
fn item_ids_do_not_collide() {
    // 釣魚全部物品 id 互不相同，且都在既有方塊 id（≤59）之上（避免撞方塊 enum）。
    // 稀有魚 111/112 接續已用到的 110（南瓜）之後，不撞既有任何物品/方塊。
    let ids = [
        FISHING_ROD_ID, FISH_ID, AETHER_FISH_ID, COOKED_FISH_ID,
        MOONFISH_ID, ABYSSAL_FISH_ID,
    ];
    for (i, a) in ids.iter().enumerate() {
        assert!(*a >= 60, "釣魚物品 id {a} 應 ≥60，避開既有方塊");
        for b in &ids[i + 1..] {
            assert_ne!(a, b, "釣魚物品 id 不可重複");
        }
    }
    // 稀有魚 id 接在既有最大號 110（南瓜）之後，從 111 起。
    assert_eq!(MOONFISH_ID, 111);
    assert_eq!(ABYSSAL_FISH_ID, 112);
}

#[test]
fn deep_water_threshold() {
    // 未達門檻（淺溪／水窪）不算深水；達門檻起算深水。
    assert!(!is_deep_water(0));
    assert!(!is_deep_water(DEEP_WATER_DEPTH - 1));
    assert!(is_deep_water(DEEP_WATER_DEPTH));
    assert!(is_deep_water(DEEP_WATER_DEPTH + 5));
}

#[test]
fn ctx_names_and_rarity_flags() {
    assert_eq!(fish_name_zh(MOONFISH_ID), "夜光魚");
    assert_eq!(fish_name_zh(ABYSSAL_FISH_ID), "深海乙太魚");
    // 稀有判定：三種稀有魚都算稀有，小魚不算。
    assert!(is_rare_catch(AETHER_FISH_ID));
    assert!(is_rare_catch(MOONFISH_ID));
    assert!(is_rare_catch(ABYSSAL_FISH_ID));
    assert!(!is_rare_catch(FISH_ID));
    assert!(!is_rare_catch(COOKED_FISH_ID));
}

#[test]
fn moonfish_only_bites_at_night() {
    // 白天：掃一整段 roll 都不該釣起夜光魚（夜光魚白天絕不上鉤）。
    for r in 0..2000u64 {
        assert_ne!(
            pick_catch_ctx(r, ctx(false, false, false, false)),
            MOONFISH_ID,
            "白天不該釣起夜光魚（roll {r}）"
        );
    }
    // 夜晚：淺水非雪原時，夜光魚要真的出現過（不是永遠釣不到）。
    let got_moon = (0..2000u64)
        .any(|r| pick_catch_ctx(r, ctx(false, true, false, false)) == MOONFISH_ID);
    assert!(got_moon, "夜裡淺水應能釣起夜光魚");
}

#[test]
fn abyssal_only_bites_in_deep_water() {
    // 淺水：掃一整段 roll 都不該釣起深海乙太魚（只在深水潛藏）。
    for r in 0..2000u64 {
        // 淺水（deep=false），連夜晚也不該出現深海乙太魚。
        assert_ne!(
            pick_catch_ctx(r, ctx(false, true, false, false)),
            ABYSSAL_FISH_ID,
            "淺水不該釣起深海乙太魚（roll {r}）"
        );
    }
    // 深水：深海乙太魚要真的出現過。
    let got_abyssal = (0..2000u64)
        .any(|r| pick_catch_ctx(r, ctx(false, false, true, false)) == ABYSSAL_FISH_ID);
    assert!(got_abyssal, "深水應能釣起深海乙太魚");
}

#[test]
fn snow_deep_water_boosts_abyssal_without_penalty() {
    // 雪原深湖的深海乙太魚該比一般深水更容易釣到（只獎不罰）。
    let plain = (0..6000u64)
        .filter(|&r| pick_catch_ctx(r, ctx(false, false, true, false)) == ABYSSAL_FISH_ID)
        .count();
    let snow = (0..6000u64)
        .filter(|&r| pick_catch_ctx(r, ctx(false, false, true, true)) == ABYSSAL_FISH_ID)
        .count();
    assert!(plain > 0, "一般深水也要釣得到深海乙太魚");
    assert!(snow > plain, "雪原深湖的深海乙太魚該更容易釣到（{snow} > {plain}）");
    // 門檻常數本身也體現「雪原更容易」（模數更小＝機率更高）。
    assert!(ABYSSAL_SNOW_CATCH_MOD < ABYSSAL_CATCH_MOD);
}

#[test]
fn ctx_is_deterministic_and_backward_compatible() {
    // 同一 roll＋ctx 恆得同一結果。
    let c = ctx(true, true, true, true);
    for r in 0..100u64 {
        assert_eq!(pick_catch_ctx(r, c), pick_catch_ctx(r, c));
    }
    // 晴天／白天／淺水／非雪原 → 完全退回既有小魚／乙太魚抽選（向後相容、無回歸）。
    let base = ctx(false, false, false, false);
    for r in 0..300u64 {
        assert_eq!(pick_catch_ctx(r, base), pick_catch_for(r, false));
    }
    // 雨天但淺水白天 → 仍是既有雨天抽選（雨天乙太魚加成，不牽動稀有魚）。
    let rainy = ctx(true, false, false, false);
    for r in 0..300u64 {
        assert_eq!(pick_catch_ctx(r, rainy), pick_catch_for(r, true));
    }
}

#[test]
fn all_four_fish_reachable_and_small_still_common() {
    // 全開情境（雨夜深水雪原）：四種漁獲都要搆得到、且小魚仍是保底大宗。
    let full = ctx(true, true, true, true);
    let mut small = 0;
    let mut aether = 0;
    let mut moon = 0;
    let mut abyssal = 0;
    for r in 0..6000u64 {
        match pick_catch_ctx(r, full) {
            FISH_ID => small += 1,
            AETHER_FISH_ID => aether += 1,
            MOONFISH_ID => moon += 1,
            ABYSSAL_FISH_ID => abyssal += 1,
            other => panic!("非預期漁獲 id {other}"),
        }
    }
    assert!(small > 0 && aether > 0 && moon > 0 && abyssal > 0, "四種漁獲都要出現");
    // 小魚仍是最常見（療癒向：稀有魚是驚喜、不是常態），比每一種稀有魚都多。
    assert!(small > aether, "小魚該比乙太魚常見");
    assert!(small > moon, "小魚該比夜光魚常見");
    assert!(small > abyssal, "小魚該比深海乙太魚常見");
}

#[test]
fn abyssal_is_rarest_in_plain_deep_water() {
    // 一般深水（非雪原、非夜、非雨）：深海乙太魚是最稀有的漁獲——比乙太魚都少。
    // （雪原深湖有加成會反超，故稀有度階梯以「一般深水」為準線衡量。）
    let plain_deep = FishContext { raining: false, night: false, deep: true, snow: false };
    let mut small = 0;
    let mut aether = 0;
    let mut abyssal = 0;
    for r in 0..6000u64 {
        match pick_catch_ctx(r, plain_deep) {
            FISH_ID => small += 1,
            AETHER_FISH_ID => aether += 1,
            ABYSSAL_FISH_ID => abyssal += 1,
            MOONFISH_ID => panic!("白天不該出現夜光魚"),
            other => panic!("非預期漁獲 id {other}"),
        }
    }
    assert!(abyssal > 0, "一般深水也要釣得到深海乙太魚");
    assert!(abyssal < aether, "深海乙太魚該比乙太魚更稀有（{abyssal} < {aether}）");
    assert!(small > aether, "小魚仍是最常見");
}

#[test]
fn rare_catch_lines_are_distinct_and_grounded() {
    // 三種稀有魚的自述／feed 各有專屬語氣、點名漁獲。
    assert!(catch_self_line(ABYSSAL_FISH_ID).contains("深海乙太魚"));
    assert!(catch_self_line(MOONFISH_ID).contains("夜光魚"));
    assert!(catch_self_line(AETHER_FISH_ID).contains("乙太魚"));
    // 稀有魚自述帶「哇」的驚喜感、feed 點名玩家。
    assert!(catch_self_line(ABYSSAL_FISH_ID).contains("哇"));
    assert!(catch_self_line(MOONFISH_ID).contains("哇"));
    let feed_a = catch_feed_line("露米", ABYSSAL_FISH_ID);
    assert!(feed_a.contains("露米") && feed_a.contains("深海乙太魚"));
    let feed_m = catch_feed_line("諾亞", MOONFISH_ID);
    assert!(feed_m.contains("諾亞") && feed_m.contains("夜光魚"));
}


#[test]
fn fishing_exact_values() {
    assert_eq!(bite_secs(12), 3 + 12 % 5);
    assert_eq!(bite_secs_for(7, true), 2 + 7 % 3);
    assert_eq!(catch_self_line(COOKED_FISH_ID), "🎣 收竿！釣起一尾活蹦亂跳的烤魚！");
    assert_eq!(catch_feed_line("露米", 200), "露米 在水邊釣起了一尾漁獲");
    assert_eq!(too_early_hint(), "浮標還穩穩地浮著，別急，再等一會兒…");
    // roll 0 mixes to 0, divisible by every modulus: the rarest fish allowed wins.
    assert_eq!(pick_catch_ctx(0, ctx(false, true, true, false)), ABYSSAL_FISH_ID);
    assert_eq!(pick_catch_ctx(0, ctx(false, true, false, false)), MOONFISH_ID);
    assert_eq!(pick_catch_ctx(0, ctx(false, false, false, false)), AETHER_FISH_ID);
}
