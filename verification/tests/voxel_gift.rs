use voxel_village::voxel_gift::{
    baked_potato_thanks_line, classify_item_desire, cooked_fish_thanks_line,
    food_gift_thanks_line, gift_memory_event, gift_memory_feeling, gift_thanks_line,
    is_food_gift, is_treasure_gift, item_name_zh, item_wish_memory, item_wish_thanks_line,
    jam_thanks_line, stew_thanks_line, treasure_gift_thanks_line, EGG_ID, BOTTLE_ID, GIFT_MEMORY_COUNT,
    JAM_ID,
};

#[test]
fn item_name_known_ids() {
    assert_eq!(item_name_zh(2), "泥土");
    assert_eq!(item_name_zh(3), "石頭");
    assert_eq!(item_name_zh(5), "木頭");
    assert_eq!(item_name_zh(8), "木板");
    assert_eq!(item_name_zh(14), "種子");
    assert_eq!(item_name_zh(20), "煤礦");
    assert_eq!(item_name_zh(21), "鐵礦");
    assert_eq!(item_name_zh(22), "鐵錠");
    assert_eq!(item_name_zh(23), "鐵磚");
    assert_eq!(item_name_zh(31), "火把");
    assert_eq!(item_name_zh(32), "木鎬");
    assert_eq!(item_name_zh(34), "鐵鎬");
    assert_eq!(item_name_zh(35), "梯子");
    assert_eq!(item_name_zh(36), "木斧");
    assert_eq!(item_name_zh(37), "石斧");
    assert_eq!(item_name_zh(38), "鐵斧");
    assert_eq!(item_name_zh(39), "木鏟");
    assert_eq!(item_name_zh(40), "石鏟");
    assert_eq!(item_name_zh(41), "鐵鏟");
}

#[test]
fn item_name_unknown_fallback() {
    assert_eq!(item_name_zh(200), "物品");
    assert_eq!(item_name_zh(0), "物品"); // Air 不送
}

#[test]
fn item_name_berry_and_jam() {
    // 806 漏補的莓果名、808 新增的莓果醬名——不再 fallback 成「物品」。
    assert_eq!(item_name_zh(77), "莓果");
    assert_eq!(item_name_zh(JAM_ID), "莓果醬");
}

#[test]
fn item_name_egg() {
    // 雞舍生蛋 v1：蛋（82）有專屬名，不 fallback 成「物品」。
    assert_eq!(item_name_zh(EGG_ID), "蛋");
}

#[test]
fn item_name_bottle() {
    // 漂流瓶：空玻璃瓶有專屬名，不 fallback 成「物品」。
    assert_eq!(item_name_zh(BOTTLE_ID), "空玻璃瓶");
    assert_eq!(item_name_zh(0), "物品");
    assert_eq!(item_name_zh(200), "物品");
}

#[test]
fn jam_is_food_gift() {
    // 莓果醬是食物禮物（居民給溫暖回應）；生莓果不算「一道菜」但本身可送禮。
    assert!(is_food_gift(JAM_ID), "莓果醬應為食物禮物");
}

#[test]
fn jam_thanks_line_rotates_and_embeds_name() {
    // 陌生 / 訪客：不含名字、非空、無殘留佔位符、提到甜或莓果醬。
    let s = jam_thanks_line("", 0, 0);
    assert!(!s.is_empty());
    assert!(!s.contains("{name}"));
    // 友人：帶名字、輪替。
    let a = jam_thanks_line("露娜", 3, 0);
    let b = jam_thanks_line("露娜", 3, 1);
    assert!(a.contains("露娜") && b.contains("露娜"), "友人句應嵌玩家名");
    assert_ne!(a, b, "相鄰 pick 應輪到不同句");
    assert!(!a.contains("{name}"), "佔位符要被替換：{a}");
}

#[test]
fn gift_thanks_stranger_no_name() {
    // affinity=0 或 player_name 空字串 → 陌生人句池，不含玩家名，非空
    let s = gift_thanks_line("木頭", "", 0, 0);
    assert!(!s.is_empty());
    assert!(s.contains("木頭"));
    assert!(!s.contains("{item}"));
}

#[test]
fn gift_thanks_stranger_with_zero_affinity() {
    let s = gift_thanks_line("石頭", "旅人", 0, 1);
    assert!(!s.is_empty());
    assert!(s.contains("石頭"));
    assert!(!s.contains("{item}"));
    assert!(!s.contains("{name}"));
}

#[test]
fn gift_thanks_acquaintance() {
    let s = gift_thanks_line("木板", "小明", 2, 0);
    assert!(s.contains("小明"));
    assert!(s.contains("木板"));
    assert!(!s.contains("{name}"));
    assert!(!s.contains("{item}"));
}

#[test]
fn gift_thanks_friend() {
    let s = gift_thanks_line("玻璃", "阿星", 5, 2);
    assert!(s.contains("阿星"));
    assert!(s.contains("玻璃"));
    assert!(!s.contains("{name}"));
    assert!(!s.contains("{item}"));
}

#[test]
fn gift_thanks_pick_wraps_and_non_empty() {
    // 句池長度 3；pick 超界 → 取模，永遠回非空
    for pick in 0..10 {
        let s = gift_thanks_line("種子", "旅人", 0, pick);
        assert!(!s.is_empty(), "pick={pick} 回空字串");
    }
}

#[test]
fn gift_memory_event_contains_player_and_item() {
    let s = gift_memory_event("小美", "木頭");
    assert!(s.contains("小美"));
    assert!(s.contains("木頭"));
}

#[test]
fn gift_memory_feeling_contains_player_and_item() {
    let s = gift_memory_feeling("阿宏", "玻璃");
    assert!(s.contains("阿宏"));
    assert!(s.contains("玻璃"));
}

#[test]
fn item_name_wheat_and_bread() {
    assert_eq!(item_name_zh(18), "小麥");
    assert_eq!(item_name_zh(19), "麵包");
}

#[test]
fn is_food_gift_only_bread() {
    assert!(is_food_gift(19));
    assert!(!is_food_gift(18)); // 小麥顆粒不算食物禮物
    assert!(!is_food_gift(5));  // 木頭非食物
    assert!(!is_food_gift(0));  // Air 非食物
}

#[test]
fn item_name_carrot_ids() {
    // 第二種作物 v1：對齊 voxel::Block::CarrotSeeded(46)/CarrotMature(47)
    // + voxel_farm::CARROT_SEEDS_ID(48)/CARROT_ID(49)。
    assert_eq!(item_name_zh(46), "胡蘿蔔幼苗");
    assert_eq!(item_name_zh(47), "成熟胡蘿蔔");
    assert_eq!(item_name_zh(48), "胡蘿蔔種子");
    assert_eq!(item_name_zh(49), "胡蘿蔔");
}

#[test]
fn is_food_gift_includes_carrot() {
    assert!(is_food_gift(49));  // 胡蘿蔔算食物禮物
    assert!(!is_food_gift(48)); // 胡蘿蔔種子不算食物禮物
}

#[test]
fn item_name_potato_ids() {
    // 第三種作物 v1：對齊 voxel::Block::PotatoSeeded(50)/PotatoMature(51)
    // + voxel_farm::POTATO_SEEDS_ID(52)/POTATO_ID(53)。
    assert_eq!(item_name_zh(50), "馬鈴薯幼苗");
    assert_eq!(item_name_zh(51), "成熟馬鈴薯");
    assert_eq!(item_name_zh(52), "馬鈴薯種子");
    assert_eq!(item_name_zh(53), "馬鈴薯");
}

#[test]
fn is_food_gift_includes_potato() {
    assert!(is_food_gift(53));  // 馬鈴薯算食物禮物
    assert!(!is_food_gift(52)); // 馬鈴薯種子不算食物禮物
}

#[test]
fn item_name_and_food_gift_include_fish() {
    // 垂釣 v1（ROADMAP 734）：釣竿(60)/小魚(61)/乙太魚(62)。
    assert_eq!(item_name_zh(60), "釣竿");
    assert_eq!(item_name_zh(61), "小魚");
    assert_eq!(item_name_zh(62), "乙太魚");
    assert!(is_food_gift(61), "小魚算食物禮物");
    assert!(is_food_gift(62), "乙太魚算食物禮物");
    assert!(!is_food_gift(60), "釣竿是工具、非食物");
}

#[test]
fn item_name_and_food_gift_include_cooked_fish() {
    // 烤魚 v1：生魚(61)在熔爐烤成烤魚(63)，是居民最愛的美味贈禮。
    assert_eq!(item_name_zh(63), "烤魚");
    assert!(is_food_gift(63), "烤魚算食物禮物");
}

#[test]
fn cooked_fish_thanks_non_empty_no_placeholders() {
    // 所有好感等級、多個 pick 值，不得有未替換的 {name}/{item}，且都提到「魚」。
    for affinity in [0, 1, 2, 3, 5] {
        for pick in 0..4 {
            let s = cooked_fish_thanks_line("旅人", affinity, pick);
            assert!(!s.is_empty(), "affinity={affinity} pick={pick} 回空");
            assert!(!s.contains("{name}"), "affinity={affinity} pick={pick} 未替換 name");
            assert!(!s.contains("{item}"), "affinity={affinity} pick={pick} 出現 item 佔位");
            assert!(s.contains("魚"), "affinity={affinity} pick={pick} 烤魚道謝該提到魚");
        }
    }
}

#[test]
fn cooked_fish_thanks_friend_contains_name() {
    let s = cooked_fish_thanks_line("小星", 5, 0);
    assert!(s.contains("小星"), "友人等級應含玩家名");
}

#[test]
fn item_name_and_food_gift_include_baked_potato() {
    // 烤地薯 v1：生馬鈴薯(53)在熔爐烤成烤地薯(64)，是居民最愛的美味贈禮。
    assert_eq!(item_name_zh(64), "烤地薯");
    assert!(is_food_gift(64), "烤地薯算食物禮物");
}

#[test]
fn baked_potato_thanks_non_empty_no_placeholders() {
    // 所有好感等級、多個 pick 值，不得有未替換的 {name}/{item}，且都提到「地薯」。
    for affinity in [0, 1, 2, 3, 5] {
        for pick in 0..4 {
            let s = baked_potato_thanks_line("旅人", affinity, pick);
            assert!(!s.is_empty(), "affinity={affinity} pick={pick} 回空");
            assert!(!s.contains("{name}"), "affinity={affinity} pick={pick} 未替換 name");
            assert!(!s.contains("{item}"), "affinity={affinity} pick={pick} 出現 item 佔位");
            assert!(s.contains("薯"), "affinity={affinity} pick={pick} 烤地薯道謝該提到薯");
        }
    }
}

#[test]
fn baked_potato_thanks_friend_contains_name() {
    let s = baked_potato_thanks_line("小星", 5, 0);
    assert!(s.contains("小星"), "友人等級應含玩家名");
}

#[test]
fn item_name_and_food_gift_include_stew() {
    // 野菜暖湯 v1：胡蘿蔔(49)+馬鈴薯(53)+小麥(18) 在工作台煮成暖湯(67)。
    assert_eq!(item_name_zh(67), "野菜暖湯");
    assert!(is_food_gift(67), "野菜暖湯算食物禮物");
}

#[test]
fn stew_thanks_non_empty_no_placeholders() {
    // 所有好感等級、多個 pick 值，不得有未替換的 {name}/{item}，且都提到「湯」。
    for affinity in [0, 1, 2, 3, 5] {
        for pick in 0..4 {
            let s = stew_thanks_line("旅人", affinity, pick);
            assert!(!s.is_empty(), "affinity={affinity} pick={pick} 回空");
            assert!(!s.contains("{name}"), "affinity={affinity} pick={pick} 未替換 name");
            assert!(!s.contains("{item}"), "affinity={affinity} pick={pick} 出現 item 佔位");
            assert!(s.contains("湯"), "affinity={affinity} pick={pick} 暖湯道謝該提到湯");
        }
    }
}

#[test]
fn stew_thanks_friend_contains_name() {
    let s = stew_thanks_line("小星", 5, 0);
    assert!(s.contains("小星"), "友人等級應含玩家名");
}

#[test]
fn stew_thanks_visitor_has_no_name() {
    // 訪客模式（空名）不得洩出佔位或殘留名字語塊
    let s = stew_thanks_line("", 3, 1);
    assert!(!s.is_empty());
    assert!(!s.contains("{name}"), "空名不得殘留佔位符");
}

#[test]
fn food_gift_thanks_non_empty_no_placeholders() {
    // 所有好感等級、多個 pick 值，不得有未替換的 {name}/{item}。
    for affinity in [0, 1, 2, 3, 5] {
        for pick in 0..4 {
            let s = food_gift_thanks_line("旅人", affinity, pick);
            assert!(!s.is_empty(), "affinity={affinity} pick={pick} 回空");
            assert!(!s.contains("{name}"), "affinity={affinity} pick={pick} 未替換 name");
            assert!(!s.contains("{item}"), "affinity={affinity} pick={pick} 出現 item 佔位");
        }
    }
}

#[test]
fn food_gift_thanks_friend_contains_name() {
    let s = food_gift_thanks_line("小星", 5, 0);
    assert!(s.contains("小星"), "友人等級應含玩家名");
}

#[test]
fn is_treasure_gift_only_ice_crystal() {
    assert!(is_treasure_gift(56), "冰晶應為雪原珍寶");
    // 其餘常見禮物都不是珍寶（食物/建材/礦石）。
    for id in [19u8, 49, 53, 8, 9, 10, 20, 21, 54, 55] {
        assert!(!is_treasure_gift(id), "id={id} 不應被判為珍寶");
    }
}

#[test]
fn item_name_ice_crystal() {
    assert_eq!(item_name_zh(56), "冰晶");
    assert_eq!(item_name_zh(54), "仙人掌");
    assert_eq!(item_name_zh(55), "雪");
}

#[test]
fn treasure_gift_thanks_non_empty_no_placeholders() {
    // 所有好感等級、多個 pick、含訪客（空名）都不得留下未替換佔位或回空。
    for name in ["旅人", ""] {
        for affinity in [0, 1, 2, 3, 5] {
            for pick in 0..4 {
                let s = treasure_gift_thanks_line(name, affinity, pick);
                assert!(!s.is_empty(), "name={name} affinity={affinity} pick={pick} 回空");
                assert!(!s.contains("{name}"), "name={name} affinity={affinity} pick={pick} 未替換 name");
                assert!(s.contains("冰晶"), "珍寶道謝應提到冰晶");
            }
        }
    }
}

#[test]
fn treasure_gift_thanks_friend_contains_name() {
    let s = treasure_gift_thanks_line("小星", 5, 0);
    assert!(s.contains("小星"), "友人等級應含玩家名");
}

#[test]
fn treasure_gift_thanks_stranger_no_name_when_empty() {
    // 訪客（空名）不得把空字串塞進句子留下突兀空缺，且不含 {name}。
    let s = treasure_gift_thanks_line("", 0, 1);
    assert!(!s.contains("{name}"), "訪客句不應有佔位");
    assert!(!s.is_empty());
}

#[test]
fn classify_item_desire_matches_known_keywords() {
    assert_eq!(classify_item_desire("好想要一塊麵包"), Some(19));
    assert_eq!(classify_item_desire("要是有玻璃就好了"), Some(10));
    assert_eq!(classify_item_desire("唉，好想要一張木板做的床呀"), Some(8));
    assert_eq!(classify_item_desire("我想要一把鐵鏟"), Some(41));
    assert_eq!(classify_item_desire("真希望有火把"), Some(31));
    assert_eq!(classify_item_desire("我想要馬鈴薯"), Some(53));
}

#[test]
fn classify_item_desire_none_when_no_keyword() {
    assert!(classify_item_desire("我想蓋一座塔").is_none());
    assert!(classify_item_desire("你好呀，今天天氣真好").is_none());
    assert!(classify_item_desire("").is_none());
}

#[test]
fn item_wish_thanks_line_contains_item_and_player_within_limit() {
    for name in ["露娜", "諾娃", "賽勒", "奧瑞"] {
        let s = item_wish_thanks_line(name, "麵包", "旅人");
        assert!(s.contains("麵包"), "{name} 台詞應含物品名: {s}");
        assert!(s.contains("旅人"), "{name} 台詞應含玩家名: {s}");
        assert!(s.chars().count() <= 40, "台詞不超過40字：{}", s.chars().count());
        assert!(!s.contains("{p}") && !s.contains("{i}"), "不應留下未替換的佔位符: {s}");
    }
}

#[test]
fn item_wish_memory_contains_item_name() {
    let s = item_wish_memory("玻璃");
    assert!(s.contains("玻璃"));
}

#[test]
fn gift_memory_count_is_two() {
    assert_eq!(GIFT_MEMORY_COUNT, 2);
}

#[test]
fn gift_lines_exact_text() {
    assert_eq!(gift_thanks_line("木頭", "小明", 0, 4), "這……木頭？我收下了，感謝你。");
    assert_eq!(gift_thanks_line("玻璃", "阿星", 2, 2), "啊，阿星，你送我玻璃～我好開心。");
    assert_eq!(jam_thanks_line("露娜", 9, 5), "{n}！一罐要守著爐火慢慢熬的莓果醬，這是我收過最甜的一份心意，我好幸福。".replace("{n}", "露娜"));
    assert_eq!(treasure_gift_thanks_line("", 5, 2), "這麼閃亮的冰晶……你特地為我從雪原帶回來的嗎？");
    assert_eq!(gift_memory_event("小美", "木頭"), "收到了小美送來的木頭，心裡暖暖的");
    assert_eq!(item_wish_memory("玻璃"), "我一直想要玻璃，你把它送給我了，我的心願成真了。");
    // "AB": bytes 65 + 66 = 131, 131 % 4 = 3.
    assert_eq!(item_wish_thanks_line("AB", "麵包", "旅人"), "我一直盼著麵包，旅人你真的送來了，太謝謝你！");
    // The first table row that occurs wins: 麵包 comes before 玻璃.
    assert_eq!(classify_item_desire("玻璃和麵包"), Some(19));
    assert_eq!(item_name_zh(EGG_ID), "蛋");
    assert_eq!(item_name_zh(68), "乙太煙火");
    assert!(!is_food_gift(77));
}

#[test]
fn constants_sane() {
    // The reach for handing over a gift is a float kept outside the library.
    assert_eq!(GIFT_MEMORY_COUNT, 2);
}

#[test]
fn thanks_lines_name_player_item_and_soup() {
    for pick in 0..6 {
        for affinity in [1usize, 2, 5] {
            assert!(jam_thanks_line("小美", affinity, pick).contains("小美"));
            assert!(stew_thanks_line("小美", affinity, pick).contains("小美"));
            assert!(food_gift_thanks_line("小美", affinity, pick).contains("小美"));
            let g = gift_thanks_line("玻璃", "小美", affinity, pick);
            assert!(g.contains("小美") && g.contains("玻璃"));
        }
        assert!(treasure_gift_thanks_line("小美", 3, pick).contains("小美"));
        assert!(gift_thanks_line("玻璃", "小美", 0, pick).contains("玻璃"));
        for affinity in [0usize, 1, 4] {
            assert!(stew_thanks_line("小美", affinity, pick).contains("湯"));
        }
        assert_eq!(jam_thanks_line("小美", 1, pick), jam_thanks_line("小美", 2, pick + 3));
        assert_eq!(jam_thanks_line("", 4, pick), jam_thanks_line("阿光", 0, pick));
    }
    for resident in ["露娜", "星禾", "阿光", "小雨"] {
        let w = item_wish_thanks_line(resident, "玻璃", "小美");
        assert!(w.contains("小美") && w.contains("玻璃"), "{w}");
    }
}
