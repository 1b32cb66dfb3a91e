//! Gifts: a player hands a resident something gathered or made, and she thanks them,
//! remembers it, and is overjoyed when it is just what she had wished for.

use vstd::prelude::*;
use crate::text::{replace_all, replace_str, seq_contains, str_contains, take_upto, truncate_chars, views, no_char, occurs_at, pat_free, ascii, non_ascii, lemma_fill_frame, lemma_contains_in_tail, lemma_plain_free, lemma_fill_slot, lemma_fill_slots, lemma_fill_slots_swapped};

verus! {

/// How many memories a gift adds (one more than a conversation).
pub const GIFT_MEMORY_COUNT: usize = 2;

/// The berry jam's item id.
pub const JAM_ID: u8 = 78;

/// The egg's item id.
pub const EGG_ID: u8 = 82;

/// The empty glass bottle's item id (a bottle is crafted, then thrown into water with a note).
pub const BOTTLE_ID: u8 = 83;

/// The name of an item by its id ("物品" for an id with no name).
pub open spec fn item_name(id: u8) -> Seq<char> {
    match id {
        1 => "草"@,
        2 => "泥土"@,
        3 => "石頭"@,
        4 => "沙"@,
        5 => "木頭"@,
        6 => "葉片"@,
        7 => "水"@,
        8 => "木板"@,
        9 => "石磚"@,
        10 => "玻璃"@,
        11 => "農田土"@,
        12 => "幼苗"@,
        13 => "成熟小麥"@,
        14 => "種子"@,
        18 => "小麥"@,
        19 => "麵包"@,
        20 => "煤礦"@,
        21 => "鐵礦"@,
        22 => "鐵錠"@,
        23 => "鐵磚"@,
        31 => "火把"@,
        32 => "木鎬"@,
        33 => "石鎬"@,
        34 => "鐵鎬"@,
        35 => "梯子"@,
        36 => "木斧"@,
        37 => "石斧"@,
        38 => "鐵斧"@,
        39 => "木鏟"@,
        40 => "石鏟"@,
        41 => "鐵鏟"@,
        42 => "箱子"@,
        43 => "木門"@,
        46 => "胡蘿蔔幼苗"@,
        47 => "成熟胡蘿蔔"@,
        48 => "胡蘿蔔種子"@,
        49 => "胡蘿蔔"@,
        50 => "馬鈴薯幼苗"@,
        51 => "成熟馬鈴薯"@,
        52 => "馬鈴薯種子"@,
        53 => "馬鈴薯"@,
        54 => "仙人掌"@,
        55 => "雪"@,
        56 => "冰晶"@,
        57 => "冰晶燈"@,
        58 => "乙太礦"@,
        59 => "乙太燈"@,
        60 => "釣竿"@,
        61 => "小魚"@,
        62 => "乙太魚"@,
        63 => "烤魚"@,
        64 => "烤地薯"@,
        65 => "樹苗"@,
        67 => "野菜暖湯"@,
        68 => "乙太煙火"@,
        77 => "莓果"@,
        78 => "莓果醬"@,
        82 => "蛋"@,
        83 => "空玻璃瓶"@,
        _ => "物品"@,
    }
}

/// The name of an item by its id.
pub fn item_name_zh(block_id: u8) -> (r: &'static str)
    ensures
        r@ == item_name(block_id),
{
    match block_id {
        1 => "草",
        2 => "泥土",
        3 => "石頭",
        4 => "沙",
        5 => "木頭",
        6 => "葉片",
        7 => "水",
        8 => "木板",
        9 => "石磚",
        10 => "玻璃",
        11 => "農田土",
        12 => "幼苗",
        13 => "成熟小麥",
        14 => "種子",
        18 => "小麥",
        19 => "麵包",
        20 => "煤礦",
        21 => "鐵礦",
        22 => "鐵錠",
        23 => "鐵磚",
        31 => "火把",
        32 => "木鎬",
        33 => "石鎬",
        34 => "鐵鎬",
        35 => "梯子",
        36 => "木斧",
        37 => "石斧",
        38 => "鐵斧",
        39 => "木鏟",
        40 => "石鏟",
        41 => "鐵鏟",
        42 => "箱子",
        43 => "木門",
        46 => "胡蘿蔔幼苗",
        47 => "成熟胡蘿蔔",
        48 => "胡蘿蔔種子",
        49 => "胡蘿蔔",
        50 => "馬鈴薯幼苗",
        51 => "成熟馬鈴薯",
        52 => "馬鈴薯種子",
        53 => "馬鈴薯",
        54 => "仙人掌",
        55 => "雪",
        56 => "冰晶",
        57 => "冰晶燈",
        58 => "乙太礦",
        59 => "乙太燈",
        60 => "釣竿",
        61 => "小魚",
        62 => "乙太魚",
        63 => "烤魚",
        64 => "烤地薯",
        65 => "樹苗",
        67 => "野菜暖湯",
        68 => "乙太煙火",
        77 => "莓果",
        78 => "莓果醬",
        EGG_ID => "蛋",
        BOTTLE_ID => "空玻璃瓶",
        _ => "物品",
    }
}

/// Whether a gift is a treasure of the snowfields (only the ice crystal, id 56).
pub fn is_treasure_gift(block_id: u8) -> (b: bool)
    ensures
        b == (block_id == 56),
{
    block_id == 56
}

/// The thanks for an ice crystal: for strangers and guests, and for players she knows.
pub open spec fn treasure_pools() -> Seq<Seq<Seq<char>>> {
    seq![
        seq!["哇……這是雪原的冰晶嗎？好美，謝謝你！"@, "冰晶！我聽說過這種寶物，卻是第一次親眼看到，謝謝你。"@, "這麼閃亮的冰晶……你特地為我從雪原帶回來的嗎？"@],
        seq!["{name}！你竟然為我跑到雪原採了冰晶……我會一輩子珍藏它。"@, "{name}，這冰晶在陽光下閃著寒光，好珍貴——謝謝你想著我。"@, "能收到{name}帶回來的雪原冰晶，我覺得自己是最幸福的人。"@],
    ]
}

/// The thanks for an ice crystal: a guest line (`pick % 3`) when she does not know the
/// player or the name is empty, else a line with {name} filled in.
pub open spec fn treasure_thanks(player: Seq<char>, affinity: usize, pick: usize) -> Seq<char> {
    if affinity == 0 || player.len() == 0 {
        treasure_pools()[0][(pick % 3) as int]
    } else {
        replace_all(treasure_pools()[1][(pick % 3) as int], "{name}"@, player)
    }
}

/// A resident's thanks for an ice crystal: a guest line (`pick % 3`) when she does not know
/// the player or the name is empty, else a line naming the player.
pub fn treasure_gift_thanks_line(player_name: &str, affinity: usize, pick: usize) -> (r: String)
    ensures
        r@ == treasure_thanks(player_name@, affinity, pick),
{
    let stranger: [&str; 3] = ["哇……這是雪原的冰晶嗎？好美，謝謝你！", "冰晶！我聽說過這種寶物，卻是第一次親眼看到，謝謝你。", "這麼閃亮的冰晶……你特地為我從雪原帶回來的嗎？"];
    let named: [&str; 3] = ["{name}！你竟然為我跑到雪原採了冰晶……我會一輩子珍藏它。", "{name}，這冰晶在陽光下閃著寒光，好珍貴——謝謝你想著我。", "能收到{name}帶回來的雪原冰晶，我覺得自己是最幸福的人。"];
    proof {
        assert(views(stranger@) =~= treasure_pools()[0]);
        assert(views(named@) =~= treasure_pools()[1]);
        assert(seq![views(stranger@), views(named@)] =~= treasure_pools());
        assert(views(stranger@)[(pick % 3) as int] == stranger@[(pick % 3) as int]@);
        assert(views(named@)[(pick % 3) as int] == named@[(pick % 3) as int]@);
        reveal_strlit("{name}");
    }
    if affinity == 0 || player_name.unicode_len() == 0 {
        String::from_str(stranger[pick % 3])
    } else {
        replace_str(named[pick % 3], "{name}", player_name)
    }
}

/// The food gifts: bread, carrot, potato, small fish, aether fish, grilled fish, baked
/// potato, vegetable stew and berry jam.
pub open spec fn food_gift(id: u8) -> bool {
    id == 19 || id == 49 || id == 53 || id == 61 || id == 62 || id == 63 || id == 64 || id == 67
        || id == JAM_ID
}

/// Whether a gift is food, which residents thank for most warmly.
pub fn is_food_gift(block_id: u8) -> (b: bool)
    ensures
        b == food_gift(block_id),
{
    block_id == 19 || block_id == 49 || block_id == 53 || block_id == 61 || block_id == 62
        || block_id == 63 || block_id == 64 || block_id == 67 || block_id == JAM_ID
}

/// How well a resident knows the player: 0 for a stranger or a guest without a name, 1 for
/// an acquaintance (one or two memories), 2 for a friend.
pub open spec fn thanks_tier(player: Seq<char>, affinity: usize) -> int {
    if affinity == 0 || player.len() == 0 {
        0
    } else if affinity <= 2 {
        1
    } else {
        2
    }
}

/// A thanks from three tiers of three lines: line `pick % 3` of the tier, with {name}
/// filled in for acquaintances and friends.
pub open spec fn tiered_thanks(pools: Seq<Seq<Seq<char>>>, player: Seq<char>, affinity: usize, pick: usize) -> Seq<char> {
    let t = thanks_tier(player, affinity);
    let line = pools[t][(pick % 3) as int];
    if t == 0 {
        line
    } else {
        replace_all(line, "{name}"@, player)
    }
}

fn tiered_line(
    stranger: [&str; 3],
    known: [&str; 3],
    friend: [&str; 3],
    player_name: &str,
    affinity: usize,
    pick: usize,
) -> (r: String)
    ensures
        r@ == tiered_thanks(seq![views(stranger@), views(known@), views(friend@)], player_name@, affinity, pick),
{
    let ghost pools = seq![views(stranger@), views(known@), views(friend@)];
    proof {
        reveal_strlit("{name}");
        assert(pools[0][(pick % 3) as int] == stranger@[(pick % 3) as int]@);
        assert(pools[1][(pick % 3) as int] == known@[(pick % 3) as int]@);
        assert(pools[2][(pick % 3) as int] == friend@[(pick % 3) as int]@);
    }
    if affinity == 0 || player_name.unicode_len() == 0 {
        String::from_str(stranger[pick % 3])
    } else if affinity <= 2 {
        replace_str(known[pick % 3], "{name}", player_name)
    } else {
        replace_str(friend[pick % 3], "{name}", player_name)
    }
}

/// The thanks for berry jam (the sweets a resident is delighted by): strangers, acquaintances, friends.
pub open spec fn jam_pools() -> Seq<Seq<Seq<char>>> {
    seq![
        seq!["哇……甜甜的莓果醬！我從沒嚐過這麼甜的東西，謝謝你！"@, "這是莓果熬的醬嗎？光聞就好甜，我的心都要融化了，謝謝你。"@, "莓果醬耶！甜滋滋的，你是特地熬給我的嗎？我好開心。"@],
        seq!["{name}，你把莓果熬成了甜甜的醬帶給我！我要小口小口地捨不得吃完，謝謝你。"@, "{name}！一罐甜滋滋的莓果醬，這份甜我一嚐就記住了，謝謝你想著我。"@, "哇，{name}親手熬的莓果醬！甜得像小時候的糖，我開心得不得了。"@],
        seq!["{name}，你從莓園採了莓果、又慢慢熬成這罐甜醬……這份甜我會一直記在心上，謝謝你。"@, "每次{name}來都帶著甜意——這回是你親手熬的莓果醬，甜到我心底最軟的地方，謝謝你。"@, "{name}！一罐要守著爐火慢慢熬的莓果醬，這是我收過最甜的一份心意，我好幸福。"@],
    ]
}

/// A resident's thanks for berry jam, by how well she knows the player.
pub fn jam_thanks_line(player_name: &str, affinity: usize, pick: usize) -> (r: String)
    ensures
        r@ == tiered_thanks(jam_pools(), player_name@, affinity, pick),
{
    let stranger: [&str; 3] = ["哇……甜甜的莓果醬！我從沒嚐過這麼甜的東西，謝謝你！", "這是莓果熬的醬嗎？光聞就好甜，我的心都要融化了，謝謝你。", "莓果醬耶！甜滋滋的，你是特地熬給我的嗎？我好開心。"];
    let known: [&str; 3] = ["{name}，你把莓果熬成了甜甜的醬帶給我！我要小口小口地捨不得吃完，謝謝你。", "{name}！一罐甜滋滋的莓果醬，這份甜我一嚐就記住了，謝謝你想著我。", "哇，{name}親手熬的莓果醬！甜得像小時候的糖，我開心得不得了。"];
    let friend: [&str; 3] = ["{name}，你從莓園採了莓果、又慢慢熬成這罐甜醬……這份甜我會一直記在心上，謝謝你。", "每次{name}來都帶著甜意——這回是你親手熬的莓果醬，甜到我心底最軟的地方，謝謝你。", "{name}！一罐要守著爐火慢慢熬的莓果醬，這是我收過最甜的一份心意，我好幸福。"];
    proof {
        assert(views(stranger@) =~= jam_pools()[0]);
        assert(views(known@) =~= jam_pools()[1]);
        assert(views(friend@) =~= jam_pools()[2]);
        assert(seq![views(stranger@), views(known@), views(friend@)] =~= jam_pools());
    }
    tiered_line(stranger, known, friend, player_name, affinity, pick)
}

/// The thanks for grilled fish (a fish the player caught and grilled): strangers, acquaintances, friends.
pub open spec fn cooked_fish_pools() -> Seq<Seq<Seq<char>>> {
    seq![
        seq!["哇……是烤魚嗎？好香！你特地烤給我的？謝謝你！"@, "熱騰騰的烤魚！我從沒吃過這麼香的，謝謝你！"@, "烤魚耶！你連釣帶烤都是為了我嗎？我好感動。"@],
        seq!["{name}，你把釣來的魚烤好帶給我了！香氣一路飄過來，謝謝你。"@, "{name}！這烤魚外酥內嫩，你的手藝好棒，我要慢慢享用。"@, "哇，{name}親手烤的魚！我一聞到就餓了，謝謝你這麼用心。"@],
        seq!["{name}，你總是記得我最愛吃魚……這尾烤魚我會細細品嚐，謝謝你。"@, "每次{name}來都帶著暖意——這次是你親手烤的魚，我真的好幸福。"@, "{name}！從水邊釣起、在爐上烤熟的一尾魚，這份心意我都收下了，謝謝你。"@],
    ]
}

/// A resident's thanks for grilled fish, by how well she knows the player.
pub fn cooked_fish_thanks_line(player_name: &str, affinity: usize, pick: usize) -> (r: String)
    ensures
        r@ == tiered_thanks(cooked_fish_pools(), player_name@, affinity, pick),
{
    let stranger: [&str; 3] = ["哇……是烤魚嗎？好香！你特地烤給我的？謝謝你！", "熱騰騰的烤魚！我從沒吃過這麼香的，謝謝你！", "烤魚耶！你連釣帶烤都是為了我嗎？我好感動。"];
    let known: [&str; 3] = ["{name}，你把釣來的魚烤好帶給我了！香氣一路飄過來，謝謝你。", "{name}！這烤魚外酥內嫩，你的手藝好棒，我要慢慢享用。", "哇，{name}親手烤的魚！我一聞到就餓了，謝謝你這麼用心。"];
    let friend: [&str; 3] = ["{name}，你總是記得我最愛吃魚……這尾烤魚我會細細品嚐，謝謝你。", "每次{name}來都帶著暖意——這次是你親手烤的魚，我真的好幸福。", "{name}！從水邊釣起、在爐上烤熟的一尾魚，這份心意我都收下了，謝謝你。"];
    proof {
        assert(views(stranger@) =~= cooked_fish_pools()[0]);
        assert(views(known@) =~= cooked_fish_pools()[1]);
        assert(views(friend@) =~= cooked_fish_pools()[2]);
        assert(seq![views(stranger@), views(known@), views(friend@)] =~= cooked_fish_pools());
    }
    tiered_line(stranger, known, friend, player_name, affinity, pick)
}

/// The thanks for baked potato (a potato the player grew and baked): strangers, acquaintances, friends.
pub open spec fn baked_potato_pools() -> Seq<Seq<Seq<char>>> {
    seq![
        seq!["哇……是烤地薯嗎？好香！你特地烤給我的？謝謝你！"@, "熱騰騰的烤地薯！剝開來鬆軟冒煙，我從沒吃過這麼香的，謝謝你！"@, "烤地薯耶！你連種帶烤都是為了我嗎？我好感動。"@],
        seq!["{name}，你把自己種的馬鈴薯烤好帶給我了！香氣一路飄過來，謝謝你。"@, "{name}！這烤地薯外皮焦香、裡頭鬆軟，你的手藝好棒，我要慢慢享用。"@, "哇，{name}親手烤的地薯！我一聞到就餓了，謝謝你這麼用心。"@],
        seq!["{name}，你總是記得我愛吃暖呼呼的東西……這顆烤地薯我會細細品嚐，謝謝你。"@, "每次{name}來都帶著暖意——這次是你親手種、親手烤的地薯，我真的好幸福。"@, "{name}！從田裡挖起、在爐上烤熟的一顆地薯，這份心意我都收下了，謝謝你。"@],
    ]
}

/// A resident's thanks for baked potato, by how well she knows the player.
pub fn baked_potato_thanks_line(player_name: &str, affinity: usize, pick: usize) -> (r: String)
    ensures
        r@ == tiered_thanks(baked_potato_pools(), player_name@, affinity, pick),
{
    let stranger: [&str; 3] = ["哇……是烤地薯嗎？好香！你特地烤給我的？謝謝你！", "熱騰騰的烤地薯！剝開來鬆軟冒煙，我從沒吃過這麼香的，謝謝你！", "烤地薯耶！你連種帶烤都是為了我嗎？我好感動。"];
    let known: [&str; 3] = ["{name}，你把自己種的馬鈴薯烤好帶給我了！香氣一路飄過來，謝謝你。", "{name}！這烤地薯外皮焦香、裡頭鬆軟，你的手藝好棒，我要慢慢享用。", "哇，{name}親手烤的地薯！我一聞到就餓了，謝謝你這麼用心。"];
    let friend: [&str; 3] = ["{name}，你總是記得我愛吃暖呼呼的東西……這顆烤地薯我會細細品嚐，謝謝你。", "每次{name}來都帶著暖意——這次是你親手種、親手烤的地薯，我真的好幸福。", "{name}！從田裡挖起、在爐上烤熟的一顆地薯，這份心意我都收下了，謝謝你。"];
    proof {
        assert(views(stranger@) =~= baked_potato_pools()[0]);
        assert(views(known@) =~= baked_potato_pools()[1]);
        assert(views(friend@) =~= baked_potato_pools()[2]);
        assert(seq![views(stranger@), views(known@), views(friend@)] =~= baked_potato_pools());
    }
    tiered_line(stranger, known, friend, player_name, affinity, pick)
}

/// The thanks for vegetable stew (a stew of three crops the player grew): strangers, acquaintances, friends.
pub open spec fn stew_pools() -> Seq<Seq<Seq<char>>> {
    seq![
        seq!["哇……這是一整鍋暖湯嗎？聞起來好豐盛！你煮給我的？謝謝你！"@, "熱騰騰的野菜湯！要湊齊這麼多種菜才煮得成吧，我好感動。"@, "野菜暖湯耶！你連種帶煮都是為了我嗎？我心裡都暖起來了。"@],
        seq!["{name}，你把自己種的菜煮成一鍋湯帶給我了！熱氣一路暖到我手心，謝謝你。"@, "{name}！這鍋暖湯又香又飽足，湊齊這麼多種菜真不容易，我要一口一口慢慢喝。"@, "哇，{name}親手煮的野菜湯！我一聞就餓了，這份心思我都嚐得出來，謝謝你。"@],
        seq!["{name}，你把胡蘿蔔、馬鈴薯、小麥全種出來、再煮成這一鍋湯……這份心意我會記一輩子，謝謝你。"@, "每次{name}來都帶著暖意——這回是你從田裡一樣樣種齊、親手煮的一鍋湯，我真的好幸福。"@, "{name}！一鍋要湊齊三種收成才煮得成的暖湯，這是我收過最暖的一份心意，謝謝你。"@],
    ]
}

/// A resident's thanks for vegetable stew, by how well she knows the player.
pub fn stew_thanks_line(player_name: &str, affinity: usize, pick: usize) -> (r: String)
    ensures
        r@ == tiered_thanks(stew_pools(), player_name@, affinity, pick),
{
    let stranger: [&str; 3] = ["哇……這是一整鍋暖湯嗎？聞起來好豐盛！你煮給我的？謝謝你！", "熱騰騰的野菜湯！要湊齊這麼多種菜才煮得成吧，我好感動。", "野菜暖湯耶！你連種帶煮都是為了我嗎？我心裡都暖起來了。"];
    let known: [&str; 3] = ["{name}，你把自己種的菜煮成一鍋湯帶給我了！熱氣一路暖到我手心，謝謝你。", "{name}！這鍋暖湯又香又飽足，湊齊這麼多種菜真不容易，我要一口一口慢慢喝。", "哇，{name}親手煮的野菜湯！我一聞就餓了，這份心思我都嚐得出來，謝謝你。"];
    let friend: [&str; 3] = ["{name}，你把胡蘿蔔、馬鈴薯、小麥全種出來、再煮成這一鍋湯……這份心意我會記一輩子，謝謝你。", "每次{name}來都帶著暖意——這回是你從田裡一樣樣種齊、親手煮的一鍋湯，我真的好幸福。", "{name}！一鍋要湊齊三種收成才煮得成的暖湯，這是我收過最暖的一份心意，謝謝你。"];
    proof {
        assert(views(stranger@) =~= stew_pools()[0]);
        assert(views(known@) =~= stew_pools()[1]);
        assert(views(friend@) =~= stew_pools()[2]);
        assert(seq![views(stranger@), views(known@), views(friend@)] =~= stew_pools());
    }
    tiered_line(stranger, known, friend, player_name, affinity, pick)
}

/// The thanks for bread (food in general): strangers, acquaintances, friends.
pub open spec fn food_gift_pools() -> Seq<Seq<Seq<char>>> {
    seq![
        seq!["哦……麵包？你親手做的嗎？謝謝你！"@, "哇，麵包！你怎麼知道我最喜歡吃麵包了！"@, "麵包耶！謝謝你帶來這麼用心的禮物。"@],
        seq!["{name}，你帶麵包來給我！謝謝你這麼用心。"@, "{name}！自己做的麵包！聞起來好香，謝謝你。"@, "哇，{name}你烤了麵包！我好感動，謝謝。"@],
        seq!["{name}，你知道我喜歡吃東西對吧……這塊麵包我要慢慢品嚐。"@, "每次{name}來都帶著驚喜——這次是麵包！謝謝你記得我。"@, "{name}！你親手做的麵包……我真的很珍惜和你在一起的每一刻。"@],
    ]
}

/// A resident's thanks for bread, by how well she knows the player.
pub fn food_gift_thanks_line(player_name: &str, affinity: usize, pick: usize) -> (r: String)
    ensures
        r@ == tiered_thanks(food_gift_pools(), player_name@, affinity, pick),
{
    let stranger: [&str; 3] = ["哦……麵包？你親手做的嗎？謝謝你！", "哇，麵包！你怎麼知道我最喜歡吃麵包了！", "麵包耶！謝謝你帶來這麼用心的禮物。"];
    let known: [&str; 3] = ["{name}，你帶麵包來給我！謝謝你這麼用心。", "{name}！自己做的麵包！聞起來好香，謝謝你。", "哇，{name}你烤了麵包！我好感動，謝謝。"];
    let friend: [&str; 3] = ["{name}，你知道我喜歡吃東西對吧……這塊麵包我要慢慢品嚐。", "每次{name}來都帶著驚喜——這次是麵包！謝謝你記得我。", "{name}！你親手做的麵包……我真的很珍惜和你在一起的每一刻。"];
    proof {
        assert(views(stranger@) =~= food_gift_pools()[0]);
        assert(views(known@) =~= food_gift_pools()[1]);
        assert(views(friend@) =~= food_gift_pools()[2]);
        assert(seq![views(stranger@), views(known@), views(friend@)] =~= food_gift_pools());
    }
    tiered_line(stranger, known, friend, player_name, affinity, pick)
}


/// The thanks for any gift: strangers, acquaintances, friends; {item} for the gift.
pub open spec fn gift_pools() -> Seq<Seq<Seq<char>>> {
    seq![
        seq!["哦？送我{item}？謝謝你的心意！"@, "這……{item}？我收下了，感謝你。"@, "謝謝！你送我{item}，我很高興。"@],
        seq!["{name}，謝謝你帶來{item}！"@, "{name}！這份{item}我很喜歡，謝謝你。"@, "啊，{name}，你送我{item}～我好開心。"@],
        seq!["{name}，你總是這樣照顧我……這份{item}我會好好珍藏。"@, "能有{name}這樣的朋友，我很幸運。謝謝這份{item}。"@, "{name}！每次你來都帶著心意……這份{item}讓我很感動。"@],
    ]
}

/// The thanks for a gift: the tier's line `pick % 3` with the player's name (for
/// acquaintances and friends) and then the item filled in.
pub open spec fn gift_words(item: Seq<char>, player: Seq<char>, affinity: usize, pick: usize) -> Seq<char> {
    replace_all(tiered_thanks(gift_pools(), player, affinity, pick), "{item}"@, item)
}

/// A resident's thanks for a gift by how well she knows the player: the tier's line
/// `pick % 3` with the player's name (for acquaintances and friends) and then the item filled in.
pub fn gift_thanks_line(item_name: &str, player_name: &str, affinity: usize, pick: usize) -> (r: String)
    ensures
        r@ == gift_words(item_name@, player_name@, affinity, pick),
{
    let stranger: [&str; 3] = ["哦？送我{item}？謝謝你的心意！", "這……{item}？我收下了，感謝你。", "謝謝！你送我{item}，我很高興。"];
    let known: [&str; 3] = ["{name}，謝謝你帶來{item}！", "{name}！這份{item}我很喜歡，謝謝你。", "啊，{name}，你送我{item}～我好開心。"];
    let friend: [&str; 3] = ["{name}，你總是這樣照顧我……這份{item}我會好好珍藏。", "能有{name}這樣的朋友，我很幸運。謝謝這份{item}。", "{name}！每次你來都帶著心意……這份{item}讓我很感動。"];
    proof {
        assert(views(stranger@) =~= gift_pools()[0]);
        assert(views(known@) =~= gift_pools()[1]);
        assert(views(friend@) =~= gift_pools()[2]);
        assert(seq![views(stranger@), views(known@), views(friend@)] =~= gift_pools());
        reveal_strlit("{item}");
    }
    let line = tiered_line(stranger, known, friend, player_name, affinity, pick);
    replace_str(line.as_str(), "{item}", item_name)
}

/// The resident's first memory of a gift: the event.
pub fn gift_memory_event(player: &str, item_name: &str) -> (r: String)
    ensures
        r@ == "收到了"@ + player@ + "送來的"@ + item_name@ + "，心裡暖暖的"@,
{
    let mut s = String::from_str("收到了");
    s.append(player);
    s.append("送來的");
    s.append(item_name);
    s.append("，心裡暖暖的");
    s
}

/// The resident's second memory of a gift: the feeling it left.
pub fn gift_memory_feeling(player: &str, item_name: &str) -> (r: String)
    ensures
        r@ == player@ + "送我"@ + item_name@ + "——這個人很體貼"@,
{
    let mut s = String::from_str(player);
    s.append("送我");
    s.append(item_name);
    s.append("——這個人很體貼");
    s
}

/// The item words a wish may name, in table order.
pub open spec fn wish_words() -> Seq<Seq<char>> {
    seq!["麵包"@, "鐵鏟"@, "鏟子"@, "鐵斧"@, "斧頭"@, "鐵鎬"@, "鎬子"@, "鐵錠"@, "鐵磚"@, "玻璃"@, "火把"@, "梯子"@, "箱子"@, "木門"@, "木板"@, "石磚"@, "胡蘿蔔"@, "馬鈴薯"@, "小麥"@]
}

/// The item id of each wish word, in table order.
pub open spec fn wish_ids() -> Seq<u8> {
    seq![19u8, 41u8, 41u8, 38u8, 38u8, 34u8, 34u8, 22u8, 23u8, 10u8, 31u8, 35u8, 42u8, 43u8, 8u8, 9u8, 49u8, 53u8, 18u8]
}

/// The item of the first table row, from row `i` on, whose word occurs in `desire`.
pub open spec fn wished_item_from(desire: Seq<char>, i: int) -> Option<u8>
    decreases 19 - i,
{
    if i < 0 || i >= 19 {
        None
    } else if seq_contains(desire, wish_words()[i]) {
        Some(wish_ids()[i])
    } else {
        wished_item_from(desire, i + 1)
    }
}

/// The item a wish asks for, if it names one (the first table row whose word occurs).
pub fn classify_item_desire(desire: &str) -> (r: Option<u8>)
    ensures
        r == wished_item_from(desire@, 0),
{
    let words: [&str; 19] = ["麵包", "鐵鏟", "鏟子", "鐵斧", "斧頭", "鐵鎬", "鎬子", "鐵錠", "鐵磚", "玻璃", "火把", "梯子", "箱子", "木門", "木板", "石磚", "胡蘿蔔", "馬鈴薯", "小麥"];
    let ids: [u8; 19] = [19, 41, 41, 38, 38, 34, 34, 22, 23, 10, 31, 35, 42, 43, 8, 9, 49, 53, 18];
    proof {
        assert(views(words@) =~= wish_words());
        assert(ids@ =~= wish_ids());
    }
    let mut i: usize = 0;
    while i < 19
        invariant
            i <= 19,
            views(words@) == wish_words(),
            ids@ == wish_ids(),
            wished_item_from(desire@, 0) == wished_item_from(desire@, i as int),
        decreases 19 - i,
    {
        assert(views(words@)[i as int] == words@[i as int]@);
        if str_contains(desire, words[i]) {
            return Some(ids[i]);
        }
        i = i + 1;
    }
    None
}

/// The sum of a byte sequence.
pub open spec fn byte_sum(b: Seq<u8>) -> nat
    decreases b.len(),
{
    if b.len() == 0 {
        0
    } else {
        byte_sum(b.drop_last()) + b.last() as nat
    }
}

/// The four thanks for a wish come true, with {p} for the player and {i} for the item.
pub open spec fn wish_frames() -> Seq<Seq<char>> {
    seq![
        "{p}！這正是我一直想要的{i}，你怎麼知道！"@,
        "{p}，我的心願成真了——謝謝你的{i}！"@,
        "{i}！{p}，你把我念念不忘的東西帶來了！"@,
        "我一直盼著{i}，{p}你真的送來了，太謝謝你！"@,
    ]
}

/// A resident's thanks when a gift is just what she wished for: the frame chosen by the
/// sum of her name's UTF-8 bytes modulo four, with {p} and then {i} filled in, cut to 40
/// characters.
pub fn item_wish_thanks_line(resident_name: &str, item_name: &str, player_name: &str) -> (r: String)
    ensures
        r@ == take_upto(
            replace_all(
                replace_all(wish_frames()[(byte_sum(vstd::utf8::encode_utf8(resident_name@)) % 4) as int], "{p}"@, player_name@),
                "{i}"@,
                item_name@,
            ),
            40,
        ),
{
    let bytes = resident_name.as_bytes();
    let mut idx: usize = 0;
    let mut k: usize = 0;
    while k < bytes.len()
        invariant
            k <= bytes.len(),
            bytes@ == vstd::utf8::encode_utf8(resident_name@),
            idx == byte_sum(bytes@.subrange(0, k as int)) % 4,
        decreases bytes.len() - k,
    {
        proof {
            assert(bytes@.subrange(0, k + 1).drop_last() =~= bytes@.subrange(0, k as int));
        }
        idx = (idx + (bytes[k] as usize) % 4) % 4;
        k = k + 1;
    }
    proof {
        assert(bytes@.subrange(0, bytes.len() as int) =~= bytes@);
    }
    let frames: [&str; 4] = [
        "{p}！這正是我一直想要的{i}，你怎麼知道！",
        "{p}，我的心願成真了——謝謝你的{i}！",
        "{i}！{p}，你把我念念不忘的東西帶來了！",
        "我一直盼著{i}，{p}你真的送來了，太謝謝你！",
    ];
    proof {
        assert(views(frames@) =~= wish_frames());
        assert(views(frames@)[idx as int] == frames@[idx as int]@);
        reveal_strlit("{p}");
        reveal_strlit("{i}");
    }
    let a = replace_str(frames[idx], "{p}", player_name);
    let b = replace_str(a.as_str(), "{i}", item_name);
    truncate_chars(b.as_str(), 40)
}

/// The resident's memory of a wish come true.
pub fn item_wish_memory(item_name: &str) -> (r: String)
    ensures
        r@ == "我一直想要"@ + item_name@ + "，你把它送給我了，我的心願成真了。"@,
{
    crate::text::cat3("我一直想要", item_name, "，你把它送給我了，我的心願成真了。")
}


/// Law: a tiered thanks depends only on the tier and on `pick % 3`; a stranger's line does
/// not depend on the player at all.
pub proof fn lemma_tiered_choice(
    pools: Seq<Seq<Seq<char>>>,
    p1: Seq<char>,
    p2: Seq<char>,
    a1: usize,
    a2: usize,
    k1: usize,
    k2: usize,
)
    requires
        k1 % 3 == k2 % 3,
    ensures
        thanks_tier(p1, a1) == thanks_tier(p1, a2) ==> tiered_thanks(pools, p1, a1, k1) == tiered_thanks(pools, p1, a2, k2),
        thanks_tier(p1, a1) == 0 && thanks_tier(p2, a2) == 0 ==> tiered_thanks(pools, p1, a1, k1) == tiered_thanks(pools, p2, a2, k2),
{
}

/// Law: every stew thanks mentions the soup (湯), whoever the player is.
pub proof fn lemma_stew_thanks_mentions_soup(player: Seq<char>, affinity: usize, pick: usize)
    ensures
        seq_contains(tiered_thanks(stew_pools(), player, affinity, pick), "湯"@),
{
    reveal_strlit("{name}");
    reveal_strlit("湯");
    let t = thanks_tier(player, affinity);
    let k = (pick % 3) as int;
    if t == 0 && k == 0 {
        reveal_strlit("哇……這是一整鍋暖湯嗎？聞起來好豐盛！你煮給我的？謝謝你！");
        assert("哇……這是一整鍋暖湯嗎？聞起來好豐盛！你煮給我的？謝謝你！"@.subrange(9, 10) =~= "湯"@);
        assert(occurs_at("哇……這是一整鍋暖湯嗎？聞起來好豐盛！你煮給我的？謝謝你！"@, "湯"@, 9));
    } else if t == 0 && k == 1 {
        reveal_strlit("熱騰騰的野菜湯！要湊齊這麼多種菜才煮得成吧，我好感動。");
        assert("熱騰騰的野菜湯！要湊齊這麼多種菜才煮得成吧，我好感動。"@.subrange(6, 7) =~= "湯"@);
        assert(occurs_at("熱騰騰的野菜湯！要湊齊這麼多種菜才煮得成吧，我好感動。"@, "湯"@, 6));
    } else if t == 0 && k == 2 {
        reveal_strlit("野菜暖湯耶！你連種帶煮都是為了我嗎？我心裡都暖起來了。");
        assert("野菜暖湯耶！你連種帶煮都是為了我嗎？我心裡都暖起來了。"@.subrange(3, 4) =~= "湯"@);
        assert(occurs_at("野菜暖湯耶！你連種帶煮都是為了我嗎？我心裡都暖起來了。"@, "湯"@, 3));
    } else if t == 1 && k == 0 {
        reveal_strlit("{name}，你把自己種的菜煮成一鍋湯帶給我了！熱氣一路暖到我手心，謝謝你。");
        reveal_strlit("");
        reveal_strlit("，你把自己種的菜煮成一鍋湯帶給我了！熱氣一路暖到我手心，謝謝你。");
        assert("{name}，你把自己種的菜煮成一鍋湯帶給我了！熱氣一路暖到我手心，謝謝你。"@ =~= ""@ + "{name}"@ + "，你把自己種的菜煮成一鍋湯帶給我了！熱氣一路暖到我手心，謝謝你。"@);
        assert(no_char(""@, '{'));
        assert(no_char("，你把自己種的菜煮成一鍋湯帶給我了！熱氣一路暖到我手心，謝謝你。"@, '{'));
        lemma_fill_frame(""@, "{name}"@, player, "，你把自己種的菜煮成一鍋湯帶給我了！熱氣一路暖到我手心，謝謝你。"@, (""@.len() + player.len()) as int);
        assert("，你把自己種的菜煮成一鍋湯帶給我了！熱氣一路暖到我手心，謝謝你。"@.subrange(12, 13) =~= "湯"@);
        assert(occurs_at("，你把自己種的菜煮成一鍋湯帶給我了！熱氣一路暖到我手心，謝謝你。"@, "湯"@, 12));
        lemma_contains_in_tail(""@ + player, "，你把自己種的菜煮成一鍋湯帶給我了！熱氣一路暖到我手心，謝謝你。"@, "湯"@);
        assert(""@ + player + "，你把自己種的菜煮成一鍋湯帶給我了！熱氣一路暖到我手心，謝謝你。"@ =~= (""@ + player) + "，你把自己種的菜煮成一鍋湯帶給我了！熱氣一路暖到我手心，謝謝你。"@);
    } else if t == 1 && k == 1 {
        reveal_strlit("{name}！這鍋暖湯又香又飽足，湊齊這麼多種菜真不容易，我要一口一口慢慢喝。");
        reveal_strlit("");
        reveal_strlit("！這鍋暖湯又香又飽足，湊齊這麼多種菜真不容易，我要一口一口慢慢喝。");
        assert("{name}！這鍋暖湯又香又飽足，湊齊這麼多種菜真不容易，我要一口一口慢慢喝。"@ =~= ""@ + "{name}"@ + "！這鍋暖湯又香又飽足，湊齊這麼多種菜真不容易，我要一口一口慢慢喝。"@);
        assert(no_char(""@, '{'));
        assert(no_char("！這鍋暖湯又香又飽足，湊齊這麼多種菜真不容易，我要一口一口慢慢喝。"@, '{'));
        lemma_fill_frame(""@, "{name}"@, player, "！這鍋暖湯又香又飽足，湊齊這麼多種菜真不容易，我要一口一口慢慢喝。"@, (""@.len() + player.len()) as int);
        assert("！這鍋暖湯又香又飽足，湊齊這麼多種菜真不容易，我要一口一口慢慢喝。"@.subrange(4, 5) =~= "湯"@);
        assert(occurs_at("！這鍋暖湯又香又飽足，湊齊這麼多種菜真不容易，我要一口一口慢慢喝。"@, "湯"@, 4));
        lemma_contains_in_tail(""@ + player, "！這鍋暖湯又香又飽足，湊齊這麼多種菜真不容易，我要一口一口慢慢喝。"@, "湯"@);
        assert(""@ + player + "！這鍋暖湯又香又飽足，湊齊這麼多種菜真不容易，我要一口一口慢慢喝。"@ =~= (""@ + player) + "！這鍋暖湯又香又飽足，湊齊這麼多種菜真不容易，我要一口一口慢慢喝。"@);
    } else if t == 1 && k == 2 {
        reveal_strlit("哇，{name}親手煮的野菜湯！我一聞就餓了，這份心思我都嚐得出來，謝謝你。");
        reveal_strlit("哇，");
        reveal_strlit("親手煮的野菜湯！我一聞就餓了，這份心思我都嚐得出來，謝謝你。");
        assert("哇，{name}親手煮的野菜湯！我一聞就餓了，這份心思我都嚐得出來，謝謝你。"@ =~= "哇，"@ + "{name}"@ + "親手煮的野菜湯！我一聞就餓了，這份心思我都嚐得出來，謝謝你。"@);
        assert(no_char("哇，"@, '{'));
        assert(no_char("親手煮的野菜湯！我一聞就餓了，這份心思我都嚐得出來，謝謝你。"@, '{'));
        lemma_fill_frame("哇，"@, "{name}"@, player, "親手煮的野菜湯！我一聞就餓了，這份心思我都嚐得出來，謝謝你。"@, ("哇，"@.len() + player.len()) as int);
        assert("親手煮的野菜湯！我一聞就餓了，這份心思我都嚐得出來，謝謝你。"@.subrange(6, 7) =~= "湯"@);
        assert(occurs_at("親手煮的野菜湯！我一聞就餓了，這份心思我都嚐得出來，謝謝你。"@, "湯"@, 6));
        lemma_contains_in_tail("哇，"@ + player, "親手煮的野菜湯！我一聞就餓了，這份心思我都嚐得出來，謝謝你。"@, "湯"@);
        assert("哇，"@ + player + "親手煮的野菜湯！我一聞就餓了，這份心思我都嚐得出來，謝謝你。"@ =~= ("哇，"@ + player) + "親手煮的野菜湯！我一聞就餓了，這份心思我都嚐得出來，謝謝你。"@);
    } else if t == 2 && k == 0 {
        reveal_strlit("{name}，你把胡蘿蔔、馬鈴薯、小麥全種出來、再煮成這一鍋湯……這份心意我會記一輩子，謝謝你。");
        reveal_strlit("");
        reveal_strlit("，你把胡蘿蔔、馬鈴薯、小麥全種出來、再煮成這一鍋湯……這份心意我會記一輩子，謝謝你。");
        assert("{name}，你把胡蘿蔔、馬鈴薯、小麥全種出來、再煮成這一鍋湯……這份心意我會記一輩子，謝謝你。"@ =~= ""@ + "{name}"@ + "，你把胡蘿蔔、馬鈴薯、小麥全種出來、再煮成這一鍋湯……這份心意我會記一輩子，謝謝你。"@);
        assert(no_char(""@, '{'));
        assert(no_char("，你把胡蘿蔔、馬鈴薯、小麥全種出來、再煮成這一鍋湯……這份心意我會記一輩子，謝謝你。"@, '{'));
        lemma_fill_frame(""@, "{name}"@, player, "，你把胡蘿蔔、馬鈴薯、小麥全種出來、再煮成這一鍋湯……這份心意我會記一輩子，謝謝你。"@, (""@.len() + player.len()) as int);
        assert("，你把胡蘿蔔、馬鈴薯、小麥全種出來、再煮成這一鍋湯……這份心意我會記一輩子，謝謝你。"@.subrange(24, 25) =~= "湯"@);
        assert(occurs_at("，你把胡蘿蔔、馬鈴薯、小麥全種出來、再煮成這一鍋湯……這份心意我會記一輩子，謝謝你。"@, "湯"@, 24));
        lemma_contains_in_tail(""@ + player, "，你把胡蘿蔔、馬鈴薯、小麥全種出來、再煮成這一鍋湯……這份心意我會記一輩子，謝謝你。"@, "湯"@);
        assert(""@ + player + "，你把胡蘿蔔、馬鈴薯、小麥全種出來、再煮成這一鍋湯……這份心意我會記一輩子，謝謝你。"@ =~= (""@ + player) + "，你把胡蘿蔔、馬鈴薯、小麥全種出來、再煮成這一鍋湯……這份心意我會記一輩子，謝謝你。"@);
    } else if t == 2 && k == 1 {
        reveal_strlit("每次{name}來都帶著暖意——這回是你從田裡一樣樣種齊、親手煮的一鍋湯，我真的好幸福。");
        reveal_strlit("每次");
        reveal_strlit("來都帶著暖意——這回是你從田裡一樣樣種齊、親手煮的一鍋湯，我真的好幸福。");
        assert("每次{name}來都帶著暖意——這回是你從田裡一樣樣種齊、親手煮的一鍋湯，我真的好幸福。"@ =~= "每次"@ + "{name}"@ + "來都帶著暖意——這回是你從田裡一樣樣種齊、親手煮的一鍋湯，我真的好幸福。"@);
        assert(no_char("每次"@, '{'));
        assert(no_char("來都帶著暖意——這回是你從田裡一樣樣種齊、親手煮的一鍋湯，我真的好幸福。"@, '{'));
        lemma_fill_frame("每次"@, "{name}"@, player, "來都帶著暖意——這回是你從田裡一樣樣種齊、親手煮的一鍋湯，我真的好幸福。"@, ("每次"@.len() + player.len()) as int);
        assert("來都帶著暖意——這回是你從田裡一樣樣種齊、親手煮的一鍋湯，我真的好幸福。"@.subrange(27, 28) =~= "湯"@);
        assert(occurs_at("來都帶著暖意——這回是你從田裡一樣樣種齊、親手煮的一鍋湯，我真的好幸福。"@, "湯"@, 27));
        lemma_contains_in_tail("每次"@ + player, "來都帶著暖意——這回是你從田裡一樣樣種齊、親手煮的一鍋湯，我真的好幸福。"@, "湯"@);
        assert("每次"@ + player + "來都帶著暖意——這回是你從田裡一樣樣種齊、親手煮的一鍋湯，我真的好幸福。"@ =~= ("每次"@ + player) + "來都帶著暖意——這回是你從田裡一樣樣種齊、親手煮的一鍋湯，我真的好幸福。"@);
    } else if t == 2 && k == 2 {
        reveal_strlit("{name}！一鍋要湊齊三種收成才煮得成的暖湯，這是我收過最暖的一份心意，謝謝你。");
        reveal_strlit("");
        reveal_strlit("！一鍋要湊齊三種收成才煮得成的暖湯，這是我收過最暖的一份心意，謝謝你。");
        assert("{name}！一鍋要湊齊三種收成才煮得成的暖湯，這是我收過最暖的一份心意，謝謝你。"@ =~= ""@ + "{name}"@ + "！一鍋要湊齊三種收成才煮得成的暖湯，這是我收過最暖的一份心意，謝謝你。"@);
        assert(no_char(""@, '{'));
        assert(no_char("！一鍋要湊齊三種收成才煮得成的暖湯，這是我收過最暖的一份心意，謝謝你。"@, '{'));
        lemma_fill_frame(""@, "{name}"@, player, "！一鍋要湊齊三種收成才煮得成的暖湯，這是我收過最暖的一份心意，謝謝你。"@, (""@.len() + player.len()) as int);
        assert("！一鍋要湊齊三種收成才煮得成的暖湯，這是我收過最暖的一份心意，謝謝你。"@.subrange(16, 17) =~= "湯"@);
        assert(occurs_at("！一鍋要湊齊三種收成才煮得成的暖湯，這是我收過最暖的一份心意，謝謝你。"@, "湯"@, 16));
        lemma_contains_in_tail(""@ + player, "！一鍋要湊齊三種收成才煮得成的暖湯，這是我收過最暖的一份心意，謝謝你。"@, "湯"@);
        assert(""@ + player + "！一鍋要湊齊三種收成才煮得成的暖湯，這是我收過最暖的一份心意，謝謝你。"@ =~= (""@ + player) + "！一鍋要湊齊三種收成才煮得成的暖湯，這是我收過最暖的一份心意，謝謝你。"@);
    }
}

proof fn lemma_gift_placeholders()
    ensures
        "{name}"@.len() == 6,
        "{item}"@.len() == 6,
        ascii("{name}"@),
        ascii("{item}"@),
        pat_free("{item}"@, "{name}"@),
{
    reveal_strlit("{name}");
    reveal_strlit("{item}");
    assert(ascii("{name}"@));
    assert(ascii("{item}"@));
    assert forall|q: int| 0 <= q && q + "{name}"@.len() <= "{item}"@.len() implies #[trigger] "{item}"@.subrange(q, q + "{name}"@.len()) != "{name}"@ by {
        assert(q == 0);
        assert("{item}"@.subrange(q, q + "{name}"@.len())[1] == 'i');
    }
}

proof fn lemma_jam_line_0_0()
    ensures
        "哇……甜甜的莓果醬！我從沒嚐過這麼甜的東西，謝謝你！"@.len() > 0,
        pat_free("哇……甜甜的莓果醬！我從沒嚐過這麼甜的東西，謝謝你！"@, "{name}"@),
{
    lemma_gift_placeholders();
    reveal_strlit("{name}");
    reveal_strlit("{item}");
    reveal_strlit("哇……甜甜的莓果醬！我從沒嚐過這麼甜的東西，謝謝你！");
    assert(non_ascii("哇……甜甜的莓果醬！我從沒嚐過這麼甜的東西，謝謝你！"@));
    lemma_plain_free("哇……甜甜的莓果醬！我從沒嚐過這麼甜的東西，謝謝你！"@, "{name}"@);
}

proof fn lemma_jam_line_0_1()
    ensures
        "這是莓果熬的醬嗎？光聞就好甜，我的心都要融化了，謝謝你。"@.len() > 0,
        pat_free("這是莓果熬的醬嗎？光聞就好甜，我的心都要融化了，謝謝你。"@, "{name}"@),
{
    lemma_gift_placeholders();
    reveal_strlit("{name}");
    reveal_strlit("{item}");
    reveal_strlit("這是莓果熬的醬嗎？光聞就好甜，我的心都要融化了，謝謝你。");
    assert(non_ascii("這是莓果熬的醬嗎？光聞就好甜，我的心都要融化了，謝謝你。"@));
    lemma_plain_free("這是莓果熬的醬嗎？光聞就好甜，我的心都要融化了，謝謝你。"@, "{name}"@);
}

proof fn lemma_jam_line_0_2()
    ensures
        "莓果醬耶！甜滋滋的，你是特地熬給我的嗎？我好開心。"@.len() > 0,
        pat_free("莓果醬耶！甜滋滋的，你是特地熬給我的嗎？我好開心。"@, "{name}"@),
{
    lemma_gift_placeholders();
    reveal_strlit("{name}");
    reveal_strlit("{item}");
    reveal_strlit("莓果醬耶！甜滋滋的，你是特地熬給我的嗎？我好開心。");
    assert(non_ascii("莓果醬耶！甜滋滋的，你是特地熬給我的嗎？我好開心。"@));
    lemma_plain_free("莓果醬耶！甜滋滋的，你是特地熬給我的嗎？我好開心。"@, "{name}"@);
}

proof fn lemma_jam_line_1_0(player: Seq<char>)
    ensures
        replace_all("{name}，你把莓果熬成了甜甜的醬帶給我！我要小口小口地捨不得吃完，謝謝你。"@, "{name}"@, player).len() > 0,
        seq_contains(replace_all("{name}，你把莓果熬成了甜甜的醬帶給我！我要小口小口地捨不得吃完，謝謝你。"@, "{name}"@, player), player),
        pat_free(player, "{name}"@) ==> pat_free(replace_all("{name}，你把莓果熬成了甜甜的醬帶給我！我要小口小口地捨不得吃完，謝謝你。"@, "{name}"@, player), "{name}"@),
{
    lemma_gift_placeholders();
    reveal_strlit("{name}");
    reveal_strlit("{item}");
    reveal_strlit("{name}，你把莓果熬成了甜甜的醬帶給我！我要小口小口地捨不得吃完，謝謝你。");
    reveal_strlit("");
    reveal_strlit("，你把莓果熬成了甜甜的醬帶給我！我要小口小口地捨不得吃完，謝謝你。");
    assert("{name}，你把莓果熬成了甜甜的醬帶給我！我要小口小口地捨不得吃完，謝謝你。"@ =~= ""@ + "{name}"@ + "，你把莓果熬成了甜甜的醬帶給我！我要小口小口地捨不得吃完，謝謝你。"@);
    assert(non_ascii(""@));
    assert(non_ascii("，你把莓果熬成了甜甜的醬帶給我！我要小口小口地捨不得吃完，謝謝你。"@));
    lemma_fill_slot(""@, "{name}"@, "，你把莓果熬成了甜甜的醬帶給我！我要小口小口地捨不得吃完，謝謝你。"@, player, "{name}"@);
}

proof fn lemma_jam_line_1_1(player: Seq<char>)
    ensures
        replace_all("{name}！一罐甜滋滋的莓果醬，這份甜我一嚐就記住了，謝謝你想著我。"@, "{name}"@, player).len() > 0,
        seq_contains(replace_all("{name}！一罐甜滋滋的莓果醬，這份甜我一嚐就記住了，謝謝你想著我。"@, "{name}"@, player), player),
        pat_free(player, "{name}"@) ==> pat_free(replace_all("{name}！一罐甜滋滋的莓果醬，這份甜我一嚐就記住了，謝謝你想著我。"@, "{name}"@, player), "{name}"@),
{
    lemma_gift_placeholders();
    reveal_strlit("{name}");
    reveal_strlit("{item}");
    reveal_strlit("{name}！一罐甜滋滋的莓果醬，這份甜我一嚐就記住了，謝謝你想著我。");
    reveal_strlit("");
    reveal_strlit("！一罐甜滋滋的莓果醬，這份甜我一嚐就記住了，謝謝你想著我。");
    assert("{name}！一罐甜滋滋的莓果醬，這份甜我一嚐就記住了，謝謝你想著我。"@ =~= ""@ + "{name}"@ + "！一罐甜滋滋的莓果醬，這份甜我一嚐就記住了，謝謝你想著我。"@);
    assert(non_ascii(""@));
    assert(non_ascii("！一罐甜滋滋的莓果醬，這份甜我一嚐就記住了，謝謝你想著我。"@));
    lemma_fill_slot(""@, "{name}"@, "！一罐甜滋滋的莓果醬，這份甜我一嚐就記住了，謝謝你想著我。"@, player, "{name}"@);
}

proof fn lemma_jam_line_1_2(player: Seq<char>)
    ensures
        replace_all("哇，{name}親手熬的莓果醬！甜得像小時候的糖，我開心得不得了。"@, "{name}"@, player).len() > 0,
        seq_contains(replace_all("哇，{name}親手熬的莓果醬！甜得像小時候的糖，我開心得不得了。"@, "{name}"@, player), player),
        pat_free(player, "{name}"@) ==> pat_free(replace_all("哇，{name}親手熬的莓果醬！甜得像小時候的糖，我開心得不得了。"@, "{name}"@, player), "{name}"@),
{
    lemma_gift_placeholders();
    reveal_strlit("{name}");
    reveal_strlit("{item}");
    reveal_strlit("哇，{name}親手熬的莓果醬！甜得像小時候的糖，我開心得不得了。");
    reveal_strlit("哇，");
    reveal_strlit("親手熬的莓果醬！甜得像小時候的糖，我開心得不得了。");
    assert("哇，{name}親手熬的莓果醬！甜得像小時候的糖，我開心得不得了。"@ =~= "哇，"@ + "{name}"@ + "親手熬的莓果醬！甜得像小時候的糖，我開心得不得了。"@);
    assert(non_ascii("哇，"@));
    assert(non_ascii("親手熬的莓果醬！甜得像小時候的糖，我開心得不得了。"@));
    lemma_fill_slot("哇，"@, "{name}"@, "親手熬的莓果醬！甜得像小時候的糖，我開心得不得了。"@, player, "{name}"@);
}

proof fn lemma_jam_line_2_0(player: Seq<char>)
    ensures
        replace_all("{name}，你從莓園採了莓果、又慢慢熬成這罐甜醬……這份甜我會一直記在心上，謝謝你。"@, "{name}"@, player).len() > 0,
        seq_contains(replace_all("{name}，你從莓園採了莓果、又慢慢熬成這罐甜醬……這份甜我會一直記在心上，謝謝你。"@, "{name}"@, player), player),
        pat_free(player, "{name}"@) ==> pat_free(replace_all("{name}，你從莓園採了莓果、又慢慢熬成這罐甜醬……這份甜我會一直記在心上，謝謝你。"@, "{name}"@, player), "{name}"@),
{
    lemma_gift_placeholders();
    reveal_strlit("{name}");
    reveal_strlit("{item}");
    reveal_strlit("{name}，你從莓園採了莓果、又慢慢熬成這罐甜醬……這份甜我會一直記在心上，謝謝你。");
    reveal_strlit("");
    reveal_strlit("，你從莓園採了莓果、又慢慢熬成這罐甜醬……這份甜我會一直記在心上，謝謝你。");
    assert("{name}，你從莓園採了莓果、又慢慢熬成這罐甜醬……這份甜我會一直記在心上，謝謝你。"@ =~= ""@ + "{name}"@ + "，你從莓園採了莓果、又慢慢熬成這罐甜醬……這份甜我會一直記在心上，謝謝你。"@);
    assert(non_ascii(""@));
    assert(non_ascii("，你從莓園採了莓果、又慢慢熬成這罐甜醬……這份甜我會一直記在心上，謝謝你。"@));
    lemma_fill_slot(""@, "{name}"@, "，你從莓園採了莓果、又慢慢熬成這罐甜醬……這份甜我會一直記在心上，謝謝你。"@, player, "{name}"@);
}

proof fn lemma_jam_line_2_1(player: Seq<char>)
    ensures
        replace_all("每次{name}來都帶著甜意——這回是你親手熬的莓果醬，甜到我心底最軟的地方，謝謝你。"@, "{name}"@, player).len() > 0,
        seq_contains(replace_all("每次{name}來都帶著甜意——這回是你親手熬的莓果醬，甜到我心底最軟的地方，謝謝你。"@, "{name}"@, player), player),
        pat_free(player, "{name}"@) ==> pat_free(replace_all("每次{name}來都帶著甜意——這回是你親手熬的莓果醬，甜到我心底最軟的地方，謝謝你。"@, "{name}"@, player), "{name}"@),
{
    lemma_gift_placeholders();
    reveal_strlit("{name}");
    reveal_strlit("{item}");
    reveal_strlit("每次{name}來都帶著甜意——這回是你親手熬的莓果醬，甜到我心底最軟的地方，謝謝你。");
    reveal_strlit("每次");
    reveal_strlit("來都帶著甜意——這回是你親手熬的莓果醬，甜到我心底最軟的地方，謝謝你。");
    assert("每次{name}來都帶著甜意——這回是你親手熬的莓果醬，甜到我心底最軟的地方，謝謝你。"@ =~= "每次"@ + "{name}"@ + "來都帶著甜意——這回是你親手熬的莓果醬，甜到我心底最軟的地方，謝謝你。"@);
    assert(non_ascii("每次"@));
    assert(non_ascii("來都帶著甜意——這回是你親手熬的莓果醬，甜到我心底最軟的地方，謝謝你。"@));
    lemma_fill_slot("每次"@, "{name}"@, "來都帶著甜意——這回是你親手熬的莓果醬，甜到我心底最軟的地方，謝謝你。"@, player, "{name}"@);
}

proof fn lemma_jam_line_2_2(player: Seq<char>)
    ensures
        replace_all("{name}！一罐要守著爐火慢慢熬的莓果醬，這是我收過最甜的一份心意，我好幸福。"@, "{name}"@, player).len() > 0,
        seq_contains(replace_all("{name}！一罐要守著爐火慢慢熬的莓果醬，這是我收過最甜的一份心意，我好幸福。"@, "{name}"@, player), player),
        pat_free(player, "{name}"@) ==> pat_free(replace_all("{name}！一罐要守著爐火慢慢熬的莓果醬，這是我收過最甜的一份心意，我好幸福。"@, "{name}"@, player), "{name}"@),
{
    lemma_gift_placeholders();
    reveal_strlit("{name}");
    reveal_strlit("{item}");
    reveal_strlit("{name}！一罐要守著爐火慢慢熬的莓果醬，這是我收過最甜的一份心意，我好幸福。");
    reveal_strlit("");
    reveal_strlit("！一罐要守著爐火慢慢熬的莓果醬，這是我收過最甜的一份心意，我好幸福。");
    assert("{name}！一罐要守著爐火慢慢熬的莓果醬，這是我收過最甜的一份心意，我好幸福。"@ =~= ""@ + "{name}"@ + "！一罐要守著爐火慢慢熬的莓果醬，這是我收過最甜的一份心意，我好幸福。"@);
    assert(non_ascii(""@));
    assert(non_ascii("！一罐要守著爐火慢慢熬的莓果醬，這是我收過最甜的一份心意，我好幸福。"@));
    lemma_fill_slot(""@, "{name}"@, "！一罐要守著爐火慢慢熬的莓果醬，這是我收過最甜的一份心意，我好幸福。"@, player, "{name}"@);
}

/// Law: a berry jam thanks is never empty; it names an acquaintance or a friend, and it holds no
/// {name} placeholder when the player's name holds none.
pub proof fn lemma_jam_thanks_law(player: Seq<char>, affinity: usize, pick: usize)
    ensures
        tiered_thanks(jam_pools(), player, affinity, pick).len() > 0,
        thanks_tier(player, affinity) > 0 ==> seq_contains(tiered_thanks(jam_pools(), player, affinity, pick), player),
        pat_free(player, "{name}"@) ==> pat_free(tiered_thanks(jam_pools(), player, affinity, pick), "{name}"@),
{
    let t = thanks_tier(player, affinity);
    let k = (pick % 3) as int;
    if t == 0 && k == 0 { lemma_jam_line_0_0(); }
    if t == 0 && k == 1 { lemma_jam_line_0_1(); }
    if t == 0 && k == 2 { lemma_jam_line_0_2(); }
    if t == 1 && k == 0 { lemma_jam_line_1_0(player); }
    if t == 1 && k == 1 { lemma_jam_line_1_1(player); }
    if t == 1 && k == 2 { lemma_jam_line_1_2(player); }
    if t == 2 && k == 0 { lemma_jam_line_2_0(player); }
    if t == 2 && k == 1 { lemma_jam_line_2_1(player); }
    if t == 2 && k == 2 { lemma_jam_line_2_2(player); }
}

proof fn lemma_stew_line_0_0()
    ensures
        "哇……這是一整鍋暖湯嗎？聞起來好豐盛！你煮給我的？謝謝你！"@.len() > 0,
        pat_free("哇……這是一整鍋暖湯嗎？聞起來好豐盛！你煮給我的？謝謝你！"@, "{name}"@),
{
    lemma_gift_placeholders();
    reveal_strlit("{name}");
    reveal_strlit("{item}");
    reveal_strlit("哇……這是一整鍋暖湯嗎？聞起來好豐盛！你煮給我的？謝謝你！");
    assert(non_ascii("哇……這是一整鍋暖湯嗎？聞起來好豐盛！你煮給我的？謝謝你！"@));
    lemma_plain_free("哇……這是一整鍋暖湯嗎？聞起來好豐盛！你煮給我的？謝謝你！"@, "{name}"@);
}

proof fn lemma_stew_line_0_1()
    ensures
        "熱騰騰的野菜湯！要湊齊這麼多種菜才煮得成吧，我好感動。"@.len() > 0,
        pat_free("熱騰騰的野菜湯！要湊齊這麼多種菜才煮得成吧，我好感動。"@, "{name}"@),
{
    lemma_gift_placeholders();
    reveal_strlit("{name}");
    reveal_strlit("{item}");
    reveal_strlit("熱騰騰的野菜湯！要湊齊這麼多種菜才煮得成吧，我好感動。");
    assert(non_ascii("熱騰騰的野菜湯！要湊齊這麼多種菜才煮得成吧，我好感動。"@));
    lemma_plain_free("熱騰騰的野菜湯！要湊齊這麼多種菜才煮得成吧，我好感動。"@, "{name}"@);
}

proof fn lemma_stew_line_0_2()
    ensures
        "野菜暖湯耶！你連種帶煮都是為了我嗎？我心裡都暖起來了。"@.len() > 0,
        pat_free("野菜暖湯耶！你連種帶煮都是為了我嗎？我心裡都暖起來了。"@, "{name}"@),
{
    lemma_gift_placeholders();
    reveal_strlit("{name}");
    reveal_strlit("{item}");
    reveal_strlit("野菜暖湯耶！你連種帶煮都是為了我嗎？我心裡都暖起來了。");
    assert(non_ascii("野菜暖湯耶！你連種帶煮都是為了我嗎？我心裡都暖起來了。"@));
    lemma_plain_free("野菜暖湯耶！你連種帶煮都是為了我嗎？我心裡都暖起來了。"@, "{name}"@);
}

proof fn lemma_stew_line_1_0(player: Seq<char>)
    ensures
        replace_all("{name}，你把自己種的菜煮成一鍋湯帶給我了！熱氣一路暖到我手心，謝謝你。"@, "{name}"@, player).len() > 0,
        seq_contains(replace_all("{name}，你把自己種的菜煮成一鍋湯帶給我了！熱氣一路暖到我手心，謝謝你。"@, "{name}"@, player), player),
        pat_free(player, "{name}"@) ==> pat_free(replace_all("{name}，你把自己種的菜煮成一鍋湯帶給我了！熱氣一路暖到我手心，謝謝你。"@, "{name}"@, player), "{name}"@),
{
    lemma_gift_placeholders();
    reveal_strlit("{name}");
    reveal_strlit("{item}");
    reveal_strlit("{name}，你把自己種的菜煮成一鍋湯帶給我了！熱氣一路暖到我手心，謝謝你。");
    reveal_strlit("");
    reveal_strlit("，你把自己種的菜煮成一鍋湯帶給我了！熱氣一路暖到我手心，謝謝你。");
    assert("{name}，你把自己種的菜煮成一鍋湯帶給我了！熱氣一路暖到我手心，謝謝你。"@ =~= ""@ + "{name}"@ + "，你把自己種的菜煮成一鍋湯帶給我了！熱氣一路暖到我手心，謝謝你。"@);
    assert(non_ascii(""@));
    assert(non_ascii("，你把自己種的菜煮成一鍋湯帶給我了！熱氣一路暖到我手心，謝謝你。"@));
    lemma_fill_slot(""@, "{name}"@, "，你把自己種的菜煮成一鍋湯帶給我了！熱氣一路暖到我手心，謝謝你。"@, player, "{name}"@);
}

proof fn lemma_stew_line_1_1(player: Seq<char>)
    ensures
        replace_all("{name}！這鍋暖湯又香又飽足，湊齊這麼多種菜真不容易，我要一口一口慢慢喝。"@, "{name}"@, player).len() > 0,
        seq_contains(replace_all("{name}！這鍋暖湯又香又飽足，湊齊這麼多種菜真不容易，我要一口一口慢慢喝。"@, "{name}"@, player), player),
        pat_free(player, "{name}"@) ==> pat_free(replace_all("{name}！這鍋暖湯又香又飽足，湊齊這麼多種菜真不容易，我要一口一口慢慢喝。"@, "{name}"@, player), "{name}"@),
{
    lemma_gift_placeholders();
    reveal_strlit("{name}");
    reveal_strlit("{item}");
    reveal_strlit("{name}！這鍋暖湯又香又飽足，湊齊這麼多種菜真不容易，我要一口一口慢慢喝。");
    reveal_strlit("");
    reveal_strlit("！這鍋暖湯又香又飽足，湊齊這麼多種菜真不容易，我要一口一口慢慢喝。");
    assert("{name}！這鍋暖湯又香又飽足，湊齊這麼多種菜真不容易，我要一口一口慢慢喝。"@ =~= ""@ + "{name}"@ + "！這鍋暖湯又香又飽足，湊齊這麼多種菜真不容易，我要一口一口慢慢喝。"@);
    assert(non_ascii(""@));
    assert(non_ascii("！這鍋暖湯又香又飽足，湊齊這麼多種菜真不容易，我要一口一口慢慢喝。"@));
    lemma_fill_slot(""@, "{name}"@, "！這鍋暖湯又香又飽足，湊齊這麼多種菜真不容易，我要一口一口慢慢喝。"@, player, "{name}"@);
}

proof fn lemma_stew_line_1_2(player: Seq<char>)
    ensures
        replace_all("哇，{name}親手煮的野菜湯！我一聞就餓了，這份心思我都嚐得出來，謝謝你。"@, "{name}"@, player).len() > 0,
        seq_contains(replace_all("哇，{name}親手煮的野菜湯！我一聞就餓了，這份心思我都嚐得出來，謝謝你。"@, "{name}"@, player), player),
        pat_free(player, "{name}"@) ==> pat_free(replace_all("哇，{name}親手煮的野菜湯！我一聞就餓了，這份心思我都嚐得出來，謝謝你。"@, "{name}"@, player), "{name}"@),
{
    lemma_gift_placeholders();
    reveal_strlit("{name}");
    reveal_strlit("{item}");
    reveal_strlit("哇，{name}親手煮的野菜湯！我一聞就餓了，這份心思我都嚐得出來，謝謝你。");
    reveal_strlit("哇，");
    reveal_strlit("親手煮的野菜湯！我一聞就餓了，這份心思我都嚐得出來，謝謝你。");
    assert("哇，{name}親手煮的野菜湯！我一聞就餓了，這份心思我都嚐得出來，謝謝你。"@ =~= "哇，"@ + "{name}"@ + "親手煮的野菜湯！我一聞就餓了，這份心思我都嚐得出來，謝謝你。"@);
    assert(non_ascii("哇，"@));
    assert(non_ascii("親手煮的野菜湯！我一聞就餓了，這份心思我都嚐得出來，謝謝你。"@));
    lemma_fill_slot("哇，"@, "{name}"@, "親手煮的野菜湯！我一聞就餓了，這份心思我都嚐得出來，謝謝你。"@, player, "{name}"@);
}

proof fn lemma_stew_line_2_0(player: Seq<char>)
    ensures
        replace_all("{name}，你把胡蘿蔔、馬鈴薯、小麥全種出來、再煮成這一鍋湯……這份心意我會記一輩子，謝謝你。"@, "{name}"@, player).len() > 0,
        seq_contains(replace_all("{name}，你把胡蘿蔔、馬鈴薯、小麥全種出來、再煮成這一鍋湯……這份心意我會記一輩子，謝謝你。"@, "{name}"@, player), player),
        pat_free(player, "{name}"@) ==> pat_free(replace_all("{name}，你把胡蘿蔔、馬鈴薯、小麥全種出來、再煮成這一鍋湯……這份心意我會記一輩子，謝謝你。"@, "{name}"@, player), "{name}"@),
{
    lemma_gift_placeholders();
    reveal_strlit("{name}");
    reveal_strlit("{item}");
    reveal_strlit("{name}，你把胡蘿蔔、馬鈴薯、小麥全種出來、再煮成這一鍋湯……這份心意我會記一輩子，謝謝你。");
    reveal_strlit("");
    reveal_strlit("，你把胡蘿蔔、馬鈴薯、小麥全種出來、再煮成這一鍋湯……這份心意我會記一輩子，謝謝你。");
    assert("{name}，你把胡蘿蔔、馬鈴薯、小麥全種出來、再煮成這一鍋湯……這份心意我會記一輩子，謝謝你。"@ =~= ""@ + "{name}"@ + "，你把胡蘿蔔、馬鈴薯、小麥全種出來、再煮成這一鍋湯……這份心意我會記一輩子，謝謝你。"@);
    assert(non_ascii(""@));
    assert(non_ascii("，你把胡蘿蔔、馬鈴薯、小麥全種出來、再煮成這一鍋湯……這份心意我會記一輩子，謝謝你。"@));
    lemma_fill_slot(""@, "{name}"@, "，你把胡蘿蔔、馬鈴薯、小麥全種出來、再煮成這一鍋湯……這份心意我會記一輩子，謝謝你。"@, player, "{name}"@);
}

proof fn lemma_stew_line_2_1(player: Seq<char>)
    ensures
        replace_all("每次{name}來都帶著暖意——這回是你從田裡一樣樣種齊、親手煮的一鍋湯，我真的好幸福。"@, "{name}"@, player).len() > 0,
        seq_contains(replace_all("每次{name}來都帶著暖意——這回是你從田裡一樣樣種齊、親手煮的一鍋湯，我真的好幸福。"@, "{name}"@, player), player),
        pat_free(player, "{name}"@) ==> pat_free(replace_all("每次{name}來都帶著暖意——這回是你從田裡一樣樣種齊、親手煮的一鍋湯，我真的好幸福。"@, "{name}"@, player), "{name}"@),
{
    lemma_gift_placeholders();
    reveal_strlit("{name}");
    reveal_strlit("{item}");
    reveal_strlit("每次{name}來都帶著暖意——這回是你從田裡一樣樣種齊、親手煮的一鍋湯，我真的好幸福。");
    reveal_strlit("每次");
    reveal_strlit("來都帶著暖意——這回是你從田裡一樣樣種齊、親手煮的一鍋湯，我真的好幸福。");
    assert("每次{name}來都帶著暖意——這回是你從田裡一樣樣種齊、親手煮的一鍋湯，我真的好幸福。"@ =~= "每次"@ + "{name}"@ + "來都帶著暖意——這回是你從田裡一樣樣種齊、親手煮的一鍋湯，我真的好幸福。"@);
    assert(non_ascii("每次"@));
    assert(non_ascii("來都帶著暖意——這回是你從田裡一樣樣種齊、親手煮的一鍋湯，我真的好幸福。"@));
    lemma_fill_slot("每次"@, "{name}"@, "來都帶著暖意——這回是你從田裡一樣樣種齊、親手煮的一鍋湯，我真的好幸福。"@, player, "{name}"@);
}

proof fn lemma_stew_line_2_2(player: Seq<char>)
    ensures
        replace_all("{name}！一鍋要湊齊三種收成才煮得成的暖湯，這是我收過最暖的一份心意，謝謝你。"@, "{name}"@, player).len() > 0,
        seq_contains(replace_all("{name}！一鍋要湊齊三種收成才煮得成的暖湯，這是我收過最暖的一份心意，謝謝你。"@, "{name}"@, player), player),
        pat_free(player, "{name}"@) ==> pat_free(replace_all("{name}！一鍋要湊齊三種收成才煮得成的暖湯，這是我收過最暖的一份心意，謝謝你。"@, "{name}"@, player), "{name}"@),
{
    lemma_gift_placeholders();
    reveal_strlit("{name}");
    reveal_strlit("{item}");
    reveal_strlit("{name}！一鍋要湊齊三種收成才煮得成的暖湯，這是我收過最暖的一份心意，謝謝你。");
    reveal_strlit("");
    reveal_strlit("！一鍋要湊齊三種收成才煮得成的暖湯，這是我收過最暖的一份心意，謝謝你。");
    assert("{name}！一鍋要湊齊三種收成才煮得成的暖湯，這是我收過最暖的一份心意，謝謝你。"@ =~= ""@ + "{name}"@ + "！一鍋要湊齊三種收成才煮得成的暖湯，這是我收過最暖的一份心意，謝謝你。"@);
    assert(non_ascii(""@));
    assert(non_ascii("！一鍋要湊齊三種收成才煮得成的暖湯，這是我收過最暖的一份心意，謝謝你。"@));
    lemma_fill_slot(""@, "{name}"@, "！一鍋要湊齊三種收成才煮得成的暖湯，這是我收過最暖的一份心意，謝謝你。"@, player, "{name}"@);
}

/// Law: a vegetable stew thanks is never empty; it names an acquaintance or a friend, and it holds no
/// {name} placeholder when the player's name holds none.
pub proof fn lemma_stew_thanks_law(player: Seq<char>, affinity: usize, pick: usize)
    ensures
        tiered_thanks(stew_pools(), player, affinity, pick).len() > 0,
        thanks_tier(player, affinity) > 0 ==> seq_contains(tiered_thanks(stew_pools(), player, affinity, pick), player),
        pat_free(player, "{name}"@) ==> pat_free(tiered_thanks(stew_pools(), player, affinity, pick), "{name}"@),
{
    let t = thanks_tier(player, affinity);
    let k = (pick % 3) as int;
    if t == 0 && k == 0 { lemma_stew_line_0_0(); }
    if t == 0 && k == 1 { lemma_stew_line_0_1(); }
    if t == 0 && k == 2 { lemma_stew_line_0_2(); }
    if t == 1 && k == 0 { lemma_stew_line_1_0(player); }
    if t == 1 && k == 1 { lemma_stew_line_1_1(player); }
    if t == 1 && k == 2 { lemma_stew_line_1_2(player); }
    if t == 2 && k == 0 { lemma_stew_line_2_0(player); }
    if t == 2 && k == 1 { lemma_stew_line_2_1(player); }
    if t == 2 && k == 2 { lemma_stew_line_2_2(player); }
}

proof fn lemma_bread_line_0_0()
    ensures
        "哦……麵包？你親手做的嗎？謝謝你！"@.len() > 0,
        pat_free("哦……麵包？你親手做的嗎？謝謝你！"@, "{name}"@),
{
    lemma_gift_placeholders();
    reveal_strlit("{name}");
    reveal_strlit("{item}");
    reveal_strlit("哦……麵包？你親手做的嗎？謝謝你！");
    assert(non_ascii("哦……麵包？你親手做的嗎？謝謝你！"@));
    lemma_plain_free("哦……麵包？你親手做的嗎？謝謝你！"@, "{name}"@);
}

proof fn lemma_bread_line_0_1()
    ensures
        "哇，麵包！你怎麼知道我最喜歡吃麵包了！"@.len() > 0,
        pat_free("哇，麵包！你怎麼知道我最喜歡吃麵包了！"@, "{name}"@),
{
    lemma_gift_placeholders();
    reveal_strlit("{name}");
    reveal_strlit("{item}");
    reveal_strlit("哇，麵包！你怎麼知道我最喜歡吃麵包了！");
    assert(non_ascii("哇，麵包！你怎麼知道我最喜歡吃麵包了！"@));
    lemma_plain_free("哇，麵包！你怎麼知道我最喜歡吃麵包了！"@, "{name}"@);
}

proof fn lemma_bread_line_0_2()
    ensures
        "麵包耶！謝謝你帶來這麼用心的禮物。"@.len() > 0,
        pat_free("麵包耶！謝謝你帶來這麼用心的禮物。"@, "{name}"@),
{
    lemma_gift_placeholders();
    reveal_strlit("{name}");
    reveal_strlit("{item}");
    reveal_strlit("麵包耶！謝謝你帶來這麼用心的禮物。");
    assert(non_ascii("麵包耶！謝謝你帶來這麼用心的禮物。"@));
    lemma_plain_free("麵包耶！謝謝你帶來這麼用心的禮物。"@, "{name}"@);
}

proof fn lemma_bread_line_1_0(player: Seq<char>)
    ensures
        replace_all("{name}，你帶麵包來給我！謝謝你這麼用心。"@, "{name}"@, player).len() > 0,
        seq_contains(replace_all("{name}，你帶麵包來給我！謝謝你這麼用心。"@, "{name}"@, player), player),
        pat_free(player, "{name}"@) ==> pat_free(replace_all("{name}，你帶麵包來給我！謝謝你這麼用心。"@, "{name}"@, player), "{name}"@),
{
    lemma_gift_placeholders();
    reveal_strlit("{name}");
    reveal_strlit("{item}");
    reveal_strlit("{name}，你帶麵包來給我！謝謝你這麼用心。");
    reveal_strlit("");
    reveal_strlit("，你帶麵包來給我！謝謝你這麼用心。");
    assert("{name}，你帶麵包來給我！謝謝你這麼用心。"@ =~= ""@ + "{name}"@ + "，你帶麵包來給我！謝謝你這麼用心。"@);
    assert(non_ascii(""@));
    assert(non_ascii("，你帶麵包來給我！謝謝你這麼用心。"@));
    lemma_fill_slot(""@, "{name}"@, "，你帶麵包來給我！謝謝你這麼用心。"@, player, "{name}"@);
}

proof fn lemma_bread_line_1_1(player: Seq<char>)
    ensures
        replace_all("{name}！自己做的麵包！聞起來好香，謝謝你。"@, "{name}"@, player).len() > 0,
        seq_contains(replace_all("{name}！自己做的麵包！聞起來好香，謝謝你。"@, "{name}"@, player), player),
        pat_free(player, "{name}"@) ==> pat_free(replace_all("{name}！自己做的麵包！聞起來好香，謝謝你。"@, "{name}"@, player), "{name}"@),
{
    lemma_gift_placeholders();
    reveal_strlit("{name}");
    reveal_strlit("{item}");
    reveal_strlit("{name}！自己做的麵包！聞起來好香，謝謝你。");
    reveal_strlit("");
    reveal_strlit("！自己做的麵包！聞起來好香，謝謝你。");
    assert("{name}！自己做的麵包！聞起來好香，謝謝你。"@ =~= ""@ + "{name}"@ + "！自己做的麵包！聞起來好香，謝謝你。"@);
    assert(non_ascii(""@));
    assert(non_ascii("！自己做的麵包！聞起來好香，謝謝你。"@));
    lemma_fill_slot(""@, "{name}"@, "！自己做的麵包！聞起來好香，謝謝你。"@, player, "{name}"@);
}

proof fn lemma_bread_line_1_2(player: Seq<char>)
    ensures
        replace_all("哇，{name}你烤了麵包！我好感動，謝謝。"@, "{name}"@, player).len() > 0,
        seq_contains(replace_all("哇，{name}你烤了麵包！我好感動，謝謝。"@, "{name}"@, player), player),
        pat_free(player, "{name}"@) ==> pat_free(replace_all("哇，{name}你烤了麵包！我好感動，謝謝。"@, "{name}"@, player), "{name}"@),
{
    lemma_gift_placeholders();
    reveal_strlit("{name}");
    reveal_strlit("{item}");
    reveal_strlit("哇，{name}你烤了麵包！我好感動，謝謝。");
    reveal_strlit("哇，");
    reveal_strlit("你烤了麵包！我好感動，謝謝。");
    assert("哇，{name}你烤了麵包！我好感動，謝謝。"@ =~= "哇，"@ + "{name}"@ + "你烤了麵包！我好感動，謝謝。"@);
    assert(non_ascii("哇，"@));
    assert(non_ascii("你烤了麵包！我好感動，謝謝。"@));
    lemma_fill_slot("哇，"@, "{name}"@, "你烤了麵包！我好感動，謝謝。"@, player, "{name}"@);
}

proof fn lemma_bread_line_2_0(player: Seq<char>)
    ensures
        replace_all("{name}，你知道我喜歡吃東西對吧……這塊麵包我要慢慢品嚐。"@, "{name}"@, player).len() > 0,
        seq_contains(replace_all("{name}，你知道我喜歡吃東西對吧……這塊麵包我要慢慢品嚐。"@, "{name}"@, player), player),
        pat_free(player, "{name}"@) ==> pat_free(replace_all("{name}，你知道我喜歡吃東西對吧……這塊麵包我要慢慢品嚐。"@, "{name}"@, player), "{name}"@),
{
    lemma_gift_placeholders();
    reveal_strlit("{name}");
    reveal_strlit("{item}");
    reveal_strlit("{name}，你知道我喜歡吃東西對吧……這塊麵包我要慢慢品嚐。");
    reveal_strlit("");
    reveal_strlit("，你知道我喜歡吃東西對吧……這塊麵包我要慢慢品嚐。");
    assert("{name}，你知道我喜歡吃東西對吧……這塊麵包我要慢慢品嚐。"@ =~= ""@ + "{name}"@ + "，你知道我喜歡吃東西對吧……這塊麵包我要慢慢品嚐。"@);
    assert(non_ascii(""@));
    assert(non_ascii("，你知道我喜歡吃東西對吧……這塊麵包我要慢慢品嚐。"@));
    lemma_fill_slot(""@, "{name}"@, "，你知道我喜歡吃東西對吧……這塊麵包我要慢慢品嚐。"@, player, "{name}"@);
}

proof fn lemma_bread_line_2_1(player: Seq<char>)
    ensures
        replace_all("每次{name}來都帶著驚喜——這次是麵包！謝謝你記得我。"@, "{name}"@, player).len() > 0,
        seq_contains(replace_all("每次{name}來都帶著驚喜——這次是麵包！謝謝你記得我。"@, "{name}"@, player), player),
        pat_free(player, "{name}"@) ==> pat_free(replace_all("每次{name}來都帶著驚喜——這次是麵包！謝謝你記得我。"@, "{name}"@, player), "{name}"@),
{
    lemma_gift_placeholders();
    reveal_strlit("{name}");
    reveal_strlit("{item}");
    reveal_strlit("每次{name}來都帶著驚喜——這次是麵包！謝謝你記得我。");
    reveal_strlit("每次");
    reveal_strlit("來都帶著驚喜——這次是麵包！謝謝你記得我。");
    assert("每次{name}來都帶著驚喜——這次是麵包！謝謝你記得我。"@ =~= "每次"@ + "{name}"@ + "來都帶著驚喜——這次是麵包！謝謝你記得我。"@);
    assert(non_ascii("每次"@));
    assert(non_ascii("來都帶著驚喜——這次是麵包！謝謝你記得我。"@));
    lemma_fill_slot("每次"@, "{name}"@, "來都帶著驚喜——這次是麵包！謝謝你記得我。"@, player, "{name}"@);
}

proof fn lemma_bread_line_2_2(player: Seq<char>)
    ensures
        replace_all("{name}！你親手做的麵包……我真的很珍惜和你在一起的每一刻。"@, "{name}"@, player).len() > 0,
        seq_contains(replace_all("{name}！你親手做的麵包……我真的很珍惜和你在一起的每一刻。"@, "{name}"@, player), player),
        pat_free(player, "{name}"@) ==> pat_free(replace_all("{name}！你親手做的麵包……我真的很珍惜和你在一起的每一刻。"@, "{name}"@, player), "{name}"@),
{
    lemma_gift_placeholders();
    reveal_strlit("{name}");
    reveal_strlit("{item}");
    reveal_strlit("{name}！你親手做的麵包……我真的很珍惜和你在一起的每一刻。");
    reveal_strlit("");
    reveal_strlit("！你親手做的麵包……我真的很珍惜和你在一起的每一刻。");
    assert("{name}！你親手做的麵包……我真的很珍惜和你在一起的每一刻。"@ =~= ""@ + "{name}"@ + "！你親手做的麵包……我真的很珍惜和你在一起的每一刻。"@);
    assert(non_ascii(""@));
    assert(non_ascii("！你親手做的麵包……我真的很珍惜和你在一起的每一刻。"@));
    lemma_fill_slot(""@, "{name}"@, "！你親手做的麵包……我真的很珍惜和你在一起的每一刻。"@, player, "{name}"@);
}

/// Law: a bread thanks is never empty; it names an acquaintance or a friend, and it holds no
/// {name} placeholder when the player's name holds none.
pub proof fn lemma_bread_thanks_law(player: Seq<char>, affinity: usize, pick: usize)
    ensures
        tiered_thanks(food_gift_pools(), player, affinity, pick).len() > 0,
        thanks_tier(player, affinity) > 0 ==> seq_contains(tiered_thanks(food_gift_pools(), player, affinity, pick), player),
        pat_free(player, "{name}"@) ==> pat_free(tiered_thanks(food_gift_pools(), player, affinity, pick), "{name}"@),
{
    let t = thanks_tier(player, affinity);
    let k = (pick % 3) as int;
    if t == 0 && k == 0 { lemma_bread_line_0_0(); }
    if t == 0 && k == 1 { lemma_bread_line_0_1(); }
    if t == 0 && k == 2 { lemma_bread_line_0_2(); }
    if t == 1 && k == 0 { lemma_bread_line_1_0(player); }
    if t == 1 && k == 1 { lemma_bread_line_1_1(player); }
    if t == 1 && k == 2 { lemma_bread_line_1_2(player); }
    if t == 2 && k == 0 { lemma_bread_line_2_0(player); }
    if t == 2 && k == 1 { lemma_bread_line_2_1(player); }
    if t == 2 && k == 2 { lemma_bread_line_2_2(player); }
}

proof fn lemma_fish_line_0_0()
    ensures
        "哇……是烤魚嗎？好香！你特地烤給我的？謝謝你！"@.len() > 0,
        pat_free("哇……是烤魚嗎？好香！你特地烤給我的？謝謝你！"@, "{name}"@),
{
    lemma_gift_placeholders();
    reveal_strlit("{name}");
    reveal_strlit("{item}");
    reveal_strlit("哇……是烤魚嗎？好香！你特地烤給我的？謝謝你！");
    assert(non_ascii("哇……是烤魚嗎？好香！你特地烤給我的？謝謝你！"@));
    lemma_plain_free("哇……是烤魚嗎？好香！你特地烤給我的？謝謝你！"@, "{name}"@);
}

proof fn lemma_fish_line_0_1()
    ensures
        "熱騰騰的烤魚！我從沒吃過這麼香的，謝謝你！"@.len() > 0,
        pat_free("熱騰騰的烤魚！我從沒吃過這麼香的，謝謝你！"@, "{name}"@),
{
    lemma_gift_placeholders();
    reveal_strlit("{name}");
    reveal_strlit("{item}");
    reveal_strlit("熱騰騰的烤魚！我從沒吃過這麼香的，謝謝你！");
    assert(non_ascii("熱騰騰的烤魚！我從沒吃過這麼香的，謝謝你！"@));
    lemma_plain_free("熱騰騰的烤魚！我從沒吃過這麼香的，謝謝你！"@, "{name}"@);
}

proof fn lemma_fish_line_0_2()
    ensures
        "烤魚耶！你連釣帶烤都是為了我嗎？我好感動。"@.len() > 0,
        pat_free("烤魚耶！你連釣帶烤都是為了我嗎？我好感動。"@, "{name}"@),
{
    lemma_gift_placeholders();
    reveal_strlit("{name}");
    reveal_strlit("{item}");
    reveal_strlit("烤魚耶！你連釣帶烤都是為了我嗎？我好感動。");
    assert(non_ascii("烤魚耶！你連釣帶烤都是為了我嗎？我好感動。"@));
    lemma_plain_free("烤魚耶！你連釣帶烤都是為了我嗎？我好感動。"@, "{name}"@);
}

proof fn lemma_fish_line_1_0(player: Seq<char>)
    ensures
        replace_all("{name}，你把釣來的魚烤好帶給我了！香氣一路飄過來，謝謝你。"@, "{name}"@, player).len() > 0,
        seq_contains(replace_all("{name}，你把釣來的魚烤好帶給我了！香氣一路飄過來，謝謝你。"@, "{name}"@, player), player),
        pat_free(player, "{name}"@) ==> pat_free(replace_all("{name}，你把釣來的魚烤好帶給我了！香氣一路飄過來，謝謝你。"@, "{name}"@, player), "{name}"@),
{
    lemma_gift_placeholders();
    reveal_strlit("{name}");
    reveal_strlit("{item}");
    reveal_strlit("{name}，你把釣來的魚烤好帶給我了！香氣一路飄過來，謝謝你。");
    reveal_strlit("");
    reveal_strlit("，你把釣來的魚烤好帶給我了！香氣一路飄過來，謝謝你。");
    assert("{name}，你把釣來的魚烤好帶給我了！香氣一路飄過來，謝謝你。"@ =~= ""@ + "{name}"@ + "，你把釣來的魚烤好帶給我了！香氣一路飄過來，謝謝你。"@);
    assert(non_ascii(""@));
    assert(non_ascii("，你把釣來的魚烤好帶給我了！香氣一路飄過來，謝謝你。"@));
    lemma_fill_slot(""@, "{name}"@, "，你把釣來的魚烤好帶給我了！香氣一路飄過來，謝謝你。"@, player, "{name}"@);
}

proof fn lemma_fish_line_1_1(player: Seq<char>)
    ensures
        replace_all("{name}！這烤魚外酥內嫩，你的手藝好棒，我要慢慢享用。"@, "{name}"@, player).len() > 0,
        seq_contains(replace_all("{name}！這烤魚外酥內嫩，你的手藝好棒，我要慢慢享用。"@, "{name}"@, player), player),
        pat_free(player, "{name}"@) ==> pat_free(replace_all("{name}！這烤魚外酥內嫩，你的手藝好棒，我要慢慢享用。"@, "{name}"@, player), "{name}"@),
{
    lemma_gift_placeholders();
    reveal_strlit("{name}");
    reveal_strlit("{item}");
    reveal_strlit("{name}！這烤魚外酥內嫩，你的手藝好棒，我要慢慢享用。");
    reveal_strlit("");
    reveal_strlit("！這烤魚外酥內嫩，你的手藝好棒，我要慢慢享用。");
    assert("{name}！這烤魚外酥內嫩，你的手藝好棒，我要慢慢享用。"@ =~= ""@ + "{name}"@ + "！這烤魚外酥內嫩，你的手藝好棒，我要慢慢享用。"@);
    assert(non_ascii(""@));
    assert(non_ascii("！這烤魚外酥內嫩，你的手藝好棒，我要慢慢享用。"@));
    lemma_fill_slot(""@, "{name}"@, "！這烤魚外酥內嫩，你的手藝好棒，我要慢慢享用。"@, player, "{name}"@);
}

proof fn lemma_fish_line_1_2(player: Seq<char>)
    ensures
        replace_all("哇，{name}親手烤的魚！我一聞到就餓了，謝謝你這麼用心。"@, "{name}"@, player).len() > 0,
        seq_contains(replace_all("哇，{name}親手烤的魚！我一聞到就餓了，謝謝你這麼用心。"@, "{name}"@, player), player),
        pat_free(player, "{name}"@) ==> pat_free(replace_all("哇，{name}親手烤的魚！我一聞到就餓了，謝謝你這麼用心。"@, "{name}"@, player), "{name}"@),
{
    lemma_gift_placeholders();
    reveal_strlit("{name}");
    reveal_strlit("{item}");
    reveal_strlit("哇，{name}親手烤的魚！我一聞到就餓了，謝謝你這麼用心。");
    reveal_strlit("哇，");
    reveal_strlit("親手烤的魚！我一聞到就餓了，謝謝你這麼用心。");
    assert("哇，{name}親手烤的魚！我一聞到就餓了，謝謝你這麼用心。"@ =~= "哇，"@ + "{name}"@ + "親手烤的魚！我一聞到就餓了，謝謝你這麼用心。"@);
    assert(non_ascii("哇，"@));
    assert(non_ascii("親手烤的魚！我一聞到就餓了，謝謝你這麼用心。"@));
    lemma_fill_slot("哇，"@, "{name}"@, "親手烤的魚！我一聞到就餓了，謝謝你這麼用心。"@, player, "{name}"@);
}

proof fn lemma_fish_line_2_0(player: Seq<char>)
    ensures
        replace_all("{name}，你總是記得我最愛吃魚……這尾烤魚我會細細品嚐，謝謝你。"@, "{name}"@, player).len() > 0,
        seq_contains(replace_all("{name}，你總是記得我最愛吃魚……這尾烤魚我會細細品嚐，謝謝你。"@, "{name}"@, player), player),
        pat_free(player, "{name}"@) ==> pat_free(replace_all("{name}，你總是記得我最愛吃魚……這尾烤魚我會細細品嚐，謝謝你。"@, "{name}"@, player), "{name}"@),
{
    lemma_gift_placeholders();
    reveal_strlit("{name}");
    reveal_strlit("{item}");
    reveal_strlit("{name}，你總是記得我最愛吃魚……這尾烤魚我會細細品嚐，謝謝你。");
    reveal_strlit("");
    reveal_strlit("，你總是記得我最愛吃魚……這尾烤魚我會細細品嚐，謝謝你。");
    assert("{name}，你總是記得我最愛吃魚……這尾烤魚我會細細品嚐，謝謝你。"@ =~= ""@ + "{name}"@ + "，你總是記得我最愛吃魚……這尾烤魚我會細細品嚐，謝謝你。"@);
    assert(non_ascii(""@));
    assert(non_ascii("，你總是記得我最愛吃魚……這尾烤魚我會細細品嚐，謝謝你。"@));
    lemma_fill_slot(""@, "{name}"@, "，你總是記得我最愛吃魚……這尾烤魚我會細細品嚐，謝謝你。"@, player, "{name}"@);
}

proof fn lemma_fish_line_2_1(player: Seq<char>)
    ensures
        replace_all("每次{name}來都帶著暖意——這次是你親手烤的魚，我真的好幸福。"@, "{name}"@, player).len() > 0,
        seq_contains(replace_all("每次{name}來都帶著暖意——這次是你親手烤的魚，我真的好幸福。"@, "{name}"@, player), player),
        pat_free(player, "{name}"@) ==> pat_free(replace_all("每次{name}來都帶著暖意——這次是你親手烤的魚，我真的好幸福。"@, "{name}"@, player), "{name}"@),
{
    lemma_gift_placeholders();
    reveal_strlit("{name}");
    reveal_strlit("{item}");
    reveal_strlit("每次{name}來都帶著暖意——這次是你親手烤的魚，我真的好幸福。");
    reveal_strlit("每次");
    reveal_strlit("來都帶著暖意——這次是你親手烤的魚，我真的好幸福。");
    assert("每次{name}來都帶著暖意——這次是你親手烤的魚，我真的好幸福。"@ =~= "每次"@ + "{name}"@ + "來都帶著暖意——這次是你親手烤的魚，我真的好幸福。"@);
    assert(non_ascii("每次"@));
    assert(non_ascii("來都帶著暖意——這次是你親手烤的魚，我真的好幸福。"@));
    lemma_fill_slot("每次"@, "{name}"@, "來都帶著暖意——這次是你親手烤的魚，我真的好幸福。"@, player, "{name}"@);
}

proof fn lemma_fish_line_2_2(player: Seq<char>)
    ensures
        replace_all("{name}！從水邊釣起、在爐上烤熟的一尾魚，這份心意我都收下了，謝謝你。"@, "{name}"@, player).len() > 0,
        seq_contains(replace_all("{name}！從水邊釣起、在爐上烤熟的一尾魚，這份心意我都收下了，謝謝你。"@, "{name}"@, player), player),
        pat_free(player, "{name}"@) ==> pat_free(replace_all("{name}！從水邊釣起、在爐上烤熟的一尾魚，這份心意我都收下了，謝謝你。"@, "{name}"@, player), "{name}"@),
{
    lemma_gift_placeholders();
    reveal_strlit("{name}");
    reveal_strlit("{item}");
    reveal_strlit("{name}！從水邊釣起、在爐上烤熟的一尾魚，這份心意我都收下了，謝謝你。");
    reveal_strlit("");
    reveal_strlit("！從水邊釣起、在爐上烤熟的一尾魚，這份心意我都收下了，謝謝你。");
    assert("{name}！從水邊釣起、在爐上烤熟的一尾魚，這份心意我都收下了，謝謝你。"@ =~= ""@ + "{name}"@ + "！從水邊釣起、在爐上烤熟的一尾魚，這份心意我都收下了，謝謝你。"@);
    assert(non_ascii(""@));
    assert(non_ascii("！從水邊釣起、在爐上烤熟的一尾魚，這份心意我都收下了，謝謝你。"@));
    lemma_fill_slot(""@, "{name}"@, "！從水邊釣起、在爐上烤熟的一尾魚，這份心意我都收下了，謝謝你。"@, player, "{name}"@);
}

/// Law: a grilled fish thanks is never empty; it names an acquaintance or a friend, and it holds no
/// {name} placeholder when the player's name holds none.
pub proof fn lemma_fish_thanks_law(player: Seq<char>, affinity: usize, pick: usize)
    ensures
        tiered_thanks(cooked_fish_pools(), player, affinity, pick).len() > 0,
        thanks_tier(player, affinity) > 0 ==> seq_contains(tiered_thanks(cooked_fish_pools(), player, affinity, pick), player),
        pat_free(player, "{name}"@) ==> pat_free(tiered_thanks(cooked_fish_pools(), player, affinity, pick), "{name}"@),
{
    let t = thanks_tier(player, affinity);
    let k = (pick % 3) as int;
    if t == 0 && k == 0 { lemma_fish_line_0_0(); }
    if t == 0 && k == 1 { lemma_fish_line_0_1(); }
    if t == 0 && k == 2 { lemma_fish_line_0_2(); }
    if t == 1 && k == 0 { lemma_fish_line_1_0(player); }
    if t == 1 && k == 1 { lemma_fish_line_1_1(player); }
    if t == 1 && k == 2 { lemma_fish_line_1_2(player); }
    if t == 2 && k == 0 { lemma_fish_line_2_0(player); }
    if t == 2 && k == 1 { lemma_fish_line_2_1(player); }
    if t == 2 && k == 2 { lemma_fish_line_2_2(player); }
}

proof fn lemma_potato_line_0_0()
    ensures
        "哇……是烤地薯嗎？好香！你特地烤給我的？謝謝你！"@.len() > 0,
        pat_free("哇……是烤地薯嗎？好香！你特地烤給我的？謝謝你！"@, "{name}"@),
{
    lemma_gift_placeholders();
    reveal_strlit("{name}");
    reveal_strlit("{item}");
    reveal_strlit("哇……是烤地薯嗎？好香！你特地烤給我的？謝謝你！");
    assert(non_ascii("哇……是烤地薯嗎？好香！你特地烤給我的？謝謝你！"@));
    lemma_plain_free("哇……是烤地薯嗎？好香！你特地烤給我的？謝謝你！"@, "{name}"@);
}

proof fn lemma_potato_line_0_1()
    ensures
        "熱騰騰的烤地薯！剝開來鬆軟冒煙，我從沒吃過這麼香的，謝謝你！"@.len() > 0,
        pat_free("熱騰騰的烤地薯！剝開來鬆軟冒煙，我從沒吃過這麼香的，謝謝你！"@, "{name}"@),
{
    lemma_gift_placeholders();
    reveal_strlit("{name}");
    reveal_strlit("{item}");
    reveal_strlit("熱騰騰的烤地薯！剝開來鬆軟冒煙，我從沒吃過這麼香的，謝謝你！");
    assert(non_ascii("熱騰騰的烤地薯！剝開來鬆軟冒煙，我從沒吃過這麼香的，謝謝你！"@));
    lemma_plain_free("熱騰騰的烤地薯！剝開來鬆軟冒煙，我從沒吃過這麼香的，謝謝你！"@, "{name}"@);
}

proof fn lemma_potato_line_0_2()
    ensures
        "烤地薯耶！你連種帶烤都是為了我嗎？我好感動。"@.len() > 0,
        pat_free("烤地薯耶！你連種帶烤都是為了我嗎？我好感動。"@, "{name}"@),
{
    lemma_gift_placeholders();
    reveal_strlit("{name}");
    reveal_strlit("{item}");
    reveal_strlit("烤地薯耶！你連種帶烤都是為了我嗎？我好感動。");
    assert(non_ascii("烤地薯耶！你連種帶烤都是為了我嗎？我好感動。"@));
    lemma_plain_free("烤地薯耶！你連種帶烤都是為了我嗎？我好感動。"@, "{name}"@);
}

proof fn lemma_potato_line_1_0(player: Seq<char>)
    ensures
        replace_all("{name}，你把自己種的馬鈴薯烤好帶給我了！香氣一路飄過來，謝謝你。"@, "{name}"@, player).len() > 0,
        seq_contains(replace_all("{name}，你把自己種的馬鈴薯烤好帶給我了！香氣一路飄過來，謝謝你。"@, "{name}"@, player), player),
        pat_free(player, "{name}"@) ==> pat_free(replace_all("{name}，你把自己種的馬鈴薯烤好帶給我了！香氣一路飄過來，謝謝你。"@, "{name}"@, player), "{name}"@),
{
    lemma_gift_placeholders();
    reveal_strlit("{name}");
    reveal_strlit("{item}");
    reveal_strlit("{name}，你把自己種的馬鈴薯烤好帶給我了！香氣一路飄過來，謝謝你。");
    reveal_strlit("");
    reveal_strlit("，你把自己種的馬鈴薯烤好帶給我了！香氣一路飄過來，謝謝你。");
    assert("{name}，你把自己種的馬鈴薯烤好帶給我了！香氣一路飄過來，謝謝你。"@ =~= ""@ + "{name}"@ + "，你把自己種的馬鈴薯烤好帶給我了！香氣一路飄過來，謝謝你。"@);
    assert(non_ascii(""@));
    assert(non_ascii("，你把自己種的馬鈴薯烤好帶給我了！香氣一路飄過來，謝謝你。"@));
    lemma_fill_slot(""@, "{name}"@, "，你把自己種的馬鈴薯烤好帶給我了！香氣一路飄過來，謝謝你。"@, player, "{name}"@);
}

proof fn lemma_potato_line_1_1(player: Seq<char>)
    ensures
        replace_all("{name}！這烤地薯外皮焦香、裡頭鬆軟，你的手藝好棒，我要慢慢享用。"@, "{name}"@, player).len() > 0,
        seq_contains(replace_all("{name}！這烤地薯外皮焦香、裡頭鬆軟，你的手藝好棒，我要慢慢享用。"@, "{name}"@, player), player),
        pat_free(player, "{name}"@) ==> pat_free(replace_all("{name}！這烤地薯外皮焦香、裡頭鬆軟，你的手藝好棒，我要慢慢享用。"@, "{name}"@, player), "{name}"@),
{
    lemma_gift_placeholders();
    reveal_strlit("{name}");
    reveal_strlit("{item}");
    reveal_strlit("{name}！這烤地薯外皮焦香、裡頭鬆軟，你的手藝好棒，我要慢慢享用。");
    reveal_strlit("");
    reveal_strlit("！這烤地薯外皮焦香、裡頭鬆軟，你的手藝好棒，我要慢慢享用。");
    assert("{name}！這烤地薯外皮焦香、裡頭鬆軟，你的手藝好棒，我要慢慢享用。"@ =~= ""@ + "{name}"@ + "！這烤地薯外皮焦香、裡頭鬆軟，你的手藝好棒，我要慢慢享用。"@);
    assert(non_ascii(""@));
    assert(non_ascii("！這烤地薯外皮焦香、裡頭鬆軟，你的手藝好棒，我要慢慢享用。"@));
    lemma_fill_slot(""@, "{name}"@, "！這烤地薯外皮焦香、裡頭鬆軟，你的手藝好棒，我要慢慢享用。"@, player, "{name}"@);
}

proof fn lemma_potato_line_1_2(player: Seq<char>)
    ensures
        replace_all("哇，{name}親手烤的地薯！我一聞到就餓了，謝謝你這麼用心。"@, "{name}"@, player).len() > 0,
        seq_contains(replace_all("哇，{name}親手烤的地薯！我一聞到就餓了，謝謝你這麼用心。"@, "{name}"@, player), player),
        pat_free(player, "{name}"@) ==> pat_free(replace_all("哇，{name}親手烤的地薯！我一聞到就餓了，謝謝你這麼用心。"@, "{name}"@, player), "{name}"@),
{
    lemma_gift_placeholders();
    reveal_strlit("{name}");
    reveal_strlit("{item}");
    reveal_strlit("哇，{name}親手烤的地薯！我一聞到就餓了，謝謝你這麼用心。");
    reveal_strlit("哇，");
    reveal_strlit("親手烤的地薯！我一聞到就餓了，謝謝你這麼用心。");
    assert("哇，{name}親手烤的地薯！我一聞到就餓了，謝謝你這麼用心。"@ =~= "哇，"@ + "{name}"@ + "親手烤的地薯！我一聞到就餓了，謝謝你這麼用心。"@);
    assert(non_ascii("哇，"@));
    assert(non_ascii("親手烤的地薯！我一聞到就餓了，謝謝你這麼用心。"@));
    lemma_fill_slot("哇，"@, "{name}"@, "親手烤的地薯！我一聞到就餓了，謝謝你這麼用心。"@, player, "{name}"@);
}

proof fn lemma_potato_line_2_0(player: Seq<char>)
    ensures
        replace_all("{name}，你總是記得我愛吃暖呼呼的東西……這顆烤地薯我會細細品嚐，謝謝你。"@, "{name}"@, player).len() > 0,
        seq_contains(replace_all("{name}，你總是記得我愛吃暖呼呼的東西……這顆烤地薯我會細細品嚐，謝謝你。"@, "{name}"@, player), player),
        pat_free(player, "{name}"@) ==> pat_free(replace_all("{name}，你總是記得我愛吃暖呼呼的東西……這顆烤地薯我會細細品嚐，謝謝你。"@, "{name}"@, player), "{name}"@),
{
    lemma_gift_placeholders();
    reveal_strlit("{name}");
    reveal_strlit("{item}");
    reveal_strlit("{name}，你總是記得我愛吃暖呼呼的東西……這顆烤地薯我會細細品嚐，謝謝你。");
    reveal_strlit("");
    reveal_strlit("，你總是記得我愛吃暖呼呼的東西……這顆烤地薯我會細細品嚐，謝謝你。");
    assert("{name}，你總是記得我愛吃暖呼呼的東西……這顆烤地薯我會細細品嚐，謝謝你。"@ =~= ""@ + "{name}"@ + "，你總是記得我愛吃暖呼呼的東西……這顆烤地薯我會細細品嚐，謝謝你。"@);
    assert(non_ascii(""@));
    assert(non_ascii("，你總是記得我愛吃暖呼呼的東西……這顆烤地薯我會細細品嚐，謝謝你。"@));
    lemma_fill_slot(""@, "{name}"@, "，你總是記得我愛吃暖呼呼的東西……這顆烤地薯我會細細品嚐，謝謝你。"@, player, "{name}"@);
}

proof fn lemma_potato_line_2_1(player: Seq<char>)
    ensures
        replace_all("每次{name}來都帶著暖意——這次是你親手種、親手烤的地薯，我真的好幸福。"@, "{name}"@, player).len() > 0,
        seq_contains(replace_all("每次{name}來都帶著暖意——這次是你親手種、親手烤的地薯，我真的好幸福。"@, "{name}"@, player), player),
        pat_free(player, "{name}"@) ==> pat_free(replace_all("每次{name}來都帶著暖意——這次是你親手種、親手烤的地薯，我真的好幸福。"@, "{name}"@, player), "{name}"@),
{
    lemma_gift_placeholders();
    reveal_strlit("{name}");
    reveal_strlit("{item}");
    reveal_strlit("每次{name}來都帶著暖意——這次是你親手種、親手烤的地薯，我真的好幸福。");
    reveal_strlit("每次");
    reveal_strlit("來都帶著暖意——這次是你親手種、親手烤的地薯，我真的好幸福。");
    assert("每次{name}來都帶著暖意——這次是你親手種、親手烤的地薯，我真的好幸福。"@ =~= "每次"@ + "{name}"@ + "來都帶著暖意——這次是你親手種、親手烤的地薯，我真的好幸福。"@);
    assert(non_ascii("每次"@));
    assert(non_ascii("來都帶著暖意——這次是你親手種、親手烤的地薯，我真的好幸福。"@));
    lemma_fill_slot("每次"@, "{name}"@, "來都帶著暖意——這次是你親手種、親手烤的地薯，我真的好幸福。"@, player, "{name}"@);
}

proof fn lemma_potato_line_2_2(player: Seq<char>)
    ensures
        replace_all("{name}！從田裡挖起、在爐上烤熟的一顆地薯，這份心意我都收下了，謝謝你。"@, "{name}"@, player).len() > 0,
        seq_contains(replace_all("{name}！從田裡挖起、在爐上烤熟的一顆地薯，這份心意我都收下了，謝謝你。"@, "{name}"@, player), player),
        pat_free(player, "{name}"@) ==> pat_free(replace_all("{name}！從田裡挖起、在爐上烤熟的一顆地薯，這份心意我都收下了，謝謝你。"@, "{name}"@, player), "{name}"@),
{
    lemma_gift_placeholders();
    reveal_strlit("{name}");
    reveal_strlit("{item}");
    reveal_strlit("{name}！從田裡挖起、在爐上烤熟的一顆地薯，這份心意我都收下了，謝謝你。");
    reveal_strlit("");
    reveal_strlit("！從田裡挖起、在爐上烤熟的一顆地薯，這份心意我都收下了，謝謝你。");
    assert("{name}！從田裡挖起、在爐上烤熟的一顆地薯，這份心意我都收下了，謝謝你。"@ =~= ""@ + "{name}"@ + "！從田裡挖起、在爐上烤熟的一顆地薯，這份心意我都收下了，謝謝你。"@);
    assert(non_ascii(""@));
    assert(non_ascii("！從田裡挖起、在爐上烤熟的一顆地薯，這份心意我都收下了，謝謝你。"@));
    lemma_fill_slot(""@, "{name}"@, "！從田裡挖起、在爐上烤熟的一顆地薯，這份心意我都收下了，謝謝你。"@, player, "{name}"@);
}

/// Law: a baked potato thanks is never empty; it names an acquaintance or a friend, and it holds no
/// {name} placeholder when the player's name holds none.
pub proof fn lemma_potato_thanks_law(player: Seq<char>, affinity: usize, pick: usize)
    ensures
        tiered_thanks(baked_potato_pools(), player, affinity, pick).len() > 0,
        thanks_tier(player, affinity) > 0 ==> seq_contains(tiered_thanks(baked_potato_pools(), player, affinity, pick), player),
        pat_free(player, "{name}"@) ==> pat_free(tiered_thanks(baked_potato_pools(), player, affinity, pick), "{name}"@),
{
    let t = thanks_tier(player, affinity);
    let k = (pick % 3) as int;
    if t == 0 && k == 0 { lemma_potato_line_0_0(); }
    if t == 0 && k == 1 { lemma_potato_line_0_1(); }
    if t == 0 && k == 2 { lemma_potato_line_0_2(); }
    if t == 1 && k == 0 { lemma_potato_line_1_0(player); }
    if t == 1 && k == 1 { lemma_potato_line_1_1(player); }
    if t == 1 && k == 2 { lemma_potato_line_1_2(player); }
    if t == 2 && k == 0 { lemma_potato_line_2_0(player); }
    if t == 2 && k == 1 { lemma_potato_line_2_1(player); }
    if t == 2 && k == 2 { lemma_potato_line_2_2(player); }
}

proof fn lemma_crystal_line_0_0()
    ensures
        "哇……這是雪原的冰晶嗎？好美，謝謝你！"@.len() > 0,
        pat_free("哇……這是雪原的冰晶嗎？好美，謝謝你！"@, "{name}"@),
        seq_contains("哇……這是雪原的冰晶嗎？好美，謝謝你！"@, "冰晶"@),
{
    lemma_gift_placeholders();
    reveal_strlit("{name}");
    reveal_strlit("{item}");
    reveal_strlit("哇……這是雪原的冰晶嗎？好美，謝謝你！");
    reveal_strlit("冰晶");
    assert(non_ascii("哇……這是雪原的冰晶嗎？好美，謝謝你！"@));
    lemma_plain_free("哇……這是雪原的冰晶嗎？好美，謝謝你！"@, "{name}"@);
    assert("哇……這是雪原的冰晶嗎？好美，謝謝你！"@.subrange(8, 10) =~= "冰晶"@);
    assert(occurs_at("哇……這是雪原的冰晶嗎？好美，謝謝你！"@, "冰晶"@, 8));
}

proof fn lemma_crystal_line_0_1()
    ensures
        "冰晶！我聽說過這種寶物，卻是第一次親眼看到，謝謝你。"@.len() > 0,
        pat_free("冰晶！我聽說過這種寶物，卻是第一次親眼看到，謝謝你。"@, "{name}"@),
        seq_contains("冰晶！我聽說過這種寶物，卻是第一次親眼看到，謝謝你。"@, "冰晶"@),
{
    lemma_gift_placeholders();
    reveal_strlit("{name}");
    reveal_strlit("{item}");
    reveal_strlit("冰晶！我聽說過這種寶物，卻是第一次親眼看到，謝謝你。");
    reveal_strlit("冰晶");
    assert(non_ascii("冰晶！我聽說過這種寶物，卻是第一次親眼看到，謝謝你。"@));
    lemma_plain_free("冰晶！我聽說過這種寶物，卻是第一次親眼看到，謝謝你。"@, "{name}"@);
    assert("冰晶！我聽說過這種寶物，卻是第一次親眼看到，謝謝你。"@.subrange(0, 2) =~= "冰晶"@);
    assert(occurs_at("冰晶！我聽說過這種寶物，卻是第一次親眼看到，謝謝你。"@, "冰晶"@, 0));
}

proof fn lemma_crystal_line_0_2()
    ensures
        "這麼閃亮的冰晶……你特地為我從雪原帶回來的嗎？"@.len() > 0,
        pat_free("這麼閃亮的冰晶……你特地為我從雪原帶回來的嗎？"@, "{name}"@),
        seq_contains("這麼閃亮的冰晶……你特地為我從雪原帶回來的嗎？"@, "冰晶"@),
{
    lemma_gift_placeholders();
    reveal_strlit("{name}");
    reveal_strlit("{item}");
    reveal_strlit("這麼閃亮的冰晶……你特地為我從雪原帶回來的嗎？");
    reveal_strlit("冰晶");
    assert(non_ascii("這麼閃亮的冰晶……你特地為我從雪原帶回來的嗎？"@));
    lemma_plain_free("這麼閃亮的冰晶……你特地為我從雪原帶回來的嗎？"@, "{name}"@);
    assert("這麼閃亮的冰晶……你特地為我從雪原帶回來的嗎？"@.subrange(5, 7) =~= "冰晶"@);
    assert(occurs_at("這麼閃亮的冰晶……你特地為我從雪原帶回來的嗎？"@, "冰晶"@, 5));
}

proof fn lemma_crystal_line_1_0(player: Seq<char>)
    ensures
        replace_all("{name}！你竟然為我跑到雪原採了冰晶……我會一輩子珍藏它。"@, "{name}"@, player).len() > 0,
        seq_contains(replace_all("{name}！你竟然為我跑到雪原採了冰晶……我會一輩子珍藏它。"@, "{name}"@, player), player),
        seq_contains(replace_all("{name}！你竟然為我跑到雪原採了冰晶……我會一輩子珍藏它。"@, "{name}"@, player), "冰晶"@),
        pat_free(player, "{name}"@) ==> pat_free(replace_all("{name}！你竟然為我跑到雪原採了冰晶……我會一輩子珍藏它。"@, "{name}"@, player), "{name}"@),
{
    lemma_gift_placeholders();
    assert(replace_all("{name}！你竟然為我跑到雪原採了冰晶……我會一輩子珍藏它。"@, "{name}"@, player) == ""@ + player + "！你竟然為我跑到雪原採了冰晶……我會一輩子珍藏它。"@ && seq_contains(""@ + player + "！你竟然為我跑到雪原採了冰晶……我會一輩子珍藏它。"@, player) && (pat_free(player, "{name}"@) ==> pat_free(""@ + player + "！你竟然為我跑到雪原採了冰晶……我會一輩子珍藏它。"@, "{name}"@))) by {
        reveal_strlit("{name}");
        reveal_strlit("{name}！你竟然為我跑到雪原採了冰晶……我會一輩子珍藏它。");
        reveal_strlit("");
        reveal_strlit("！你竟然為我跑到雪原採了冰晶……我會一輩子珍藏它。");
        assert("{name}！你竟然為我跑到雪原採了冰晶……我會一輩子珍藏它。"@ =~= ""@ + "{name}"@ + "！你竟然為我跑到雪原採了冰晶……我會一輩子珍藏它。"@);
        assert(non_ascii(""@));
        assert(non_ascii("！你竟然為我跑到雪原採了冰晶……我會一輩子珍藏它。"@));
        lemma_fill_slot(""@, "{name}"@, "！你竟然為我跑到雪原採了冰晶……我會一輩子珍藏它。"@, player, "{name}"@);
    }
    assert(occurs_at("！你竟然為我跑到雪原採了冰晶……我會一輩子珍藏它。"@, "冰晶"@, 12)) by {
        reveal_strlit("！你竟然為我跑到雪原採了冰晶……我會一輩子珍藏它。");
        reveal_strlit("冰晶");
        assert("！你竟然為我跑到雪原採了冰晶……我會一輩子珍藏它。"@.subrange(12, 14) =~= "冰晶"@);
    }
    lemma_contains_in_tail(""@ + player, "！你竟然為我跑到雪原採了冰晶……我會一輩子珍藏它。"@, "冰晶"@);
}

proof fn lemma_crystal_line_1_1(player: Seq<char>)
    ensures
        replace_all("{name}，這冰晶在陽光下閃著寒光，好珍貴——謝謝你想著我。"@, "{name}"@, player).len() > 0,
        seq_contains(replace_all("{name}，這冰晶在陽光下閃著寒光，好珍貴——謝謝你想著我。"@, "{name}"@, player), player),
        seq_contains(replace_all("{name}，這冰晶在陽光下閃著寒光，好珍貴——謝謝你想著我。"@, "{name}"@, player), "冰晶"@),
        pat_free(player, "{name}"@) ==> pat_free(replace_all("{name}，這冰晶在陽光下閃著寒光，好珍貴——謝謝你想著我。"@, "{name}"@, player), "{name}"@),
{
    lemma_gift_placeholders();
    assert(replace_all("{name}，這冰晶在陽光下閃著寒光，好珍貴——謝謝你想著我。"@, "{name}"@, player) == ""@ + player + "，這冰晶在陽光下閃著寒光，好珍貴——謝謝你想著我。"@ && seq_contains(""@ + player + "，這冰晶在陽光下閃著寒光，好珍貴——謝謝你想著我。"@, player) && (pat_free(player, "{name}"@) ==> pat_free(""@ + player + "，這冰晶在陽光下閃著寒光，好珍貴——謝謝你想著我。"@, "{name}"@))) by {
        reveal_strlit("{name}");
        reveal_strlit("{name}，這冰晶在陽光下閃著寒光，好珍貴——謝謝你想著我。");
        reveal_strlit("");
        reveal_strlit("，這冰晶在陽光下閃著寒光，好珍貴——謝謝你想著我。");
        assert("{name}，這冰晶在陽光下閃著寒光，好珍貴——謝謝你想著我。"@ =~= ""@ + "{name}"@ + "，這冰晶在陽光下閃著寒光，好珍貴——謝謝你想著我。"@);
        assert(non_ascii(""@));
        assert(non_ascii("，這冰晶在陽光下閃著寒光，好珍貴——謝謝你想著我。"@));
        lemma_fill_slot(""@, "{name}"@, "，這冰晶在陽光下閃著寒光，好珍貴——謝謝你想著我。"@, player, "{name}"@);
    }
    assert(occurs_at("，這冰晶在陽光下閃著寒光，好珍貴——謝謝你想著我。"@, "冰晶"@, 2)) by {
        reveal_strlit("，這冰晶在陽光下閃著寒光，好珍貴——謝謝你想著我。");
        reveal_strlit("冰晶");
        assert("，這冰晶在陽光下閃著寒光，好珍貴——謝謝你想著我。"@.subrange(2, 4) =~= "冰晶"@);
    }
    lemma_contains_in_tail(""@ + player, "，這冰晶在陽光下閃著寒光，好珍貴——謝謝你想著我。"@, "冰晶"@);
}

proof fn lemma_crystal_line_1_2(player: Seq<char>)
    ensures
        replace_all("能收到{name}帶回來的雪原冰晶，我覺得自己是最幸福的人。"@, "{name}"@, player).len() > 0,
        seq_contains(replace_all("能收到{name}帶回來的雪原冰晶，我覺得自己是最幸福的人。"@, "{name}"@, player), player),
        seq_contains(replace_all("能收到{name}帶回來的雪原冰晶，我覺得自己是最幸福的人。"@, "{name}"@, player), "冰晶"@),
        pat_free(player, "{name}"@) ==> pat_free(replace_all("能收到{name}帶回來的雪原冰晶，我覺得自己是最幸福的人。"@, "{name}"@, player), "{name}"@),
{
    lemma_gift_placeholders();
    assert(replace_all("能收到{name}帶回來的雪原冰晶，我覺得自己是最幸福的人。"@, "{name}"@, player) == "能收到"@ + player + "帶回來的雪原冰晶，我覺得自己是最幸福的人。"@ && seq_contains("能收到"@ + player + "帶回來的雪原冰晶，我覺得自己是最幸福的人。"@, player) && (pat_free(player, "{name}"@) ==> pat_free("能收到"@ + player + "帶回來的雪原冰晶，我覺得自己是最幸福的人。"@, "{name}"@))) by {
        reveal_strlit("{name}");
        reveal_strlit("能收到{name}帶回來的雪原冰晶，我覺得自己是最幸福的人。");
        reveal_strlit("能收到");
        reveal_strlit("帶回來的雪原冰晶，我覺得自己是最幸福的人。");
        assert("能收到{name}帶回來的雪原冰晶，我覺得自己是最幸福的人。"@ =~= "能收到"@ + "{name}"@ + "帶回來的雪原冰晶，我覺得自己是最幸福的人。"@);
        assert(non_ascii("能收到"@));
        assert(non_ascii("帶回來的雪原冰晶，我覺得自己是最幸福的人。"@));
        lemma_fill_slot("能收到"@, "{name}"@, "帶回來的雪原冰晶，我覺得自己是最幸福的人。"@, player, "{name}"@);
    }
    assert(occurs_at("帶回來的雪原冰晶，我覺得自己是最幸福的人。"@, "冰晶"@, 6)) by {
        reveal_strlit("帶回來的雪原冰晶，我覺得自己是最幸福的人。");
        reveal_strlit("冰晶");
        assert("帶回來的雪原冰晶，我覺得自己是最幸福的人。"@.subrange(6, 8) =~= "冰晶"@);
    }
    lemma_contains_in_tail("能收到"@ + player, "帶回來的雪原冰晶，我覺得自己是最幸福的人。"@, "冰晶"@);
}

/// Law: a crystal thanks is never empty and always speaks of the crystal (冰晶). A guest's
/// line does not depend on the player; for a known player it names the player, depends on
/// the affinity only in that she knows them, and holds no {name} when the name holds none.
pub proof fn lemma_treasure_thanks_law(player: Seq<char>, affinity: usize, pick: usize)
    ensures
        treasure_thanks(player, affinity, pick).len() > 0,
        seq_contains(treasure_thanks(player, affinity, pick), "冰晶"@),
        affinity == 0 || player.len() == 0 ==> treasure_thanks(player, affinity, pick) == treasure_pools()[0][(pick % 3) as int],
        affinity >= 1 && player.len() > 0 ==> seq_contains(treasure_thanks(player, affinity, pick), player) && treasure_thanks(player, affinity, pick) == treasure_thanks(player, 1, pick),
        pat_free(player, "{name}"@) ==> pat_free(treasure_thanks(player, affinity, pick), "{name}"@),
{
    let t: int = if affinity == 0 || player.len() == 0 { 0 } else { 1 };
    let k = (pick % 3) as int;
    if t == 0 && k == 0 { lemma_crystal_line_0_0(); }
    if t == 0 && k == 1 { lemma_crystal_line_0_1(); }
    if t == 0 && k == 2 { lemma_crystal_line_0_2(); }
    if t == 1 && k == 0 { lemma_crystal_line_1_0(player); }
    if t == 1 && k == 1 { lemma_crystal_line_1_1(player); }
    if t == 1 && k == 2 { lemma_crystal_line_1_2(player); }
}

proof fn lemma_gift_line_0_0(item: Seq<char>)
    ensures
        replace_all("哦？送我{item}？謝謝你的心意！"@, "{item}"@, item).len() > 0,
        seq_contains(replace_all("哦？送我{item}？謝謝你的心意！"@, "{item}"@, item), item),
        pat_free(item, "{item}"@) ==> pat_free(replace_all("哦？送我{item}？謝謝你的心意！"@, "{item}"@, item), "{item}"@),
        pat_free(item, "{name}"@) ==> pat_free(replace_all("哦？送我{item}？謝謝你的心意！"@, "{item}"@, item), "{name}"@),
{
    lemma_gift_placeholders();
    reveal_strlit("{name}");
    reveal_strlit("{item}");
    reveal_strlit("哦？送我{item}？謝謝你的心意！");
    reveal_strlit("哦？送我");
    reveal_strlit("？謝謝你的心意！");
    assert("哦？送我{item}？謝謝你的心意！"@ =~= "哦？送我"@ + "{item}"@ + "？謝謝你的心意！"@);
    assert(non_ascii("哦？送我"@));
    assert(non_ascii("？謝謝你的心意！"@));
    lemma_fill_slot("哦？送我"@, "{item}"@, "？謝謝你的心意！"@, item, "{name}"@);
}

proof fn lemma_gift_line_0_1(item: Seq<char>)
    ensures
        replace_all("這……{item}？我收下了，感謝你。"@, "{item}"@, item).len() > 0,
        seq_contains(replace_all("這……{item}？我收下了，感謝你。"@, "{item}"@, item), item),
        pat_free(item, "{item}"@) ==> pat_free(replace_all("這……{item}？我收下了，感謝你。"@, "{item}"@, item), "{item}"@),
        pat_free(item, "{name}"@) ==> pat_free(replace_all("這……{item}？我收下了，感謝你。"@, "{item}"@, item), "{name}"@),
{
    lemma_gift_placeholders();
    reveal_strlit("{name}");
    reveal_strlit("{item}");
    reveal_strlit("這……{item}？我收下了，感謝你。");
    reveal_strlit("這……");
    reveal_strlit("？我收下了，感謝你。");
    assert("這……{item}？我收下了，感謝你。"@ =~= "這……"@ + "{item}"@ + "？我收下了，感謝你。"@);
    assert(non_ascii("這……"@));
    assert(non_ascii("？我收下了，感謝你。"@));
    lemma_fill_slot("這……"@, "{item}"@, "？我收下了，感謝你。"@, item, "{name}"@);
}

proof fn lemma_gift_line_0_2(item: Seq<char>)
    ensures
        replace_all("謝謝！你送我{item}，我很高興。"@, "{item}"@, item).len() > 0,
        seq_contains(replace_all("謝謝！你送我{item}，我很高興。"@, "{item}"@, item), item),
        pat_free(item, "{item}"@) ==> pat_free(replace_all("謝謝！你送我{item}，我很高興。"@, "{item}"@, item), "{item}"@),
        pat_free(item, "{name}"@) ==> pat_free(replace_all("謝謝！你送我{item}，我很高興。"@, "{item}"@, item), "{name}"@),
{
    lemma_gift_placeholders();
    reveal_strlit("{name}");
    reveal_strlit("{item}");
    reveal_strlit("謝謝！你送我{item}，我很高興。");
    reveal_strlit("謝謝！你送我");
    reveal_strlit("，我很高興。");
    assert("謝謝！你送我{item}，我很高興。"@ =~= "謝謝！你送我"@ + "{item}"@ + "，我很高興。"@);
    assert(non_ascii("謝謝！你送我"@));
    assert(non_ascii("，我很高興。"@));
    lemma_fill_slot("謝謝！你送我"@, "{item}"@, "，我很高興。"@, item, "{name}"@);
}

proof fn lemma_gift_line_1_0(item: Seq<char>, player: Seq<char>)
    requires
        pat_free(player, "{item}"@),
    ensures
        replace_all(replace_all("{name}，謝謝你帶來{item}！"@, "{name}"@, player), "{item}"@, item).len() > 0,
        seq_contains(replace_all(replace_all("{name}，謝謝你帶來{item}！"@, "{name}"@, player), "{item}"@, item), item),
        seq_contains(replace_all(replace_all("{name}，謝謝你帶來{item}！"@, "{name}"@, player), "{item}"@, item), player),
        pat_free(item, "{item}"@) ==> pat_free(replace_all(replace_all("{name}，謝謝你帶來{item}！"@, "{name}"@, player), "{item}"@, item), "{item}"@),
        pat_free(item, "{name}"@) && pat_free(player, "{name}"@) ==> pat_free(replace_all(replace_all("{name}，謝謝你帶來{item}！"@, "{name}"@, player), "{item}"@, item), "{name}"@),
{
    lemma_gift_placeholders();
    reveal_strlit("{name}");
    reveal_strlit("{item}");
    reveal_strlit("{name}，謝謝你帶來{item}！");
    reveal_strlit("");
    reveal_strlit("，謝謝你帶來");
    reveal_strlit("！");
    assert("{name}，謝謝你帶來{item}！"@ =~= ""@ + "{name}"@ + "，謝謝你帶來"@ + "{item}"@ + "！"@);
    assert(non_ascii(""@));
    assert(non_ascii("，謝謝你帶來"@));
    assert(non_ascii("！"@));
    lemma_fill_slots(""@, "{name}"@, "，謝謝你帶來"@, "{item}"@, "！"@, player, item);
}

proof fn lemma_gift_line_1_1(item: Seq<char>, player: Seq<char>)
    requires
        pat_free(player, "{item}"@),
    ensures
        replace_all(replace_all("{name}！這份{item}我很喜歡，謝謝你。"@, "{name}"@, player), "{item}"@, item).len() > 0,
        seq_contains(replace_all(replace_all("{name}！這份{item}我很喜歡，謝謝你。"@, "{name}"@, player), "{item}"@, item), item),
        seq_contains(replace_all(replace_all("{name}！這份{item}我很喜歡，謝謝你。"@, "{name}"@, player), "{item}"@, item), player),
        pat_free(item, "{item}"@) ==> pat_free(replace_all(replace_all("{name}！這份{item}我很喜歡，謝謝你。"@, "{name}"@, player), "{item}"@, item), "{item}"@),
        pat_free(item, "{name}"@) && pat_free(player, "{name}"@) ==> pat_free(replace_all(replace_all("{name}！這份{item}我很喜歡，謝謝你。"@, "{name}"@, player), "{item}"@, item), "{name}"@),
{
    lemma_gift_placeholders();
    reveal_strlit("{name}");
    reveal_strlit("{item}");
    reveal_strlit("{name}！這份{item}我很喜歡，謝謝你。");
    reveal_strlit("");
    reveal_strlit("！這份");
    reveal_strlit("我很喜歡，謝謝你。");
    assert("{name}！這份{item}我很喜歡，謝謝你。"@ =~= ""@ + "{name}"@ + "！這份"@ + "{item}"@ + "我很喜歡，謝謝你。"@);
    assert(non_ascii(""@));
    assert(non_ascii("！這份"@));
    assert(non_ascii("我很喜歡，謝謝你。"@));
    lemma_fill_slots(""@, "{name}"@, "！這份"@, "{item}"@, "我很喜歡，謝謝你。"@, player, item);
}

proof fn lemma_gift_line_1_2(item: Seq<char>, player: Seq<char>)
    requires
        pat_free(player, "{item}"@),
    ensures
        replace_all(replace_all("啊，{name}，你送我{item}～我好開心。"@, "{name}"@, player), "{item}"@, item).len() > 0,
        seq_contains(replace_all(replace_all("啊，{name}，你送我{item}～我好開心。"@, "{name}"@, player), "{item}"@, item), item),
        seq_contains(replace_all(replace_all("啊，{name}，你送我{item}～我好開心。"@, "{name}"@, player), "{item}"@, item), player),
        pat_free(item, "{item}"@) ==> pat_free(replace_all(replace_all("啊，{name}，你送我{item}～我好開心。"@, "{name}"@, player), "{item}"@, item), "{item}"@),
        pat_free(item, "{name}"@) && pat_free(player, "{name}"@) ==> pat_free(replace_all(replace_all("啊，{name}，你送我{item}～我好開心。"@, "{name}"@, player), "{item}"@, item), "{name}"@),
{
    lemma_gift_placeholders();
    reveal_strlit("{name}");
    reveal_strlit("{item}");
    reveal_strlit("啊，{name}，你送我{item}～我好開心。");
    reveal_strlit("啊，");
    reveal_strlit("，你送我");
    reveal_strlit("～我好開心。");
    assert("啊，{name}，你送我{item}～我好開心。"@ =~= "啊，"@ + "{name}"@ + "，你送我"@ + "{item}"@ + "～我好開心。"@);
    assert(non_ascii("啊，"@));
    assert(non_ascii("，你送我"@));
    assert(non_ascii("～我好開心。"@));
    lemma_fill_slots("啊，"@, "{name}"@, "，你送我"@, "{item}"@, "～我好開心。"@, player, item);
}

proof fn lemma_gift_line_2_0(item: Seq<char>, player: Seq<char>)
    requires
        pat_free(player, "{item}"@),
    ensures
        replace_all(replace_all("{name}，你總是這樣照顧我……這份{item}我會好好珍藏。"@, "{name}"@, player), "{item}"@, item).len() > 0,
        seq_contains(replace_all(replace_all("{name}，你總是這樣照顧我……這份{item}我會好好珍藏。"@, "{name}"@, player), "{item}"@, item), item),
        seq_contains(replace_all(replace_all("{name}，你總是這樣照顧我……這份{item}我會好好珍藏。"@, "{name}"@, player), "{item}"@, item), player),
        pat_free(item, "{item}"@) ==> pat_free(replace_all(replace_all("{name}，你總是這樣照顧我……這份{item}我會好好珍藏。"@, "{name}"@, player), "{item}"@, item), "{item}"@),
        pat_free(item, "{name}"@) && pat_free(player, "{name}"@) ==> pat_free(replace_all(replace_all("{name}，你總是這樣照顧我……這份{item}我會好好珍藏。"@, "{name}"@, player), "{item}"@, item), "{name}"@),
{
    lemma_gift_placeholders();
    reveal_strlit("{name}");
    reveal_strlit("{item}");
    reveal_strlit("{name}，你總是這樣照顧我……這份{item}我會好好珍藏。");
    reveal_strlit("");
    reveal_strlit("，你總是這樣照顧我……這份");
    reveal_strlit("我會好好珍藏。");
    assert("{name}，你總是這樣照顧我……這份{item}我會好好珍藏。"@ =~= ""@ + "{name}"@ + "，你總是這樣照顧我……這份"@ + "{item}"@ + "我會好好珍藏。"@);
    assert(non_ascii(""@));
    assert(non_ascii("，你總是這樣照顧我……這份"@));
    assert(non_ascii("我會好好珍藏。"@));
    lemma_fill_slots(""@, "{name}"@, "，你總是這樣照顧我……這份"@, "{item}"@, "我會好好珍藏。"@, player, item);
}

proof fn lemma_gift_line_2_1(item: Seq<char>, player: Seq<char>)
    requires
        pat_free(player, "{item}"@),
    ensures
        replace_all(replace_all("能有{name}這樣的朋友，我很幸運。謝謝這份{item}。"@, "{name}"@, player), "{item}"@, item).len() > 0,
        seq_contains(replace_all(replace_all("能有{name}這樣的朋友，我很幸運。謝謝這份{item}。"@, "{name}"@, player), "{item}"@, item), item),
        seq_contains(replace_all(replace_all("能有{name}這樣的朋友，我很幸運。謝謝這份{item}。"@, "{name}"@, player), "{item}"@, item), player),
        pat_free(item, "{item}"@) ==> pat_free(replace_all(replace_all("能有{name}這樣的朋友，我很幸運。謝謝這份{item}。"@, "{name}"@, player), "{item}"@, item), "{item}"@),
        pat_free(item, "{name}"@) && pat_free(player, "{name}"@) ==> pat_free(replace_all(replace_all("能有{name}這樣的朋友，我很幸運。謝謝這份{item}。"@, "{name}"@, player), "{item}"@, item), "{name}"@),
{
    lemma_gift_placeholders();
    reveal_strlit("{name}");
    reveal_strlit("{item}");
    reveal_strlit("能有{name}這樣的朋友，我很幸運。謝謝這份{item}。");
    reveal_strlit("能有");
    reveal_strlit("這樣的朋友，我很幸運。謝謝這份");
    reveal_strlit("。");
    assert("能有{name}這樣的朋友，我很幸運。謝謝這份{item}。"@ =~= "能有"@ + "{name}"@ + "這樣的朋友，我很幸運。謝謝這份"@ + "{item}"@ + "。"@);
    assert(non_ascii("能有"@));
    assert(non_ascii("這樣的朋友，我很幸運。謝謝這份"@));
    assert(non_ascii("。"@));
    lemma_fill_slots("能有"@, "{name}"@, "這樣的朋友，我很幸運。謝謝這份"@, "{item}"@, "。"@, player, item);
}

proof fn lemma_gift_line_2_2(item: Seq<char>, player: Seq<char>)
    requires
        pat_free(player, "{item}"@),
    ensures
        replace_all(replace_all("{name}！每次你來都帶著心意……這份{item}讓我很感動。"@, "{name}"@, player), "{item}"@, item).len() > 0,
        seq_contains(replace_all(replace_all("{name}！每次你來都帶著心意……這份{item}讓我很感動。"@, "{name}"@, player), "{item}"@, item), item),
        seq_contains(replace_all(replace_all("{name}！每次你來都帶著心意……這份{item}讓我很感動。"@, "{name}"@, player), "{item}"@, item), player),
        pat_free(item, "{item}"@) ==> pat_free(replace_all(replace_all("{name}！每次你來都帶著心意……這份{item}讓我很感動。"@, "{name}"@, player), "{item}"@, item), "{item}"@),
        pat_free(item, "{name}"@) && pat_free(player, "{name}"@) ==> pat_free(replace_all(replace_all("{name}！每次你來都帶著心意……這份{item}讓我很感動。"@, "{name}"@, player), "{item}"@, item), "{name}"@),
{
    lemma_gift_placeholders();
    reveal_strlit("{name}");
    reveal_strlit("{item}");
    reveal_strlit("{name}！每次你來都帶著心意……這份{item}讓我很感動。");
    reveal_strlit("");
    reveal_strlit("！每次你來都帶著心意……這份");
    reveal_strlit("讓我很感動。");
    assert("{name}！每次你來都帶著心意……這份{item}讓我很感動。"@ =~= ""@ + "{name}"@ + "！每次你來都帶著心意……這份"@ + "{item}"@ + "讓我很感動。"@);
    assert(non_ascii(""@));
    assert(non_ascii("！每次你來都帶著心意……這份"@));
    assert(non_ascii("讓我很感動。"@));
    lemma_fill_slots(""@, "{name}"@, "！每次你來都帶著心意……這份"@, "{item}"@, "讓我很感動。"@, player, item);
}

/// Law: for a player name without the {item} placeholder, a gift thanks is never empty and
/// names the item, and for an acquaintance or a friend also the player; it holds a
/// placeholder only where one of the names does.
pub proof fn lemma_gift_thanks_law(item: Seq<char>, player: Seq<char>, affinity: usize, pick: usize)
    requires
        pat_free(player, "{item}"@),
    ensures
        gift_words(item, player, affinity, pick).len() > 0,
        seq_contains(gift_words(item, player, affinity, pick), item),
        thanks_tier(player, affinity) > 0 ==> seq_contains(gift_words(item, player, affinity, pick), player),
        pat_free(item, "{item}"@) ==> pat_free(gift_words(item, player, affinity, pick), "{item}"@),
        pat_free(item, "{name}"@) && pat_free(player, "{name}"@) ==> pat_free(gift_words(item, player, affinity, pick), "{name}"@),
{
    let t = thanks_tier(player, affinity);
    let k = (pick % 3) as int;
    if t == 0 && k == 0 { lemma_gift_line_0_0(item); }
    if t == 0 && k == 1 { lemma_gift_line_0_1(item); }
    if t == 0 && k == 2 { lemma_gift_line_0_2(item); }
    if t == 1 && k == 0 { lemma_gift_line_1_0(item, player); }
    if t == 1 && k == 1 { lemma_gift_line_1_1(item, player); }
    if t == 1 && k == 2 { lemma_gift_line_1_2(item, player); }
    if t == 2 && k == 0 { lemma_gift_line_2_0(item, player); }
    if t == 2 && k == 1 { lemma_gift_line_2_1(item, player); }
    if t == 2 && k == 2 { lemma_gift_line_2_2(item, player); }
}

/// Law: a gift thanks depends only on the item, the tier and `pick % 3`; a stranger's thanks
/// does not depend on the player at all.
pub proof fn lemma_gift_thanks_choice(
    item: Seq<char>,
    p1: Seq<char>,
    p2: Seq<char>,
    a1: usize,
    a2: usize,
    k1: usize,
    k2: usize,
)
    requires
        k1 % 3 == k2 % 3,
    ensures
        thanks_tier(p1, a1) == thanks_tier(p1, a2) ==> gift_words(item, p1, a1, k1) == gift_words(item, p1, a2, k2),
        thanks_tier(p1, a1) == 0 && thanks_tier(p2, a2) == 0 ==> gift_words(item, p1, a1, k1) == gift_words(item, p2, a2, k2),
{
    lemma_tiered_choice(gift_pools(), p1, p2, a1, a2, k1, k2);
}

proof fn lemma_wish_placeholders()
    ensures
        "{p}"@.len() == 3,
        "{i}"@.len() == 3,
        ascii("{p}"@),
        ascii("{i}"@),
        pat_free("{i}"@, "{p}"@),
        pat_free("{p}"@, "{i}"@),
{
    reveal_strlit("{p}");
    reveal_strlit("{i}");
    assert(ascii("{p}"@));
    assert(ascii("{i}"@));
    assert forall|q: int| 0 <= q && q + "{p}"@.len() <= "{i}"@.len() implies #[trigger] "{i}"@.subrange(q, q + "{p}"@.len()) != "{p}"@ by {
        assert(q == 0);
        assert("{i}"@.subrange(q, q + "{p}"@.len())[1] == 'i');
    }
    assert forall|q: int| 0 <= q && q + "{i}"@.len() <= "{p}"@.len() implies #[trigger] "{p}"@.subrange(q, q + "{i}"@.len()) != "{i}"@ by {
        assert(q == 0);
        assert("{p}"@.subrange(q, q + "{i}"@.len())[1] == 'p');
    }
}

proof fn lemma_wish_line_0(player: Seq<char>, item: Seq<char>)
    requires
        pat_free(player, "{i}"@),
        player.len() + item.len() <= 22,
    ensures
        seq_contains(take_upto(replace_all(replace_all("{p}！這正是我一直想要的{i}，你怎麼知道！"@, "{p}"@, player), "{i}"@, item), 40), player),
        seq_contains(take_upto(replace_all(replace_all("{p}！這正是我一直想要的{i}，你怎麼知道！"@, "{p}"@, player), "{i}"@, item), 40), item),
        pat_free(player, "{p}"@) && pat_free(item, "{p}"@) ==> pat_free(take_upto(replace_all(replace_all("{p}！這正是我一直想要的{i}，你怎麼知道！"@, "{p}"@, player), "{i}"@, item), 40), "{p}"@),
        pat_free(item, "{i}"@) ==> pat_free(take_upto(replace_all(replace_all("{p}！這正是我一直想要的{i}，你怎麼知道！"@, "{p}"@, player), "{i}"@, item), 40), "{i}"@),
{
    lemma_wish_placeholders();
    reveal_strlit("{p}");
    reveal_strlit("{i}");
    reveal_strlit("{p}！這正是我一直想要的{i}，你怎麼知道！");
    reveal_strlit("");
    reveal_strlit("！這正是我一直想要的");
    reveal_strlit("，你怎麼知道！");
    assert("{p}！這正是我一直想要的{i}，你怎麼知道！"@ =~= ""@ + "{p}"@ + "！這正是我一直想要的"@ + "{i}"@ + "，你怎麼知道！"@);
    assert(non_ascii(""@));
    assert(non_ascii("！這正是我一直想要的"@));
    assert(non_ascii("，你怎麼知道！"@));
    lemma_fill_slots(""@, "{p}"@, "！這正是我一直想要的"@, "{i}"@, "，你怎麼知道！"@, player, item);
    let line = ""@ + player + "！這正是我一直想要的"@ + item + "，你怎麼知道！"@;
    assert(line.len() <= 40);
    assert(take_upto(line, 40) == line);
}

proof fn lemma_wish_line_1(player: Seq<char>, item: Seq<char>)
    requires
        pat_free(player, "{i}"@),
        player.len() + item.len() <= 22,
    ensures
        seq_contains(take_upto(replace_all(replace_all("{p}，我的心願成真了——謝謝你的{i}！"@, "{p}"@, player), "{i}"@, item), 40), player),
        seq_contains(take_upto(replace_all(replace_all("{p}，我的心願成真了——謝謝你的{i}！"@, "{p}"@, player), "{i}"@, item), 40), item),
        pat_free(player, "{p}"@) && pat_free(item, "{p}"@) ==> pat_free(take_upto(replace_all(replace_all("{p}，我的心願成真了——謝謝你的{i}！"@, "{p}"@, player), "{i}"@, item), 40), "{p}"@),
        pat_free(item, "{i}"@) ==> pat_free(take_upto(replace_all(replace_all("{p}，我的心願成真了——謝謝你的{i}！"@, "{p}"@, player), "{i}"@, item), 40), "{i}"@),
{
    lemma_wish_placeholders();
    reveal_strlit("{p}");
    reveal_strlit("{i}");
    reveal_strlit("{p}，我的心願成真了——謝謝你的{i}！");
    reveal_strlit("");
    reveal_strlit("，我的心願成真了——謝謝你的");
    reveal_strlit("！");
    assert("{p}，我的心願成真了——謝謝你的{i}！"@ =~= ""@ + "{p}"@ + "，我的心願成真了——謝謝你的"@ + "{i}"@ + "！"@);
    assert(non_ascii(""@));
    assert(non_ascii("，我的心願成真了——謝謝你的"@));
    assert(non_ascii("！"@));
    lemma_fill_slots(""@, "{p}"@, "，我的心願成真了——謝謝你的"@, "{i}"@, "！"@, player, item);
    let line = ""@ + player + "，我的心願成真了——謝謝你的"@ + item + "！"@;
    assert(line.len() <= 40);
    assert(take_upto(line, 40) == line);
}

proof fn lemma_wish_line_2(player: Seq<char>, item: Seq<char>)
    requires
        pat_free(player, "{i}"@),
        player.len() + item.len() <= 22,
    ensures
        seq_contains(take_upto(replace_all(replace_all("{i}！{p}，你把我念念不忘的東西帶來了！"@, "{p}"@, player), "{i}"@, item), 40), player),
        seq_contains(take_upto(replace_all(replace_all("{i}！{p}，你把我念念不忘的東西帶來了！"@, "{p}"@, player), "{i}"@, item), 40), item),
        pat_free(player, "{p}"@) && pat_free(item, "{p}"@) ==> pat_free(take_upto(replace_all(replace_all("{i}！{p}，你把我念念不忘的東西帶來了！"@, "{p}"@, player), "{i}"@, item), 40), "{p}"@),
        pat_free(item, "{i}"@) ==> pat_free(take_upto(replace_all(replace_all("{i}！{p}，你把我念念不忘的東西帶來了！"@, "{p}"@, player), "{i}"@, item), 40), "{i}"@),
{
    lemma_wish_placeholders();
    reveal_strlit("{p}");
    reveal_strlit("{i}");
    reveal_strlit("{i}！{p}，你把我念念不忘的東西帶來了！");
    reveal_strlit("");
    reveal_strlit("！");
    reveal_strlit("，你把我念念不忘的東西帶來了！");
    assert("{i}！{p}，你把我念念不忘的東西帶來了！"@ =~= ""@ + "{i}"@ + "！"@ + "{p}"@ + "，你把我念念不忘的東西帶來了！"@);
    assert(non_ascii(""@));
    assert(non_ascii("！"@));
    assert(non_ascii("，你把我念念不忘的東西帶來了！"@));
    lemma_fill_slots_swapped(""@, "{i}"@, "！"@, "{p}"@, "，你把我念念不忘的東西帶來了！"@, player, item);
    let line = ""@ + item + "！"@ + player + "，你把我念念不忘的東西帶來了！"@;
    assert(line.len() <= 40);
    assert(take_upto(line, 40) == line);
}

proof fn lemma_wish_line_3(player: Seq<char>, item: Seq<char>)
    requires
        pat_free(player, "{i}"@),
        player.len() + item.len() <= 22,
    ensures
        seq_contains(take_upto(replace_all(replace_all("我一直盼著{i}，{p}你真的送來了，太謝謝你！"@, "{p}"@, player), "{i}"@, item), 40), player),
        seq_contains(take_upto(replace_all(replace_all("我一直盼著{i}，{p}你真的送來了，太謝謝你！"@, "{p}"@, player), "{i}"@, item), 40), item),
        pat_free(player, "{p}"@) && pat_free(item, "{p}"@) ==> pat_free(take_upto(replace_all(replace_all("我一直盼著{i}，{p}你真的送來了，太謝謝你！"@, "{p}"@, player), "{i}"@, item), 40), "{p}"@),
        pat_free(item, "{i}"@) ==> pat_free(take_upto(replace_all(replace_all("我一直盼著{i}，{p}你真的送來了，太謝謝你！"@, "{p}"@, player), "{i}"@, item), 40), "{i}"@),
{
    lemma_wish_placeholders();
    reveal_strlit("{p}");
    reveal_strlit("{i}");
    reveal_strlit("我一直盼著{i}，{p}你真的送來了，太謝謝你！");
    reveal_strlit("我一直盼著");
    reveal_strlit("，");
    reveal_strlit("你真的送來了，太謝謝你！");
    assert("我一直盼著{i}，{p}你真的送來了，太謝謝你！"@ =~= "我一直盼著"@ + "{i}"@ + "，"@ + "{p}"@ + "你真的送來了，太謝謝你！"@);
    assert(non_ascii("我一直盼著"@));
    assert(non_ascii("，"@));
    assert(non_ascii("你真的送來了，太謝謝你！"@));
    lemma_fill_slots_swapped("我一直盼著"@, "{i}"@, "，"@, "{p}"@, "你真的送來了，太謝謝你！"@, player, item);
    let line = "我一直盼著"@ + item + "，"@ + player + "你真的送來了，太謝謝你！"@;
    assert(line.len() <= 40);
    assert(take_upto(line, 40) == line);
}

/// Law: when the player's name holds no {i} placeholder and the two names fit (together at
/// most 22 characters, so the line is not cut), the wish-come-true thanks names both the
/// player and the item, whichever frame the resident's name picks; it holds a placeholder
/// only where one of the names does.
pub proof fn lemma_wish_thanks_law(frame: int, player: Seq<char>, item: Seq<char>)
    requires
        0 <= frame < 4,
        pat_free(player, "{i}"@),
        player.len() + item.len() <= 22,
    ensures
        seq_contains(take_upto(replace_all(replace_all(wish_frames()[frame], "{p}"@, player), "{i}"@, item), 40), player),
        seq_contains(take_upto(replace_all(replace_all(wish_frames()[frame], "{p}"@, player), "{i}"@, item), 40), item),
        pat_free(player, "{p}"@) && pat_free(item, "{p}"@) ==> pat_free(take_upto(replace_all(replace_all(wish_frames()[frame], "{p}"@, player), "{i}"@, item), 40), "{p}"@),
        pat_free(item, "{i}"@) ==> pat_free(take_upto(replace_all(replace_all(wish_frames()[frame], "{p}"@, player), "{i}"@, item), 40), "{i}"@),
{
    if frame == 0 { lemma_wish_line_0(player, item); }
    if frame == 1 { lemma_wish_line_1(player, item); }
    if frame == 2 { lemma_wish_line_2(player, item); }
    if frame == 3 { lemma_wish_line_3(player, item); }
}

/// The name of the item a wish word asks for: each word names the item of that name, and the
/// everyday words 鏟子, 斧頭 and 鎬子 name the iron shovel (鐵鏟), axe (鐵斧) and pickaxe (鐵鎬);
/// nothing for any other word.
pub open spec fn wished_item_name(w: Seq<char>) -> Option<Seq<char>> {
    if w == "麵包"@ {
        Some("麵包"@)
    } else if w == "鐵鏟"@ || w == "鏟子"@ {
        Some("鐵鏟"@)
    } else if w == "鐵斧"@ || w == "斧頭"@ {
        Some("鐵斧"@)
    } else if w == "鐵鎬"@ || w == "鎬子"@ {
        Some("鐵鎬"@)
    } else if w == "鐵錠"@ {
        Some("鐵錠"@)
    } else if w == "鐵磚"@ {
        Some("鐵磚"@)
    } else if w == "玻璃"@ {
        Some("玻璃"@)
    } else if w == "火把"@ {
        Some("火把"@)
    } else if w == "梯子"@ {
        Some("梯子"@)
    } else if w == "箱子"@ {
        Some("箱子"@)
    } else if w == "木門"@ {
        Some("木門"@)
    } else if w == "木板"@ {
        Some("木板"@)
    } else if w == "石磚"@ {
        Some("石磚"@)
    } else if w == "胡蘿蔔"@ {
        Some("胡蘿蔔"@)
    } else if w == "馬鈴薯"@ {
        Some("馬鈴薯"@)
    } else if w == "小麥"@ {
        Some("小麥"@)
    } else {
        None
    }
}

/// Every row of the table pairs a word with the item of the name that word asks for, and every word that
/// names something is a row of the table.
proof fn lemma_wished_item_name_table()
    ensures
        forall|i: int| 0 <= i < 19 ==> wished_item_name(#[trigger] wish_words()[i]) == Some(item_name(wish_ids()[i])),
        forall|w: Seq<char>| #[trigger] wished_item_name(w) is Some ==> exists|i: int| 0 <= i < 19 && #[trigger] wish_words()[i] == w,
{
    reveal_strlit("麵包");
    reveal_strlit("鐵鏟");
    reveal_strlit("鏟子");
    reveal_strlit("鐵斧");
    reveal_strlit("斧頭");
    reveal_strlit("鐵鎬");
    reveal_strlit("鎬子");
    reveal_strlit("鐵錠");
    reveal_strlit("鐵磚");
    reveal_strlit("玻璃");
    reveal_strlit("火把");
    reveal_strlit("梯子");
    reveal_strlit("箱子");
    reveal_strlit("木門");
    reveal_strlit("木板");
    reveal_strlit("石磚");
    reveal_strlit("胡蘿蔔");
    reveal_strlit("馬鈴薯");
    reveal_strlit("小麥");
    assert forall|i: int| 0 <= i < 19 implies wished_item_name(#[trigger] wish_words()[i]) == Some(item_name(wish_ids()[i])) by {
        if i == 0 {
            assert("麵包"@[0] != "鐵鏟"@[0]);
            assert("麵包"@[0] != "鏟子"@[0]);
            assert("麵包"@[0] != "鐵斧"@[0]);
            assert("麵包"@[0] != "斧頭"@[0]);
            assert("麵包"@[0] != "鐵鎬"@[0]);
            assert("麵包"@[0] != "鎬子"@[0]);
            assert("麵包"@[0] != "鐵錠"@[0]);
            assert("麵包"@[0] != "鐵磚"@[0]);
            assert("麵包"@[0] != "玻璃"@[0]);
            assert("麵包"@[0] != "火把"@[0]);
            assert("麵包"@[0] != "梯子"@[0]);
            assert("麵包"@[0] != "箱子"@[0]);
            assert("麵包"@[0] != "木門"@[0]);
            assert("麵包"@[0] != "木板"@[0]);
            assert("麵包"@[0] != "石磚"@[0]);
            assert("麵包"@.len() != "胡蘿蔔"@.len());
            assert("麵包"@.len() != "馬鈴薯"@.len());
            assert("麵包"@[0] != "小麥"@[0]);
            assert(wished_item_name("麵包"@) == Some(item_name(wish_ids()[0])));
        }
        if i == 1 {
            assert("鐵鏟"@[0] != "麵包"@[0]);
            assert("鐵鏟"@[0] != "鏟子"@[0]);
            assert("鐵鏟"@[1] != "鐵斧"@[1]);
            assert("鐵鏟"@[0] != "斧頭"@[0]);
            assert("鐵鏟"@[1] != "鐵鎬"@[1]);
            assert("鐵鏟"@[0] != "鎬子"@[0]);
            assert("鐵鏟"@[1] != "鐵錠"@[1]);
            assert("鐵鏟"@[1] != "鐵磚"@[1]);
            assert("鐵鏟"@[0] != "玻璃"@[0]);
            assert("鐵鏟"@[0] != "火把"@[0]);
            assert("鐵鏟"@[0] != "梯子"@[0]);
            assert("鐵鏟"@[0] != "箱子"@[0]);
            assert("鐵鏟"@[0] != "木門"@[0]);
            assert("鐵鏟"@[0] != "木板"@[0]);
            assert("鐵鏟"@[0] != "石磚"@[0]);
            assert("鐵鏟"@.len() != "胡蘿蔔"@.len());
            assert("鐵鏟"@.len() != "馬鈴薯"@.len());
            assert("鐵鏟"@[0] != "小麥"@[0]);
            assert(wished_item_name("鐵鏟"@) == Some(item_name(wish_ids()[1])));
        }
        if i == 2 {
            assert("鏟子"@[0] != "麵包"@[0]);
            assert("鏟子"@[0] != "鐵鏟"@[0]);
            assert("鏟子"@[0] != "鐵斧"@[0]);
            assert("鏟子"@[0] != "斧頭"@[0]);
            assert("鏟子"@[0] != "鐵鎬"@[0]);
            assert("鏟子"@[0] != "鎬子"@[0]);
            assert("鏟子"@[0] != "鐵錠"@[0]);
            assert("鏟子"@[0] != "鐵磚"@[0]);
            assert("鏟子"@[0] != "玻璃"@[0]);
            assert("鏟子"@[0] != "火把"@[0]);
            assert("鏟子"@[0] != "梯子"@[0]);
            assert("鏟子"@[0] != "箱子"@[0]);
            assert("鏟子"@[0] != "木門"@[0]);
            assert("鏟子"@[0] != "木板"@[0]);
            assert("鏟子"@[0] != "石磚"@[0]);
            assert("鏟子"@.len() != "胡蘿蔔"@.len());
            assert("鏟子"@.len() != "馬鈴薯"@.len());
            assert("鏟子"@[0] != "小麥"@[0]);
            assert(wished_item_name("鏟子"@) == Some(item_name(wish_ids()[2])));
        }
        if i == 3 {
            assert("鐵斧"@[0] != "麵包"@[0]);
            assert("鐵斧"@[1] != "鐵鏟"@[1]);
            assert("鐵斧"@[0] != "鏟子"@[0]);
            assert("鐵斧"@[0] != "斧頭"@[0]);
            assert("鐵斧"@[1] != "鐵鎬"@[1]);
            assert("鐵斧"@[0] != "鎬子"@[0]);
            assert("鐵斧"@[1] != "鐵錠"@[1]);
            assert("鐵斧"@[1] != "鐵磚"@[1]);
            assert("鐵斧"@[0] != "玻璃"@[0]);
            assert("鐵斧"@[0] != "火把"@[0]);
            assert("鐵斧"@[0] != "梯子"@[0]);
            assert("鐵斧"@[0] != "箱子"@[0]);
            assert("鐵斧"@[0] != "木門"@[0]);
            assert("鐵斧"@[0] != "木板"@[0]);
            assert("鐵斧"@[0] != "石磚"@[0]);
            assert("鐵斧"@.len() != "胡蘿蔔"@.len());
            assert("鐵斧"@.len() != "馬鈴薯"@.len());
            assert("鐵斧"@[0] != "小麥"@[0]);
            assert(wished_item_name("鐵斧"@) == Some(item_name(wish_ids()[3])));
        }
        if i == 4 {
            assert("斧頭"@[0] != "麵包"@[0]);
            assert("斧頭"@[0] != "鐵鏟"@[0]);
            assert("斧頭"@[0] != "鏟子"@[0]);
            assert("斧頭"@[0] != "鐵斧"@[0]);
            assert("斧頭"@[0] != "鐵鎬"@[0]);
            assert("斧頭"@[0] != "鎬子"@[0]);
            assert("斧頭"@[0] != "鐵錠"@[0]);
            assert("斧頭"@[0] != "鐵磚"@[0]);
            assert("斧頭"@[0] != "玻璃"@[0]);
            assert("斧頭"@[0] != "火把"@[0]);
            assert("斧頭"@[0] != "梯子"@[0]);
            assert("斧頭"@[0] != "箱子"@[0]);
            assert("斧頭"@[0] != "木門"@[0]);
            assert("斧頭"@[0] != "木板"@[0]);
            assert("斧頭"@[0] != "石磚"@[0]);
            assert("斧頭"@.len() != "胡蘿蔔"@.len());
            assert("斧頭"@.len() != "馬鈴薯"@.len());
            assert("斧頭"@[0] != "小麥"@[0]);
            assert(wished_item_name("斧頭"@) == Some(item_name(wish_ids()[4])));
        }
        if i == 5 {
            assert("鐵鎬"@[0] != "麵包"@[0]);
            assert("鐵鎬"@[1] != "鐵鏟"@[1]);
            assert("鐵鎬"@[0] != "鏟子"@[0]);
            assert("鐵鎬"@[1] != "鐵斧"@[1]);
            assert("鐵鎬"@[0] != "斧頭"@[0]);
            assert("鐵鎬"@[0] != "鎬子"@[0]);
            assert("鐵鎬"@[1] != "鐵錠"@[1]);
            assert("鐵鎬"@[1] != "鐵磚"@[1]);
            assert("鐵鎬"@[0] != "玻璃"@[0]);
            assert("鐵鎬"@[0] != "火把"@[0]);
            assert("鐵鎬"@[0] != "梯子"@[0]);
            assert("鐵鎬"@[0] != "箱子"@[0]);
            assert("鐵鎬"@[0] != "木門"@[0]);
            assert("鐵鎬"@[0] != "木板"@[0]);
            assert("鐵鎬"@[0] != "石磚"@[0]);
            assert("鐵鎬"@.len() != "胡蘿蔔"@.len());
            assert("鐵鎬"@.len() != "馬鈴薯"@.len());
            assert("鐵鎬"@[0] != "小麥"@[0]);
            assert(wished_item_name("鐵鎬"@) == Some(item_name(wish_ids()[5])));
        }
        if i == 6 {
            assert("鎬子"@[0] != "麵包"@[0]);
            assert("鎬子"@[0] != "鐵鏟"@[0]);
            assert("鎬子"@[0] != "鏟子"@[0]);
            assert("鎬子"@[0] != "鐵斧"@[0]);
            assert("鎬子"@[0] != "斧頭"@[0]);
            assert("鎬子"@[0] != "鐵鎬"@[0]);
            assert("鎬子"@[0] != "鐵錠"@[0]);
            assert("鎬子"@[0] != "鐵磚"@[0]);
            assert("鎬子"@[0] != "玻璃"@[0]);
            assert("鎬子"@[0] != "火把"@[0]);
            assert("鎬子"@[0] != "梯子"@[0]);
            assert("鎬子"@[0] != "箱子"@[0]);
            assert("鎬子"@[0] != "木門"@[0]);
            assert("鎬子"@[0] != "木板"@[0]);
            assert("鎬子"@[0] != "石磚"@[0]);
            assert("鎬子"@.len() != "胡蘿蔔"@.len());
            assert("鎬子"@.len() != "馬鈴薯"@.len());
            assert("鎬子"@[0] != "小麥"@[0]);
            assert(wished_item_name("鎬子"@) == Some(item_name(wish_ids()[6])));
        }
        if i == 7 {
            assert("鐵錠"@[0] != "麵包"@[0]);
            assert("鐵錠"@[1] != "鐵鏟"@[1]);
            assert("鐵錠"@[0] != "鏟子"@[0]);
            assert("鐵錠"@[1] != "鐵斧"@[1]);
            assert("鐵錠"@[0] != "斧頭"@[0]);
            assert("鐵錠"@[1] != "鐵鎬"@[1]);
            assert("鐵錠"@[0] != "鎬子"@[0]);
            assert("鐵錠"@[1] != "鐵磚"@[1]);
            assert("鐵錠"@[0] != "玻璃"@[0]);
            assert("鐵錠"@[0] != "火把"@[0]);
            assert("鐵錠"@[0] != "梯子"@[0]);
            assert("鐵錠"@[0] != "箱子"@[0]);
            assert("鐵錠"@[0] != "木門"@[0]);
            assert("鐵錠"@[0] != "木板"@[0]);
            assert("鐵錠"@[0] != "石磚"@[0]);
            assert("鐵錠"@.len() != "胡蘿蔔"@.len());
            assert("鐵錠"@.len() != "馬鈴薯"@.len());
            assert("鐵錠"@[0] != "小麥"@[0]);
            assert(wished_item_name("鐵錠"@) == Some(item_name(wish_ids()[7])));
        }
        if i == 8 {
            assert("鐵磚"@[0] != "麵包"@[0]);
            assert("鐵磚"@[1] != "鐵鏟"@[1]);
            assert("鐵磚"@[0] != "鏟子"@[0]);
            assert("鐵磚"@[1] != "鐵斧"@[1]);
            assert("鐵磚"@[0] != "斧頭"@[0]);
            assert("鐵磚"@[1] != "鐵鎬"@[1]);
            assert("鐵磚"@[0] != "鎬子"@[0]);
            assert("鐵磚"@[1] != "鐵錠"@[1]);
            assert("鐵磚"@[0] != "玻璃"@[0]);
            assert("鐵磚"@[0] != "火把"@[0]);
            assert("鐵磚"@[0] != "梯子"@[0]);
            assert("鐵磚"@[0] != "箱子"@[0]);
            assert("鐵磚"@[0] != "木門"@[0]);
            assert("鐵磚"@[0] != "木板"@[0]);
            assert("鐵磚"@[0] != "石磚"@[0]);
            assert("鐵磚"@.len() != "胡蘿蔔"@.len());
            assert("鐵磚"@.len() != "馬鈴薯"@.len());
            assert("鐵磚"@[0] != "小麥"@[0]);
            assert(wished_item_name("鐵磚"@) == Some(item_name(wish_ids()[8])));
        }
        if i == 9 {
            assert("玻璃"@[0] != "麵包"@[0]);
            assert("玻璃"@[0] != "鐵鏟"@[0]);
            assert("玻璃"@[0] != "鏟子"@[0]);
            assert("玻璃"@[0] != "鐵斧"@[0]);
            assert("玻璃"@[0] != "斧頭"@[0]);
            assert("玻璃"@[0] != "鐵鎬"@[0]);
            assert("玻璃"@[0] != "鎬子"@[0]);
            assert("玻璃"@[0] != "鐵錠"@[0]);
            assert("玻璃"@[0] != "鐵磚"@[0]);
            assert("玻璃"@[0] != "火把"@[0]);
            assert("玻璃"@[0] != "梯子"@[0]);
            assert("玻璃"@[0] != "箱子"@[0]);
            assert("玻璃"@[0] != "木門"@[0]);
            assert("玻璃"@[0] != "木板"@[0]);
            assert("玻璃"@[0] != "石磚"@[0]);
            assert("玻璃"@.len() != "胡蘿蔔"@.len());
            assert("玻璃"@.len() != "馬鈴薯"@.len());
            assert("玻璃"@[0] != "小麥"@[0]);
            assert(wished_item_name("玻璃"@) == Some(item_name(wish_ids()[9])));
        }
        if i == 10 {
            assert("火把"@[0] != "麵包"@[0]);
            assert("火把"@[0] != "鐵鏟"@[0]);
            assert("火把"@[0] != "鏟子"@[0]);
            assert("火把"@[0] != "鐵斧"@[0]);
            assert("火把"@[0] != "斧頭"@[0]);
            assert("火把"@[0] != "鐵鎬"@[0]);
            assert("火把"@[0] != "鎬子"@[0]);
            assert("火把"@[0] != "鐵錠"@[0]);
            assert("火把"@[0] != "鐵磚"@[0]);
            assert("火把"@[0] != "玻璃"@[0]);
            assert("火把"@[0] != "梯子"@[0]);
            assert("火把"@[0] != "箱子"@[0]);
            assert("火把"@[0] != "木門"@[0]);
            assert("火把"@[0] != "木板"@[0]);
            assert("火把"@[0] != "石磚"@[0]);
            assert("火把"@.len() != "胡蘿蔔"@.len());
            assert("火把"@.len() != "馬鈴薯"@.len());
            assert("火把"@[0] != "小麥"@[0]);
            assert(wished_item_name("火把"@) == Some(item_name(wish_ids()[10])));
        }
        if i == 11 {
            assert("梯子"@[0] != "麵包"@[0]);
            assert("梯子"@[0] != "鐵鏟"@[0]);
            assert("梯子"@[0] != "鏟子"@[0]);
            assert("梯子"@[0] != "鐵斧"@[0]);
            assert("梯子"@[0] != "斧頭"@[0]);
            assert("梯子"@[0] != "鐵鎬"@[0]);
            assert("梯子"@[0] != "鎬子"@[0]);
            assert("梯子"@[0] != "鐵錠"@[0]);
            assert("梯子"@[0] != "鐵磚"@[0]);
            assert("梯子"@[0] != "玻璃"@[0]);
            assert("梯子"@[0] != "火把"@[0]);
            assert("梯子"@[0] != "箱子"@[0]);
            assert("梯子"@[0] != "木門"@[0]);
            assert("梯子"@[0] != "木板"@[0]);
            assert("梯子"@[0] != "石磚"@[0]);
            assert("梯子"@.len() != "胡蘿蔔"@.len());
            assert("梯子"@.len() != "馬鈴薯"@.len());
            assert("梯子"@[0] != "小麥"@[0]);
            assert(wished_item_name("梯子"@) == Some(item_name(wish_ids()[11])));
        }
        if i == 12 {
            assert("箱子"@[0] != "麵包"@[0]);
            assert("箱子"@[0] != "鐵鏟"@[0]);
            assert("箱子"@[0] != "鏟子"@[0]);
            assert("箱子"@[0] != "鐵斧"@[0]);
            assert("箱子"@[0] != "斧頭"@[0]);
            assert("箱子"@[0] != "鐵鎬"@[0]);
            assert("箱子"@[0] != "鎬子"@[0]);
            assert("箱子"@[0] != "鐵錠"@[0]);
            assert("箱子"@[0] != "鐵磚"@[0]);
            assert("箱子"@[0] != "玻璃"@[0]);
            assert("箱子"@[0] != "火把"@[0]);
            assert("箱子"@[0] != "梯子"@[0]);
            assert("箱子"@[0] != "木門"@[0]);
            assert("箱子"@[0] != "木板"@[0]);
            assert("箱子"@[0] != "石磚"@[0]);
            assert("箱子"@.len() != "胡蘿蔔"@.len());
            assert("箱子"@.len() != "馬鈴薯"@.len());
            assert("箱子"@[0] != "小麥"@[0]);
            assert(wished_item_name("箱子"@) == Some(item_name(wish_ids()[12])));
        }
        if i == 13 {
            assert("木門"@[0] != "麵包"@[0]);
            assert("木門"@[0] != "鐵鏟"@[0]);
            assert("木門"@[0] != "鏟子"@[0]);
            assert("木門"@[0] != "鐵斧"@[0]);
            assert("木門"@[0] != "斧頭"@[0]);
            assert("木門"@[0] != "鐵鎬"@[0]);
            assert("木門"@[0] != "鎬子"@[0]);
            assert("木門"@[0] != "鐵錠"@[0]);
            assert("木門"@[0] != "鐵磚"@[0]);
            assert("木門"@[0] != "玻璃"@[0]);
            assert("木門"@[0] != "火把"@[0]);
            assert("木門"@[0] != "梯子"@[0]);
            assert("木門"@[0] != "箱子"@[0]);
            assert("木門"@[1] != "木板"@[1]);
            assert("木門"@[0] != "石磚"@[0]);
            assert("木門"@.len() != "胡蘿蔔"@.len());
            assert("木門"@.len() != "馬鈴薯"@.len());
            assert("木門"@[0] != "小麥"@[0]);
            assert(wished_item_name("木門"@) == Some(item_name(wish_ids()[13])));
        }
        if i == 14 {
            assert("木板"@[0] != "麵包"@[0]);
            assert("木板"@[0] != "鐵鏟"@[0]);
            assert("木板"@[0] != "鏟子"@[0]);
            assert("木板"@[0] != "鐵斧"@[0]);
            assert("木板"@[0] != "斧頭"@[0]);
            assert("木板"@[0] != "鐵鎬"@[0]);
            assert("木板"@[0] != "鎬子"@[0]);
            assert("木板"@[0] != "鐵錠"@[0]);
            assert("木板"@[0] != "鐵磚"@[0]);
            assert("木板"@[0] != "玻璃"@[0]);
            assert("木板"@[0] != "火把"@[0]);
            assert("木板"@[0] != "梯子"@[0]);
            assert("木板"@[0] != "箱子"@[0]);
            assert("木板"@[1] != "木門"@[1]);
            assert("木板"@[0] != "石磚"@[0]);
            assert("木板"@.len() != "胡蘿蔔"@.len());
            assert("木板"@.len() != "馬鈴薯"@.len());
            assert("木板"@[0] != "小麥"@[0]);
            assert(wished_item_name("木板"@) == Some(item_name(wish_ids()[14])));
        }
        if i == 15 {
            assert("石磚"@[0] != "麵包"@[0]);
            assert("石磚"@[0] != "鐵鏟"@[0]);
            assert("石磚"@[0] != "鏟子"@[0]);
            assert("石磚"@[0] != "鐵斧"@[0]);
            assert("石磚"@[0] != "斧頭"@[0]);
            assert("石磚"@[0] != "鐵鎬"@[0]);
            assert("石磚"@[0] != "鎬子"@[0]);
            assert("石磚"@[0] != "鐵錠"@[0]);
            assert("石磚"@[0] != "鐵磚"@[0]);
            assert("石磚"@[0] != "玻璃"@[0]);
            assert("石磚"@[0] != "火把"@[0]);
            assert("石磚"@[0] != "梯子"@[0]);
            assert("石磚"@[0] != "箱子"@[0]);
            assert("石磚"@[0] != "木門"@[0]);
            assert("石磚"@[0] != "木板"@[0]);
            assert("石磚"@.len() != "胡蘿蔔"@.len());
            assert("石磚"@.len() != "馬鈴薯"@.len());
            assert("石磚"@[0] != "小麥"@[0]);
            assert(wished_item_name("石磚"@) == Some(item_name(wish_ids()[15])));
        }
        if i == 16 {
            assert("胡蘿蔔"@.len() != "麵包"@.len());
            assert("胡蘿蔔"@.len() != "鐵鏟"@.len());
            assert("胡蘿蔔"@.len() != "鏟子"@.len());
            assert("胡蘿蔔"@.len() != "鐵斧"@.len());
            assert("胡蘿蔔"@.len() != "斧頭"@.len());
            assert("胡蘿蔔"@.len() != "鐵鎬"@.len());
            assert("胡蘿蔔"@.len() != "鎬子"@.len());
            assert("胡蘿蔔"@.len() != "鐵錠"@.len());
            assert("胡蘿蔔"@.len() != "鐵磚"@.len());
            assert("胡蘿蔔"@.len() != "玻璃"@.len());
            assert("胡蘿蔔"@.len() != "火把"@.len());
            assert("胡蘿蔔"@.len() != "梯子"@.len());
            assert("胡蘿蔔"@.len() != "箱子"@.len());
            assert("胡蘿蔔"@.len() != "木門"@.len());
            assert("胡蘿蔔"@.len() != "木板"@.len());
            assert("胡蘿蔔"@.len() != "石磚"@.len());
            assert("胡蘿蔔"@[0] != "馬鈴薯"@[0]);
            assert("胡蘿蔔"@.len() != "小麥"@.len());
            assert(wished_item_name("胡蘿蔔"@) == Some(item_name(wish_ids()[16])));
        }
        if i == 17 {
            assert("馬鈴薯"@.len() != "麵包"@.len());
            assert("馬鈴薯"@.len() != "鐵鏟"@.len());
            assert("馬鈴薯"@.len() != "鏟子"@.len());
            assert("馬鈴薯"@.len() != "鐵斧"@.len());
            assert("馬鈴薯"@.len() != "斧頭"@.len());
            assert("馬鈴薯"@.len() != "鐵鎬"@.len());
            assert("馬鈴薯"@.len() != "鎬子"@.len());
            assert("馬鈴薯"@.len() != "鐵錠"@.len());
            assert("馬鈴薯"@.len() != "鐵磚"@.len());
            assert("馬鈴薯"@.len() != "玻璃"@.len());
            assert("馬鈴薯"@.len() != "火把"@.len());
            assert("馬鈴薯"@.len() != "梯子"@.len());
            assert("馬鈴薯"@.len() != "箱子"@.len());
            assert("馬鈴薯"@.len() != "木門"@.len());
            assert("馬鈴薯"@.len() != "木板"@.len());
            assert("馬鈴薯"@.len() != "石磚"@.len());
            assert("馬鈴薯"@[0] != "胡蘿蔔"@[0]);
            assert("馬鈴薯"@.len() != "小麥"@.len());
            assert(wished_item_name("馬鈴薯"@) == Some(item_name(wish_ids()[17])));
        }
        if i == 18 {
            assert("小麥"@[0] != "麵包"@[0]);
            assert("小麥"@[0] != "鐵鏟"@[0]);
            assert("小麥"@[0] != "鏟子"@[0]);
            assert("小麥"@[0] != "鐵斧"@[0]);
            assert("小麥"@[0] != "斧頭"@[0]);
            assert("小麥"@[0] != "鐵鎬"@[0]);
            assert("小麥"@[0] != "鎬子"@[0]);
            assert("小麥"@[0] != "鐵錠"@[0]);
            assert("小麥"@[0] != "鐵磚"@[0]);
            assert("小麥"@[0] != "玻璃"@[0]);
            assert("小麥"@[0] != "火把"@[0]);
            assert("小麥"@[0] != "梯子"@[0]);
            assert("小麥"@[0] != "箱子"@[0]);
            assert("小麥"@[0] != "木門"@[0]);
            assert("小麥"@[0] != "木板"@[0]);
            assert("小麥"@[0] != "石磚"@[0]);
            assert("小麥"@.len() != "胡蘿蔔"@.len());
            assert("小麥"@.len() != "馬鈴薯"@.len());
            assert(wished_item_name("小麥"@) == Some(item_name(wish_ids()[18])));
        }
    }
    assert forall|w: Seq<char>| #[trigger] wished_item_name(w) is Some implies exists|i: int| 0 <= i < 19 && #[trigger] wish_words()[i] == w by {
        if w == "麵包"@ {
            assert(wish_words()[0] == w);
        }
        if w == "鐵鏟"@ {
            assert(wish_words()[1] == w);
        }
        if w == "鏟子"@ {
            assert(wish_words()[2] == w);
        }
        if w == "鐵斧"@ {
            assert(wish_words()[3] == w);
        }
        if w == "斧頭"@ {
            assert(wish_words()[4] == w);
        }
        if w == "鐵鎬"@ {
            assert(wish_words()[5] == w);
        }
        if w == "鎬子"@ {
            assert(wish_words()[6] == w);
        }
        if w == "鐵錠"@ {
            assert(wish_words()[7] == w);
        }
        if w == "鐵磚"@ {
            assert(wish_words()[8] == w);
        }
        if w == "玻璃"@ {
            assert(wish_words()[9] == w);
        }
        if w == "火把"@ {
            assert(wish_words()[10] == w);
        }
        if w == "梯子"@ {
            assert(wish_words()[11] == w);
        }
        if w == "箱子"@ {
            assert(wish_words()[12] == w);
        }
        if w == "木門"@ {
            assert(wish_words()[13] == w);
        }
        if w == "木板"@ {
            assert(wish_words()[14] == w);
        }
        if w == "石磚"@ {
            assert(wish_words()[15] == w);
        }
        if w == "胡蘿蔔"@ {
            assert(wish_words()[16] == w);
        }
        if w == "馬鈴薯"@ {
            assert(wish_words()[17] == w);
        }
        if w == "小麥"@ {
            assert(wish_words()[18] == w);
        }
    }
}

/// The first row from `from` on whose word occurs is one whose word occurs, and there is one
/// whenever some row's word occurs.
proof fn lemma_wished_item_from_found(text: Seq<char>, from: int)
    requires
        0 <= from <= 19,
    ensures
        wished_item_from(text, from) matches Some(v) ==> exists|j: int|
            from <= j < 19 && seq_contains(text, #[trigger] wish_words()[j]) && wish_ids()[j] == v,
        (exists|j: int| from <= j < 19 && seq_contains(text, #[trigger] wish_words()[j])) ==> wished_item_from(text, from) is Some,
    decreases 19 - from,
{
    if from < 19 {
        lemma_wished_item_from_found(text, from + 1);
        if !seq_contains(text, wish_words()[from]) {
            if exists|j: int| from <= j < 19 && seq_contains(text, #[trigger] wish_words()[j]) {
                let j = choose|j: int| from <= j < 19 && seq_contains(text, #[trigger] wish_words()[j]);
                assert(j != from);
            }
        }
    }
}

/// Law: the item a wish is classified as is the item of the name that some wish word in the
/// desire asks for.
pub proof fn lemma_wished_item_is_named(desire: Seq<char>)
    ensures
        wished_item_from(desire, 0) matches Some(id) ==> exists|w: Seq<char>|
            seq_contains(desire, w) && #[trigger] wished_item_name(w) == Some(item_name(id)),
{
    lemma_wished_item_name_table();
    lemma_wished_item_from_found(desire, 0);
    match wished_item_from(desire, 0) {
        Some(id) => {
            let j = choose|j: int| 0 <= j < 19 && seq_contains(desire, #[trigger] wish_words()[j]) && wish_ids()[j] == id;
            assert(wished_item_name(wish_words()[j]) == Some(item_name(id)));
        },
        None => {},
    }
}

/// Law: a desire holding a wish word `w`, where every wish word it holds asks for the same
/// item as `w`, is classified as the item of the name `w` asks for (so "好想要一個箱子" is
/// the chest, 箱子).
pub proof fn lemma_wish_word_gives_item(desire: Seq<char>, w: Seq<char>)
    requires
        wished_item_name(w) is Some,
        seq_contains(desire, w),
        forall|v: Seq<char>| #[trigger] wished_item_name(v) is Some && seq_contains(desire, v) ==> wished_item_name(v) == wished_item_name(w),
    ensures
        wished_item_from(desire, 0) is Some,
        Some(item_name(wished_item_from(desire, 0).unwrap())) == wished_item_name(w),
{
    lemma_wished_item_name_table();
    let i = choose|i: int| 0 <= i < 19 && #[trigger] wish_words()[i] == w;
    assert(seq_contains(desire, wish_words()[i]));
    lemma_wished_item_from_found(desire, 0);
    let id = wished_item_from(desire, 0).unwrap();
    let j = choose|j: int| 0 <= j < 19 && seq_contains(desire, #[trigger] wish_words()[j]) && wish_ids()[j] == id;
    assert(wished_item_name(wish_words()[j]) == Some(item_name(wish_ids()[j])));
}

} // verus!
