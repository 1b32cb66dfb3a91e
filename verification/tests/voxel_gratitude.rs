use voxel_village::voxel_gratitude::{
    repay_feed_line, repay_memory_for_benefactor, repay_memory_for_repayer, repay_sharer_line,
    repay_thanks_line, MealDebts,
};

#[test]
fn debts_owe_and_repay_roundtrip() {
    let mut d = MealDebts::default();
    assert!(!d.owes("nova", "luna"));
    d.owe("nova", "luna");
    assert!(d.owes("nova", "luna"));
    assert_eq!(d.total_debts(), 1);
    // 方向性：nova 欠 luna 不代表 luna 欠 nova。
    assert!(!d.owes("luna", "nova"));
    // 結清後不再欠、帳本不留空殼。
    assert!(d.repay("nova", "luna"));
    assert!(!d.owes("nova", "luna"));
    assert_eq!(d.total_debts(), 0);
    // 沒欠再結清回 false。
    assert!(!d.repay("nova", "luna"));
}

#[test]
fn debts_multiple_benefactors_and_bidirectional() {
    let mut d = MealDebts::default();
    d.owe("nova", "luna");
    d.owe("nova", "auri"); // nova 同時欠兩位
    d.owe("luna", "nova"); // 雙向：luna 也欠 nova（不同往事）
    assert_eq!(d.total_debts(), 3);
    // 結清一筆只清那一筆，其餘保留。
    assert!(d.repay("nova", "luna"));
    assert!(!d.owes("nova", "luna"));
    assert!(d.owes("nova", "auri"));
    assert!(d.owes("luna", "nova"));
    assert_eq!(d.total_debts(), 2);
}

#[test]
fn debts_ignore_empty_and_self() {
    let mut d = MealDebts::default();
    d.owe("", "luna");
    d.owe("nova", "");
    d.owe("nova", "nova"); // 自己不欠自己
    assert_eq!(d.total_debts(), 0);
}

#[test]
fn lines_rotate_and_bounded() {
    // 回報/道謝台詞輪替、非空、長度在泡泡上限（≤40 字，含嵌名後）內。
    for pick in 0..8 {
        let sl = repay_sharer_line(pick);
        assert!(!sl.is_empty() && sl.chars().count() <= 40);
        let tl = repay_thanks_line("諾娃", pick);
        assert!(!tl.is_empty() && tl.chars().count() <= 40);
    }
    // pick 溢出取模包回、不 panic。
    assert_eq!(repay_sharer_line(0), repay_sharer_line(4));
    assert_eq!(repay_thanks_line("露娜", 1), repay_thanks_line("露娜", 5));
}

#[test]
fn thanks_embeds_or_falls_back() {
    let t = repay_thanks_line("賽勒", 0);
    assert!(t.contains("賽勒"));
    // 空名退泛稱、不留空洞。
    let g = repay_thanks_line("", 0);
    assert!(!g.is_empty() && !g.contains("，，"));
}

#[test]
fn memories_embed_names_or_fall_back() {
    let mr = repay_memory_for_repayer("露娜");
    assert!(mr.contains("露娜") && mr.contains("飯"));
    let mb = repay_memory_for_benefactor("奧瑞");
    assert!(mb.contains("奧瑞") && mb.contains("飯"));
    // 空名皆退泛稱、仍提及回報情境、不含原話。
    assert!(repay_memory_for_repayer("").contains("飯"));
    assert!(!repay_memory_for_benefactor("").is_empty());
}

#[test]
fn feed_embeds_both_or_falls_back() {
    let f = repay_feed_line("露娜", "諾娃");
    assert!(f.contains("露娜") && f.contains("諾娃"));
    // 任一空名皆退泛稱、不破句。
    let g = repay_feed_line("", "");
    assert!(g.contains("鄰居") && !g.is_empty());
}

#[test]
fn long_names_do_not_break_or_panic() {
    let long = "超".repeat(200);
    // 嵌超長名不 panic；泡泡層由呼叫端截字，這裡只保證不炸。
    let _ = repay_sharer_line(0);
    let _ = repay_thanks_line(&long, 0);
    let _ = repay_memory_for_repayer(&long);
    let _ = repay_memory_for_benefactor(&long);
    let _ = repay_feed_line(&long, &long);
}


#[test]
fn gratitude_lines_exact_text() {
    assert_eq!(repay_thanks_line("賽勒", 2), "賽勒，這下換你照應我了，感激");
    assert_eq!(repay_thanks_line("", 7), "有來有往，這份情更深了");
    assert_eq!(repay_feed_line("", "諾娃"), "諾娃餓了，有位鄰居記著當年那口飯的情，回報了一口——知恩圖報，暖了整座村子。");
    let mut d = MealDebts::new();
    d.owe("nova", "luna");
    d.owe("nova", "luna");
    assert_eq!(d.total_debts(), 1);
}

#[test]
fn repaying_lowers_the_debt_count_by_one() {
    let mut d = voxel_village::voxel_gratitude::MealDebts::new();
    d.owe("露娜", "阿光");
    d.owe("星禾", "阿光");
    assert_eq!(d.total_debts(), 2);
    assert!(d.repay("露娜", "阿光"));
    assert_eq!(d.total_debts(), 1);
    assert!(!d.repay("露娜", "阿光"));
    assert_eq!(d.total_debts(), 1);
}
