use voxel_village::voxel_family::{
    child_birth_say, family_feed_line, family_memory_line, parent_welcome_say, pick_married_couple,
};

#[test]
fn empty_couples_returns_none() {
    assert_eq!(pick_married_couple(5, &[], 0), None);
}

#[test]
fn out_of_pop_couples_filtered_out() {
    // 兩對都有人超出當前人口（pop=3，合法 index 為 0..3）→ 全濾掉。
    let couples = [(0usize, 5usize), (4, 1)];
    assert_eq!(pick_married_couple(3, &couples, 0), None);
}

#[test]
fn self_pair_filtered_out() {
    assert_eq!(pick_married_couple(4, &[(2, 2)], 7), None);
}

#[test]
fn picks_only_valid_couple() {
    // 一對合法、一對越界 → 必回合法那對，且順序保留。
    let couples = [(0usize, 9usize), (1, 2)];
    assert_eq!(pick_married_couple(3, &couples, 0), Some((1, 2)));
    assert_eq!(pick_married_couple(3, &couples, 999), Some((1, 2)));
}

#[test]
fn deterministic_same_seed_same_couple() {
    let couples = [(0usize, 1usize), (2, 3)];
    let a = pick_married_couple(4, &couples, 12345);
    let b = pick_married_couple(4, &couples, 12345);
    assert_eq!(a, b);
    assert!(a.is_some());
}

#[test]
fn seed_distributes_across_couples() {
    let couples = [(0usize, 1usize), (2, 3)];
    // 偶數 seed → 第 0 對，奇數 seed → 第 1 對（len=2 取模）。
    assert_eq!(pick_married_couple(4, &couples, 0), Some((0, 1)));
    assert_eq!(pick_married_couple(4, &couples, 1), Some((2, 3)));
}

#[test]
fn child_birth_say_names_both_parents() {
    let s = child_birth_say("小星", "露娜", "奧瑞", None);
    assert!(s.contains("小星"));
    assert!(s.contains("露娜"));
    assert!(s.contains("奧瑞"));
    assert!(!s.contains("「")); // 無承繼技能時不冒引號技能句
}

#[test]
fn child_birth_say_mentions_inherited_skill() {
    let s = child_birth_say("小星", "露娜", "奧瑞", Some("釣魚"));
    assert!(s.contains("釣魚"));
    assert!(s.contains("露娜")); // 承自父方（第一位）
}

#[test]
fn parent_welcome_rotates_and_embeds_child() {
    let a = parent_welcome_say("小星", 0);
    let b = parent_welcome_say("小星", 1);
    assert_ne!(a, b);
    assert!(a.contains("小星"));
    assert!(b.contains("小星"));
    // pick 超出長度會取模回捲。
    assert_eq!(parent_welcome_say("小星", 3), parent_welcome_say("小星", 0));
}

#[test]
fn family_memory_is_promise_and_names_child() {
    let m = family_memory_line("奧瑞", "小星");
    assert!(m.contains("一定會")); // → 記憶系統升為永久精華
    assert!(m.contains("奧瑞"));
    assert!(m.contains("小星"));
}

#[test]
fn family_feed_names_family_and_child() {
    let f = family_feed_line("露娜", "奧瑞", "小星");
    assert!(f.contains("露娜"));
    assert!(f.contains("奧瑞"));
    assert!(f.contains("小星"));
}

#[test]
fn long_names_truncated_to_bound() {
    let long = "一二三四五六七八九十甲乙丙丁";
    let s = child_birth_say(long, long, long, Some(long));
    // 每處嵌名都被截到 NAME_MAX 字元，不會出現第 13 個字「丁」。
    assert!(!s.contains("丁"));
    let m = family_memory_line(long, long);
    assert!(!m.contains("丁"));
}

#[test]
fn empty_names_fall_back_to_generic() {
    let m = family_memory_line("", "");
    assert!(m.contains("另一半"));
    assert!(m.contains("孩子"));
    let f = family_feed_line("", "", "");
    assert!(f.contains("一位居民"));
    assert!(f.contains("孩子"));
    // 出生泡泡空名也退泛稱。
    let s = child_birth_say("", "", "", None);
    assert!(s.contains("孩子"));
    assert!(s.contains("爸爸"));
    assert!(s.contains("媽媽"));
}

#[test]
fn family_lines_are_exact() {
    assert_eq!(
        child_birth_say("小芽", "奧瑞", "露娜", Some("燒玻璃")),
        "我是小芽，奧瑞和露娜的孩子～奧瑞把「燒玻璃」教給了我！"
    );
    assert_eq!(child_birth_say("", "", "", None), "我是孩子，爸爸和媽媽的孩子，剛在這片天地誕生，請多指教！");
    assert_eq!(parent_welcome_say("小芽", 2), "小芽，這片天地從今天起因你更完整了。💕");
    assert_eq!(family_feed_line("奧瑞", "", "小芽"), "奧瑞與另一位居民一家，迎來了新生命小芽");
    assert_eq!(pick_married_couple(5, &[(0, 1), (2, 3), (4, 4)], 3), Some((2, 3)));
}
