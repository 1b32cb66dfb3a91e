use voxel_village::voxel_farbond::{
    farbond_feed_detail, farbond_memory_summary, farbond_say_line, pick_missed_friend, FarBondClock,
    FarFriend, FARBOND_MIN_INTERVAL_SECS, SAY_MAX_CHARS,
};

fn ff(name: &str, settlement: u64, visits: u32) -> FarFriend {
    FarFriend {
        name: name.to_string(),
        settlement,
        visits,
    }
}

#[test]
fn picks_cross_settlement_friend_only() {
    // 我在主村（0）；同村的朋友不算，只有搬去殖民地（1）的諾娃可相思。
    let friends = vec![ff("賽勒", 0, 9), ff("諾娃", 1, 3)];
    let picked = pick_missed_friend(0, &friends).unwrap();
    assert_eq!(picked.name, "諾娃");
}

#[test]
fn none_when_all_same_settlement() {
    // 大家都住主村 → 無人可隔村相思。
    let friends = vec![ff("賽勒", 0, 9), ff("露娜", 0, 3)];
    assert!(pick_missed_friend(0, &friends).is_none());
    // 一位隔村朋友都沒有的空清單亦然。
    assert!(pick_missed_friend(0, &[]).is_none());
}

#[test]
fn picks_most_visited_among_far_friends() {
    // 兩位都住殖民地（跟我主村不同），取來往最多的那位。
    let friends = vec![ff("諾娃", 1, 2), ff("奧瑞", 2, 7)];
    assert_eq!(pick_missed_friend(0, &friends).unwrap().name, "奧瑞");
}

#[test]
fn tie_breaks_by_name_deterministically() {
    // 來往次數同分 → 取名字字典序最小者（確定性、與清單順序無關）。
    let a = vec![ff("諾娃", 1, 5), ff("奧瑞", 2, 5)];
    let b = vec![ff("奧瑞", 2, 5), ff("諾娃", 1, 5)];
    assert_eq!(pick_missed_friend(0, &a).unwrap().name, "奧瑞"); // "奧" < "諾"
    assert_eq!(pick_missed_friend(0, &b).unwrap().name, "奧瑞");
}

#[test]
fn works_between_two_colonies() {
    // 我住殖民地 1；同在殖民地 1 的不算，只有住主村（0）與殖民地 2 的算隔村。
    let friends = vec![ff("同村人", 1, 9), ff("主村人", 0, 4), ff("他村人", 2, 6)];
    assert_eq!(pick_missed_friend(1, &friends).unwrap().name, "他村人");
}

#[test]
fn say_line_rotates_names_friend_and_place() {
    for pick in 0..6 {
        let s = farbond_say_line("諾娃", "風禾屯", pick);
        assert!(s.contains("諾娃"));
        assert!(s.contains("風禾屯"));
        assert!(s.chars().count() <= SAY_MAX_CHARS);
    }
    // 三句循環：pick 0 與 3 同句、0 與 1 不同句。
    assert_eq!(
        farbond_say_line("諾娃", "風禾屯", 0),
        farbond_say_line("諾娃", "風禾屯", 3)
    );
    assert_ne!(
        farbond_say_line("諾娃", "風禾屯", 0),
        farbond_say_line("諾娃", "風禾屯", 1)
    );
}

#[test]
fn memory_and_feed_name_friend_and_place_nonempty() {
    let mem = farbond_memory_summary("諾娃", "風禾屯");
    assert!(mem.contains("諾娃") && mem.contains("風禾屯") && !mem.is_empty());
    let feed = farbond_feed_detail("諾娃", "風禾屯");
    assert!(feed.contains("諾娃") && feed.contains("風禾屯") && !feed.is_empty());
    // Feed 明細不重複念叨者名（呼叫端會把 actor 名接在前面）——這裡只驗非空且點到朋友。
    assert!(!feed.contains('\n'), "Feed 明細須單行、防注入洗版");
}

#[test]
fn feed_and_say_are_single_line() {
    assert!(!farbond_say_line("諾娃", "風禾屯", 0).contains('\n'));
    assert!(!farbond_feed_detail("諾娃", "風禾屯").contains('\n'));
}

#[test]
fn clock_gates_by_interval() {
    let mut c = FarBondClock::new();
    assert!(c.due("r1", 10_000), "從沒念叨過 → 可以");
    c.mark("r1", 10_000);
    assert!(!c.due("r1", 10_000), "剛念叨完 → 冷卻中");
    assert!(
        !c.due("r1", 10_000 + FARBOND_MIN_INTERVAL_SECS - 1),
        "冷卻未滿 → 不可"
    );
    assert!(
        c.due("r1", 10_000 + FARBOND_MIN_INTERVAL_SECS),
        "冷卻正好滿 → 可以"
    );
    // 別的居民互不影響。
    assert!(c.due("r2", 10_000));
    assert_eq!(c.len(), 1);
}

#[test]
fn clock_counts_misses_and_resets_for_embark() {
    // 相思成行（947）：每次 mark 念叨計數 +1；reset_count 歸零但保留冷卻時刻。
    let mut c = FarBondClock::new();
    assert_eq!(c.miss_count("r1"), 0, "從沒念叨過＝0");
    c.mark("r1", 10_000);
    c.mark("r1", 10_000 + FARBOND_MIN_INTERVAL_SECS);
    c.mark("r1", 10_000 + FARBOND_MIN_INTERVAL_SECS * 2);
    assert_eq!(c.miss_count("r1"), 3);
    assert_eq!(c.miss_count("r2"), 0, "別的居民互不影響");
    c.reset_count("r1");
    assert_eq!(c.miss_count("r1"), 0, "成行後思念歸零、重新累積");
    assert!(
        !c.due("r1", 10_000 + FARBOND_MIN_INTERVAL_SECS * 2),
        "歸零不清冷卻時刻——回來後至少再隔一輪冷卻才開始新的念叨"
    );
    // 對從沒念叨過的居民 reset 是安全的 no-op。
    c.reset_count("r9");
    assert_eq!(c.miss_count("r9"), 0);
}

#[test]
fn clock_now_before_last_does_not_underflow() {
    // 防呆：時鐘倒退（now < last）也不 panic、視為冷卻中。
    let mut c = FarBondClock::new();
    c.mark("r1", 10_000);
    assert!(!c.due("r1", 9_000));
}

#[test]
fn farbond_lines_are_exact() {
    assert_eq!(farbond_say_line("諾娃", "風禾屯", 2), "諾娃在「風禾屯」還好嗎？隔著兩座村，也還是會想起。");
    assert_eq!(
        farbond_memory_summary("諾娃", "風禾屯"),
        "🏘️諾娃搬去了「風禾屯」，隔著兩座村，我還是常常想起這位老朋友。"
    );
    // Exact ties (same visits, same name) go to the later friend in the list.
    let friends = vec![ff("諾娃", 1, 5), ff("諾娃", 2, 5)];
    assert_eq!(pick_missed_friend(0, &friends).unwrap().settlement, 2);
    let mut c = FarBondClock::new();
    assert!(c.is_empty());
    c.mark("r1", 5);
    c.mark("r2", 5);
    assert_eq!(c.len(), 2);
}

#[test]
fn missed_friend_does_not_depend_on_order() {
    let make = |n: &str, s: u64, v: u32| voxel_village::voxel_farbond::FarFriend { name: n.to_string(), settlement: s, visits: v };
    let a = vec![make("阿光", 2, 3), make("小美", 3, 5), make("小雨", 2, 5), make("星禾", 1, 9)];
    let mut b = a.clone();
    b.reverse();
    let pa = voxel_village::voxel_farbond::pick_missed_friend(1, &a).unwrap();
    let pb = voxel_village::voxel_farbond::pick_missed_friend(1, &b).unwrap();
    assert_eq!((pa.name.as_str(), pa.visits), (pb.name.as_str(), pb.visits));
}
