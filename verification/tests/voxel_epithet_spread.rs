use voxel_village::voxel_epithet_spread::{
    hearsay_greeting_line, heard_memory_summary, pick_to_share, spread_feed_line, Hearsay,
};
use voxel_village::voxel_playerepithet::PlayerRole;

fn coined(pairs: &[(&str, PlayerRole)]) -> Vec<(String, PlayerRole)> {
    pairs.iter().map(|(k, v)| (k.to_string(), *v)).collect()
}

#[test]
fn pick_shares_unknown_player() {
    let host = coined(&[("阿光", PlayerRole::Maker)]);
    let got = pick_to_share(&host, &Vec::new(), &Vec::new());
    assert_eq!(got, Some(("阿光".to_string(), PlayerRole::Maker)));
}

#[test]
fn pick_skips_already_coined_by_visitor() {
    // 訪客自己就認得這位玩家（第一手）→ 不必再聽傳聞。
    let host = coined(&[("阿光", PlayerRole::Maker)]);
    let visitor_coined = coined(&[("阿光", PlayerRole::Giver)]);
    assert_eq!(pick_to_share(&host, &visitor_coined, &Vec::new()), None);
}

#[test]
fn pick_skips_already_heard() {
    let host = coined(&[("阿光", PlayerRole::Maker)]);
    let mut heard = Vec::new();
    heard.push((
        "阿光".to_string(),
        Hearsay { role: PlayerRole::Trader, from: "露娜".to_string() },
    ));
    assert_eq!(pick_to_share(&host, &Vec::new(), &heard), None);
}

#[test]
fn pick_is_deterministic_by_name_order() {
    // 多位候選 → 取玩家名排序最前者，確定性。
    let host = coined(&[
        ("小北", PlayerRole::Giver),
        ("大東", PlayerRole::Maker),
    ]);
    let got = pick_to_share(&host, &Vec::new(), &Vec::new());
    // 「大東」<「小北」（字元序），取「大東」。
    assert_eq!(got.map(|(p, _)| p), Some("大東".to_string()));
}

#[test]
fn pick_none_when_host_has_no_epithets() {
    assert_eq!(pick_to_share(&Vec::new(), &Vec::new(), &Vec::new()), None);
}

#[test]
fn hearsay_greeting_non_empty_fits_bubble_and_mentions_epithet() {
    let hs = Hearsay { role: PlayerRole::Maker, from: "露娜".to_string() };
    for pick in 0..6 {
        let line = hearsay_greeting_line(&hs, pick);
        assert!(!line.is_empty());
        assert!(line.chars().count() <= 40, "招呼不可破泡泡框：{line}");
        assert!(line.contains("造物者"), "招呼要含名號：{line}");
    }
}

#[test]
fn hearsay_greeting_rotates() {
    let hs = Hearsay { role: PlayerRole::Giver, from: "露娜".to_string() };
    let a = hearsay_greeting_line(&hs, 0);
    let b = hearsay_greeting_line(&hs, 1);
    assert_ne!(a, b, "不同 pick 應輪替出不同招呼");
}

#[test]
fn hearsay_greeting_empty_from_is_safe() {
    let hs = Hearsay { role: PlayerRole::Companion, from: String::new() };
    let line = hearsay_greeting_line(&hs, 1);
    assert!(!line.is_empty());
    assert!(!line.contains("聽提起"), "空牽線者名不可露出破碎字串：{line}");
}

#[test]
fn feed_and_memory_contain_names_and_epithet() {
    let feed = spread_feed_line("露娜", "阿光", PlayerRole::Maker);
    assert!(feed.contains("露娜") && feed.contains("阿光") && feed.contains("造物者"));
    let mem = heard_memory_summary("露娜", "阿光", PlayerRole::Trader);
    assert!(mem.contains("露娜") && mem.contains("阿光") && mem.contains("老搭檔"));
}

#[test]
fn feed_and_memory_empty_names_are_safe() {
    let feed = spread_feed_line("", "", PlayerRole::Giver);
    assert!(!feed.is_empty() && feed.contains("慷慨的人"));
    let mem = heard_memory_summary("", "", PlayerRole::Companion);
    assert!(!mem.is_empty() && mem.contains("常來的老友"));
}

#[test]
fn pick_to_share_takes_smallest_unknown_name() {
    let host = coined(&[("丙", PlayerRole::Trader), ("乙", PlayerRole::Maker), ("甲", PlayerRole::Giver)]);
    let visitor = coined(&[("乙", PlayerRole::Maker)]);
    // "丙" (U+4E19) sorts before "甲" (U+7532); "乙" is already known.
    assert_eq!(pick_to_share(&host, &visitor, &Vec::new()), Some(("丙".to_string(), PlayerRole::Trader)));
    assert_eq!(
        spread_feed_line("露娜", "阿光", PlayerRole::Maker),
        "聽露娜提起，記住了大家口中的「造物者」——阿光。"
    );
}
