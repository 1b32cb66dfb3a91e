use voxel_village::voxel_dungeon::{relic_discovered_line, relic_feed_detail, RELIC_COIN_COUNT};

#[test]
fn relic_discovered_line_is_nonempty_and_mentions_coin_count() {
    let line = relic_discovered_line();
    assert!(!line.is_empty());
    assert!(line.contains(&RELIC_COIN_COUNT.to_string()), "提示應點名獲得數量：{line}");
}

#[test]
fn relic_feed_detail_is_nonempty_and_mentions_dungeon() {
    let detail = relic_feed_detail();
    assert!(!detail.is_empty());
    assert!(detail.contains("遺跡"));
}

#[test]
fn relic_line_names_twenty_coins() {
    assert!(relic_discovered_line().ends_with("得到 20 枚乙太幣。"));
}
