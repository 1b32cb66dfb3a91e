use voxel_village::voxel_home_life::{
    act_apt_now, act_for_accent, act_verb_zh, HomeAct, HomeLifeCard, HomeLifeStore,
};

#[test]
fn act_for_accent_maps_all_eight() {
    assert_eq!(act_for_accent("hearth"), HomeAct::Cook);
    assert_eq!(act_for_accent("water"), HomeAct::DrawWater);
    assert_eq!(act_for_accent("lights"), HomeAct::LightLamps);
    assert_eq!(act_for_accent("garden"), HomeAct::TendGarden);
    assert_eq!(act_for_accent("library"), HomeAct::Read);
    assert_eq!(act_for_accent("monument"), HomeAct::GazeMonument);
    assert_eq!(act_for_accent("open"), HomeAct::Host);
    // none／未知／空字串一律落回 Rest。
    assert_eq!(act_for_accent("none"), HomeAct::Rest);
    assert_eq!(act_for_accent(""), HomeAct::Rest);
    assert_eq!(act_for_accent("亂寫"), HomeAct::Rest);
}

#[test]
fn light_lamps_only_apt_at_dusk_or_night() {
    // 點燈只有入夜才合宜。
    assert!(!act_apt_now(HomeAct::LightLamps, false));
    assert!(act_apt_now(HomeAct::LightLamps, true));
    // 其餘家務全時段皆宜（不受日夜影響）。
    assert!(act_apt_now(HomeAct::Cook, false));
    assert!(act_apt_now(HomeAct::Cook, true));
    assert!(act_apt_now(HomeAct::Rest, false));
}

#[test]
fn verb_zh_matches_contract() {
    assert_eq!(act_verb_zh(HomeAct::Cook), "生火煮飯");
    assert_eq!(act_verb_zh(HomeAct::LightLamps), "點燈");
    assert_eq!(act_verb_zh(HomeAct::TendGarden), "侍弄花圃");
    assert_eq!(act_verb_zh(HomeAct::GazeMonument), "佇立碑前");
    assert_eq!(act_verb_zh(HomeAct::Rest), "歇息");
}


fn card(id: &str, lines: &[&str]) -> HomeLifeCard {
    HomeLifeCard {
        id: id.to_string(),
        name: String::new(),
        accent: String::new(),
        lines: lines.iter().map(|l| l.to_string()).collect(),
    }
}

#[test]
fn home_lines_pick_by_salt() {
    let store = HomeLifeStore::from_cards(vec![card(
        "vox_res_8",
        &["入夜了，我來點燈。", "燈火一盞盞亮起。", "讓路過的人看得見家。"],
    )]);
    assert_eq!(store.len(), 1);
    assert_eq!(store.pick("vox_res_8", 7), store.pick("vox_res_8", 7));
    assert_eq!(store.pick("vox_res_8", 1).as_deref(), Some("燈火一盞盞亮起。"));
    assert_eq!(store.pick("vox_res_8", 3), store.pick("vox_res_8", 0));
}

#[test]
fn home_lines_empty_missing_and_later_card_wins() {
    assert!(HomeLifeStore::new().pick("vox_res_8", 0).is_none());
    assert!(HomeLifeStore::new().is_empty());
    let store = HomeLifeStore::from_cards(vec![
        card("vox_res_9", &[]),
        card("", &["沒有 id"]),
        card("vox_res_1", &["一"]),
        card("vox_res_1", &["二"]),
    ]);
    assert_eq!(store.len(), 2);
    assert!(store.pick("vox_res_9", 5).is_none());
    assert!(store.pick("vox_res_99", 0).is_none());
    assert_eq!(store.pick("vox_res_1", 0).as_deref(), Some("二"));
}
