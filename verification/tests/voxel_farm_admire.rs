use voxel_village::voxel_farm_admire::{
    admire_memory_line, admire_say_line, admire_triggers_within, streak_count_after,
    FARM_ADMIRE_STREAK_MIN, STREAK_WINDOW_SECS,
};

#[test]
fn say_line_is_deterministic_and_carries_name() {
    let a = admire_say_line("露娜客", 0);
    let b = admire_say_line("露娜客", 0);
    assert_eq!(a, b);
    assert!(a.contains("露娜客"));
    assert!(!admire_say_line("阿旅", 0).contains("{p}"));
}

#[test]
fn say_lines_are_distinct() {
    let lines: std::collections::HashSet<String> =
        (0..5).map(|p| admire_say_line("旅人", p)).collect();
    assert_eq!(lines.len(), 5, "五句應各不相同");
}

#[test]
fn memory_line_no_newline() {
    assert!(!admire_memory_line("旅人").contains('\n'));
}

#[test]
fn streak_count_starts_chains_and_resets() {
    assert_eq!(streak_count_after(None, true, 100), 1);
    assert_eq!(streak_count_after(Some((2, 100)), true, 105), 3);
    // Far away: a new streak.
    assert_eq!(streak_count_after(Some((5, 100)), false, 102), 1);
    // Too late: a new streak.
    assert_eq!(streak_count_after(Some((5, 100)), true, 100 + STREAK_WINDOW_SECS + 1), 1);
    // Exactly at the window still chains.
    assert_eq!(streak_count_after(Some((2, 100)), true, 100 + STREAK_WINDOW_SECS), 3);
    // A clock that went backwards counts as no pause.
    assert_eq!(streak_count_after(Some((2, 100)), true, 50), 3);
}

#[test]
fn trigger_needs_streak_sight_and_cooldown() {
    assert!(admire_triggers_within(FARM_ADMIRE_STREAK_MIN, true, true));
    assert!(!admire_triggers_within(FARM_ADMIRE_STREAK_MIN - 1, true, true));
    assert!(!admire_triggers_within(FARM_ADMIRE_STREAK_MIN, true, false));
    assert!(!admire_triggers_within(FARM_ADMIRE_STREAK_MIN, false, true));
}

#[test]
fn say_line_exact_text() {
    assert_eq!(admire_say_line("阿旅", 0), "阿旅，你這畦地翻得真仔細，我都聞到泥土的香氣了。");
    assert_eq!(admire_say_line("阿旅", 8), "光是看阿旅種田，我心情都跟著好起來了。");
    assert_eq!(admire_memory_line("農夫"), "看著農夫在田裡忙進忙出，一畦一畦仔細照顧，那份用心我都看在眼裡。");
}
