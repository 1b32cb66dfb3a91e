use voxel_village::voxel_famine::{
    advance_famine, famine_end_feed_detail, famine_end_say_line, famine_fed_memory_line,
    famine_rescue_feed_line, famine_start_feed_detail, famine_start_say_line, FamineEvent,
    FamineTick, FAMINE_COOLDOWN_TICKS, FAMINE_DURATION_TICKS,
};

#[test]
fn is_active_matches_remaining() {
    assert!(!FamineTick::default().is_active());
    assert!(FamineTick { remaining: 1, cooldown: 0 }.is_active());
}

#[test]
fn say_lines_nonempty_distinct_and_pick_safe() {
    let mut seen = std::collections::HashSet::new();
    for pick in 0..4 {
        let l = famine_start_say_line(pick);
        assert!(!l.is_empty());
        assert!(seen.insert(l));
    }
    assert!(!famine_start_say_line(usize::MAX).is_empty());
    let mut seen2 = std::collections::HashSet::new();
    for pick in 0..4 {
        let l = famine_end_say_line(pick);
        assert!(!l.is_empty());
        assert!(seen2.insert(l));
    }
    assert!(!famine_end_say_line(usize::MAX).is_empty());
}

#[test]
fn feed_details_are_nonempty_and_newline_free() {
    assert!(!famine_start_feed_detail().is_empty());
    assert!(!famine_start_feed_detail().contains('\n'));
    let with_help = famine_end_feed_detail(2, 5);
    assert!(with_help.contains('2') && with_help.contains('5'));
    assert!(!with_help.contains('\n'));
    let no_help = famine_end_feed_detail(0, 1);
    assert!(!no_help.contains('\n'));
    assert_ne!(with_help, no_help);
}

#[test]
fn famine_fed_memory_line_embeds_player_name_only() {
    let line = famine_fed_memory_line("小明");
    assert!(line.contains("小明"));
    assert!(!line.contains('\n'));
}

#[test]
fn famine_rescue_feed_line_embeds_both_names() {
    let line = famine_rescue_feed_line("露娜", "小明");
    assert!(line.contains("露娜") && line.contains("小明"));
    assert!(!line.contains('\n'));
}

#[test]
fn quiet_village_starts_famine_only_when_triggered() {
    let (next, ev) = advance_famine(FamineTick::default(), false);
    assert_eq!(next, FamineTick::default());
    assert_eq!(ev, FamineEvent::NoChange);
    let (next, ev) = advance_famine(FamineTick::default(), true);
    assert_eq!(next, FamineTick { remaining: FAMINE_DURATION_TICKS, cooldown: 0 });
    assert_eq!(ev, FamineEvent::Started);
}

#[test]
fn famine_runs_its_course_then_cools_down() {
    let mut t = FamineTick { remaining: FAMINE_DURATION_TICKS, cooldown: 0 };
    for _ in 0..(FAMINE_DURATION_TICKS - 1) {
        let (next, ev) = advance_famine(t, true);
        assert_eq!(ev, FamineEvent::NoChange);
        t = next;
    }
    let (next, ev) = advance_famine(t, true);
    assert_eq!(ev, FamineEvent::Ended);
    assert_eq!(next, FamineTick { remaining: 0, cooldown: FAMINE_COOLDOWN_TICKS });
    // A triggered roll during cooldown starts nothing.
    let (next2, ev2) = advance_famine(FamineTick { remaining: 0, cooldown: 1 }, true);
    assert_eq!(next2, FamineTick::default());
    assert_eq!(ev2, FamineEvent::NoChange);
}

#[test]
fn famine_end_feed_detail_is_exact() {
    assert_eq!(
        famine_end_feed_detail(2, 5),
        "青黃不接的日子總算過去了——這段日子裡有 2 次是有人及時送來食物撐過難關。這是村莊第 5 次熬過荒年。"
    );
    assert_eq!(famine_end_feed_detail(0, 10), "青黃不接的日子總算過去了，幸好誰都沒真的餓著。這是村莊第 10 次熬過荒年。");
}
