use voxel_village::voxel_farvisit::{
    arrive_bubble, cap, depart_bubble, depart_feed_line, depart_home_feed_line, giveup_feed_line,
    host_memory_line, host_reply_bubble, not_home_bubble, not_home_feed_line, reunion_feed_line,
    should_embark_now, visitor_memory_line, EMBARK_AFTER_MISSES, SAY_MAX_CHARS,
};

#[test]
fn cap_truncates_on_char_boundary() {
    let long = "思".repeat(SAY_MAX_CHARS + 20);
    assert_eq!(cap(long).chars().count(), SAY_MAX_CHARS);
}

#[test]
fn voxel_farvisit_bubbles_cycle_by_pick_and_stay_within_cap() {
    for pick in 0..6 {
        for s in [
            depart_bubble("諾娃", "風禾屯", pick),
            arrive_bubble("諾娃", pick),
            host_reply_bubble("露娜", pick),
            not_home_bubble("諾娃", pick),
        ] {
            assert!(s.chars().count() <= SAY_MAX_CHARS);
            assert!(!s.is_empty());
            assert!(!s.contains('\n'), "泡泡須單行");
        }
    }
    // 三句輪替：pick 0 與 3 同句、0 與 1 不同句。
    assert_eq!(depart_bubble("諾娃", "風禾屯", 0), depart_bubble("諾娃", "風禾屯", 3));
    assert_ne!(depart_bubble("諾娃", "風禾屯", 0), depart_bubble("諾娃", "風禾屯", 1));
}

#[test]
fn feed_lines_embed_names_and_place_single_line() {
    for s in [
        depart_feed_line("諾娃", "風禾屯"),
        reunion_feed_line("露娜", "諾娃", "風禾屯"),
        depart_home_feed_line("諾娃", "風禾屯"),
        not_home_feed_line("諾娃", "風禾屯"),
        giveup_feed_line("諾娃", "風禾屯"),
    ] {
        assert!(s.contains("諾娃"));
        assert!(s.contains("風禾屯"));
        assert!(!s.contains('\n'), "Feed 明細須單行、防洗版");
    }
    assert!(reunion_feed_line("露娜", "諾娃", "風禾屯").contains("露娜"));
}

#[test]
fn memory_lines_embed_the_other_party_and_place() {
    let v = visitor_memory_line("諾娃", "風禾屯");
    assert!(v.contains("諾娃") && v.contains("風禾屯"));
    let h = host_memory_line("露娜", "風禾屯");
    assert!(h.contains("露娜") && h.contains("風禾屯"));
}

#[test]
fn voxel_farvisit_long_names_do_not_panic_any_line() {
    let long_name = "遠".repeat(200);
    let _ = depart_bubble(&long_name, &long_name, 1);
    let _ = arrive_bubble(&long_name, 2);
    let _ = host_reply_bubble(&long_name, 0);
    let _ = not_home_bubble(&long_name, 1);
    let _ = depart_feed_line(&long_name, &long_name);
    let _ = reunion_feed_line(&long_name, &long_name, &long_name);
    let _ = visitor_memory_line(&long_name, &long_name);
    let _ = host_memory_line(&long_name, &long_name);
    let _ = depart_home_feed_line(&long_name, &long_name);
    let _ = not_home_feed_line(&long_name, &long_name);
    let _ = giveup_feed_line(&long_name, &long_name);
}


#[test]
fn embark_needs_every_gate() {
    assert!(should_embark_now(EMBARK_AFTER_MISSES, true, true, false));
    assert!(should_embark_now(EMBARK_AFTER_MISSES + 5, true, true, false));
    assert!(!should_embark_now(EMBARK_AFTER_MISSES - 1, true, true, false));
    assert!(!should_embark_now(0, true, true, false));
    assert!(!should_embark_now(EMBARK_AFTER_MISSES, false, true, false));
    assert!(!should_embark_now(EMBARK_AFTER_MISSES, true, false, false));
    assert!(!should_embark_now(EMBARK_AFTER_MISSES, true, true, true));
}

#[test]
fn farvisit_lines_exact_text() {
    assert_eq!(depart_bubble("諾娃", "風禾屯", 1), "光是念叨不夠了，我這就動身去「風禾屯」看諾娃。");
    assert_eq!(host_reply_bubble("露娜", 5), "露娜來了！快，讓我好好看看你——一路辛苦了。");
    assert_eq!(giveup_feed_line("諾娃", "風禾屯"), "往「風禾屯」的路太遠太難走，這趟沒能見到諾娃，半途折返了");
    assert_eq!(cap("短句".to_string()), "短句");
    let long = "遠".repeat(60);
    assert_eq!(arrive_bubble(&long, 0).chars().count(), SAY_MAX_CHARS);
}
