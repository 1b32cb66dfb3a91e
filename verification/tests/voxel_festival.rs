use voxel_village::voxel_festival::{
    celebrates, festival_begin_feed_line, festival_bubble_line, is_festival_day,
    FESTIVAL_INTERVAL_DAYS,
};

#[test]
fn festival_day_at_multiples_of_interval() {
    assert!(is_festival_day(0));
    assert!(is_festival_day(FESTIVAL_INTERVAL_DAYS));
    assert!(is_festival_day(FESTIVAL_INTERVAL_DAYS * 3));
}

#[test]
fn non_festival_day_between_intervals() {
    for d in 1..FESTIVAL_INTERVAL_DAYS {
        assert!(!is_festival_day(d), "day {d} 不該是慶典日");
    }
}

#[test]
fn festival_bubble_line_non_empty_and_all_distinct() {
    let lines: std::collections::HashSet<_> = (0..4).map(festival_bubble_line).collect();
    assert_eq!(lines.len(), 4, "四句應各不相同");
    for pick in [0usize, 1, 2, 3, 99] {
        assert!(!festival_bubble_line(pick).is_empty());
    }
}

#[test]
fn festival_begin_feed_line_mentions_festival() {
    assert!(festival_begin_feed_line().contains('🎉'));
    assert!(!festival_begin_feed_line().is_empty());
}


#[test]
fn celebrates_needs_every_gate() {
    assert!(celebrates(true, true, true, true));
    assert!(!celebrates(false, true, true, true));
    assert!(!celebrates(true, false, true, true));
    assert!(!celebrates(true, true, false, true));
    assert!(!celebrates(true, true, true, false));
}

#[test]
fn festival_bubble_exact_and_cycles() {
    assert_eq!(festival_bubble_line(5), "🎊 慶典日就是要笑得比平常燦爛一點～");
    assert_eq!(festival_bubble_line(0), festival_bubble_line(4));
    assert!(!is_festival_day(FESTIVAL_INTERVAL_DAYS + 1));
}
