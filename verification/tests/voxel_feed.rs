use voxel_village::voxel_feed::{
    feed_event_for, format_relative_time, latest_first, rotation_keep, sanitize, FeedEvent,
    FEED_KEEP_LINES, FEED_ROTATION_LIMIT,
};

#[test]
fn relative_time_just_now() {
    assert_eq!(format_relative_time(100, 120), "剛才");
}

#[test]
fn relative_time_same_ts() {
    assert_eq!(format_relative_time(500, 500), "剛才");
}

#[test]
fn relative_time_future_is_just_now() {
    // event_ts > now_ts → saturating_sub 為 0 → "剛才"
    assert_eq!(format_relative_time(999, 0), "剛才");
}

#[test]
fn relative_time_minutes() {
    assert_eq!(format_relative_time(0, 300), "5 分鐘前");
}

#[test]
fn relative_time_hours() {
    assert_eq!(format_relative_time(0, 7200), "2 小時前");
}

#[test]
fn relative_time_days() {
    assert_eq!(format_relative_time(0, 172800), "2 天前");
}

#[test]
fn load_recent_feed_returns_latest_n() {
    // 直接測 sort+truncate 邏輯，不依賴真實檔案
    let mut events: Vec<FeedEvent> = (0u64..10)
        .map(|i| FeedEvent {
            ts_secs: i,
            kind: "新心願".to_string(),
            resident: "露娜".to_string(),
            detail: format!("event {i}"),
        })
        .collect();
    events.sort_by(|a, b| b.ts_secs.cmp(&a.ts_secs));
    events.truncate(3);
    assert_eq!(events.len(), 3);
    // 最新在前（ts_secs=9,8,7）
    assert_eq!(events[0].ts_secs, 9);
    assert_eq!(events[1].ts_secs, 8);
    assert_eq!(events[2].ts_secs, 7);
}

#[test]
fn sanitize_strips_control() {
    let input = "露娜\x00\x1b[31m";
    let out = sanitize(input);
    assert!(!out.contains('\x00'));
    assert!(!out.contains('\x1b'));
    assert!(out.contains("露娜"));
}


fn ev(ts: u64, detail: &str) -> FeedEvent {
    FeedEvent { ts_secs: ts, kind: "新心願".to_string(), resident: "露娜".to_string(), detail: detail.to_string() }
}

#[test]
fn latest_first_orders_newest_first_and_keeps_ties_in_order() {
    let events = vec![ev(3, "a"), ev(9, "b"), ev(3, "c"), ev(7, "d"), ev(9, "e")];
    let got = latest_first(events, 4);
    let order: Vec<(u64, String)> = got.iter().map(|e| (e.ts_secs, e.detail.clone())).collect();
    assert_eq!(
        order,
        vec![(9, "b".to_string()), (9, "e".to_string()), (7, "d".to_string()), (3, "a".to_string())]
    );
    assert!(latest_first(Vec::new(), 5).is_empty());
    assert_eq!(latest_first(vec![ev(1, "x")], 0).len(), 0);
}

#[test]
fn latest_first_of_ten_takes_newest_three() {
    let events: Vec<FeedEvent> = (0u64..10).map(|i| ev(i, &format!("event {i}"))).collect();
    let got = latest_first(events, 3);
    assert_eq!(got.iter().map(|e| e.ts_secs).collect::<Vec<_>>(), vec![9, 8, 7]);
}

#[test]
fn feed_event_is_cleaned_and_refused_when_empty() {
    let e = feed_event_for(5, " 新心願\u{7}", "露娜\x00", "  想蓋塔 \n").unwrap();
    assert_eq!(e.kind, "新心願");
    assert_eq!(e.resident, "露娜");
    assert_eq!(e.detail, "想蓋塔");
    assert_eq!(e.ts_secs, 5);
    assert!(feed_event_for(5, "  ", "露娜", "x").is_none());
    assert!(feed_event_for(5, "k", "\x1b\x00", "x").is_none());
    assert_eq!(sanitize("\u{85}a\u{9f}b "), "ab");
}

#[test]
fn relative_time_boundaries() {
    assert_eq!(format_relative_time(0, 59), "剛才");
    assert_eq!(format_relative_time(0, 60), "1 分鐘前");
    assert_eq!(format_relative_time(0, 3599), "59 分鐘前");
    assert_eq!(format_relative_time(0, 3600), "1 小時前");
    assert_eq!(format_relative_time(0, 86399), "23 小時前");
    assert_eq!(format_relative_time(0, 86400), "1 天前");
}

#[test]
fn rotation_keeps_newest_non_blank_lines() {
    let mut lines: Vec<String> = (0..FEED_ROTATION_LIMIT + 50).map(|i| format!("line {i}")).collect();
    lines.insert(3, "   ".to_string());
    let kept = rotation_keep(lines).unwrap();
    assert_eq!(kept.len(), FEED_KEEP_LINES);
    assert_eq!(kept.last().unwrap(), &format!("line {}", FEED_ROTATION_LIMIT + 49));
    assert_eq!(kept[0], format!("line {}", FEED_ROTATION_LIMIT + 50 - FEED_KEEP_LINES));
    let mut short: Vec<String> = (0..FEED_ROTATION_LIMIT - 1).map(|i| format!("l{i}")).collect();
    short.push(String::new());
    assert!(rotation_keep(short).is_none());
}
