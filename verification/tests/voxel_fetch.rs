use voxel_village::voxel::GatherResource;
use voxel_village::voxel_fetch::{
    accept_line, deliver_line, detect_fetch_command, extract_count, fail_line, FetchTask,
    FETCH_DEFAULT_COUNT, FETCH_MAX_COUNT,
};

#[test]
fn detects_all_material_kinds_with_verb() {
    assert_eq!(detect_fetch_command("幫我採集木頭"), Some((GatherResource::Wood, FETCH_DEFAULT_COUNT)));
    assert_eq!(detect_fetch_command("幫我採集石頭"), Some((GatherResource::Stone, FETCH_DEFAULT_COUNT)));
    assert_eq!(detect_fetch_command("幫我拿一些沙子"), Some((GatherResource::Sand, FETCH_DEFAULT_COUNT)));
    assert_eq!(detect_fetch_command("幫我找泥土"), Some((GatherResource::Dirt, FETCH_DEFAULT_COUNT)));
    assert_eq!(detect_fetch_command("幫我搬草皮"), Some((GatherResource::Grass, FETCH_DEFAULT_COUNT)));
}

#[test]
fn parses_explicit_count_and_clamps_to_max() {
    assert_eq!(detect_fetch_command("幫我採集5塊木頭"), Some((GatherResource::Wood, 5)));
    assert_eq!(detect_fetch_command("幫我採集1塊石頭"), Some((GatherResource::Stone, 1)));
    // 超過上限 → 夾到 FETCH_MAX_COUNT。
    assert_eq!(detect_fetch_command("幫我採集99塊木頭"), Some((GatherResource::Wood, FETCH_MAX_COUNT)));
    // 0 份 → 夾到最少 1 份（不該有 0 份任務）。
    assert_eq!(detect_fetch_command("幫我採集0塊木頭"), Some((GatherResource::Wood, 1)));
}

#[test]
fn ignores_chitchat_and_material_mentions_without_verb() {
    // 提到材料但沒有跑腿動詞 → 只是聊天，不誤觸發。
    assert_eq!(detect_fetch_command("木頭好漂亮"), None);
    assert_eq!(detect_fetch_command("這附近石頭好多"), None);
    assert_eq!(detect_fetch_command("你好呀，今天天氣真好"), None);
    assert_eq!(detect_fetch_command(""), None);
}

#[test]
fn ignores_verb_without_recognized_material() {
    // 有跑腿動詞但沒提到可辨識材料 → 不誤觸發（別跟「幫我找露娜」這類請求衝突）。
    assert_eq!(detect_fetch_command("幫我找露娜"), None);
    assert_eq!(detect_fetch_command("幫我拿一下"), None);
}

#[test]
fn first_matching_material_wins_deterministically() {
    // 同時提到兩種材料時，取文字裡先命中的那個（確定性、不隨機）。
    let a = detect_fetch_command("幫我採集木頭跟石頭");
    assert_eq!(a, Some((GatherResource::Wood, FETCH_DEFAULT_COUNT)));
}

#[test]
fn accept_line_is_warm_and_varied_and_mentions_item() {
    let a = accept_line("木頭", 3, 0);
    let b = accept_line("木頭", 3, 1);
    assert!(!a.is_empty());
    assert_ne!(a, b);
    assert!(a.contains("木頭"));
    assert!(a.contains('3'));
}

#[test]
fn deliver_line_full_vs_partial_wording_differs() {
    let full = deliver_line("石頭", 3, 3, 0);
    let partial = deliver_line("石頭", 3, 1, 0);
    assert!(!full.is_empty() && !partial.is_empty());
    assert_ne!(full, partial, "圓滿 vs 短交的口吻應不同");
    assert!(partial.contains('1'));
    assert!(full.contains('3'));
}

#[test]
fn fail_line_is_nonempty_and_mentions_item() {
    let a = fail_line("木頭", 0);
    assert!(!a.is_empty());
    assert!(a.contains("木頭"));
}

#[test]
fn fetch_task_tracks_progress_to_completion() {
    let mut task = FetchTask::new("濕濕的".into(), GatherResource::Wood, 3);
    assert_eq!(task.remaining, 3);
    assert_eq!(task.carried, 0);
    assert!(!task.is_gathering_done());
    task.remaining -= 1;
    task.carried += 1;
    task.remaining -= 1;
    task.carried += 1;
    task.remaining -= 1;
    task.carried += 1;
    assert!(task.is_gathering_done());
    assert_eq!(task.carried, 3);
}

#[test]
fn extract_count_parses_and_ignores_non_digits() {
    assert_eq!(extract_count("採集5塊木頭"), Some(5));
    assert_eq!(extract_count("採集99塊木頭"), Some(99));
    assert_eq!(extract_count("採集木頭"), None);
    assert_eq!(extract_count(""), None);
}


#[test]
fn extract_count_overflow_and_runs() {
    assert_eq!(extract_count("4294967295"), Some(4294967295));
    assert_eq!(extract_count("4294967296"), None);
    assert_eq!(extract_count("99999999999"), None);
    assert_eq!(extract_count("採12塊又34塊"), Some(12));
    assert_eq!(extract_count("007"), Some(7));
    // A number too large for a u32 is still a number: it is kept at the largest amount.
    assert_eq!(
        detect_fetch_command("幫我採集99999999999塊木頭"),
        Some((GatherResource::Wood, FETCH_MAX_COUNT))
    );
}

#[test]
fn fetch_lines_exact_text() {
    assert_eq!(accept_line("木頭", 3, 0), "好，我這就去採3份木頭，帶回來給你！");
    assert_eq!(deliver_line("石頭", 3, 1, 4), "沒能湊滿，只採到1份石頭——先拿去用，我之後再幫你找找！");
    assert_eq!(deliver_line("石頭", 2, 5, 3), "呼～總算湊齊5份石頭了，這是你要的！");
    assert_eq!(fail_line("沙子", 2), "唉，附近沒有沙子可以採，這次先放棄，別的地方再找找看！");
}

#[test]
fn deliver_line_names_amount_and_material() {
    for pick in 0..8 {
        let full = deliver_line("木頭", 3, 3, pick);
        assert!(full.contains('3') && full.contains("木頭"), "{full}");
        let part = deliver_line("石頭", 6, 12, pick);
        assert!(part.contains("12") && part.contains("石頭"), "{part}");
        let short = deliver_line("沙子", 6, 2, pick);
        assert!(short.contains('2') && short.contains("沙子"), "{short}");
    }
}
