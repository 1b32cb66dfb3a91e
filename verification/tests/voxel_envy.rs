use voxel_village::voxel_building::BuildKind;
use voxel_village::voxel_envy::{envy_desire_text, envy_feed_line, envy_say_line, pick_envy_kind, ENVY_SAY_MAX_CHARS};

#[test]
fn pick_envy_kind_in_bounds_for_any_pick() {
    for pick in 0..50 {
        let _ = pick_envy_kind(pick); // 不 panic 即通過（越界安全取模）
    }
}

#[test]
fn pick_envy_kind_deterministic() {
    assert_eq!(pick_envy_kind(3), pick_envy_kind(3));
    assert_eq!(pick_envy_kind(3), pick_envy_kind(3 + 5));
}

#[test]
fn envy_say_line_contains_name_and_kind_and_fits_frame() {
    for pick in 0..4 {
        let line = envy_say_line("望遠橋", BuildKind::Tower, pick);
        assert!(line.contains("望遠橋"));
        assert!(line.contains("瞭望台"));
        assert!(line.chars().count() <= ENVY_SAY_MAX_CHARS);
    }
}

#[test]
fn envy_say_line_rotates_deterministically() {
    let a = envy_say_line("月台", BuildKind::Well, 0);
    let b = envy_say_line("月台", BuildKind::Well, 1);
    assert_ne!(a, b);
    assert_eq!(a, envy_say_line("月台", BuildKind::Well, 0));
}

#[test]
fn envy_say_line_never_breaks_frame_even_with_long_structure_name() {
    let long_name = "超級無敵長的地標名字測試用超級無敵長的地標名字測試用超級無敵長的地標名字測試用";
    let line = envy_say_line(long_name, BuildKind::House, 0);
    assert!(line.chars().count() <= ENVY_SAY_MAX_CHARS);
}

#[test]
fn envy_feed_line_mentions_resident_structure_and_kind() {
    let line = envy_feed_line("露娜", "風車丘", BuildKind::Garden);
    assert!(line.contains("露娜"));
    assert!(line.contains("風車丘"));
    assert!(line.contains("花圃"));
}

#[test]
fn envy_desire_text_names_landmark_and_kind() {
    assert_eq!(
        envy_desire_text("風車丘", BuildKind::Tower),
        "看到「風車丘」那麼特別，我也好想擁有一座自己的瞭望台"
    );
    assert_eq!(pick_envy_kind(0), BuildKind::House);
    assert_eq!(pick_envy_kind(7), BuildKind::Tower);
    assert_eq!(envy_say_line("月台", BuildKind::Garden, 3), "「月台」真的很打動我，也許有一天我也能擁有一座花圃。");
}
