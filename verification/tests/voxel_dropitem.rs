use voxel_village::voxel_dropitem::{
    clamp_drop_count, DropStore, DESPAWN_SECS, MAX_ACTIVE_DROPS, MAX_DROP_COUNT,
};

#[test]
fn clamp_drop_count_bounds() {
    assert_eq!(clamp_drop_count(0), 1);
    assert_eq!(clamp_drop_count(1), 1);
    assert_eq!(clamp_drop_count(10), 10);
    assert_eq!(clamp_drop_count(MAX_DROP_COUNT), MAX_DROP_COUNT);
    assert_eq!(clamp_drop_count(MAX_DROP_COUNT + 1000), MAX_DROP_COUNT);
}

#[test]
fn spawn_creates_entry_and_len_increases() {
    let mut s = DropStore::<(f32, f32, f32)>::new();
    let id = s.spawn((1.0, 2.0, 3.0), 5, 3, "露娜", 100).unwrap();
    assert_eq!(s.len(), 1);
    let all = s.all();
    assert_eq!(all[0].id, id);
    assert_eq!(all[0].item_id, 5);
    assert_eq!(all[0].count, 3);
    assert_eq!(all[0].dropped_by, "露娜");
}

#[test]
fn spawn_fails_at_cap() {
    let mut s = DropStore::<(f32, f32, f32)>::new();
    for i in 0..MAX_ACTIVE_DROPS {
        assert!(s.spawn((i as f32, 0.0, 0.0), 5, 1, "旅人", 0).is_some());
    }
    assert_eq!(s.len(), MAX_ACTIVE_DROPS);
    assert!(s.spawn((999.0, 0.0, 0.0), 5, 1, "旅人", 0).is_none());
    assert_eq!(s.len(), MAX_ACTIVE_DROPS, "已達上限不應多存一筆");
}

#[test]
fn remove_returns_item_and_clears_it() {
    let mut s = DropStore::<(f32, f32, f32)>::new();
    let id = s.spawn((0.0, 0.0, 0.0), 8, 4, "諾娃", 10).unwrap();
    let removed = s.remove(id).unwrap();
    assert_eq!(removed.item_id, 8);
    assert!(s.is_empty());
    assert!(s.remove(id).is_none(), "重複移除該回 None");
}

#[test]
fn expire_removes_old_keeps_fresh() {
    let mut s = DropStore::<(f32, f32, f32)>::new();
    let old = s.spawn((0.0, 0.0, 0.0), 3, 1, "旅人", 0).unwrap();
    let fresh = s.spawn((0.0, 0.0, 0.0), 3, 1, "旅人", 250).unwrap();
    let expired = s.expire(300);
    assert_eq!(expired.len(), 1);
    assert_eq!(expired[0].id, old);
    assert_eq!(s.len(), 1);
    assert!(s.all().iter().any(|d| d.id == fresh));
}

#[test]
fn expire_boundary_exactly_despawn_secs_expires() {
    let mut s = DropStore::<(f32, f32, f32)>::new();
    let id = s.spawn((0.0, 0.0, 0.0), 3, 1, "旅人", 0).unwrap();
    let expired = s.expire(DESPAWN_SECS);
    assert_eq!(expired.len(), 1);
    assert_eq!(expired[0].id, id);
}

#[test]
fn expire_empty_store_returns_empty() {
    let mut s = DropStore::<(f32, f32, f32)>::new();
    assert!(s.expire(9999).is_empty());
}

#[test]
fn all_sorted_by_id() {
    let mut s = DropStore::<(f32, f32, f32)>::new();
    let a = s.spawn((0.0, 0.0, 0.0), 1, 1, "甲", 0).unwrap();
    let b = s.spawn((0.0, 0.0, 0.0), 2, 1, "乙", 0).unwrap();
    let ids: Vec<u64> = s.all().iter().map(|d| d.id).collect();
    assert_eq!(ids, vec![a, b]);
}

/// Whether a drop at `p` lies within pick-up reach (1.6 blocks) of `(px, py, pz)`.
fn within(p: &(f32, f32, f32), px: f32, py: f32, pz: f32) -> bool {
    let (dx, dy, dz) = (p.0 - px, p.1 - py, p.2 - pz);
    let d2 = dx * dx + dy * dy + dz * dz;
    d2.is_finite() && d2 <= 1.6 * 1.6
}

#[test]
fn earliest_where_picks_oldest_passing_drop() {
    let mut s = DropStore::<(f32, f32, f32)>::new();
    let a = s.spawn((1.0, 0.0, 0.0), 3, 1, "旅人甲", 0).unwrap();
    let _b = s.spawn((1.0, 0.0, 0.0), 3, 1, "旅人乙", 0).unwrap();
    let far = s.spawn((50.0, 0.0, 0.0), 3, 1, "旅人丙", 0).unwrap();
    assert_eq!(s.earliest_where(|p| within(p, 1.0, 0.0, 0.0)), Some(a));
    assert_eq!(s.earliest_where(|p| within(p, 50.5, 0.0, 0.0)), Some(far));
    assert_eq!(s.earliest_where(|p| within(p, -50.0, 0.0, 0.0)), None);
    // Removing the oldest makes the next one the earliest.
    s.remove(a);
    assert_eq!(s.earliest_where(|p| within(p, 1.0, 0.0, 0.0)), Some(a + 1));
}

#[test]
fn expire_keeps_order_of_the_rest() {
    let mut s = DropStore::<u8>::new();
    s.spawn(0, 1, 1, "甲", 10).unwrap();
    s.spawn(0, 2, 1, "乙", 0).unwrap();
    s.spawn(0, 3, 1, "丙", 20).unwrap();
    let gone = s.expire(DESPAWN_SECS + 5);
    assert_eq!(gone.iter().map(|d| d.item_id).collect::<Vec<_>>(), vec![2]);
    assert_eq!(s.all().iter().map(|d| d.item_id).collect::<Vec<_>>(), vec![1, 3]);
    // A clock behind the drop time counts as no time passed.
    assert!(s.expire(0).is_empty());
    assert!(MAX_ACTIVE_DROPS > 0);
}
