use voxel_village::voxel_grove::{
    grown_tree_blocks, is_plantable_ground, GroveBlock, GroveStore, SAPLING_GROW_SECS, SAPLING_ID,
};

#[test]
fn sapling_id_is_after_baked_potato() {
    // 樹苗 id 65 必須落在既有 item id（烤地薯 64）之後、且不撞任何既有方塊 enum（≤59）。
    assert_eq!(SAPLING_ID, 65);
    assert!(SAPLING_ID > 64, "樹苗應排在烤地薯(64)之後");
}

#[test]
fn plant_creates_sapling() {
    let mut g = GroveStore::new();
    g.plant(1, 5, 2, 1000);
    assert!(g.has(1, 5, 2));
    assert!(!g.has(0, 0, 0));
}

#[test]
fn remove_clears_sapling() {
    let mut g = GroveStore::new();
    g.plant(3, 5, 7, 1000);
    g.remove(3, 5, 7);
    assert!(!g.has(3, 5, 7));
}

#[test]
fn voxel_grove_immature_before_grow_secs() {
    let mut g = GroveStore::new();
    g.plant(0, 5, 0, 1000);
    // 差 1 秒未達門檻。
    assert!(g.mature_saplings(1000 + SAPLING_GROW_SECS - 1).is_empty());
}

#[test]
fn voxel_grove_mature_at_exactly_grow_secs() {
    let mut g = GroveStore::new();
    g.plant(0, 5, 0, 1000);
    let m = g.mature_saplings(1000 + SAPLING_GROW_SECS);
    assert_eq!(m.len(), 1);
    assert!(m.contains(&(0, 5, 0)));
}

#[test]
fn only_mature_saplings_returned() {
    let mut g = GroveStore::new();
    g.plant(0, 5, 0, 1000); // 差不足
    g.plant(1, 5, 0, 1000 - SAPLING_GROW_SECS - 10); // 早就長成
    let m = g.mature_saplings(1000);
    assert_eq!(m.len(), 1);
    assert!(m.contains(&(1, 5, 0)));
    assert!(!m.contains(&(0, 5, 0)));
}

#[test]
fn tree_slower_than_slowest_crop() {
    // 種樹是更長線的投資：應比最慢的作物（馬鈴薯 120s）還慢。
    assert!(SAPLING_GROW_SECS > 120, "樹苗應比最慢作物更慢長成");
}

#[test]
fn plantable_ground_accepts_natural_soil_rejects_others() {
    // 土地類方塊可種。
    for g in [1u8, 2, 4, 11, 55] {
        assert!(is_plantable_ground(g), "{g} 應可種樹苗");
    }
    // 非土地（空氣0/石3/水7/木5/葉6/玻璃10）不可種。
    for b in [0u8, 3, 7, 5, 6, 10] {
        assert!(!is_plantable_ground(b), "{b} 不應可種樹苗");
    }
}

#[test]
fn grown_tree_has_trunk_and_canopy() {
    let blocks = grown_tree_blocks(10, 5, 20);
    let trunk = blocks.iter().filter(|(_, _, _, b)| *b == GroveBlock::Trunk).count();
    let leaves = blocks.iter().filter(|(_, _, _, b)| *b == GroveBlock::Leaf).count();
    assert_eq!(trunk, 3, "樹幹應為 3 格");
    // 兩層 3×3 環（各 8）＋頂蓋十字（5）＝ 21 葉。
    assert_eq!(leaves, 21, "樹冠葉片數應為 21");
}

#[test]
fn grown_tree_base_is_trunk() {
    // 底座（樹苗原位）必須被樹幹覆蓋（換掉樹苗方塊）。
    let (bx, by, bz) = (10, 5, 20);
    let blocks = grown_tree_blocks(bx, by, bz);
    assert!(
        blocks.contains(&(bx, by, bz, GroveBlock::Trunk)),
        "底座應是樹幹"
    );
}

#[test]
fn grown_tree_trunk_is_a_vertical_column() {
    // 樹幹三格應在同一 (x,z) 柱、連續三個 y。
    let (bx, by, bz) = (0, 0, 0);
    let blocks = grown_tree_blocks(bx, by, bz);
    let mut trunk_ys: Vec<i32> = blocks
        .iter()
        .filter(|(x, _, z, b)| *b == GroveBlock::Trunk && *x == bx && *z == bz)
        .map(|(_, y, _, _)| *y)
        .collect();
    trunk_ys.sort_unstable();
    assert_eq!(trunk_ys, vec![by, by + 1, by + 2]);
}

#[test]
fn grown_tree_canopy_sits_above_ground() {
    // 所有葉片都在底座之上（y > by），不會長到地面或地下。
    let (bx, by, bz) = (3, 7, 9);
    let blocks = grown_tree_blocks(bx, by, bz);
    for (_, y, _, b) in &blocks {
        if *b == GroveBlock::Leaf {
            assert!(*y > by, "葉片應在底座之上：y={y} by={by}");
        }
    }
}

#[test]
fn grown_tree_positions_are_unique() {
    // 同一格不該被指派兩種方塊（樹幹頂與樹冠環不重疊）。
    let blocks = grown_tree_blocks(0, 0, 0);
    let mut coords: Vec<(i32, i32, i32)> =
        blocks.iter().map(|(x, y, z, _)| (*x, *y, *z)).collect();
    let n = coords.len();
    coords.sort_unstable();
    coords.dedup();
    assert_eq!(coords.len(), n, "樹的方塊座標應彼此不重複");
}

#[test]
fn grove_replant_restarts_and_exact_tree() {
    let mut g = GroveStore::new();
    g.plant(0, 5, 0, 0);
    g.plant(0, 5, 0, 500);
    assert!(g.mature_saplings(SAPLING_GROW_SECS).is_empty());
    assert_eq!(g.mature_saplings(500 + SAPLING_GROW_SECS), vec![(0, 5, 0)]);
    let t = grown_tree_blocks(10, 5, 20);
    assert_eq!(t.len(), 24);
    assert_eq!(t[3], (9, 6, 19, GroveBlock::Leaf));
    assert_eq!(t[19], (10, 8, 20, GroveBlock::Leaf));
    // A sapling planted so late that the ripening time overflows never grows.
    let mut h = GroveStore::new();
    h.plant(1, 1, 1, u64::MAX - 1);
    assert!(h.mature_saplings(u64::MAX - 1).is_empty());
    assert_eq!(h.mature_saplings(u64::MAX), vec![(1, 1, 1)]);
}
