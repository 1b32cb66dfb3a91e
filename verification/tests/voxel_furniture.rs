use voxel_village::voxel::Block;
use voxel_village::voxel_furniture::{
    is_furniture, is_furniture_id, BANNER_ID, CARPET_ID, FLOWERPOT_ID, TABLE_ID,
};

#[test]
fn ids_match_block_enum() {
    // 常數與 Block 列舉一致（防日後改 id 忘了同步）。
    assert_eq!(CARPET_ID, Block::Carpet.id());
    assert_eq!(FLOWERPOT_ID, Block::FlowerPot.id());
    assert_eq!(TABLE_ID, Block::Table.id());
    assert_eq!(BANNER_ID, Block::Banner.id());
}

#[test]
fn ids_are_the_first_free_slots() {
    // 102~105：101（鐵劍 SWORD_IRON_ID）是先前最大已用 id，本刀四樣接續其後、不撞號。
    assert_eq!(CARPET_ID, 102);
    assert_eq!(FLOWERPOT_ID, 103);
    assert_eq!(TABLE_ID, 104);
    assert_eq!(BANNER_ID, 105);
}

#[test]
fn is_furniture_recognises_all_four_and_nothing_else() {
    for b in [Block::Carpet, Block::FlowerPot, Block::Table, Block::Banner] {
        assert!(is_furniture(b), "{b:?} 應被認出是裝飾傢俱");
    }
    // 功能家具（床/長椅/告示牌/鐘）與建材皆不算「純裝飾傢俱」。
    for b in [
        Block::Bed,
        Block::Bench,
        Block::Sign,
        Block::Bell,
        Block::Plank,
        Block::Stone,
        Block::Air,
        Block::TerracottaRed,
    ] {
        assert!(!is_furniture(b), "{b:?} 不該被認成裝飾傢俱");
    }
}

#[test]
fn is_furniture_id_matches_block_helper() {
    // u8 版與 Block 版判定一致：對四樣傢俱皆 true，對其餘常見 id 皆 false。
    for id in [CARPET_ID, FLOWERPOT_ID, TABLE_ID, BANNER_ID] {
        assert!(is_furniture_id(id));
    }
    for id in [0u8, 45, 66, 74, 79, 8, 3, 89, 101] {
        assert!(!is_furniture_id(id), "id={id} 不該被認成裝飾傢俱");
    }
}


#[test]
fn furniture_id_and_block_tests_agree_on_every_block() {
    for id in 0u8..=255 {
        if let Some(b) = Block::from_u8(id) {
            assert_eq!(is_furniture(b), is_furniture_id(b.id()));
        }
    }
}
