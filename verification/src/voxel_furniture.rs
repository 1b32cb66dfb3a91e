//! Decorative furniture: a carpet, a flower pot, a table and a banner, placed like any
//! building block and there only to make a home look lived in.

use vstd::prelude::*;
use crate::voxel::{Block, block_id};

verus! {

/// The carpet's block and item id.
pub const CARPET_ID: u8 = 102;
/// The flower pot's block and item id.
pub const FLOWERPOT_ID: u8 = 103;
/// The table's block and item id.
pub const TABLE_ID: u8 = 104;
/// The banner's block and item id.
pub const BANNER_ID: u8 = 105;

/// The four decorative furniture blocks.
pub open spec fn furniture_block(b: Block) -> bool {
    b == Block::Carpet || b == Block::FlowerPot || b == Block::Table || b == Block::Banner
}

/// Whether a block is decorative furniture.
pub fn is_furniture(b: Block) -> (r: bool)
    ensures
        r == furniture_block(b),
{
    match b {
        Block::Carpet | Block::FlowerPot | Block::Table | Block::Banner => true,
        _ => false,
    }
}

/// Whether an item id is that of decorative furniture.
pub fn is_furniture_id(id: u8) -> (r: bool)
    ensures
        r == (id == CARPET_ID || id == FLOWERPOT_ID || id == TABLE_ID || id == BANNER_ID),
{
    id == CARPET_ID || id == FLOWERPOT_ID || id == TABLE_ID || id == BANNER_ID
}

/// Law: the id test and the block test agree: a block is furniture exactly when its id is
/// a furniture id.
pub proof fn lemma_furniture_id_agrees(b: Block)
    ensures
        furniture_block(b) <==> (block_id(b) == CARPET_ID || block_id(b) == FLOWERPOT_ID || block_id(b)
            == TABLE_ID || block_id(b) == BANNER_ID),
{
}

} // verus!
