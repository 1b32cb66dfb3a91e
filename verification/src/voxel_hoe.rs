//! The wooden hoe: used on grass or dirt it turns the ground into farm soil, ready to sow.

use vstd::prelude::*;
use crate::text::views;
use crate::voxel::{Block, block_id};

verus! {

/// The wooden hoe's item id (an item only, never a block).
pub const HOE_ID: u8 = 73;

/// The id of the farm soil a hoe makes.
pub const FARM_SOIL_ID: u8 = 11;

/// Whether ground `block_id` can be tilled: grass or dirt only.
pub fn is_tillable(block_id: u8) -> (b: bool)
    ensures
        b == (block_id == crate::voxel::block_id(Block::Grass) || block_id == crate::voxel::block_id(Block::Dirt)),
{
    block_id == Block::Grass.id() || block_id == Block::Dirt.id()
}

/// Whether the item held is the hoe.
pub fn is_hoe(held_id: u8) -> (b: bool)
    ensures
        b == (held_id == HOE_ID),
{
    held_id == HOE_ID
}

/// The hoe's name ("鋤頭" for any other id).
pub fn hoe_name_zh(id: u8) -> (r: &'static str)
    ensures
        r@ == if id == HOE_ID { "木鋤頭"@ } else { "鋤頭"@ },
{
    if id == HOE_ID {
        "木鋤頭"
    } else {
        "鋤頭"
    }
}

/// The three lines on tilling.
pub open spec fn till_ok_pool() -> Seq<Seq<char>> {
    seq!["🪏 一鋤下去，土翻鬆了，成了一畦好田～"@, "🪏 把地開墾成農田土，可以撒種了～"@, "🪏 鬆好了土，這塊地能種東西了～"@]
}

/// The line on tilling: `pick % 3`.
pub fn till_ok_line(pick: usize) -> (r: &'static str)
    ensures
        r@ == till_ok_pool()[(pick % 3) as int],
{
    let lines: [&'static str; 3] = ["🪏 一鋤下去，土翻鬆了，成了一畦好田～", "🪏 把地開墾成農田土，可以撒種了～", "🪏 鬆好了土，這塊地能種東西了～"];
    proof {
        assert(views(lines@) =~= till_ok_pool());
        assert(views(lines@)[(pick % 3) as int] == lines@[(pick % 3) as int]@);
    }
    lines[pick % 3]
}

/// Law: the hoe is an item and no block; the soil it makes is the farm soil block, which
/// cannot be tilled again.
pub proof fn lemma_hoe_ids()
    ensures
        forall|b: Block| block_id(b) != HOE_ID,
        block_id(Block::FarmSoil) == FARM_SOIL_ID,
        !(FARM_SOIL_ID == block_id(Block::Grass) || FARM_SOIL_ID == block_id(Block::Dirt)),
{
}

} // verus!
