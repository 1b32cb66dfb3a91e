//! The block kinds that the village rules talk about, with their numeric ids,
//! and the raw resources residents gather.

use vstd::prelude::*;

verus! {

/// A kind of voxel block (or placeable item).
#[derive(Clone, Copy, Debug, PartialEq, Eq, Structural)]
pub enum Block {
    Air,
    Grass,
    Dirt,
    Stone,
    Sand,
    Wood,
    Leaves,
    Water,
    Plank,
    StoneBrick,
    Glass,
    FarmSoil,
    FarmSoilSeeded,
    WheatMature,
    Torch,
    Bed,
    CarrotSeeded,
    CarrotMature,
    PotatoSeeded,
    PotatoMature,
    Snow,
    IceCrystal,
    IceLantern,
    AetherLamp,
    Sapling,
    Sign,
    Bell,
    Bench,
    TerracottaRed,
    Carpet,
    FlowerPot,
    Table,
    Banner,
}

/// The numeric id of a block kind.
pub open spec fn block_id(b: Block) -> u8 {
    match b {
        Block::Air => 0,
        Block::Grass => 1,
        Block::Dirt => 2,
        Block::Stone => 3,
        Block::Sand => 4,
        Block::Wood => 5,
        Block::Leaves => 6,
        Block::Water => 7,
        Block::Plank => 8,
        Block::StoneBrick => 9,
        Block::Glass => 10,
        Block::FarmSoil => 11,
        Block::FarmSoilSeeded => 12,
        Block::WheatMature => 13,
        Block::Torch => 31,
        Block::Bed => 45,
        Block::CarrotSeeded => 46,
        Block::CarrotMature => 47,
        Block::PotatoSeeded => 50,
        Block::PotatoMature => 51,
        Block::Snow => 55,
        Block::IceCrystal => 56,
        Block::IceLantern => 57,
        Block::AetherLamp => 59,
        Block::Sapling => 65,
        Block::Sign => 66,
        Block::Bell => 74,
        Block::Bench => 79,
        Block::TerracottaRed => 89,
        Block::Carpet => 102,
        Block::FlowerPot => 103,
        Block::Table => 104,
        Block::Banner => 105,
    }
}

impl Block {
    /// The numeric id of this block kind.
    pub fn id(self) -> (r: u8)
        ensures
            r == block_id(self),
    {
        match self {
            Block::Air => 0,
            Block::Grass => 1,
            Block::Dirt => 2,
            Block::Stone => 3,
            Block::Sand => 4,
            Block::Wood => 5,
            Block::Leaves => 6,
            Block::Water => 7,
            Block::Plank => 8,
            Block::StoneBrick => 9,
            Block::Glass => 10,
            Block::FarmSoil => 11,
            Block::FarmSoilSeeded => 12,
            Block::WheatMature => 13,
            Block::Torch => 31,
            Block::Bed => 45,
            Block::CarrotSeeded => 46,
            Block::CarrotMature => 47,
            Block::PotatoSeeded => 50,
            Block::PotatoMature => 51,
            Block::Snow => 55,
            Block::IceCrystal => 56,
            Block::IceLantern => 57,
            Block::AetherLamp => 59,
            Block::Sapling => 65,
            Block::Sign => 66,
            Block::Bell => 74,
            Block::Bench => 79,
            Block::TerracottaRed => 89,
            Block::Carpet => 102,
            Block::FlowerPot => 103,
            Block::Table => 104,
            Block::Banner => 105,
        }
    }

    /// The block kind with the given id, if any.
    pub fn from_u8(id: u8) -> (r: Option<Block>)
        ensures
            match r {
                Some(b) => block_id(b) == id,
                None => forall|b: Block| block_id(b) != id,
            },
    {
        match id {
            0 => Some(Block::Air),
            1 => Some(Block::Grass),
            2 => Some(Block::Dirt),
            3 => Some(Block::Stone),
            4 => Some(Block::Sand),
            5 => Some(Block::Wood),
            6 => Some(Block::Leaves),
            7 => Some(Block::Water),
            8 => Some(Block::Plank),
            9 => Some(Block::StoneBrick),
            10 => Some(Block::Glass),
            11 => Some(Block::FarmSoil),
            12 => Some(Block::FarmSoilSeeded),
            13 => Some(Block::WheatMature),
            31 => Some(Block::Torch),
            45 => Some(Block::Bed),
            46 => Some(Block::CarrotSeeded),
            47 => Some(Block::CarrotMature),
            50 => Some(Block::PotatoSeeded),
            51 => Some(Block::PotatoMature),
            55 => Some(Block::Snow),
            56 => Some(Block::IceCrystal),
            57 => Some(Block::IceLantern),
            59 => Some(Block::AetherLamp),
            65 => Some(Block::Sapling),
            66 => Some(Block::Sign),
            74 => Some(Block::Bell),
            79 => Some(Block::Bench),
            89 => Some(Block::TerracottaRed),
            102 => Some(Block::Carpet),
            103 => Some(Block::FlowerPot),
            104 => Some(Block::Table),
            105 => Some(Block::Banner),
            _ => None,
        }
    }
}

/// A raw resource that residents gather from the world.
#[derive(Clone, Copy, Debug, PartialEq, Eq, Structural)]
pub enum GatherResource {
    Wood,
    Stone,
    Sand,
    Dirt,
    Grass,
}

/// The resource gathered from a block kind, if it is one.
pub open spec fn resource_of(b: Block) -> Option<GatherResource> {
    match b {
        Block::Wood => Some(GatherResource::Wood),
        Block::Stone => Some(GatherResource::Stone),
        Block::Sand => Some(GatherResource::Sand),
        Block::Dirt => Some(GatherResource::Dirt),
        Block::Grass => Some(GatherResource::Grass),
        _ => None,
    }
}

/// The block kind a resource is stored as.
pub open spec fn resource_block(r: GatherResource) -> Block {
    match r {
        GatherResource::Wood => Block::Wood,
        GatherResource::Stone => Block::Stone,
        GatherResource::Sand => Block::Sand,
        GatherResource::Dirt => Block::Dirt,
        GatherResource::Grass => Block::Grass,
    }
}

impl GatherResource {
    /// The resource gathered from a block kind, if it is one.
    pub fn from_block(b: Block) -> (r: Option<GatherResource>)
        ensures
            r == resource_of(b),
    {
        match b {
            Block::Wood => Some(GatherResource::Wood),
            Block::Stone => Some(GatherResource::Stone),
            Block::Sand => Some(GatherResource::Sand),
            Block::Dirt => Some(GatherResource::Dirt),
            Block::Grass => Some(GatherResource::Grass),
            _ => None,
        }
    }

    /// The id of the item a resource is stored as in a bag.
    pub fn block_id(self) -> (r: u8)
        ensures
            r == block_id(resource_block(self)),
    {
        match self {
            GatherResource::Wood => 5,
            GatherResource::Stone => 3,
            GatherResource::Sand => 4,
            GatherResource::Dirt => 2,
            GatherResource::Grass => 1,
        }
    }
}

/// The single-ingredient basic recipe that makes `out`: (ingredient, ingredients used, items made).
pub open spec fn basic_recipe(out: Block) -> Option<(Block, u32, u32)> {
    match out {
        Block::StoneBrick => Some((Block::Stone, 2u32, 2u32)),
        Block::Plank => Some((Block::Wood, 2u32, 4u32)),
        Block::Glass => Some((Block::Sand, 2u32, 1u32)),
        _ => None,
    }
}

/// The single-ingredient basic recipe that makes `out`, if there is one.
pub fn basic_recipe_for(out: Block) -> (r: Option<(Block, u32, u32)>)
    ensures
        r == basic_recipe(out),
{
    match out {
        Block::StoneBrick => Some((Block::Stone, 2, 2)),
        Block::Plank => Some((Block::Wood, 2, 4)),
        Block::Glass => Some((Block::Sand, 2, 1)),
        _ => None,
    }
}

} // verus!
