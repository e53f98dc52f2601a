use vstd::prelude::*;

verus! {

/// The surface material of a solid block. Air is not a variant: a cell without a
/// block is `None`.
#[derive(Debug, Clone, Copy, PartialEq, Eq, Structural)]
pub enum BlockType {
    Basalt,
    Dirt,
    EmeraldOre,
    GoldOre,
    Grass,
    Ice,
    Magma,
    RedSand,
    RedStone,
    Sand,
    Snow,
    Stone,
    WarpedNylium,
    Water,
}

/// Texture atlas cell of the top face of each material.
pub open spec fn atlas_top(b: BlockType) -> (u32, u32) {
    match b {
        BlockType::Basalt => (12, 6),
        BlockType::Dirt => (25, 2),
        BlockType::EmeraldOre => (23, 12),
        BlockType::GoldOre => (23, 13),
        BlockType::Grass => (31, 2),
        BlockType::Ice => (4, 22),
        BlockType::Magma => (24, 26),
        BlockType::RedSand => (29, 25),
        BlockType::RedStone => (24, 0),
        BlockType::Sand => (6, 27),
        BlockType::Snow => (19, 24),
        BlockType::Stone => (30, 29),
        BlockType::WarpedNylium => (33, 20),
        BlockType::Water => (6, 4),
    }
}

/// Texture atlas cell shared by the four side faces of each material.
pub open spec fn atlas_side(b: BlockType) -> (u32, u32) {
    match b {
        BlockType::Basalt => (12, 5),
        BlockType::Dirt => (25, 2),
        BlockType::EmeraldOre => (23, 12),
        BlockType::GoldOre => (23, 13),
        BlockType::Grass => (30, 15),
        BlockType::Ice => (4, 22),
        BlockType::Magma => (24, 26),
        BlockType::RedSand => (28, 25),
        BlockType::RedStone => (24, 0),
        BlockType::Sand => (6, 27),
        BlockType::Snow => (31, 1),
        BlockType::Stone => (30, 29),
        BlockType::WarpedNylium => (33, 21),
        BlockType::Water => (6, 4),
    }
}

/// Texture atlas cell of the bottom face of each material.
pub open spec fn atlas_bottom(b: BlockType) -> (u32, u32) {
    match b {
        BlockType::Basalt => (12, 6),
        BlockType::Dirt => (25, 2),
        BlockType::EmeraldOre => (23, 12),
        BlockType::GoldOre => (23, 13),
        BlockType::Grass => (25, 2),
        BlockType::Ice => (4, 22),
        BlockType::Magma => (24, 26),
        BlockType::RedSand => (27, 25),
        BlockType::RedStone => (24, 0),
        BlockType::Sand => (6, 27),
        BlockType::Snow => (25, 2),
        BlockType::Stone => (30, 29),
        BlockType::WarpedNylium => (25, 20),
        BlockType::Water => (6, 4),
    }
}

impl BlockType {
    pub fn atlas_offset_top(&self) -> (r: [u32; 2])
        ensures
            r[0] == atlas_top(*self).0,
            r[1] == atlas_top(*self).1,
    {
        match self {
            BlockType::Basalt => [12, 6],
            BlockType::Dirt => [25, 2],
            BlockType::EmeraldOre => [23, 12],
            BlockType::GoldOre => [23, 13],
            BlockType::Grass => [31, 2],
            BlockType::Ice => [4, 22],
            BlockType::Magma => [24, 26],
            BlockType::RedSand => [29, 25],
            BlockType::RedStone => [24, 0],
            BlockType::Sand => [6, 27],
            BlockType::Snow => [19, 24],
            BlockType::Stone => [30, 29],
            BlockType::WarpedNylium => [33, 20],
            BlockType::Water => [6, 4],
        }
    }

    pub fn atlas_offset_side(&self) -> (r: [u32; 2])
        ensures
            r[0] == atlas_side(*self).0,
            r[1] == atlas_side(*self).1,
    {
        match self {
            BlockType::Basalt => [12, 5],
            BlockType::Dirt => [25, 2],
            BlockType::EmeraldOre => [23, 12],
            BlockType::GoldOre => [23, 13],
            BlockType::Grass => [30, 15],
            BlockType::Ice => [4, 22],
            BlockType::Magma => [24, 26],
            BlockType::RedSand => [28, 25],
            BlockType::RedStone => [24, 0],
            BlockType::Sand => [6, 27],
            BlockType::Snow => [31, 1],
            BlockType::Stone => [30, 29],
            BlockType::WarpedNylium => [33, 21],
            BlockType::Water => [6, 4],
        }
    }

    pub fn atlas_offset_bottom(&self) -> (r: [u32; 2])
        ensures
            r[0] == atlas_bottom(*self).0,
            r[1] == atlas_bottom(*self).1,
    {
        match self {
            BlockType::Basalt => [12, 6],
            BlockType::Dirt => [25, 2],
            BlockType::EmeraldOre => [23, 12],
            BlockType::GoldOre => [23, 13],
            BlockType::Grass => [25, 2],
            BlockType::Ice => [4, 22],
            BlockType::Magma => [24, 26],
            BlockType::RedSand => [27, 25],
            BlockType::RedStone => [24, 0],
            BlockType::Sand => [6, 27],
            BlockType::Snow => [25, 2],
            BlockType::Stone => [30, 29],
            BlockType::WarpedNylium => [25, 20],
            BlockType::Water => [6, 4],
        }
    }
}

} // verus!
