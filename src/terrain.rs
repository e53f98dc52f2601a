use vstd::prelude::*;

use crate::biome::{is_ocean_biome, surface_block, BiomeType};
use crate::block::BlockType;
use crate::chunk::{build_tree, cell_index, full_box, grid_cell, lemma_cell_index_onto, Blocks, CHUNK_HEIGHT, CHUNK_VOLUME, CHUNK_WIDTH};

verus! {

/// Nominal height of the terrain surface before the splines reshape it.
pub const SURFACE: usize = 64;

/// Water fills every open cell up to this height.
pub const SEA: usize = 62;

/// Every cell up to this height belongs to the core layer.
pub const MAGMA_CORE: usize = 31;

/// Number of cells under the surface (the surface cell included) that take the
/// biome's surface material.
pub const SURFACE_DEPTH: usize = 5;

/// What shapes one column of a chunk, as whole numbers: the height of its terrain
/// surface, its biome, and its cave: cells strictly above `cave_floor` and strictly
/// below `cave_ceil` are carved out, unless the biome is an ocean.
#[derive(Debug, Clone, Copy, PartialEq, Eq, Structural)]
pub struct ColumnParams {
    pub height: usize,
    pub biome: BiomeType,
    pub cave_floor: i64,
    pub cave_ceil: i64,
}

/// The content of cell `z` of a column shaped by `p`.
pub open spec fn column_cell(p: ColumnParams, z: int) -> Option<BlockType> {
    if z <= MAGMA_CORE {
        Some(BlockType::RedSand)
    } else if !is_ocean_biome(p.biome) && p.cave_floor < z && z < p.cave_ceil {
        None
    } else if z <= p.height {
        if p.height - z < SURFACE_DEPTH {
            Some(surface_block(p.biome))
        } else {
            Some(BlockType::Stone)
        }
    } else if z <= SEA {
        Some(BlockType::Water)
    } else {
        None
    }
}

/// The 256 cells of a column shaped by `p`, bottom to top.
pub fn fill_column(p: &ColumnParams) -> (r: Vec<Option<BlockType>>)
    ensures
        r@.len() == CHUNK_HEIGHT,
        forall|z: int| 0 <= z < CHUNK_HEIGHT ==> #[trigger] r@[z] == column_cell(*p, z),
{
    let ocean = p.biome.is_ocean();
    let mut column: Vec<Option<BlockType>> = Vec::new();
    let mut z: usize = 0;
    while z < CHUNK_HEIGHT
        invariant
            z <= CHUNK_HEIGHT,
            ocean == is_ocean_biome(p.biome),
            column@.len() == z,
            forall|k: int| 0 <= k < z ==> #[trigger] column@[k] == column_cell(*p, k),
        decreases CHUNK_HEIGHT - z,
    {
        let cell = if z <= MAGMA_CORE {
            Some(BlockType::RedSand)
        } else if !ocean && p.cave_floor < z as i64 && (z as i64) < p.cave_ceil {
            None
        } else if z <= p.height {
            let depth_from_surface = p.height - z;
            if depth_from_surface < SURFACE_DEPTH {
                Some(p.biome.get_surface_block())
            } else {
                Some(p.biome.get_deep_block())
            }
        } else if z <= SEA {
            Some(BlockType::Water)
        } else {
            None
        };
        column.push(cell);
        z += 1;
    }
    column
}

/// `g` is the block grid of a chunk whose column `(x, y)` is shaped by
/// `columns[x * 16 + y]`.
pub open spec fn is_chunk_grid(columns: Seq<ColumnParams>, g: Seq<Option<BlockType>>) -> bool {
    &&& g.len() == CHUNK_VOLUME
    &&& forall|x: int, y: int, z: int|
        0 <= x < 16 && 0 <= y < 16 && 0 <= z < 256 ==> #[trigger] grid_cell(g, x, y, z) == column_cell(
            columns[x * 16 + y],
            z,
        )
}

/// Terrain is deterministic: the same column parameters always lay out the same
/// grid, cell for cell, and that grid always compresses to the same tree.
pub proof fn lemma_grid_deterministic(columns: Seq<ColumnParams>, g1: Seq<Option<BlockType>>, g2: Seq<Option<BlockType>>)
    requires
        is_chunk_grid(columns, g1),
        is_chunk_grid(columns, g2),
    ensures
        g1 == g2,
        build_tree(g1, full_box()) == build_tree(g2, full_box()),
{
    assert forall|i: int| 0 <= i < g1.len() implies g1[i] == g2[i] by {
        lemma_cell_index_onto(i);
        let (x, y, z) = (i / 4096, (i / 256) % 16, i % 256);
        assert(grid_cell(g1, x, y, z) == grid_cell(g2, x, y, z));
    }
    assert(g1 =~= g2);
}

/// The block grid of a chunk whose column `(x, y)` is shaped by
/// `columns[x * 16 + y]`.
pub fn chunk_blocks(columns: &Vec<ColumnParams>) -> (r: Blocks)
    requires
        columns@.len() == CHUNK_WIDTH * CHUNK_WIDTH,
    ensures
        is_chunk_grid(columns@, r@),
{
    let mut blocks: Blocks = Vec::new();
    let mut c: usize = 0;
    while c < CHUNK_WIDTH * CHUNK_WIDTH
        invariant
            columns@.len() == 256,
            c <= 256,
            blocks@.len() == c * 256,
            forall|x: int, y: int, z: int|
                0 <= x < 16 && 0 <= y < 16 && 0 <= z < 256 && x * 16 + y < c ==> #[trigger] grid_cell(
                    blocks@,
                    x,
                    y,
                    z,
                ) == column_cell(columns@[x * 16 + y], z),
        decreases 256 - c,
    {
        let column = fill_column(&columns[c]);
        let ghost before = blocks@;
        let mut z: usize = 0;
        while z < CHUNK_HEIGHT
            invariant
                columns@.len() == 256,
                c < 256,
                z <= 256,
                column@.len() == 256,
                forall|k: int| 0 <= k < 256 ==> #[trigger] column@[k] == column_cell(columns@[c as int], k),
                blocks@.len() == c * 256 + z,
                forall|i: int| 0 <= i < c * 256 ==> #[trigger] blocks@[i] == before[i],
                forall|k: int| 0 <= k < z ==> #[trigger] blocks@[c * 256 + k] == column@[k],
            decreases 256 - z,
        {
            blocks.push(column[z]);
            z += 1;
        }
        proof {
            assert forall|x: int, y: int, z: int|
                0 <= x < 16 && 0 <= y < 16 && 0 <= z < 256 && x * 16 + y < c + 1 implies #[trigger] grid_cell(
                    blocks@,
                    x,
                    y,
                    z,
                ) == column_cell(columns@[x * 16 + y], z) by {
                if x * 16 + y < c {
                    assert((x * 16 + y) * 256 + z < c * 256) by (nonlinear_arith)
                        requires
                            x * 16 + y < c,
                            0 <= z < 256,
                    ;
                    assert(blocks@[cell_index(x, y, z)] == before[cell_index(x, y, z)]);
                    assert(grid_cell(before, x, y, z) == column_cell(columns@[x * 16 + y], z));
                } else {
                    assert(x * 16 + y == c);
                    assert(cell_index(x, y, z) == c * 256 + z);
                    assert(blocks@[c * 256 + z] == column@[z]);
                }
            }
        }
        c += 1;
    }
    blocks
}

} // verus!
