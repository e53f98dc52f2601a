use voxel_terrain::biome::BiomeType;
use voxel_terrain::block::BlockType;
use voxel_terrain::chunk::{block_index, Chunk};
use voxel_terrain::noise::permutation_table;
use voxel_terrain::terrain::{chunk_blocks, fill_column, ColumnParams, MAGMA_CORE, SEA};
use voxel_terrain::utils::{ceil_div, prf_i32x3_mod};

#[test]
fn column_layers() {
    let p = ColumnParams { height: 70, biome: BiomeType::Desert, cave_floor: 40, cave_ceil: 45 };
    let col = fill_column(&p);
    assert_eq!(col.len(), 256);
    assert_eq!(col[0], Some(BlockType::RedSand));
    assert_eq!(col[MAGMA_CORE], Some(BlockType::RedSand));
    assert_eq!(col[32], Some(BlockType::Stone));
    assert_eq!(col[40], Some(BlockType::Stone));
    assert_eq!(col[41], None);
    assert_eq!(col[44], None);
    assert_eq!(col[45], Some(BlockType::Stone));
    assert_eq!(col[65], Some(BlockType::Stone));
    assert_eq!(col[66], Some(BlockType::Sand));
    assert_eq!(col[70], Some(BlockType::Sand));
    assert_eq!(col[71], None);
}

#[test]
fn ocean_columns_fill_with_water_and_keep_caves_shut() {
    let p = ColumnParams { height: 50, biome: BiomeType::Ocean, cave_floor: 40, cave_ceil: 60 };
    let col = fill_column(&p);
    assert_eq!(col[45], Some(BlockType::Stone));
    assert_eq!(col[50], Some(BlockType::Sand));
    assert_eq!(col[51], Some(BlockType::Water));
    assert_eq!(col[SEA], Some(BlockType::Water));
    assert_eq!(col[SEA + 1], None);
    let land = ColumnParams { biome: BiomeType::Plains, ..p };
    let col = fill_column(&land);
    assert_eq!(col[45], None);
    assert_eq!(col[55], None);
    assert_eq!(col[61], Some(BlockType::Water));
}

#[test]
fn grid_is_laid_out_by_column() {
    let mut columns = vec![ColumnParams { height: 40, biome: BiomeType::Plains, cave_floor: 0, cave_ceil: 0 }; 256];
    columns[3 * 16 + 5].height = 80;
    let grid = chunk_blocks(&columns);
    assert_eq!(grid.len(), 65536);
    assert_eq!(grid[block_index(3, 5, 80)], Some(BlockType::Grass));
    assert_eq!(grid[block_index(5, 3, 80)], None);
    assert_eq!(grid[block_index(5, 3, 62)], Some(BlockType::Water));
}

#[test]
fn same_inputs_give_the_same_grid_and_tree() {
    let mut columns = Vec::new();
    for i in 0..256usize {
        columns.push(ColumnParams {
            height: 50 + (i * 7) % 30,
            biome: if i % 3 == 0 { BiomeType::Desert } else { BiomeType::Forest },
            cave_floor: 30 + (i % 5) as i64,
            cave_ceil: 40 + (i % 11) as i64,
        });
    }
    let a = chunk_blocks(&columns);
    let b = chunk_blocks(&columns);
    assert_eq!(a, b);
    let ca = Chunk::new((0, 0), a);
    let cb = Chunk::new((0, 0), b);
    assert_eq!(ca.leaf_count(), cb.leaf_count());
    assert_eq!(permutation_table(42), permutation_table(42));
}

#[test]
fn permutation_table_is_a_doubled_shuffle() {
    for seed in [0u64, 1, 0xFF446677, u64::MAX] {
        let t = permutation_table(seed);
        assert_eq!(t.len(), 512);
        let mut seen = [false; 256];
        for i in 0..256 {
            assert_eq!(t[i], t[i + 256]);
            seen[t[i] as usize] = true;
        }
        assert!(seen.iter().all(|s| *s));
    }
    assert_ne!(permutation_table(1), permutation_table(2));
}

#[test]
fn ceil_div_rounds_up() {
    assert_eq!(ceil_div(16, 4), 4);
    assert_eq!(ceil_div(16, 5), 4);
    assert_eq!(ceil_div(16, 16), 1);
    assert_eq!(ceil_div(0, 3), 0);
    assert_eq!(ceil_div(17, 16), 2);
}

#[test]
fn prf_stays_below_modulus_and_is_stable() {
    for m in [1u64, 2, 3, 7, 1000, u64::MAX] {
        for x in -3..3 {
            let r = prf_i32x3_mod((x, 2 * x, 100), m);
            assert!(r < m);
            assert_eq!(r, prf_i32x3_mod((x, 2 * x, 100), m));
        }
    }
    assert_eq!(prf_i32x3_mod((5, 5, 5), 1), 0);
}
