use voxel_terrain::block::BlockType;
use voxel_terrain::chunk::{block_index, Blocks, Chunk, ChunkNodePos, CHUNK_HEIGHT, CHUNK_VOLUME, CHUNK_WIDTH};
use voxel_terrain::face::Face;
use voxel_terrain::mesh::AdjacentChunks;

fn empty_grid() -> Blocks {
    vec![None; CHUNK_VOLUME]
}

fn noisy_grid(seed: u64) -> Blocks {
    let mut state = seed;
    let mut grid = empty_grid();
    for x in 0..CHUNK_WIDTH {
        for y in 0..CHUNK_WIDTH {
            for z in 0..CHUNK_HEIGHT {
                state = state.wrapping_mul(6364136223846793005).wrapping_add(1442695040888963407);
                let pick = (state >> 60) as u8;
                let cell = match pick {
                    0..=5 => None,
                    6..=9 => Some(BlockType::Stone),
                    10..=12 => Some(BlockType::Dirt),
                    _ => Some(BlockType::Water),
                };
                // layered terrain below 40, noise above
                grid[block_index(x, y, z)] = if z < 40 { Some(BlockType::Stone) } else { cell };
            }
        }
    }
    grid
}

fn no_neighbours() -> AdjacentChunks<'static> {
    AdjacentChunks { north: None, south: None, east: None, west: None }
}

#[test]
fn compressed_chunk_matches_source_grid() {
    let grid = noisy_grid(7);
    let chunk = Chunk::new((3, -2), grid.clone());
    assert_eq!(chunk.coords(), (3, -2));
    for x in 0..CHUNK_WIDTH {
        for y in 0..CHUNK_WIDTH {
            for z in 0..CHUNK_HEIGHT {
                assert_eq!(chunk.get_block(x, y, z), grid[block_index(x, y, z)]);
            }
        }
    }
    assert_eq!(chunk.to_blocks(), grid);
}

#[test]
fn uniform_grid_is_one_leaf() {
    let air = Chunk::new((0, 0), empty_grid());
    assert_eq!(air.leaf_count(), 1);
    let stone = Chunk::new((0, 0), vec![Some(BlockType::Stone); CHUNK_VOLUME]);
    assert_eq!(stone.leaf_count(), 1);
    assert_eq!(stone.get_block(15, 15, 255), Some(BlockType::Stone));
}

#[test]
fn checkerboard_grid_has_one_leaf_per_cell() {
    let mut grid = empty_grid();
    for x in 0..CHUNK_WIDTH {
        for y in 0..CHUNK_WIDTH {
            for z in 0..CHUNK_HEIGHT {
                if (x + y + z) % 2 == 0 {
                    grid[block_index(x, y, z)] = Some(BlockType::Sand);
                }
            }
        }
    }
    let chunk = Chunk::new((0, 0), grid.clone());
    assert_eq!(chunk.leaf_count() as usize, CHUNK_VOLUME);
    assert_eq!(chunk.get_block(0, 0, 0), Some(BlockType::Sand));
    assert_eq!(chunk.get_block(1, 0, 0), None);
    assert_eq!(chunk.get_block(3, 4, 5), Some(BlockType::Sand));
    assert_eq!(chunk.get_block(3, 4, 6), None);
}

#[test]
fn half_filled_chunk_compresses_to_two_leaves() {
    let mut grid = empty_grid();
    for x in 0..CHUNK_WIDTH {
        for y in 0..CHUNK_WIDTH {
            for z in 0..128 {
                grid[block_index(x, y, z)] = Some(BlockType::Stone);
            }
        }
    }
    let chunk = Chunk::new((0, 0), grid);
    assert_eq!(chunk.leaf_count(), 2);
}

#[test]
fn single_block_meshes_as_six_faces() {
    let mut grid = empty_grid();
    grid[block_index(5, 6, 100)] = Some(BlockType::Grass);
    let chunk = Chunk::new((0, 0), grid);
    let (vertices, indices) = chunk.generate_mesh(&no_neighbours());
    assert_eq!(vertices.len(), 24);
    assert_eq!(indices.len(), 36);
    assert_eq!(&indices[0..6], &[0, 1, 2, 2, 3, 0]);
    assert_eq!(&indices[30..36], &[20, 21, 22, 22, 23, 20]);
    // the first visible face is the top: its corners sit at z = 101
    for v in &vertices[0..4] {
        assert_eq!(v.position[2], 101);
        assert_eq!(v.atlas_offset, [31, 2]);
    }
    // the bottom face uses the bottom texture
    for v in &vertices[4..8] {
        assert_eq!(v.position[2], 100);
        assert_eq!(v.atlas_offset, [25, 2]);
    }
    assert_eq!(vertices[8].atlas_offset, [30, 15]);
    assert_eq!(vertices[0].position, [5, 6, 101]);
    assert_eq!(vertices[2].position, [6, 7, 101]);
}

#[test]
fn adjacent_pair_shares_no_internal_face() {
    // two stacked cells end up in separate leaves: five faces each
    let mut grid = empty_grid();
    grid[block_index(4, 4, 100)] = Some(BlockType::Stone);
    grid[block_index(4, 4, 101)] = Some(BlockType::Stone);
    let chunk = Chunk::new((0, 0), grid);
    let (vertices, indices) = chunk.generate_mesh(&no_neighbours());
    assert_eq!(vertices.len(), 40);
    assert_eq!(indices.len(), 60);

    // two cells side by side across the x = 8 cut, likewise
    let mut grid = empty_grid();
    grid[block_index(7, 3, 50)] = Some(BlockType::Stone);
    grid[block_index(8, 3, 50)] = Some(BlockType::Stone);
    let chunk = Chunk::new((0, 0), grid);
    let (vertices, indices) = chunk.generate_mesh(&no_neighbours());
    assert_eq!(vertices.len(), 40);
    assert_eq!(indices.len(), 60);
}

#[test]
fn aligned_cube_is_one_leaf_with_six_large_faces() {
    let mut grid = empty_grid();
    for x in 4..6 {
        for y in 4..6 {
            for z in 100..102 {
                grid[block_index(x, y, z)] = Some(BlockType::Stone);
            }
        }
    }
    let chunk = Chunk::new((0, 0), grid);
    let (vertices, indices) = chunk.generate_mesh(&no_neighbours());
    assert_eq!(vertices.len(), 24);
    assert_eq!(indices.len(), 36);
    let left = &vertices[8..12];
    assert_eq!(left[0].tex_coords, [0, 2]);
    assert_eq!(left[1].tex_coords, [2, 2]);
    assert_eq!(left[2].tex_coords, [2, 0]);
    assert_eq!(left[0].position, [4, 6, 100]);
    assert_eq!(left[2].position, [4, 4, 102]);
}

#[test]
fn floor_face_is_hidden_and_ceiling_face_shown() {
    let mut grid = empty_grid();
    grid[block_index(2, 2, 0)] = Some(BlockType::Stone);
    grid[block_index(9, 9, 255)] = Some(BlockType::Stone);
    let chunk = Chunk::new((0, 0), grid);
    let low = ChunkNodePos::new(2, 3, 2, 3, 0, 1);
    let high = ChunkNodePos::new(9, 10, 9, 10, 255, 256);
    let adj = no_neighbours();
    assert!(!chunk.is_face_visible(&low, Face::Bottom, &adj));
    assert!(chunk.is_face_visible(&low, Face::Top, &adj));
    assert!(chunk.is_face_visible(&high, Face::Top, &adj));
    let (vertices, _) = chunk.generate_mesh(&adj);
    assert_eq!(vertices.len(), 4 * (5 + 6));
}

#[test]
fn border_face_follows_neighbour() {
    // A is the east neighbour of B
    let a = Chunk::new((1, 0), vec![Some(BlockType::Stone); CHUNK_VOLUME]);
    let b_grid = noisy_grid(11);
    let b = Chunk::new((0, 0), b_grid.clone());
    let adj = AdjacentChunks { north: None, south: None, east: None, west: Some(&b) };
    for y0 in 0..CHUNK_WIDTH {
        for z0 in (0..CHUNK_HEIGHT).step_by(3) {
            let y1 = (y0 + 3).min(CHUNK_WIDTH);
            let z1 = (z0 + 2).min(CHUNK_HEIGHT);
            let pos = ChunkNodePos::new(0, 1, y0, y1, z0, z1);
            let brute = (y0..y1).any(|y| (z0..z1).any(|z| b_grid[block_index(15, y, z)].is_none()));
            assert_eq!(a.is_face_visible(&pos, Face::Left, &adj), brute);
        }
    }
    // without the neighbour the border is open
    let lone = no_neighbours();
    assert!(a.is_face_visible(&ChunkNodePos::new(0, 1, 0, 16, 0, 40), Face::Left, &lone));
    // the solid layer of B hides that part of A's west face
    assert!(!a.is_face_visible(&ChunkNodePos::new(0, 1, 0, 16, 0, 40), Face::Left, &adj));
}

#[test]
fn deleting_a_block_rebuilds_the_tree() {
    let mut chunk = Chunk::new((0, 0), vec![Some(BlockType::Stone); CHUNK_VOLUME]);
    chunk.delete_block(3, 4, 5);
    assert_eq!(chunk.get_block(3, 4, 5), None);
    assert_eq!(chunk.get_block(3, 4, 6), Some(BlockType::Stone));
    assert!(chunk.leaf_count() > 1);
    chunk.delete_block(3, 4, 5);
    assert_eq!(chunk.get_block(3, 4, 5), None);
}

#[test]
fn meshing_twice_gives_the_same_mesh() {
    let chunk = Chunk::new((0, 0), noisy_grid(3));
    let adj = no_neighbours();
    assert_eq!(chunk.generate_mesh(&adj), chunk.generate_mesh(&adj));
}

#[test]
fn face_normals_point_outwards() {
    assert_eq!(Face::Top.normal(), (0, 0, 1));
    assert_eq!(Face::Bottom.normal(), (0, 0, -1));
    assert_eq!(Face::Left.normal(), (-1, 0, 0));
    assert_eq!(Face::Right.normal(), (1, 0, 0));
    assert_eq!(Face::Front.normal(), (0, -1, 0));
    assert_eq!(Face::Back.normal(), (0, 1, 0));
    assert_eq!(Face::Bottom.uvs((2, 3, 4)), [[0, 2], [3, 2], [3, 0], [0, 0]]);
}

#[test]
fn empty_or_inverted_region_holds_no_air() {
    let air = Chunk::new((0, 0), empty_grid());
    let flat = ChunkNodePos::new(5, 5, 0, 16, 0, 256);
    let inverted = ChunkNodePos::new(0, 16, 9, 3, 0, 256);
    let cell = ChunkNodePos::new(5, 6, 0, 1, 0, 1);
    assert!(!air.root.any_empty_in_region(&flat));
    assert!(!air.root.any_empty_in_region(&inverted));
    assert!(air.root.any_empty_in_region(&cell));

    let grid = noisy_grid(5);
    let chunk = Chunk::new((0, 0), grid.clone());
    assert!(!chunk.root.any_empty_in_region(&ChunkNodePos::new(3, 3, 2, 9, 50, 60)));
    let region = ChunkNodePos::new(2, 5, 7, 9, 60, 63);
    let brute = (2..5).any(|x| (7..9).any(|y| (60..63).any(|z| grid[block_index(x, y, z)].is_none())));
    assert_eq!(chunk.root.any_empty_in_region(&region), brute);
    // solid layer below 40 holds no air
    assert!(!chunk.root.any_empty_in_region(&ChunkNodePos::new(0, 16, 0, 16, 0, 40)));
}
