use voxel_terrain::biome::BiomeType;
use voxel_terrain::block::BlockType;
use voxel_terrain::chunk::{block_index, Blocks, CHUNK_VOLUME};
use voxel_terrain::coords::{chunk_distance_squared, chunks_in_range, split_coords};
use voxel_terrain::terrain::{chunk_blocks, ColumnParams};
use voxel_terrain::world::{RayProbe, World};

fn flat_terrain() -> Blocks {
    // solid up to z = 64, air above
    let columns = vec![
        ColumnParams { height: 64, biome: BiomeType::Plains, cave_floor: 0, cave_ceil: 0 };
        256
    ];
    chunk_blocks(&columns)
}

#[test]
fn split_coords_round_trips() {
    for x in -40..40 {
        for y in -40..40 {
            for z in [0, 1, 64, 255] {
                let ((cx, cy), (bx, by, bz)) = split_coords((x, y, z)).unwrap();
                assert!(bx < 16 && by < 16);
                assert_eq!(cx * 16 + bx as i32, x);
                assert_eq!(cy * 16 + by as i32, y);
                assert_eq!(bz as i32, z);
            }
        }
    }
    assert_eq!(split_coords((-1, -17, 3)), Some(((-1, -2), (15, 15, 3))));
    assert_eq!(split_coords((i32::MIN, i32::MAX, 0)), Some(((-134217728, 134217727), (0, 15, 0))));
    assert_eq!(split_coords((0, 0, -1)), None);
    assert_eq!(split_coords((0, 0, 256)), None);
}

#[test]
fn chunk_distance_is_squared_euclidean() {
    assert_eq!(chunk_distance_squared((0, 0), (3, 4)), 25);
    assert_eq!(chunk_distance_squared((-2, 5), (1, 1)), 25);
    assert_eq!(chunk_distance_squared((7, 7), (7, 7)), 0);
}

#[test]
fn blocks_are_found_in_loaded_chunks_only() {
    let mut world = World::new();
    assert_eq!(world.get_block((1, 1, 10)), None);
    world.load_chunk((0, 0), flat_terrain());
    assert!(world.is_loaded((0, 0)));
    assert!(!world.is_loaded((1, 0)));
    assert_eq!(world.get_block((1, 1, 10)), Some(BlockType::RedSand));
    assert_eq!(world.get_block((1, 1, 40)), Some(BlockType::Stone));
    assert_eq!(world.get_block((1, 1, 64)), Some(BlockType::Grass));
    assert_eq!(world.get_block((1, 1, 65)), None);
    assert_eq!(world.get_block((17, 1, 10)), None);
    assert_eq!(world.get_block((1, 1, -1)), None);
}

#[test]
fn deletion_survives_unload_and_reload() {
    let mut world = World::new();
    world.load_chunk((0, 0), flat_terrain());
    world.load_chunk((-1, 0), flat_terrain());
    world.delete_block((-3, 5, 64));
    assert_eq!(world.get_block((-3, 5, 64)), None);
    assert_eq!(world.get_block((-3, 5, 63)), Some(BlockType::Grass));

    world.retain_chunks(&vec![(0, 0)]);
    assert!(!world.is_loaded((-1, 0)));
    assert!(world.is_loaded((0, 0)));
    assert_eq!(world.get_block((-3, 5, 64)), None);

    world.load_chunk((-1, 0), flat_terrain());
    assert_eq!(world.get_block((-3, 5, 64)), None);
    assert_eq!(world.get_block((-4, 5, 64)), Some(BlockType::Grass));
}

#[test]
fn deleting_twice_is_the_same_as_once() {
    let mut world = World::new();
    world.load_chunk((2, 3), flat_terrain());
    world.delete_block((40, 50, 30));
    let once = world.deleted_blocks().clone();
    world.delete_block((40, 50, 30));
    assert_eq!(*world.deleted_blocks(), once);
    assert_eq!(world.get_block((40, 50, 30)), None);
    assert_eq!(world.get_block((40, 50, 31)), Some(BlockType::RedSand));
}

#[test]
fn deleting_in_an_unloaded_chunk_does_nothing() {
    let mut world = World::new();
    world.delete_block((5, 5, 5));
    assert!(world.deleted_blocks().is_empty());
    world.load_chunk((0, 0), flat_terrain());
    assert_eq!(world.get_block((5, 5, 5)), Some(BlockType::RedSand));
}

#[test]
fn loading_a_loaded_chunk_keeps_it() {
    let mut world = World::new();
    world.load_chunk((0, 0), flat_terrain());
    world.load_chunk((0, 0), vec![None; CHUNK_VOLUME]);
    assert_eq!(world.get_block((0, 0, 0)), Some(BlockType::RedSand));
    assert_eq!(world.chunks().len(), 1);
}

#[test]
fn world_mesh_needs_a_loaded_chunk() {
    let mut world = World::new();
    assert!(world.generate_chunk_mesh((0, 0)).is_none());
    world.load_chunk((0, 0), flat_terrain());
    let (lone_vertices, _) = world.generate_chunk_mesh((0, 0)).unwrap();
    world.load_chunk((1, 0), flat_terrain());
    world.load_chunk((-1, 0), flat_terrain());
    world.load_chunk((0, 1), flat_terrain());
    world.load_chunk((0, -1), flat_terrain());
    let (vertices, indices) = world.generate_chunk_mesh((0, 0)).unwrap();
    assert_eq!(vertices.len() * 6, indices.len() * 4);
    // neighbours close the chunk's sides
    assert!(vertices.len() < lone_vertices.len());
}

#[test]
fn probe_reports_bounds_air_and_blocks() {
    let mut world = World::new();
    world.load_chunk((0, 0), flat_terrain());
    assert_eq!(world.probe((0, 0, 256)), RayProbe::OutOfWorld);
    assert_eq!(world.probe((0, 0, -1)), RayProbe::OutOfWorld);
    assert_eq!(world.probe((0, 0, 100)), RayProbe::Empty);
    assert_eq!(world.probe((0, 0, 64)), RayProbe::Hit(BlockType::Grass));
    assert_eq!(world.probe((100, 0, 64)), RayProbe::Empty);
}

#[test]
fn stepping_down_a_column_hits_the_surface() {
    let mut world = World::new();
    world.load_chunk((0, 0), flat_terrain());
    let mut z = 100;
    let hit = loop {
        z -= 1;
        match world.probe((0, 0, z)) {
            RayProbe::Empty => continue,
            other => break other,
        }
    };
    assert_eq!(z, 64);
    assert_eq!(hit, RayProbe::Hit(BlockType::Grass));
    assert_eq!(100 - z, 36);
}

#[test]
fn deleted_cell_reads_as_air_in_grid() {
    let mut world = World::new();
    world.load_chunk((0, 0), flat_terrain());
    world.delete_block((3, 3, 3));
    let chunk = world.get_chunk_if_loaded((0, 0)).unwrap();
    assert_eq!(chunk.to_blocks()[block_index(3, 3, 3)], None);
}

#[test]
fn chunks_in_range_is_the_disc() {
    let center = (3, -7);
    let got = chunks_in_range(center, 506);
    let mut expected = 0;
    for dx in -30..=30 {
        for dy in -30..=30 {
            let c = (center.0 + dx, center.1 + dy);
            let inside = dx * dx + dy * dy <= 506;
            assert_eq!(got.contains(&c), inside);
            if inside {
                expected += 1;
            }
        }
    }
    assert_eq!(got.len(), expected);
    assert_eq!(chunks_in_range(center, 0), vec![center]);
    assert!(chunks_in_range(center, -1).is_empty());
    assert_eq!(chunks_in_range((0, 0), 1).len(), 5);
    let edge = chunks_in_range((i32::MAX, 0), 1);
    assert_eq!(edge.len(), 4);
}
