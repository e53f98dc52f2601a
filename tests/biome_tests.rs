use voxel_terrain::biome::{
    determine_badlands_biome, determine_beach_biome, determine_biome, determine_middle_biome,
    determine_plateau_biome, determine_shattered_biome, BiomeLevels, BiomeType,
};
use voxel_terrain::block::BlockType;

fn is_ocean_family(b: BiomeType) -> bool {
    matches!(
        b,
        BiomeType::Ocean
            | BiomeType::ColdOcean
            | BiomeType::FrozenOcean
            | BiomeType::WarmOcean
            | BiomeType::DeepOcean
            | BiomeType::DeepColdOcean
            | BiomeType::DeepFrozenOcean
    )
}

fn levels(c: i32, t: i32, h: i32, e: i32, pv: i32, w: i32) -> BiomeLevels {
    BiomeLevels { temperature: t, humidity: h, continentalness: c, erosion: e, pv, weirdness: w }
}

#[test]
fn biome_table_is_total_and_oceans_stay_oceans() {
    let mut count = 0;
    for c in 0..6 {
        for t in 0..5 {
            for h in 0..5 {
                for e in 0..7 {
                    for pv in 0..5 {
                        for w in 0..2 {
                            let b = determine_biome(&levels(c, t, h, e, pv, w));
                            assert_eq!(b.is_ocean(), is_ocean_family(b));
                            if c <= 1 {
                                assert!(b.is_ocean(), "{:?}", (c, t, h, e, pv, w));
                            }
                            count += 1;
                        }
                    }
                }
            }
        }
    }
    assert_eq!(count, 6 * 5 * 5 * 7 * 5 * 2);
}

#[test]
fn biome_table_rows() {
    assert_eq!(determine_biome(&levels(0, 0, 3, 2, 1, 0)), BiomeType::FrozenOcean);
    assert_eq!(determine_biome(&levels(1, 3, 0, 0, 0, 1)), BiomeType::DeepOcean);
    assert_eq!(determine_biome(&levels(0, 4, 0, 0, 0, 0)), BiomeType::WarmOcean);
    assert_eq!(determine_biome(&levels(2, 0, 0, 0, 0, 0)), BiomeType::FrozenRiver);
    assert_eq!(determine_biome(&levels(2, 3, 0, 0, 0, 0)), BiomeType::River);
    assert_eq!(determine_biome(&levels(2, 3, 0, 1, 1, 0)), BiomeType::StonyShore);
    assert_eq!(determine_biome(&levels(2, 0, 0, 3, 1, 0)), BiomeType::SnowyBeach);
    assert_eq!(determine_biome(&levels(4, 4, 4, 3, 4, 0)), BiomeType::WoodedBadlands);
    assert_eq!(determine_biome(&levels(4, 1, 0, 0, 3, 0)), BiomeType::JaggedPeaks);
    assert_eq!(determine_biome(&levels(5, 3, 0, 0, 3, 0)), BiomeType::StonyPeaks);
    assert_eq!(determine_biome(&levels(3, 2, 1, 6, 2, 0)), BiomeType::Swamp);
    assert_eq!(determine_biome(&levels(4, 2, 3, 4, 4, 1)), BiomeType::OldGrowthBirchForest);
    // a peaks-and-valleys level outside the table falls back to plains
    assert_eq!(determine_biome(&levels(3, 2, 2, 2, 6, 0)), BiomeType::Plains);
    // an out-of-range temperature at ocean continentalness is not an ocean
    assert_eq!(determine_biome(&levels(0, 7, 2, 2, 2, 0)), BiomeType::Plains);
}

#[test]
fn sub_tables() {
    assert_eq!(determine_beach_biome(0), BiomeType::SnowyBeach);
    assert_eq!(determine_beach_biome(4), BiomeType::Desert);
    assert_eq!(determine_badlands_biome(1, 1), BiomeType::ErodedBadlands);
    assert_eq!(determine_badlands_biome(3, 0), BiomeType::WoodedBadlands);
    assert_eq!(determine_middle_biome(0, 0, 1), BiomeType::IceSpikes);
    assert_eq!(determine_middle_biome(3, 4, 1), BiomeType::BambooJungle);
    assert_eq!(determine_plateau_biome(1, 0, 1), BiomeType::CherryGrove);
    assert_eq!(determine_plateau_biome(2, 4, 0), BiomeType::PaleGarden);
    assert_eq!(determine_shattered_biome(0, 0, 0), BiomeType::WindsweptGravellyHills);
    assert_eq!(determine_shattered_biome(2, 4, 1), BiomeType::WindsweptForest);
}

#[test]
fn biome_materials() {
    assert_eq!(BiomeType::Desert.get_surface_block(), BlockType::Sand);
    assert_eq!(BiomeType::IceSpikes.get_surface_block(), BlockType::Ice);
    assert_eq!(BiomeType::Meadow.get_surface_block(), BlockType::Grass);
    assert_eq!(BiomeType::Badlands.get_subsurface_block(), BlockType::RedSand);
    assert_eq!(BiomeType::Taiga.get_subsurface_block(), BlockType::Dirt);
    assert_eq!(BiomeType::Jungle.get_deep_block(), BlockType::Stone);
}

#[test]
fn atlas_offsets_by_face() {
    assert_eq!(BlockType::Grass.atlas_offset_top(), [31, 2]);
    assert_eq!(BlockType::Grass.atlas_offset_side(), [30, 15]);
    assert_eq!(BlockType::Grass.atlas_offset_bottom(), [25, 2]);
    assert_eq!(BlockType::RedSand.atlas_offset_side(), [28, 25]);
    assert_eq!(BlockType::WarpedNylium.atlas_offset_bottom(), [25, 20]);
}
