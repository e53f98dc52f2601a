use vstd::prelude::*;

use crate::block::BlockType;

verus! {

/// The biome of a world column; it picks the column's surface materials.
#[derive(Debug, Clone, Copy, PartialEq, Eq, Structural)]
pub enum BiomeType {
    Desert,
    Plains,
    Forest,
    Taiga,
    Swamp,
    Beach,
    FrozenPeaks,
    Ocean,
    ColdOcean,
    FrozenOcean,
    WarmOcean,
    DeepOcean,
    DeepColdOcean,
    DeepFrozenOcean,
    River,
    FrozenRiver,
    Grove,
    Mangrove,
    StonyShore,
    StonyPeaks,
    WindsweptSavanna,
    SnowySlopes,
    SnowyBeach,
    JaggedPeaks,
    Badlands,
    ErodedBadlands,
    WoodedBadlands,
    Jungle,
    BambooJungle,
    SparseJungle,
    Savanna,
    DarkForest,
    OldGrowthBirchForest,
    BirchForest,
    SunflowerForest,
    FlowerForest,
    OldGrowthPineTaiga,
    OldGrowthSpruceTaiga,
    SnowyTaiga,
    SnowyPlains,
    IceSpikes,
    WindsweptHills,
    WindsweptForest,
    WindsweptGravellyHills,
    PaleGarden,
    Meadow,
    CherryGrove,
    SavannaPlateau,
}

/// Each noise channel of a column, cut into a discrete level: temperature 0..=4,
/// humidity 0..=4, continentalness 0..=5, erosion 0..=6, peaks and valleys 0..=4,
/// weirdness 0 | 1 (its sign).
#[derive(Debug, Clone, Copy, PartialEq, Eq, Structural)]
pub struct BiomeLevels {
    pub temperature: i32,
    pub humidity: i32,
    pub continentalness: i32,
    pub erosion: i32,
    pub pv: i32,
    pub weirdness: i32,
}

impl BiomeLevels {
    /// The levels lie in the ranges the discretisation produces.
    pub open spec fn in_range(&self) -> bool {
        &&& 0 <= self.temperature <= 4
        &&& 0 <= self.humidity <= 4
        &&& 0 <= self.continentalness <= 5
        &&& 0 <= self.erosion <= 6
        &&& 0 <= self.pv <= 4
        &&& 0 <= self.weirdness <= 1
    }
}

/// The ocean family: every ocean variant, shallow or deep.
pub open spec fn is_ocean_biome(b: BiomeType) -> bool {
    match b {
        BiomeType::Ocean | BiomeType::ColdOcean | BiomeType::FrozenOcean | BiomeType::WarmOcean
        | BiomeType::DeepOcean | BiomeType::DeepColdOcean | BiomeType::DeepFrozenOcean => true,
        _ => false,
    }
}

/// The material of the top layers of a column in biome `b`.
pub open spec fn surface_block(b: BiomeType) -> BlockType {
    match b {
        BiomeType::Desert => BlockType::Sand,
        BiomeType::Plains => BlockType::Grass,
        BiomeType::Forest => BlockType::Grass,
        BiomeType::Taiga => BlockType::Snow,
        BiomeType::Swamp => BlockType::Dirt,
        BiomeType::Beach => BlockType::Sand,
        BiomeType::SnowyBeach => BlockType::Sand,
        BiomeType::SnowyPlains => BlockType::Snow,
        BiomeType::SnowyTaiga => BlockType::Snow,
        BiomeType::SnowySlopes => BlockType::Snow,
        BiomeType::SunflowerForest => BlockType::Grass,
        BiomeType::ErodedBadlands => BlockType::RedSand,
        BiomeType::Ocean => BlockType::Sand,
        BiomeType::IceSpikes => BlockType::Ice,
        BiomeType::Badlands => BlockType::RedSand,
        BiomeType::StonyPeaks => BlockType::Stone,
        BiomeType::StonyShore => BlockType::Stone,
        _ => BlockType::Grass,
    }
}

/// The material just under the surface layers of a column in biome `b`.
pub open spec fn subsurface_block(b: BiomeType) -> BlockType {
    match b {
        BiomeType::Desert => BlockType::Sand,
        BiomeType::Plains => BlockType::Dirt,
        BiomeType::Forest => BlockType::Dirt,
        BiomeType::Taiga => BlockType::Dirt,
        BiomeType::Swamp => BlockType::Dirt,
        BiomeType::Beach => BlockType::Sand,
        BiomeType::Ocean => BlockType::Sand,
        BiomeType::Badlands => BlockType::RedSand,
        _ => BlockType::Dirt,
    }
}

impl BiomeType {
    pub fn is_ocean(&self) -> (r: bool)
        ensures
            r == is_ocean_biome(*self),
    {
        match self {
            BiomeType::Ocean | BiomeType::ColdOcean | BiomeType::FrozenOcean | BiomeType::WarmOcean
            | BiomeType::DeepOcean | BiomeType::DeepColdOcean | BiomeType::DeepFrozenOcean => true,
            _ => false,
        }
    }

    pub fn get_surface_block(&self) -> (r: BlockType)
        ensures
            r == surface_block(*self),
    {
        match self {
            BiomeType::Desert => BlockType::Sand,
            BiomeType::Plains => BlockType::Grass,
            BiomeType::Forest => BlockType::Grass,
            BiomeType::Taiga => BlockType::Snow,
            BiomeType::Swamp => BlockType::Dirt,
            BiomeType::Beach => BlockType::Sand,
            BiomeType::SnowyBeach => BlockType::Sand,
            BiomeType::SnowyPlains => BlockType::Snow,
            BiomeType::SnowyTaiga => BlockType::Snow,
            BiomeType::SnowySlopes => BlockType::Snow,
            BiomeType::SunflowerForest => BlockType::Grass,
            BiomeType::ErodedBadlands => BlockType::RedSand,
            BiomeType::Ocean => BlockType::Sand,
            BiomeType::IceSpikes => BlockType::Ice,
            BiomeType::Badlands => BlockType::RedSand,
            BiomeType::StonyPeaks => BlockType::Stone,
            BiomeType::StonyShore => BlockType::Stone,
            _ => BlockType::Grass,
        }
    }

    pub fn get_subsurface_block(&self) -> (r: BlockType)
        ensures
            r == subsurface_block(*self),
    {
        match self {
            BiomeType::Desert => BlockType::Sand,
            BiomeType::Plains => BlockType::Dirt,
            BiomeType::Forest => BlockType::Dirt,
            BiomeType::Taiga => BlockType::Dirt,
            BiomeType::Swamp => BlockType::Dirt,
            BiomeType::Beach => BlockType::Sand,
            BiomeType::Ocean => BlockType::Sand,
            BiomeType::Badlands => BlockType::RedSand,
            _ => BlockType::Dirt,
        }
    }

    /// The material deep under the surface: stone in every biome.
    pub fn get_deep_block(&self) -> (r: BlockType)
        ensures
            r == BlockType::Stone,
    {
        BlockType::Stone
    }
}

/// Beach variant of a shore, by temperature.
pub open spec fn spec_beach_biome(t: i32) -> BiomeType {
    match t {
        0 => BiomeType::SnowyBeach,
        1 | 2 | 3 => BiomeType::Beach,
        4 => BiomeType::Desert,
        _ => BiomeType::Beach,
    }}

pub fn determine_beach_biome(t: i32) -> (r: BiomeType)
    ensures
        r == spec_beach_biome(t),
{
    match t {
        0 => BiomeType::SnowyBeach,
        1 | 2 | 3 => BiomeType::Beach,
        4 => BiomeType::Desert,
        _ => BiomeType::Beach,
    }}

/// Badlands variant of a hot, dry region, by humidity and weirdness.
pub open spec fn spec_badlands_biome(h: i32, w: i32) -> BiomeType {
    match (h, w) {
        (0 | 1, 0) => BiomeType::Badlands,
        (0 | 1, 1) => BiomeType::ErodedBadlands,
        (2, _) => BiomeType::Badlands,
        _ => BiomeType::WoodedBadlands,
    }}

pub fn determine_badlands_biome(h: i32, w: i32) -> (r: BiomeType)
    ensures
        r == spec_badlands_biome(h, w),
{
    match (h, w) {
        (0 | 1, 0) => BiomeType::Badlands,
        (0 | 1, 1) => BiomeType::ErodedBadlands,
        (2, _) => BiomeType::Badlands,
        _ => BiomeType::WoodedBadlands,
    }}

/// Biome of the ordinary middle ground, by temperature, humidity and weirdness.
pub open spec fn spec_middle_biome(t: i32, h: i32, w: i32) -> BiomeType {
    match (t, h, w) {
        (0, 0, 0) => BiomeType::SnowyPlains,
        (0, 0, 1) => BiomeType::IceSpikes,
        (0, 1, _) => BiomeType::SnowyPlains,
        (0, 2, 0) => BiomeType::SnowyPlains,
        (0, 2, 1) => BiomeType::SnowyTaiga,
        (0, 3, _) => BiomeType::SnowyTaiga,
        (0, 4, _) => BiomeType::Taiga,
        (1, 0 | 1, _) => BiomeType::Plains,
        (1, 3, _) => BiomeType::Taiga,
        (1, 4, 0) => BiomeType::OldGrowthSpruceTaiga,
        (1, 4, 1) => BiomeType::OldGrowthPineTaiga,
        (2, 0, 0) => BiomeType::FlowerForest,
        (2, 0, 1) => BiomeType::SunflowerForest,
        (2, 1, _) => BiomeType::Plains,
        (1 | 2, 2, _) => BiomeType::Forest,
        (2, 3, 0) => BiomeType::BirchForest,
        (2, 3, 1) => BiomeType::OldGrowthBirchForest,
        (2, 4, _) => BiomeType::DarkForest,
        (3, 0 | 1, _) => BiomeType::Savanna,
        (3, 2, 0) => BiomeType::Forest,
        (3, 2, 1) => BiomeType::Plains,
        (3, 3, 0) => BiomeType::Jungle,
        (3, 3, 1) => BiomeType::SparseJungle,
        (3, 4, 0) => BiomeType::Jungle,
        (3, 4, 1) => BiomeType::BambooJungle,
        (4, _, _) => BiomeType::Desert,

        _ => BiomeType::Plains,
    }}

pub fn determine_middle_biome(t: i32, h: i32, w: i32) -> (r: BiomeType)
    ensures
        r == spec_middle_biome(t, h, w),
{
    match (t, h, w) {
        (0, 0, 0) => BiomeType::SnowyPlains,
        (0, 0, 1) => BiomeType::IceSpikes,
        (0, 1, _) => BiomeType::SnowyPlains,
        (0, 2, 0) => BiomeType::SnowyPlains,
        (0, 2, 1) => BiomeType::SnowyTaiga,
        (0, 3, _) => BiomeType::SnowyTaiga,
        (0, 4, _) => BiomeType::Taiga,
        (1, 0 | 1, _) => BiomeType::Plains,
        (1, 3, _) => BiomeType::Taiga,
        (1, 4, 0) => BiomeType::OldGrowthSpruceTaiga,
        (1, 4, 1) => BiomeType::OldGrowthPineTaiga,
        (2, 0, 0) => BiomeType::FlowerForest,
        (2, 0, 1) => BiomeType::SunflowerForest,
        (2, 1, _) => BiomeType::Plains,
        (1 | 2, 2, _) => BiomeType::Forest,
        (2, 3, 0) => BiomeType::BirchForest,
        (2, 3, 1) => BiomeType::OldGrowthBirchForest,
        (2, 4, _) => BiomeType::DarkForest,
        (3, 0 | 1, _) => BiomeType::Savanna,
        (3, 2, 0) => BiomeType::Forest,
        (3, 2, 1) => BiomeType::Plains,
        (3, 3, 0) => BiomeType::Jungle,
        (3, 3, 1) => BiomeType::SparseJungle,
        (3, 4, 0) => BiomeType::Jungle,
        (3, 4, 1) => BiomeType::BambooJungle,
        (4, _, _) => BiomeType::Desert,

        _ => BiomeType::Plains,
    }}

/// Biome of high plateaus, by temperature, humidity and weirdness.
pub open spec fn spec_plateau_biome(t: i32, h: i32, w: i32) -> BiomeType {
    match (t, h, w) {
        (0, 0, 0) => BiomeType::SnowyPlains,
        (0, 0, 1) => BiomeType::IceSpikes,
        (0, 1 | 2, _) => BiomeType::SnowyPlains,
        (0, 3 | 4, _) => BiomeType::SnowyTaiga,
        (1, 0, 0) => BiomeType::Meadow,
        (1, 0, 1) => BiomeType::CherryGrove,
        (1, 1, _) => BiomeType::Meadow,
        (1, 2, 0) => BiomeType::Forest,
        (1, 2, 1) => BiomeType::Meadow,
        (1, 3, 0) => BiomeType::Taiga,
        (1, 3, 1) => BiomeType::Meadow,
        (1, 4, 0) => BiomeType::OldGrowthSpruceTaiga,
        (1, 4, 1) => BiomeType::OldGrowthPineTaiga,
        (2, 0 | 1, 0) => BiomeType::Meadow,
        (2, 0 | 1, 1) => BiomeType::CherryGrove,
        (2, 2, 0) => BiomeType::Meadow,
        (2, 2, 1) => BiomeType::Forest,
        (2, 3, 0) => BiomeType::Meadow,
        (2, 3, 1) => BiomeType::BirchForest,
        (2, 4, _) => BiomeType::PaleGarden,
        (3, 0 | 1, _) => BiomeType::SavannaPlateau,
        (3, 2 | 3, _) => BiomeType::Forest,
        (3, 4, _) => BiomeType::Jungle,
        (4, 0 | 1, 0) => BiomeType::Badlands,
        (4, 0 | 1, 1) => BiomeType::ErodedBadlands,
        (4, 2, _) => BiomeType::Badlands,
        (4, 3 | 4, _) => BiomeType::WoodedBadlands,

        _ => BiomeType::Plains,
    }}

pub fn determine_plateau_biome(t: i32, h: i32, w: i32) -> (r: BiomeType)
    ensures
        r == spec_plateau_biome(t, h, w),
{
    match (t, h, w) {
        (0, 0, 0) => BiomeType::SnowyPlains,
        (0, 0, 1) => BiomeType::IceSpikes,
        (0, 1 | 2, _) => BiomeType::SnowyPlains,
        (0, 3 | 4, _) => BiomeType::SnowyTaiga,
        (1, 0, 0) => BiomeType::Meadow,
        (1, 0, 1) => BiomeType::CherryGrove,
        (1, 1, _) => BiomeType::Meadow,
        (1, 2, 0) => BiomeType::Forest,
        (1, 2, 1) => BiomeType::Meadow,
        (1, 3, 0) => BiomeType::Taiga,
        (1, 3, 1) => BiomeType::Meadow,
        (1, 4, 0) => BiomeType::OldGrowthSpruceTaiga,
        (1, 4, 1) => BiomeType::OldGrowthPineTaiga,
        (2, 0 | 1, 0) => BiomeType::Meadow,
        (2, 0 | 1, 1) => BiomeType::CherryGrove,
        (2, 2, 0) => BiomeType::Meadow,
        (2, 2, 1) => BiomeType::Forest,
        (2, 3, 0) => BiomeType::Meadow,
        (2, 3, 1) => BiomeType::BirchForest,
        (2, 4, _) => BiomeType::PaleGarden,
        (3, 0 | 1, _) => BiomeType::SavannaPlateau,
        (3, 2 | 3, _) => BiomeType::Forest,
        (3, 4, _) => BiomeType::Jungle,
        (4, 0 | 1, 0) => BiomeType::Badlands,
        (4, 0 | 1, 1) => BiomeType::ErodedBadlands,
        (4, 2, _) => BiomeType::Badlands,
        (4, 3 | 4, _) => BiomeType::WoodedBadlands,

        _ => BiomeType::Plains,
    }}

/// Biome of shattered, windswept terrain, by temperature, humidity and weirdness.
pub open spec fn spec_shattered_biome(t: i32, h: i32, w: i32) -> BiomeType {
    match (t, h, w) {
        (0 | 1, 0 | 1, _) => BiomeType::WindsweptGravellyHills,
        (0 | 1, 2, _) => BiomeType::WindsweptHills,
        (2, 0 | 1 | 2, _) => BiomeType::WindsweptHills,
        (0 | 1 | 2, 3 | 4, _) => BiomeType::WindsweptForest,
        (3, 0 | 1, _) => BiomeType::Savanna,
        (3, 2, 0) => BiomeType::Forest,
        (3, 2, 1) => BiomeType::Plains,
        (3, 3, 0) => BiomeType::Jungle,
        (3, 3, 1) => BiomeType::SparseJungle,
        (3, 4, 0) => BiomeType::Jungle,
        (3, 4, 1) => BiomeType::BambooJungle,
        (4, _, _) => BiomeType::Desert,

        _ => BiomeType::Plains,
    }}

pub fn determine_shattered_biome(t: i32, h: i32, w: i32) -> (r: BiomeType)
    ensures
        r == spec_shattered_biome(t, h, w),
{
    match (t, h, w) {
        (0 | 1, 0 | 1, _) => BiomeType::WindsweptGravellyHills,
        (0 | 1, 2, _) => BiomeType::WindsweptHills,
        (2, 0 | 1 | 2, _) => BiomeType::WindsweptHills,
        (0 | 1 | 2, 3 | 4, _) => BiomeType::WindsweptForest,
        (3, 0 | 1, _) => BiomeType::Savanna,
        (3, 2, 0) => BiomeType::Forest,
        (3, 2, 1) => BiomeType::Plains,
        (3, 3, 0) => BiomeType::Jungle,
        (3, 3, 1) => BiomeType::SparseJungle,
        (3, 4, 0) => BiomeType::Jungle,
        (3, 4, 1) => BiomeType::BambooJungle,
        (4, _, _) => BiomeType::Desert,

        _ => BiomeType::Plains,
    }}

/// Oceans: the two lowest continentalness levels.
pub open spec fn ocean_table(l: BiomeLevels) -> BiomeType {
    let t = l.temperature;
    let h = l.humidity;
    let w = l.weirdness;
    match (l.continentalness, t, h, l.erosion, l.pv, w) {
        (0, 0, _, _, _, _) => BiomeType::FrozenOcean,
        (0, 1, _, _, _, _) => BiomeType::ColdOcean,
        (0, 2 | 3, _, _, _, _) => BiomeType::Ocean,
        (1, 0, _, _, _, _) => BiomeType::DeepFrozenOcean,
        (1, 1, _, _, _, _) => BiomeType::DeepColdOcean,
        (1, 2 | 3, _, _, _, _) => BiomeType::DeepOcean,
        (0 | 1, 4, _, _, _, _) => BiomeType::WarmOcean,
        _ => BiomeType::Plains,
    }
}

fn determine_ocean_biome(l: &BiomeLevels) -> (r: BiomeType)
    ensures
        r == ocean_table(*l),
{
    let t = l.temperature;
    let h = l.humidity;
    let w = l.weirdness;
    match (l.continentalness, t, h, l.erosion, l.pv, w) {
        (0, 0, _, _, _, _) => BiomeType::FrozenOcean,
        (0, 1, _, _, _, _) => BiomeType::ColdOcean,
        (0, 2 | 3, _, _, _, _) => BiomeType::Ocean,
        (1, 0, _, _, _, _) => BiomeType::DeepFrozenOcean,
        (1, 1, _, _, _, _) => BiomeType::DeepColdOcean,
        (1, 2 | 3, _, _, _, _) => BiomeType::DeepOcean,
        (0 | 1, 4, _, _, _, _) => BiomeType::WarmOcean,
        _ => BiomeType::Plains,
    }
}

/// Valleys: the lowest peaks-and-valleys level.
pub open spec fn valley_table(l: BiomeLevels) -> BiomeType {
    let t = l.temperature;
    let h = l.humidity;
    let w = l.weirdness;
    match (l.continentalness, t, h, l.erosion, l.pv, w) {
        (2, 0, _, _, 0, _) => BiomeType::FrozenRiver,
        (2, _, _, _, 0, _) => BiomeType::River,
        (3, 0, _, 0 | 1 | 2 | 3 | 4 | 5, 0, _) => BiomeType::FrozenRiver,
        (3, _, _, 0 | 1 | 2 | 3 | 4 | 5, 0, _) => BiomeType::River,
        (3 | 4 | 5, 0, _, 6, 0, _) => BiomeType::FrozenRiver,
        (3 | 4 | 5, 1 | 2, _, 6, 0, _) => BiomeType::Swamp,
        (3 | 4 | 5, 3 | 4, _, 6, 0, _) => BiomeType::Mangrove,
        (4 | 5, 0 | 1 | 2 | 3, _, 0 | 1 | 2 | 3 | 4 | 5, 0, _) => spec_middle_biome(t, h, w),
        (4 | 5, 4, _, 0 | 1 | 2 | 3 | 4 | 5, 0, _) => spec_badlands_biome(h, w),
        _ => BiomeType::Plains,
    }
}

fn determine_valley_biome(l: &BiomeLevels) -> (r: BiomeType)
    ensures
        r == valley_table(*l),
{
    let t = l.temperature;
    let h = l.humidity;
    let w = l.weirdness;
    match (l.continentalness, t, h, l.erosion, l.pv, w) {
        (2, 0, _, _, 0, _) => BiomeType::FrozenRiver,
        (2, _, _, _, 0, _) => BiomeType::River,
        (3, 0, _, 0 | 1 | 2 | 3 | 4 | 5, 0, _) => BiomeType::FrozenRiver,
        (3, _, _, 0 | 1 | 2 | 3 | 4 | 5, 0, _) => BiomeType::River,
        (3 | 4 | 5, 0, _, 6, 0, _) => BiomeType::FrozenRiver,
        (3 | 4 | 5, 1 | 2, _, 6, 0, _) => BiomeType::Swamp,
        (3 | 4 | 5, 3 | 4, _, 6, 0, _) => BiomeType::Mangrove,
        (4 | 5, 0 | 1 | 2 | 3, _, 0 | 1 | 2 | 3 | 4 | 5, 0, _) => determine_middle_biome(t, h, w),
        (4 | 5, 4, _, 0 | 1 | 2 | 3 | 4 | 5, 0, _) => determine_badlands_biome(h, w),
        _ => BiomeType::Plains,
    }
}

/// Low ground.
pub open spec fn low_table(l: BiomeLevels) -> BiomeType {
    let t = l.temperature;
    let h = l.humidity;
    let w = l.weirdness;
    match (l.continentalness, t, h, l.erosion, l.pv, w) {
        (2, _, _, 0 | 1 | 2, 1, _) => BiomeType::StonyShore,
        (2, _, _, 3 | 4, 1, _) => spec_beach_biome(t),
        (2, _, _, 5, 1, 0) => spec_beach_biome(t),
        (2, 0 | 1, _, 5, 1, 1) => spec_middle_biome(t, h, w),
        (2, _, 4, 5, 1, 1) => spec_middle_biome(t, h, w),
        (2, 2 | 3 | 4, 0 | 1 | 2 | 3, 5, 1, 1) => BiomeType::WindsweptSavanna,
        (2, _, _, 6, 1, _) => spec_beach_biome(t),
        (3, 0 | 1 | 2 | 3, _, 0 | 1, 1, _) => spec_middle_biome(t, h, w),
        (3, 4, _, 0 | 1, 1, _) => spec_badlands_biome(h, w),
        (3, _, _, 2 | 3 | 4, 1, _) => spec_middle_biome(t, h, w),
        (3, 0 | 1, _, 5, 1, _) => spec_middle_biome(t, h, w),
        (3, _, 4, 5, 1, _) => spec_middle_biome(t, h, w),
        (3, _, _, 5, 1, 0) => spec_middle_biome(t, h, w),
        (3, 2 | 3 | 4, 0 | 1 | 2 | 3, 5, 1, 1) => BiomeType::WindsweptSavanna,
        (3 | 4 | 5, 0, _, 6, 1, _) => spec_middle_biome(t, h, w),
        (3 | 4 | 5, 1 | 2, _, 6, 1, _) => BiomeType::Swamp,
        (3 | 4 | 5, 3 | 4, _, 6, 1, _) => BiomeType::Mangrove,
        (4 | 5, 0, 0 | 1, 0 | 1, 1, _) => BiomeType::SnowySlopes,
        (4 | 5, 0, 2 | 3 | 4, 0 | 1, 1, _) => BiomeType::Grove,
        (4 | 5, 1 | 2 | 3, _, 0 | 1, 1, _) => spec_middle_biome(t, h, w),
        (4 | 5, 4, _, 0 | 1, 1, _) => spec_badlands_biome(h, w),
        (4 | 5, 0 | 1 | 2 | 3, _, 2 | 3, 1, _) => spec_badlands_biome(h, w),
        (4 | 5, 4, _, 2 | 3, 1, _) => spec_badlands_biome(h, w),
        (4 | 5, _, _, 4 | 5, 1, _) => spec_middle_biome(t, h, w),
        _ => BiomeType::Plains,
    }
}

fn determine_low_biome(l: &BiomeLevels) -> (r: BiomeType)
    ensures
        r == low_table(*l),
{
    let t = l.temperature;
    let h = l.humidity;
    let w = l.weirdness;
    match (l.continentalness, t, h, l.erosion, l.pv, w) {
        (2, _, _, 0 | 1 | 2, 1, _) => BiomeType::StonyShore,
        (2, _, _, 3 | 4, 1, _) => determine_beach_biome(t),
        (2, _, _, 5, 1, 0) => determine_beach_biome(t),
        (2, 0 | 1, _, 5, 1, 1) => determine_middle_biome(t, h, w),
        (2, _, 4, 5, 1, 1) => determine_middle_biome(t, h, w),
        (2, 2 | 3 | 4, 0 | 1 | 2 | 3, 5, 1, 1) => BiomeType::WindsweptSavanna,
        (2, _, _, 6, 1, _) => determine_beach_biome(t),
        (3, 0 | 1 | 2 | 3, _, 0 | 1, 1, _) => determine_middle_biome(t, h, w),
        (3, 4, _, 0 | 1, 1, _) => determine_badlands_biome(h, w),
        (3, _, _, 2 | 3 | 4, 1, _) => determine_middle_biome(t, h, w),
        (3, 0 | 1, _, 5, 1, _) => determine_middle_biome(t, h, w),
        (3, _, 4, 5, 1, _) => determine_middle_biome(t, h, w),
        (3, _, _, 5, 1, 0) => determine_middle_biome(t, h, w),
        (3, 2 | 3 | 4, 0 | 1 | 2 | 3, 5, 1, 1) => BiomeType::WindsweptSavanna,
        (3 | 4 | 5, 0, _, 6, 1, _) => determine_middle_biome(t, h, w),
        (3 | 4 | 5, 1 | 2, _, 6, 1, _) => BiomeType::Swamp,
        (3 | 4 | 5, 3 | 4, _, 6, 1, _) => BiomeType::Mangrove,
        (4 | 5, 0, 0 | 1, 0 | 1, 1, _) => BiomeType::SnowySlopes,
        (4 | 5, 0, 2 | 3 | 4, 0 | 1, 1, _) => BiomeType::Grove,
        (4 | 5, 1 | 2 | 3, _, 0 | 1, 1, _) => determine_middle_biome(t, h, w),
        (4 | 5, 4, _, 0 | 1, 1, _) => determine_badlands_biome(h, w),
        (4 | 5, 0 | 1 | 2 | 3, _, 2 | 3, 1, _) => determine_badlands_biome(h, w),
        (4 | 5, 4, _, 2 | 3, 1, _) => determine_badlands_biome(h, w),
        (4 | 5, _, _, 4 | 5, 1, _) => determine_middle_biome(t, h, w),
        _ => BiomeType::Plains,
    }
}

/// Middle ground.
pub open spec fn mid_table(l: BiomeLevels) -> BiomeType {
    let t = l.temperature;
    let h = l.humidity;
    let w = l.weirdness;
    match (l.continentalness, t, h, l.erosion, l.pv, w) {
        (2, _, _, 0 | 1 | 2, 2, _) => BiomeType::StonyShore,
        (2, _, _, 3, 2, _) => spec_middle_biome(t, h, w),
        (2, _, _, 4, 2, 0) => spec_beach_biome(t),
        (2, _, _, 4, 2, 1) => spec_middle_biome(t, h, w),
        (2, _, _, 5, 2, 0) => spec_beach_biome(t),
        (2, 0 | 1, _, 5, 2, 1) => spec_middle_biome(t, h, w),
        (2, _, 4, 5, 2, 1) => spec_middle_biome(t, h, w),
        (2, 2 | 3 | 4, 0 | 1 | 2 | 3, 5, 2, 1) => BiomeType::WindsweptSavanna,
        (2, _, _, 6, 2, 0) => spec_beach_biome(t),
        (2, _, _, 6, 2, 1) => spec_middle_biome(t, h, w),
        (3 | 4 | 5, 0 | 1 | 2, 0 | 1, 0, 2, _) => BiomeType::SnowySlopes,
        (3 | 4 | 5, 0 | 1 | 2, 2 | 3 | 4, 0, 2, _) => BiomeType::Grove,
        (3 | 4 | 5, 3 | 4, _, 0, 2, _) => spec_plateau_biome(t, h, w),
        (3 | 4, 0, 0 | 1, 1, 2, _) => BiomeType::SnowySlopes,
        (3 | 4, 0, 2 | 3 | 4, 1, 2, _) => BiomeType::Grove,
        (3 | 4, 1 | 2 | 3, _, 1, 2, _) => spec_middle_biome(t, h, w),
        (3 | 4, 4, _, 1, 2, _) => spec_badlands_biome(h, w),
        (5, 0, 0 | 1, 1, 2, _) => BiomeType::SnowySlopes,
        (5, 0, 2 | 3 | 4, 1, 2, _) => BiomeType::Grove,
        (5, 1 | 2 | 3 | 4, _, 1, 2, _) => spec_plateau_biome(t, h, w),
        (3, _, _, 2 | 3 | 4, 2, _) => spec_middle_biome(t, h, w),
        (4, 0 | 1 | 2 | 3, _, 2 | 3, 2, _) => spec_middle_biome(t, h, w),
        (4, 4, _, 2 | 3, 2, _) => spec_badlands_biome(h, w),
        (5, _, _, 2, 2, _) => spec_plateau_biome(t, h, w),
        (5, 0 | 1 | 2 | 3, _, 3, 2, _) => spec_middle_biome(t, h, w),
        (5, 4, _, 3, 2, _) => spec_badlands_biome(h, w),
        (4 | 5, _, _, 4, 2, _) => spec_middle_biome(t, h, w),
        (3, 0 | 1, _, 5, 2, 0) => spec_middle_biome(t, h, w),
        (3, _, 4, 5, 2, 0) => spec_middle_biome(t, h, w),
        (3, 2 | 3 | 4, 0 | 1 | 2 | 3, 5, 2, 1) => BiomeType::WindsweptSavanna,
        (4 | 5, _, _, 5, 2, _) => spec_shattered_biome(t, h, w),
        (3 | 4 | 5, 0, _, 6, 2, _) => spec_middle_biome(t, h, w),
        (3 | 4 | 5, 1 | 2, _, 6, 2, _) => BiomeType::Swamp,
        (3 | 4 | 5, 3 | 4, _, 6, 2, _) => BiomeType::Mangrove,
        _ => BiomeType::Plains,
    }
}

fn determine_mid_biome(l: &BiomeLevels) -> (r: BiomeType)
    ensures
        r == mid_table(*l),
{
    let t = l.temperature;
    let h = l.humidity;
    let w = l.weirdness;
    match (l.continentalness, t, h, l.erosion, l.pv, w) {
        (2, _, _, 0 | 1 | 2, 2, _) => BiomeType::StonyShore,
        (2, _, _, 3, 2, _) => determine_middle_biome(t, h, w),
        (2, _, _, 4, 2, 0) => determine_beach_biome(t),
        (2, _, _, 4, 2, 1) => determine_middle_biome(t, h, w),
        (2, _, _, 5, 2, 0) => determine_beach_biome(t),
        (2, 0 | 1, _, 5, 2, 1) => determine_middle_biome(t, h, w),
        (2, _, 4, 5, 2, 1) => determine_middle_biome(t, h, w),
        (2, 2 | 3 | 4, 0 | 1 | 2 | 3, 5, 2, 1) => BiomeType::WindsweptSavanna,
        (2, _, _, 6, 2, 0) => determine_beach_biome(t),
        (2, _, _, 6, 2, 1) => determine_middle_biome(t, h, w),
        (3 | 4 | 5, 0 | 1 | 2, 0 | 1, 0, 2, _) => BiomeType::SnowySlopes,
        (3 | 4 | 5, 0 | 1 | 2, 2 | 3 | 4, 0, 2, _) => BiomeType::Grove,
        (3 | 4 | 5, 3 | 4, _, 0, 2, _) => determine_plateau_biome(t, h, w),
        (3 | 4, 0, 0 | 1, 1, 2, _) => BiomeType::SnowySlopes,
        (3 | 4, 0, 2 | 3 | 4, 1, 2, _) => BiomeType::Grove,
        (3 | 4, 1 | 2 | 3, _, 1, 2, _) => determine_middle_biome(t, h, w),
        (3 | 4, 4, _, 1, 2, _) => determine_badlands_biome(h, w),
        (5, 0, 0 | 1, 1, 2, _) => BiomeType::SnowySlopes,
        (5, 0, 2 | 3 | 4, 1, 2, _) => BiomeType::Grove,
        (5, 1 | 2 | 3 | 4, _, 1, 2, _) => determine_plateau_biome(t, h, w),
        (3, _, _, 2 | 3 | 4, 2, _) => determine_middle_biome(t, h, w),
        (4, 0 | 1 | 2 | 3, _, 2 | 3, 2, _) => determine_middle_biome(t, h, w),
        (4, 4, _, 2 | 3, 2, _) => determine_badlands_biome(h, w),
        (5, _, _, 2, 2, _) => determine_plateau_biome(t, h, w),
        (5, 0 | 1 | 2 | 3, _, 3, 2, _) => determine_middle_biome(t, h, w),
        (5, 4, _, 3, 2, _) => determine_badlands_biome(h, w),
        (4 | 5, _, _, 4, 2, _) => determine_middle_biome(t, h, w),
        (3, 0 | 1, _, 5, 2, 0) => determine_middle_biome(t, h, w),
        (3, _, 4, 5, 2, 0) => determine_middle_biome(t, h, w),
        (3, 2 | 3 | 4, 0 | 1 | 2 | 3, 5, 2, 1) => BiomeType::WindsweptSavanna,
        (4 | 5, _, _, 5, 2, _) => determine_shattered_biome(t, h, w),
        (3 | 4 | 5, 0, _, 6, 2, _) => determine_middle_biome(t, h, w),
        (3 | 4 | 5, 1 | 2, _, 6, 2, _) => BiomeType::Swamp,
        (3 | 4 | 5, 3 | 4, _, 6, 2, _) => BiomeType::Mangrove,
        _ => BiomeType::Plains,
    }
}

/// High ground.
pub open spec fn high_table(l: BiomeLevels) -> BiomeType {
    let t = l.temperature;
    let h = l.humidity;
    let w = l.weirdness;
    match (l.continentalness, t, h, l.erosion, l.pv, w) {
        (2, _, _, 0 | 1 | 2 | 3 | 4, 3, _) => spec_middle_biome(t, h, w),
        (3, 0 | 1 | 2, 0 | 1, 0, 3, _) => BiomeType::SnowySlopes,
        (3, 0 | 1 | 2, 2 | 3 | 4, 0, 3, _) => BiomeType::Grove,
        (3, 3 | 4, _, 0, 3, _) => spec_plateau_biome(t, h, w),
        (3, 0, 0 | 1, 1, 3, _) => BiomeType::SnowySlopes,
        (3, 0, 2 | 3 | 4, 1, 3, _) => BiomeType::Grove,
        (3, 1 | 2 | 3, _, 1, 3, _) => spec_middle_biome(t, h, w),
        (3, 4, _, 1, 3, _) => spec_badlands_biome(h, w),
        (3, _, _, 2 | 3 | 4, 3, _) => spec_middle_biome(t, h, w),
        (2 | 3, 0 | 1, _, 5, 3, _) => spec_middle_biome(t, h, w),
        (2 | 3, _, 4, 5, 3, _) => spec_middle_biome(t, h, w),
        (2 | 3, _, _, 5, 3, 0) => spec_middle_biome(t, h, w),
        (2 | 3, 2 | 3 | 4, 0 | 1 | 2 | 3, 5, 3, 1) => BiomeType::WindsweptSavanna,
        (4 | 5, 0 | 1 | 2, _, 0, 3, 0) => BiomeType::JaggedPeaks,
        (4 | 5, 0 | 1 | 2, _, 0, 3, 1) => BiomeType::FrozenPeaks,
        (4 | 5, 3, _, 0, 3, _) => BiomeType::StonyPeaks,
        (4 | 5, 4, _, 0, 3, _) => spec_badlands_biome(h, w),
        (4 | 5, 0 | 1 | 2, 0 | 1, 1, 3, _) => BiomeType::SnowySlopes,
        (4 | 5, 0 | 1 | 2, 2 | 3 | 4, 1, 3, _) => BiomeType::Grove,
        (4 | 5, 3 | 4, _, 1, 3, _) => spec_plateau_biome(t, h, w),
        (4, _, _, 2, 3, _) => spec_plateau_biome(t, h, w),
        (4, 0 | 1 | 2 | 3, _, 3, 3, _) => spec_middle_biome(t, h, w),
        (4, 4, _, 3, 3, _) => spec_badlands_biome(h, w),
        (5, _, _, 2 | 3, 3, _) => spec_plateau_biome(t, h, w),
        (5, _, _, 4, 3, _) => spec_middle_biome(t, h, w),
        (4 | 5, _, _, 5, 3, _) => spec_shattered_biome(t, h, w),
        (2 | 3 | 4 | 5, _, _, 6, 3, _) => spec_middle_biome(t, h, w),
        _ => BiomeType::Plains,
    }
}

fn determine_high_biome(l: &BiomeLevels) -> (r: BiomeType)
    ensures
        r == high_table(*l),
{
    let t = l.temperature;
    let h = l.humidity;
    let w = l.weirdness;
    match (l.continentalness, t, h, l.erosion, l.pv, w) {
        (2, _, _, 0 | 1 | 2 | 3 | 4, 3, _) => determine_middle_biome(t, h, w),
        (3, 0 | 1 | 2, 0 | 1, 0, 3, _) => BiomeType::SnowySlopes,
        (3, 0 | 1 | 2, 2 | 3 | 4, 0, 3, _) => BiomeType::Grove,
        (3, 3 | 4, _, 0, 3, _) => determine_plateau_biome(t, h, w),
        (3, 0, 0 | 1, 1, 3, _) => BiomeType::SnowySlopes,
        (3, 0, 2 | 3 | 4, 1, 3, _) => BiomeType::Grove,
        (3, 1 | 2 | 3, _, 1, 3, _) => determine_middle_biome(t, h, w),
        (3, 4, _, 1, 3, _) => determine_badlands_biome(h, w),
        (3, _, _, 2 | 3 | 4, 3, _) => determine_middle_biome(t, h, w),
        (2 | 3, 0 | 1, _, 5, 3, _) => determine_middle_biome(t, h, w),
        (2 | 3, _, 4, 5, 3, _) => determine_middle_biome(t, h, w),
        (2 | 3, _, _, 5, 3, 0) => determine_middle_biome(t, h, w),
        (2 | 3, 2 | 3 | 4, 0 | 1 | 2 | 3, 5, 3, 1) => BiomeType::WindsweptSavanna,
        (4 | 5, 0 | 1 | 2, _, 0, 3, 0) => BiomeType::JaggedPeaks,
        (4 | 5, 0 | 1 | 2, _, 0, 3, 1) => BiomeType::FrozenPeaks,
        (4 | 5, 3, _, 0, 3, _) => BiomeType::StonyPeaks,
        (4 | 5, 4, _, 0, 3, _) => determine_badlands_biome(h, w),
        (4 | 5, 0 | 1 | 2, 0 | 1, 1, 3, _) => BiomeType::SnowySlopes,
        (4 | 5, 0 | 1 | 2, 2 | 3 | 4, 1, 3, _) => BiomeType::Grove,
        (4 | 5, 3 | 4, _, 1, 3, _) => determine_plateau_biome(t, h, w),
        (4, _, _, 2, 3, _) => determine_plateau_biome(t, h, w),
        (4, 0 | 1 | 2 | 3, _, 3, 3, _) => determine_middle_biome(t, h, w),
        (4, 4, _, 3, 3, _) => determine_badlands_biome(h, w),
        (5, _, _, 2 | 3, 3, _) => determine_plateau_biome(t, h, w),
        (5, _, _, 4, 3, _) => determine_middle_biome(t, h, w),
        (4 | 5, _, _, 5, 3, _) => determine_shattered_biome(t, h, w),
        (2 | 3 | 4 | 5, _, _, 6, 3, _) => determine_middle_biome(t, h, w),
        _ => BiomeType::Plains,
    }
}

/// Peaks: the highest peaks-and-valleys level.
pub open spec fn peak_table(l: BiomeLevels) -> BiomeType {
    let t = l.temperature;
    let h = l.humidity;
    let w = l.weirdness;
    match (l.continentalness, t, h, l.erosion, l.pv, w) {
        (2 | 3, 0 | 1 | 2, _, 0, 4, 0) => BiomeType::JaggedPeaks,
        (2 | 3, 0 | 1 | 2, _, 0, 4, 1) => BiomeType::FrozenPeaks,
        (2 | 3, 3, _, 0, 4, _) => BiomeType::StonyPeaks,
        (2 | 3, 4, _, 0, 4, _) => spec_badlands_biome(h, w),
        (2 | 3, 0, 0 | 1, 1, 4, _) => BiomeType::SnowySlopes,
        (2 | 3, 0, 2 | 3 | 4, 1, 4, _) => BiomeType::Grove,
        (2 | 3, 1 | 2 | 3, _, 1, 4, _) => spec_middle_biome(t, h, w),
        (2 | 3, 4, _, 1, 4, _) => spec_badlands_biome(h, w),
        (2 | 3, _, _, 2 | 3 | 4, 4, _) => spec_middle_biome(t, h, w),
        (2 | 3, _, _, 5, 4, 0) => spec_shattered_biome(t, h, w),
        (2 | 3, 0 | 1, _, 5, 4, _) => spec_shattered_biome(t, h, w),
        (2 | 3, _, 4, 5, 4, _) => spec_shattered_biome(t, h, w),
        (2 | 3, 2 | 3 | 4, 0 | 1 | 2 | 3, 5, 4, 1) => BiomeType::WindsweptSavanna,
        (4 | 5, 0 | 1 | 2, _, 0 | 1, 4, 0) => BiomeType::JaggedPeaks,
        (4 | 5, 0 | 1 | 2, _, 0 | 1, 4, 1) => BiomeType::FrozenPeaks,
        (4 | 5, 3, _, 0 | 1, 4, _) => BiomeType::StonyPeaks,
        (4 | 5, 4, _, 0 | 1, 4, _) => spec_badlands_biome(h, w),
        (4, _, _, 2, 4, _) => spec_plateau_biome(t, h, w),
        (4, 0 | 1 | 2 | 3, _, 3 | 4, 4, _) => spec_middle_biome(t, h, w),
        (4, 4, _, 3 | 4, 4, _) => spec_badlands_biome(h, w),
        (5, _, _, 2 | 3 | 4, 4, _) => spec_plateau_biome(t, h, w),
        (4, _, _, 4, 4, _) => spec_middle_biome(t, h, w),
        (4 | 5, _, _, 5, 4, _) => spec_shattered_biome(t, h, w),
        (2 | 3 | 4 | 5, _, _, 6, 4, _) => spec_middle_biome(t, h, w),
        _ => BiomeType::Plains,
    }
}

fn determine_peak_biome(l: &BiomeLevels) -> (r: BiomeType)
    ensures
        r == peak_table(*l),
{
    let t = l.temperature;
    let h = l.humidity;
    let w = l.weirdness;
    match (l.continentalness, t, h, l.erosion, l.pv, w) {
        (2 | 3, 0 | 1 | 2, _, 0, 4, 0) => BiomeType::JaggedPeaks,
        (2 | 3, 0 | 1 | 2, _, 0, 4, 1) => BiomeType::FrozenPeaks,
        (2 | 3, 3, _, 0, 4, _) => BiomeType::StonyPeaks,
        (2 | 3, 4, _, 0, 4, _) => determine_badlands_biome(h, w),
        (2 | 3, 0, 0 | 1, 1, 4, _) => BiomeType::SnowySlopes,
        (2 | 3, 0, 2 | 3 | 4, 1, 4, _) => BiomeType::Grove,
        (2 | 3, 1 | 2 | 3, _, 1, 4, _) => determine_middle_biome(t, h, w),
        (2 | 3, 4, _, 1, 4, _) => determine_badlands_biome(h, w),
        (2 | 3, _, _, 2 | 3 | 4, 4, _) => determine_middle_biome(t, h, w),
        (2 | 3, _, _, 5, 4, 0) => determine_shattered_biome(t, h, w),
        (2 | 3, 0 | 1, _, 5, 4, _) => determine_shattered_biome(t, h, w),
        (2 | 3, _, 4, 5, 4, _) => determine_shattered_biome(t, h, w),
        (2 | 3, 2 | 3 | 4, 0 | 1 | 2 | 3, 5, 4, 1) => BiomeType::WindsweptSavanna,
        (4 | 5, 0 | 1 | 2, _, 0 | 1, 4, 0) => BiomeType::JaggedPeaks,
        (4 | 5, 0 | 1 | 2, _, 0 | 1, 4, 1) => BiomeType::FrozenPeaks,
        (4 | 5, 3, _, 0 | 1, 4, _) => BiomeType::StonyPeaks,
        (4 | 5, 4, _, 0 | 1, 4, _) => determine_badlands_biome(h, w),
        (4, _, _, 2, 4, _) => determine_plateau_biome(t, h, w),
        (4, 0 | 1 | 2 | 3, _, 3 | 4, 4, _) => determine_middle_biome(t, h, w),
        (4, 4, _, 3 | 4, 4, _) => determine_badlands_biome(h, w),
        (5, _, _, 2 | 3 | 4, 4, _) => determine_plateau_biome(t, h, w),
        (4, _, _, 4, 4, _) => determine_middle_biome(t, h, w),
        (4 | 5, _, _, 5, 4, _) => determine_shattered_biome(t, h, w),
        (2 | 3 | 4 | 5, _, _, 6, 4, _) => determine_middle_biome(t, h, w),
        _ => BiomeType::Plains,
    }
}

/// The biome table: a total decision over the six levels. The two lowest
/// continentalness levels give an ocean; otherwise the peaks-and-valleys level
/// picks the sub-table. Combinations no row covers give plains.
pub open spec fn biome_table(l: BiomeLevels) -> BiomeType {
    if (l.continentalness == 0 || l.continentalness == 1) && 0 <= l.temperature <= 4 {
        ocean_table(l)
    } else if l.pv == 0 {
        valley_table(l)
    } else if l.pv == 1 {
        low_table(l)
    } else if l.pv == 2 {
        mid_table(l)
    } else if l.pv == 3 {
        high_table(l)
    } else if l.pv == 4 {
        peak_table(l)
    } else {
        BiomeType::Plains
    }
}

/// The biome of a column with the given levels.
pub fn determine_biome(levels: &BiomeLevels) -> (r: BiomeType)
    ensures
        r == biome_table(*levels),
{
    let c = levels.continentalness;
    let t = levels.temperature;
    if (c == 0 || c == 1) && 0 <= t && t <= 4 {
        determine_ocean_biome(levels)
    } else if levels.pv == 0 {
        determine_valley_biome(levels)
    } else if levels.pv == 1 {
        determine_low_biome(levels)
    } else if levels.pv == 2 {
        determine_mid_biome(levels)
    } else if levels.pv == 3 {
        determine_high_biome(levels)
    } else if levels.pv == 4 {
        determine_peak_biome(levels)
    } else {
        BiomeType::Plains
    }
}

/// Every combination of levels gets a biome, and the two lowest continentalness
/// levels always give one of the ocean family.
pub proof fn lemma_biome_table_oceans(l: BiomeLevels)
    requires
        l.in_range(),
    ensures
        l.continentalness <= 1 ==> is_ocean_biome(biome_table(l)),
{
}

} // verus!
