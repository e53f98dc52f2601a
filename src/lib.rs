pub mod biome;
pub mod block;
pub mod chunk;
pub mod coords;
pub mod face;
pub mod mesh;
pub mod noise;
pub mod terrain;
pub mod utils;
pub mod world;
