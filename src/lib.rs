//! Core rules of a tile-based farming game: the tile kinds and their weighted
//! draw, the grid of tiles, the resolution of a click on a rendered mesh to the
//! tile that owns it, planting on plantable tiles, and the order in which the
//! sky textures are cycled.
pub mod land;
pub mod nutrients;
pub mod plants;
mod roll;
pub mod skybox;
pub mod tilemap;
pub mod world;
