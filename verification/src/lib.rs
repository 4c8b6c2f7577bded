//! Packs independently drawn images into one atlas image and a manifest
//! that maps each image's name to its rectangle in the atlas.
//!
//! Images are placed one by one by a skyline search, each with an empty
//! margin around it and, if asked, without its transparent border. Every
//! position is checked before it is accepted, so a finished layout never
//! has two placements closer than their margins allow, and none that
//! leaves the configured area. The atlas shows every placed image pixel by
//! pixel and is transparent elsewhere; the manifest lists the names in
//! their order.
//!
//! Beside the packer stand the integer parts of a tile and sprite
//! renderer that reads such atlases: grids of tiles, the vertex indices of
//! their quads, and the state of the keys that move the view.

pub mod atlas;
pub mod batch;
pub mod config;
pub mod geometry;
pub mod input;
pub mod json;
pub mod laws;
pub mod manifest;
pub mod names;
pub mod packer;
pub mod placement;
pub mod raster;
pub mod render;
pub mod skyline;
pub mod source;
pub mod tilemap;
