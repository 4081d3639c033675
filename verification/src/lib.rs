//! Rendering core of a tile-based raycasting engine: tile sheets and the texture
//! atlas, sprite templates and instances, the world layout and the per-frame
//! dispatch plan.

pub mod atlas;
pub mod localisation;
pub mod picture;
pub mod settings;
pub mod sprite;
pub mod spriteasset;
pub mod spriteregistry;
pub mod ssbo;
pub mod tilesheet;
pub mod vector;
pub mod world;
