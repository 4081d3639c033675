//! The descriptor of a tile sheet: an image file and the grid it is cut into.

use vstd::prelude::*;

verus! {

/// The image file of a tile sheet, and how many columns and rows of tiles it holds.
pub struct SpriteAsset {
    pub file: String,
    pub columns: u32,
    pub rows: u32,
}

} // verus!
