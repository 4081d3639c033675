//! The texture atlas: the tiles of the world's own sheet and of every sprite
//! sheet as the layers of one texture array, the world's sheet first.

use crate::tilesheet::{
    all_wf, lemma_total_tiles_grows, lemma_total_tiles_nonnegative, max_tile_height,
    max_tile_width, total_tiles, Tilesheet, VecTilesheetExt,
};
use vstd::prelude::*;

verus! {

/// Size of the atlas and the layer at which each sprite sheet starts.
pub struct Atlas {
    /// Width of a layer: that of the widest tile.
    pub width: i32,
    /// Height of a layer: that of the tallest tile.
    pub height: i32,
    /// Number of layers: one for each tile.
    pub depth: i32,
    /// For each sprite sheet, in order, the layer of its first tile.
    pub offsets: Vec<i32>,
}

/// The layer at which sheet `i` starts: after the world's tiles and those of the
/// sheets before it.
pub open spec fn atlas_offset(world_tiles: int, sheets: Seq<Tilesheet>, i: int) -> int {
    world_tiles + total_tiles(sheets.take(i))
}

/// The larger of two numbers.
pub open spec fn larger(a: int, b: int) -> int {
    if a >= b {
        a
    } else {
        b
    }
}

/// The sheets lie in the atlas one after another without a gap: the first starts
/// after the world's tiles, each one ends where the next starts, and the last
/// ends at the depth of the atlas. Sheets that hold tiles start at rising layers.
pub proof fn lemma_atlas_offsets_adjoin(world_tiles: int, sheets: Seq<Tilesheet>, i: int)
    requires
        0 <= i < sheets.len(),
    ensures
        atlas_offset(world_tiles, sheets, 0) == world_tiles,
        atlas_offset(world_tiles, sheets, i) + sheets[i]@.tile_count == atlas_offset(
            world_tiles,
            sheets,
            i + 1,
        ),
        atlas_offset(world_tiles, sheets, sheets.len() as int) == world_tiles + total_tiles(sheets),
        sheets[i]@.tile_count > 0 ==> atlas_offset(world_tiles, sheets, i) < atlas_offset(
            world_tiles,
            sheets,
            i + 1,
        ),
{
    assert(sheets.take(0).len() == 0);
    assert(sheets.take(i + 1).drop_last() =~= sheets.take(i));
    assert(sheets.take(i + 1).last() == sheets[i]);
    assert(sheets.take(sheets.len() as int) =~= sheets);
}

impl Atlas {
    /// The atlas is as wide and as tall as the largest tile, holds a layer for
    /// every tile, and starts each sprite sheet where the one before it ends.
    pub open spec fn lays_out(&self, world_tile_sheet: Tilesheet, tile_sheets: Seq<Tilesheet>) -> bool {
        &&& self.width == larger(max_tile_width(tile_sheets), world_tile_sheet@.tile_width)
        &&& self.height == larger(max_tile_height(tile_sheets), world_tile_sheet@.tile_height)
        &&& self.depth == world_tile_sheet@.tile_count + total_tiles(tile_sheets)
        &&& self.offsets@.len() == tile_sheets.len()
        &&& forall|i: int|
            0 <= i < tile_sheets.len() ==> #[trigger] self.offsets@[i] == atlas_offset(
                world_tile_sheet@.tile_count,
                tile_sheets,
                i,
            )
    }

    /// Lays out the atlas for the world's sheet and the sprite sheets, or returns
    /// `None` where there are more tiles than an `i32` counts.
    pub fn plan(world_tile_sheet: &Tilesheet, tile_sheets: &Vec<Tilesheet>) -> (r: Option<Atlas>)
        requires
            world_tile_sheet.wf(),
            all_wf(tile_sheets@),
        ensures
            r.is_some() == (world_tile_sheet@.tile_count + total_tiles(tile_sheets@) <= i32::MAX),
            r matches Some(atlas) ==> atlas.lays_out(*world_tile_sheet, tile_sheets@),
    {
        let world_tiles: i32 = world_tile_sheet.tile_count();
        let mut offsets: Vec<i32> = Vec::new();
        let mut location: i32 = world_tiles;
        let mut i: usize = 0;
        proof {
            assert(world_tiles > 0) by (nonlinear_arith)
                requires
                    world_tiles == world_tile_sheet@.columns * world_tile_sheet@.rows,
                    world_tile_sheet@.columns > 0,
                    world_tile_sheet@.rows > 0,
            ;
            assert(tile_sheets@.take(0).len() == 0);
        }
        while i < tile_sheets.len()
            invariant
                i <= tile_sheets@.len(),
                all_wf(tile_sheets@),
                world_tiles == world_tile_sheet@.tile_count,
                world_tiles > 0,
                location == atlas_offset(world_tiles as int, tile_sheets@, i as int),
                offsets@.len() == i,
                forall|j: int|
                    0 <= j < i ==> #[trigger] offsets@[j] == atlas_offset(
                        world_tiles as int,
                        tile_sheets@,
                        j,
                    ),
            decreases tile_sheets.len() - i,
        {
            let count: i32 = tile_sheets[i].tile_count();
            proof {
                lemma_atlas_offsets_adjoin(world_tiles as int, tile_sheets@, i as int);
                lemma_total_tiles_grows(tile_sheets@, i as int);
                lemma_total_tiles_grows(tile_sheets@, i + 1);
            }
            if count > i32::MAX - location {
                return None;
            }
            offsets.push(location);
            location = location + count;
            i = i + 1;
        }
        proof {
            assert(tile_sheets@.take(i as int) =~= tile_sheets@);
            lemma_total_tiles_nonnegative(tile_sheets@);
        }
        let sprites_width: i32 = tile_sheets.max_width();
        let sprites_height: i32 = tile_sheets.max_height();
        let width: i32 = if sprites_width >= world_tile_sheet.tile_width() {
            sprites_width
        } else {
            world_tile_sheet.tile_width()
        };
        let height: i32 = if sprites_height >= world_tile_sheet.tile_height() {
            sprites_height
        } else {
            world_tile_sheet.tile_height()
        };
        let depth: i32 = world_tiles + tile_sheets.total_tile_count();
        Some(Atlas { width, height, depth, offsets })
    }
}

} // verus!
