//! Tile sheets: an image cut into a grid of tiles of one size, stored tile after
//! tile, each tile bottom row first.

use crate::picture::Picture;
use crate::spriteasset::SpriteAsset;
use vstd::arithmetic::div_mod::{lemma_fundamental_div_mod, lemma_fundamental_div_mod_converse};
use vstd::prelude::*;

verus! {

/// The largest value a tile sheet's dimensions and counts may take.
pub const TILE_LIMIT: u32 = 0x7fff_ffff;

/// Why an image cannot be cut into a tile sheet.
#[derive(Clone, Copy, Debug, PartialEq, Eq, Structural)]
pub enum TilesheetError {
    /// The grid has no columns or no rows.
    EmptyGrid,
    /// A dimension or the number of tiles is above `TILE_LIMIT`.
    TooLarge,
}

pub struct Tilesheet {
    pixels: Vec<u8>,
    tile_width: i32,
    tile_height: i32,
    tile_count: i32,
    columns: i32,
    rows: i32,
}

/// What a tile sheet holds.
pub struct TilesheetView {
    pub pixels: Seq<u8>,
    pub tile_width: int,
    pub tile_height: int,
    pub tile_count: int,
    pub columns: int,
    pub rows: int,
}

impl View for Tilesheet {
    type V = TilesheetView;

    closed spec fn view(&self) -> TilesheetView {
        TilesheetView {
            pixels: self.pixels@,
            tile_width: self.tile_width as int,
            tile_height: self.tile_height as int,
            tile_count: self.tile_count as int,
            columns: self.columns as int,
            rows: self.rows as int,
        }
    }
}

/// Index of the first byte of pixel `(x, line)` of a tile, `line` counted in the
/// order of storage.
pub open spec fn scan_offset(tile_width: int, tile_height: int, tile: int, line: int, x: int) -> int {
    ((tile * tile_height + line) * tile_width + x) * 4
}

/// The byte that slicing stores at index `i`: index `i` is channel `i % 4` of
/// pixel `(x, line)` of some tile, and that pixel is taken from the tile's place
/// in the image, with the lines of the tile in reverse.
pub open spec fn source_byte(
    picture: Picture,
    columns: int,
    tile_width: int,
    tile_height: int,
    i: int,
) -> u8 {
    let c = i % 4;
    let x = (i / 4) % tile_width;
    let line = (i / 4 / tile_width) % tile_height;
    let tile = i / 4 / tile_width / tile_height;
    picture.channel(
        (tile % columns) * tile_width + x,
        (tile / columns) * tile_height + (tile_height - 1 - line),
        c,
    )
}

/// The pixel data of `picture` cut into `columns` by `rows` tiles.
pub open spec fn sliced(picture: Picture, columns: int, rows: int) -> Seq<u8> {
    let tile_width = picture.spec_width() as int / columns;
    let tile_height = picture.spec_height() as int / rows;
    Seq::new(
        (columns * rows * tile_height * tile_width * 4) as nat,
        |i: int| source_byte(picture, columns, tile_width, tile_height, i),
    )
}

/// Whether a grid of `columns` by `rows` on an image of `width` by `height` stays
/// within `TILE_LIMIT`.
pub open spec fn grid_fits(columns: int, rows: int, width: int, height: int) -> bool {
    &&& columns * rows <= TILE_LIMIT
    &&& width / columns <= TILE_LIMIT
    &&& height / rows <= TILE_LIMIT
}

/// The tile sheet that cutting `picture` into the grid of `asset` gives.
pub open spec fn sliced_sheet(asset: SpriteAsset, picture: Picture) -> TilesheetView {
    TilesheetView {
        pixels: sliced(picture, asset.columns as int, asset.rows as int),
        tile_width: picture.spec_width() as int / (asset.columns as int),
        tile_height: picture.spec_height() as int / (asset.rows as int),
        tile_count: asset.columns * asset.rows,
        columns: asset.columns as int,
        rows: asset.rows as int,
    }
}

/// Whether `picture` can be cut into the grid of `asset`: the grid has columns
/// and rows, and it fits.
pub open spec fn sliceable(asset: SpriteAsset, picture: Picture) -> bool {
    &&& asset.columns > 0
    &&& asset.rows > 0
    &&& grid_fits(
        asset.columns as int,
        asset.rows as int,
        picture.spec_width() as int,
        picture.spec_height() as int,
    )
}

/// An index into the stored bytes, taken apart: its channel, column, line and tile.
pub proof fn lemma_scan_offset_parts(
    tile_width: int,
    tile_height: int,
    tile: int,
    line: int,
    x: int,
    c: int,
)
    requires
        0 <= tile,
        0 <= line < tile_height,
        0 <= x < tile_width,
        0 <= c < 4,
    ensures
        ({
            let i = scan_offset(tile_width, tile_height, tile, line, x) + c;
            &&& 0 <= i
            &&& i % 4 == c
            &&& (i / 4) % tile_width == x
            &&& (i / 4 / tile_width) % tile_height == line
            &&& i / 4 / tile_width / tile_height == tile
        }),
{
    let q = tile * tile_height + line;
    let p = q * tile_width + x;
    let i = p * 4 + c;
    assert(tile * tile_height >= 0) by (nonlinear_arith)
        requires
            tile >= 0,
            tile_height > 0,
    ;
    assert(q * tile_width >= 0) by (nonlinear_arith)
        requires
            q >= 0,
            tile_width > 0,
    ;
    lemma_fundamental_div_mod_converse(i, 4, p, c);
    lemma_fundamental_div_mod_converse(p, tile_width, q, x);
    lemma_fundamental_div_mod_converse(q, tile_height, tile, line);
}

/// The byte stored for channel `c` of pixel `(x, line)` of the tile in column
/// `column` and row `row` of the grid.
pub proof fn lemma_source_byte(
    picture: Picture,
    columns: int,
    tile_width: int,
    tile_height: int,
    row: int,
    column: int,
    line: int,
    x: int,
    c: int,
)
    requires
        0 <= row,
        0 <= column < columns,
        0 <= line < tile_height,
        0 <= x < tile_width,
        0 <= c < 4,
    ensures
        source_byte(
            picture,
            columns,
            tile_width,
            tile_height,
            scan_offset(tile_width, tile_height, row * columns + column, line, x) + c,
        ) == picture.channel(
            column * tile_width + x,
            row * tile_height + (tile_height - 1 - line),
            c,
        ),
{
    let tile = row * columns + column;
    assert(row * columns >= 0) by (nonlinear_arith)
        requires
            row >= 0,
            columns > 0,
    ;
    lemma_scan_offset_parts(tile_width, tile_height, tile, line, x, c);
    lemma_fundamental_div_mod_converse(tile, columns, row, column);
}

impl Tilesheet {
    /// The counts and sizes are those of a grid, and the pixel data holds each
    /// tile in full.
    pub open spec fn wf(&self) -> bool {
        &&& 0 < self@.columns
        &&& 0 < self@.rows
        &&& self@.tile_count == self@.columns * self@.rows
        &&& 0 <= self@.tile_width
        &&& 0 <= self@.tile_height
        &&& self@.pixels.len() == self@.tile_count * self@.tile_height * self@.tile_width * 4
    }

    /// Cuts `picture` into the grid that `asset` names. The tiles are stored row
    /// by row of the grid, each with its bottom line first.
    #[verifier::loop_isolation(false)]
    pub fn from(asset: &SpriteAsset, picture: &Picture) -> (r: Result<Tilesheet, TilesheetError>)
        ensures
            match r {
                Ok(sheet) => {
                    &&& sliceable(*asset, *picture)
                    &&& sheet.wf()
                    &&& sheet@ == sliced_sheet(*asset, *picture)
                },
                Err(TilesheetError::EmptyGrid) => asset.columns == 0 || asset.rows == 0,
                Err(TilesheetError::TooLarge) => {
                    &&& asset.columns > 0
                    &&& asset.rows > 0
                    &&& !grid_fits(
                        asset.columns as int,
                        asset.rows as int,
                        picture.spec_width() as int,
                        picture.spec_height() as int,
                    )
                },
            },
    {
        let columns: u32 = asset.columns;
        let rows: u32 = asset.rows;
        if columns == 0 || rows == 0 {
            return Err(TilesheetError::EmptyGrid);
        }
        let width: u32 = picture.width();
        let height: u32 = picture.height();
        let tile_width: u32 = width / columns;
        let tile_height: u32 = height / rows;
        assert(columns * rows <= 0xffff_ffff * 0xffff_ffff) by (nonlinear_arith)
            requires
                columns <= 0xffff_ffff,
                rows <= 0xffff_ffff,
        ;
        if columns as u64 * rows as u64 > TILE_LIMIT as u64 || tile_width > TILE_LIMIT
            || tile_height > TILE_LIMIT {
            return Err(TilesheetError::TooLarge);
        }
        let ghost cs = columns as int;
        let ghost tw = tile_width as int;
        let ghost th = tile_height as int;
        proof {
            lemma_fundamental_div_mod(width as int, cs);
            lemma_fundamental_div_mod(height as int, rows as int);
            assert(cs * tw <= width);
            assert(rows * th <= height);
            assert(cs <= cs * rows && rows <= cs * rows) by (nonlinear_arith)
                requires
                    cs >= 1,
                    rows >= 1,
            ;
            assert(((0 * cs) * th + 0) * tw == 0) by (nonlinear_arith);
        }
        let mut pixels: Vec<u8> = Vec::new();
        let mut row: u32 = 0;
        while row < rows
            invariant
                row <= rows,
                pixels@.len() == scan_offset(tw, th, row * cs, 0, 0),
                forall|i: int|
                    0 <= i < pixels@.len() ==> pixels@[i] == source_byte(*picture, cs, tw, th, i),
            decreases rows - row,
        {
            let mut column: u32 = 0;
            while column < columns
                invariant
                    row < rows,
                    column <= columns,
                    pixels@.len() == scan_offset(tw, th, row * cs + column, 0, 0),
                    forall|i: int|
                        0 <= i < pixels@.len() ==> pixels@[i] == source_byte(
                            *picture,
                            cs,
                            tw,
                            th,
                            i,
                        ),
                decreases columns - column,
            {
                let mut line: u32 = 0;
                while line < tile_height
                    invariant
                        row < rows,
                        column < columns,
                        line <= tile_height,
                        pixels@.len() == scan_offset(tw, th, row * cs + column, line as int, 0),
                        forall|i: int|
                            0 <= i < pixels@.len() ==> pixels@[i] == source_byte(
                                *picture,
                                cs,
                                tw,
                                th,
                                i,
                            ),
                    decreases tile_height - line,
                {
                    let y: u32 = tile_height - 1 - line;
                    let mut x: u32 = 0;
                    while x < tile_width
                        invariant
                            row < rows,
                            column < columns,
                            line < tile_height,
                            y == tile_height - 1 - line,
                            x <= tile_width,
                            pixels@.len() == scan_offset(
                                tw,
                                th,
                                row * cs + column,
                                line as int,
                                x as int,
                            ),
                            forall|i: int|
                                0 <= i < pixels@.len() ==> pixels@[i] == source_byte(
                                    *picture,
                                    cs,
                                    tw,
                                    th,
                                    i,
                                ),
                        decreases tile_width - x,
                    {
                        proof {
                            assert(column * tw + x < cs * tw) by (nonlinear_arith)
                                requires
                                    0 <= column < cs,
                                    0 <= x < tw,
                            ;
                            assert(row * th + y < rows * th) by (nonlinear_arith)
                                requires
                                    0 <= row < rows,
                                    0 <= y < th,
                            ;
                        }
                        let pixel = picture.get_pixel(
                            column * tile_width + x,
                            row * tile_height + y,
                        );
                        let ghost before = pixels@;
                        pixels.push(pixel[0]);
                        pixels.push(pixel[1]);
                        pixels.push(pixel[2]);
                        pixels.push(pixel[3]);
                        proof {
                            let start = scan_offset(
                                tw,
                                th,
                                row * cs + column,
                                line as int,
                                x as int,
                            );
                            assert(before.len() == start);
                            assert forall|i: int| 0 <= i < pixels@.len() implies pixels@[i]
                                == source_byte(*picture, cs, tw, th, i) by {
                                if i >= start {
                                    let c = i - start;
                                    lemma_source_byte(
                                        *picture,
                                        cs,
                                        tw,
                                        th,
                                        row as int,
                                        column as int,
                                        line as int,
                                        x as int,
                                        c,
                                    );
                                    assert(pixels@[i] == pixel@[c]);
                                } else {
                                    assert(pixels@[i] == before[i]);
                                }
                            }
                        }
                        x = x + 1;
                    }
                    proof {
                        let q = (row * cs + column) * th + line;
                        assert((q * tw + tw) * 4 == ((q + 1) * tw + 0) * 4) by (nonlinear_arith);
                    }
                    line = line + 1;
                }
                proof {
                    let t = row * cs + column;
                    assert(((t * th + th) * tw + 0) * 4 == (((t + 1) * th + 0) * tw + 0) * 4)
                        by (nonlinear_arith);
                }
                column = column + 1;
            }
            proof {
                assert(row * cs + cs == (row + 1) * cs) by (nonlinear_arith);
            }
            row = row + 1;
        }
        proof {
            assert(pixels@.len() == cs * rows * th * tw * 4) by (nonlinear_arith)
                requires
                    pixels@.len() == ((rows * cs * th + 0) * tw + 0) * 4,
            ;
            assert(pixels@ =~= sliced(*picture, cs, rows as int));
        }
        Ok(
            Tilesheet {
                pixels,
                tile_width: tile_width as i32,
                tile_height: tile_height as i32,
                tile_count: (columns * rows) as i32,
                columns: columns as i32,
                rows: rows as i32,
            },
        )
    }

    /// The pixel data from tile `index` on.
    pub fn tile(&self, index: i32) -> (r: &[u8])
        requires
            self.wf(),
            0 <= index < self@.tile_count,
            0 < self@.tile_width,
            0 < self@.tile_height,
        ensures
            r@ == self@.pixels.subrange(
                index * self@.tile_height * self@.tile_width * 4,
                self@.pixels.len() as int,
            ),
            r@.len() == (self@.tile_count - index) * self@.tile_height * self@.tile_width * 4,
    {
        // The length is a `usize`, and so is every offset below it.
        let len: usize = self.pixels.len();
        let ghost n = self@.tile_count;
        let ghost h = self@.tile_height;
        let ghost w = self@.tile_width;
        proof {
            assert(0 <= index * h <= index * h * w <= index * h * w * 4 < n * h * w * 4)
                by (nonlinear_arith)
                requires
                    0 <= index < n,
                    0 < w,
                    0 < h,
            ;
            assert((n - index) * h * w * 4 == n * h * w * 4 - index * h * w * 4)
                by (nonlinear_arith);
            assert(self.pixels@.len() == n * h * w * 4);
        }
        let start: usize = index as usize * self.tile_height as usize * self.tile_width as usize
            * 4;
        vstd::slice::slice_subrange(self.pixels.as_slice(), start, len)
    }

    pub fn tile_width(&self) -> (r: i32)
        ensures
            r == self@.tile_width,
    {
        self.tile_width
    }

    pub fn tile_height(&self) -> (r: i32)
        ensures
            r == self@.tile_height,
    {
        self.tile_height
    }

    pub fn tile_count(&self) -> (r: i32)
        ensures
            r == self@.tile_count,
    {
        self.tile_count
    }

    pub fn columns(&self) -> (r: i32)
        ensures
            r == self@.columns,
    {
        self.columns
    }

    pub fn rows(&self) -> (r: i32)
        ensures
            r == self@.rows,
    {
        self.rows
    }
}

/// Slicing gives `columns * rows` tiles of `tile_width * tile_height * 4` bytes
/// each, and channel `c` of pixel `(x, y)` of tile `tile`, in the order of
/// storage, is that channel of the image's pixel at
/// `(column * tile_width + x, row * tile_height + (tile_height - 1 - y))`, where
/// `column` and `row` are the tile's place in the grid.
pub proof fn lemma_sliced_tiles(
    picture: Picture,
    columns: int,
    rows: int,
    tile: int,
    y: int,
    x: int,
    c: int,
)
    requires
        0 < columns,
        0 < rows,
        0 <= tile < columns * rows,
        0 <= y < picture.spec_height() as int / rows,
        0 <= x < picture.spec_width() as int / columns,
        0 <= c < 4,
    ensures
        ({
            let tile_width = picture.spec_width() as int / columns;
            let tile_height = picture.spec_height() as int / rows;
            let tile_bytes = tile_width * tile_height * 4;
            let i = tile * tile_bytes + (y * tile_width + x) * 4 + c;
            &&& sliced(picture, columns, rows).len() == (columns * rows) * tile_bytes
            &&& 0 <= i < sliced(picture, columns, rows).len()
            &&& sliced(picture, columns, rows)[i] == picture.channel(
                (tile % columns) * tile_width + x,
                (tile / columns) * tile_height + (tile_height - 1 - y),
                c,
            )
        }),
{
    let w = picture.spec_width() as int / columns;
    let h = picture.spec_height() as int / rows;
    let n = columns * rows;
    let i = tile * (w * h * 4) + (y * w + x) * 4 + c;
    assert(i == scan_offset(w, h, tile, y, x) + c) by (nonlinear_arith)
        requires
            i == tile * (w * h * 4) + (y * w + x) * 4 + c,
    ;
    assert(n * h * w * 4 == n * (w * h * 4)) by (nonlinear_arith);
    assert(0 <= i < n * (w * h * 4)) by (nonlinear_arith)
        requires
            i == tile * (w * h * 4) + (y * w + x) * 4 + c,
            0 <= tile < n,
            0 <= y < h,
            0 <= x < w,
            0 <= c < 4,
    ;
    lemma_fundamental_div_mod(tile, columns);
    assert(0 <= tile / columns) by (nonlinear_arith)
        requires
            tile == columns * (tile / columns) + tile % columns,
            0 <= tile % columns < columns,
            0 <= tile,
    ;
    assert(tile == (tile / columns) * columns + tile % columns) by (nonlinear_arith)
        requires
            tile == columns * (tile / columns) + tile % columns,
    ;
    lemma_source_byte(picture, columns, w, h, tile / columns, tile % columns, y, x, c);
}

/// The widest tile among `sheets`, and the least `i32` where there is none.
pub open spec fn max_tile_width(sheets: Seq<Tilesheet>) -> int
    decreases sheets.len(),
{
    if sheets.len() == 0 {
        i32::MIN as int
    } else if sheets.last()@.tile_width > max_tile_width(sheets.drop_last()) {
        sheets.last()@.tile_width
    } else {
        max_tile_width(sheets.drop_last())
    }
}

/// The tallest tile among `sheets`, and the least `i32` where there is none.
pub open spec fn max_tile_height(sheets: Seq<Tilesheet>) -> int
    decreases sheets.len(),
{
    if sheets.len() == 0 {
        i32::MIN as int
    } else if sheets.last()@.tile_height > max_tile_height(sheets.drop_last()) {
        sheets.last()@.tile_height
    } else {
        max_tile_height(sheets.drop_last())
    }
}

/// The number of tiles in all of `sheets`.
pub open spec fn total_tiles(sheets: Seq<Tilesheet>) -> int
    decreases sheets.len(),
{
    if sheets.len() == 0 {
        0
    } else {
        total_tiles(sheets.drop_last()) + sheets.last()@.tile_count
    }
}

/// Every sheet of `sheets` is well formed.
pub open spec fn all_wf(sheets: Seq<Tilesheet>) -> bool {
    forall|i: int| 0 <= i < sheets.len() ==> (#[trigger] sheets[i]).wf()
}

/// The tiles of well-formed sheets add up, from nothing upwards.
pub proof fn lemma_total_tiles_grows(sheets: Seq<Tilesheet>, n: int)
    requires
        all_wf(sheets),
        0 <= n <= sheets.len(),
    ensures
        0 <= total_tiles(sheets.take(n)) <= total_tiles(sheets),
    decreases sheets.len() - n,
{
    if n == sheets.len() {
        assert(sheets.take(n) =~= sheets);
        lemma_total_tiles_nonnegative(sheets);
    } else {
        lemma_total_tiles_grows(sheets, n + 1);
        assert(sheets.take(n + 1).drop_last() =~= sheets.take(n));
        assert(sheets.take(n + 1).last() == sheets[n]);
        assert(sheets[n].wf());
        assert(sheets[n]@.tile_count > 0) by (nonlinear_arith)
            requires
                sheets[n]@.tile_count == sheets[n]@.columns * sheets[n]@.rows,
                sheets[n]@.columns > 0,
                sheets[n]@.rows > 0,
        ;
        lemma_total_tiles_nonnegative(sheets.take(n));
    }
}

/// Well-formed sheets hold no negative number of tiles.
pub proof fn lemma_total_tiles_nonnegative(sheets: Seq<Tilesheet>)
    requires
        all_wf(sheets),
    ensures
        0 <= total_tiles(sheets),
    decreases sheets.len(),
{
    if sheets.len() > 0 {
        lemma_total_tiles_nonnegative(sheets.drop_last());
        let last = sheets.last();
        assert(last.wf());
        assert(last@.tile_count > 0) by (nonlinear_arith)
            requires
                last@.tile_count == last@.columns * last@.rows,
                last@.columns > 0,
                last@.rows > 0,
        ;
    }
}

/// What the atlas needs to know of a list of tile sheets.
pub trait VecTilesheetExt {
    /// The sheets of the list, in order.
    spec fn sheets(&self) -> Seq<Tilesheet>;

    fn max_width(&self) -> (r: i32)
        ensures
            r == max_tile_width(self.sheets()),
    ;

    fn max_height(&self) -> (r: i32)
        ensures
            r == max_tile_height(self.sheets()),
    ;

    fn total_tile_count(&self) -> (r: i32)
        requires
            all_wf(self.sheets()),
            total_tiles(self.sheets()) <= i32::MAX,
        ensures
            r == total_tiles(self.sheets()),
    ;
}

impl VecTilesheetExt for Vec<Tilesheet> {
    open spec fn sheets(&self) -> Seq<Tilesheet> {
        self@
    }

    fn max_width(&self) -> (r: i32) {
        let mut value: i32 = i32::MIN;
        let mut i: usize = 0;
        while i < self.len()
            invariant
                i <= self.len(),
                value == max_tile_width(self@.take(i as int)),
            decreases self.len() - i,
        {
            proof {
                assert(self@.take(i + 1).drop_last() =~= self@.take(i as int));
            }
            if self[i].tile_width() > value {
                value = self[i].tile_width();
            }
            i = i + 1;
        }
        proof {
            assert(self@.take(i as int) =~= self@);
        }
        value
    }

    fn max_height(&self) -> (r: i32) {
        let mut value: i32 = i32::MIN;
        let mut i: usize = 0;
        while i < self.len()
            invariant
                i <= self.len(),
                value == max_tile_height(self@.take(i as int)),
            decreases self.len() - i,
        {
            proof {
                assert(self@.take(i + 1).drop_last() =~= self@.take(i as int));
            }
            if self[i].tile_height() > value {
                value = self[i].tile_height();
            }
            i = i + 1;
        }
        proof {
            assert(self@.take(i as int) =~= self@);
        }
        value
    }

    fn total_tile_count(&self) -> (r: i32) {
        let mut sum: i32 = 0;
        let mut i: usize = 0;
        while i < self.len()
            invariant
                i <= self.len(),
                all_wf(self@),
                total_tiles(self@) <= i32::MAX,
                sum == total_tiles(self@.take(i as int)),
            decreases self.len() - i,
        {
            proof {
                assert(self@.take(i + 1).drop_last() =~= self@.take(i as int));
                lemma_total_tiles_grows(self@, i + 1);
                lemma_total_tiles_grows(self@, i as int);
            }
            sum = sum + self[i].tile_count();
            i = i + 1;
        }
        proof {
            assert(self@.take(i as int) =~= self@);
        }
        sum
    }
}

} // verus!
