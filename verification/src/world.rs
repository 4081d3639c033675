//! The world: its tile grid, the sprites placed in it, and the order of the
//! compute stages that draw a frame of it.

use crate::atlas::Atlas;
use crate::sprite::SpritePreprocessResult;
use crate::spriteregistry::{RegistryError, SpriteRegistry};
use crate::tilesheet::{all_wf, Tilesheet};
use crate::vector::Vector2;
use vstd::prelude::*;

verus! {

/// Binding of the settings buffer.
pub const SETTINGS_BINDING: u32 = 1;

/// Binding of the buffer that holds the player's position and view.
pub const PLAYER_BINDING: u32 = 2;

/// Binding of the world layout buffer.
pub const LAYOUT_BINDING: u32 = 3;

/// Binding of the buffer of wall slices, one per screen column.
pub const SLICE_BINDING: u32 = 5;

/// Binding of the buffer of ceiling and floor rows, one per screen row.
pub const CEILING_FLOOR_BINDING: u32 = 6;

/// Binding of the depth buffer, one entry per screen column.
pub const Z_BINDING: u32 = 7;

/// Binding of the sprite buffer.
pub const SPRITES_BINDING: u32 = 8;

/// Binding of the buffer of preprocessing results.
pub const PREPROCESS_BINDING: u32 = 9;

/// Number of words before the tiles in the layout buffer.
pub const LAYOUT_HEADER: usize = 4;

/// The tile grid of a world and the sprites to place in it. A tile of 0 is open
/// space; any other value names the tile of a wall. A sprite is given by its
/// kind, its position and its angle in degrees; the coordinates and the angle
/// hold the bit patterns of single-precision numbers.
pub struct WorldStructure {
    pub layout_tile_width: u32,
    pub layout_stride: u32,
    pub layout: Vec<u32>,
    pub ceiling_idx: u32,
    pub floor_idx: u32,
    pub sprites: Vec<(String, Vector2<u32>, u32)>,
}

/// What the layout buffer holds: the header and the tiles.
pub struct FlatLayout {
    pub floor_idx: u32,
    pub ceiling_idx: u32,
    pub layout_tile_width: u32,
    pub layout_stride: u32,
    pub layout: Seq<u32>,
}

/// The words of the layout buffer: floor, ceiling, tile width and stride, then
/// the tiles row by row.
pub open spec fn flat_buffer(flat: FlatLayout) -> Seq<u32> {
    seq![flat.floor_idx, flat.ceiling_idx, flat.layout_tile_width, flat.layout_stride]
        + flat.layout
}

/// What a layout buffer says, if it holds a header at all.
pub open spec fn parsed_buffer(buffer: Seq<u32>) -> Option<FlatLayout> {
    if buffer.len() < LAYOUT_HEADER {
        None
    } else {
        Some(
            FlatLayout {
                floor_idx: buffer[0],
                ceiling_idx: buffer[1],
                layout_tile_width: buffer[2],
                layout_stride: buffer[3],
                layout: buffer.skip(LAYOUT_HEADER as int),
            },
        )
    }
}

/// Parsing a layout buffer gives back the header and the tiles it was made of.
pub proof fn lemma_flat_buffer_round_trip(flat: FlatLayout)
    ensures
        flat_buffer(flat).len() == LAYOUT_HEADER + flat.layout.len(),
        parsed_buffer(flat_buffer(flat)) == Some(flat),
{
    let buffer = flat_buffer(flat);
    assert(buffer.skip(LAYOUT_HEADER as int) =~= flat.layout);
}

impl WorldStructure {
    /// Header and tiles of this structure.
    pub open spec fn flat(&self) -> FlatLayout {
        FlatLayout {
            floor_idx: self.floor_idx,
            ceiling_idx: self.ceiling_idx,
            layout_tile_width: self.layout_tile_width,
            layout_stride: self.layout_stride,
            layout: self.layout@,
        }
    }

    /// Number of rows of the grid.
    pub open spec fn height(&self) -> int {
        self.layout@.len() as int / self.layout_stride as int
    }

    /// The grid has rows of `layout_stride` tiles, and nothing besides.
    pub open spec fn wf(&self) -> bool {
        &&& self.layout_stride > 0
        &&& self.layout@.len() == self.layout_stride * self.height()
    }

    /// The content of the layout buffer.
    pub fn as_vec_for_gpu(&self) -> (data: Vec<u32>)
        ensures
            data@ == flat_buffer(self.flat()),
    {
        let mut data: Vec<u32> = Vec::new();
        data.push(self.floor_idx);
        data.push(self.ceiling_idx);
        data.push(self.layout_tile_width);
        data.push(self.layout_stride);
        let mut i: usize = 0;
        while i < self.layout.len()
            invariant
                i <= self.layout@.len(),
                data@ == flat_buffer(self.flat()).take(LAYOUT_HEADER + i),
            decreases self.layout.len() - i,
        {
            data.push(self.layout[i]);
            i = i + 1;
            assert(data@ =~= flat_buffer(self.flat()).take(LAYOUT_HEADER + i));
        }
        assert(data@ =~= flat_buffer(self.flat()));
        data
    }

    /// The structure that a layout buffer holds, with no sprites, or `None`
    /// where the buffer is shorter than the header.
    pub fn from_flat_buffer(buffer: &Vec<u32>) -> (r: Option<WorldStructure>)
        ensures
            match r {
                Some(structure) => parsed_buffer(buffer@) == Some(structure.flat())
                    && structure.sprites@.len() == 0,
                None => parsed_buffer(buffer@).is_none(),
            },
    {
        if buffer.len() < LAYOUT_HEADER {
            return None;
        }
        let mut layout: Vec<u32> = Vec::new();
        let mut i: usize = LAYOUT_HEADER;
        while i < buffer.len()
            invariant
                LAYOUT_HEADER <= i <= buffer@.len(),
                layout@ == buffer@.subrange(LAYOUT_HEADER as int, i as int),
            decreases buffer.len() - i,
        {
            layout.push(buffer[i]);
            i = i + 1;
            assert(layout@ =~= buffer@.subrange(LAYOUT_HEADER as int, i as int));
        }
        assert(layout@ =~= buffer@.skip(LAYOUT_HEADER as int));
        Some(
            WorldStructure {
                layout_tile_width: buffer[2],
                layout_stride: buffer[3],
                layout,
                ceiling_idx: buffer[1],
                floor_idx: buffer[0],
                sprites: Vec::new(),
            },
        )
    }

    /// The tile at column `x` of row `y`.
    pub fn at(&self, x: u32, y: u32) -> (tile: &u32)
        requires
            x < self.layout_stride,
            y < self.height(),
        ensures
            x + y * self.layout_stride < self.layout@.len(),
            *tile == self.layout@[x + y * self.layout_stride],
    {
        // The length is a `usize`, and so is every index below it.
        let len: usize = self.layout.len();
        proof {
            let stride = self.layout_stride as int;
            let rows = self.height();
            vstd::arithmetic::div_mod::lemma_fundamental_div_mod(len as int, stride);
            assert(0 <= y * stride && y * stride + stride <= stride * rows) by (nonlinear_arith)
                requires
                    0 <= y < rows,
                    0 < stride,
            ;
        }
        &self.layout[x as usize + y as usize * self.layout_stride as usize]
    }
}

/// What a stage's writes must be visible to before the next stage runs.
#[derive(Clone, Copy, Debug, PartialEq, Eq, Structural)]
pub enum Barrier {
    /// Reads and writes of shader storage buffers.
    ShaderStorage,
    /// Reads and writes of images.
    ShaderImageAccess,
}

/// The compute programs of a frame.
#[derive(Clone, Copy, Debug, PartialEq, Eq, Structural)]
pub enum Stage {
    CeilingFloorPreprocess,
    CeilingFloor,
    WallsPreprocess,
    Walls,
    SpritePreprocess,
    Sprite,
}

/// One run of a compute program: the numbers of work groups along the three
/// axes, and the barrier that follows it.
#[derive(Clone, Copy, Debug, PartialEq, Eq, Structural)]
pub struct Dispatch {
    pub stage: Stage,
    pub num_groups_x: u32,
    pub num_groups_y: u32,
    pub num_groups_z: u32,
    pub barrier: Barrier,
}

/// What is to be done to the graphics device next.
#[derive(Clone, Copy, Debug, PartialEq, Eq, Structural)]
pub enum RenderAction {
    /// Sort the sprites by their distance from the player and fill the sprite
    /// buffer.
    UpdateSprites,
    /// Run a compute program.
    Dispatch(Dispatch),
    /// Make the sprite at this place of the drawing order the one that the
    /// sprite stage draws, and read its preprocessing result back.
    SelectSprite(u32),
    /// Nothing: the selected sprite is not to be seen.
    SkipSprite,
    /// Copy the frame to the screen.
    Blit,
    /// Nothing: the frame is complete.
    Finished,
}

/// How far a frame has come: the step that is to be taken next.
#[derive(Clone, Copy, Debug, PartialEq, Eq, Structural)]
pub enum FrameStep {
    UpdateSprites,
    CeilingFloorPreprocess,
    CeilingFloor,
    WallsPreprocess,
    Walls,
    SpritePreprocess,
    /// Select the sprite at this place of the drawing order.
    SelectSprite(u32),
    /// Draw the sprite at this place, whose preprocessing result was read back.
    DrawSprite(u32),
    Blit,
    Done,
}

/// `value` held within `0..=limit`.
pub open spec fn clamped(value: int, limit: int) -> int {
    if value < 0 {
        0
    } else if value > limit {
        limit
    } else {
        value
    }
}

/// Whether a sprite with this preprocessing result is drawn: it spans at least
/// no negative width on the screen, and it lies in front of the camera.
pub open spec fn sprite_visible(result: SpritePreprocessResult) -> bool {
    result.draw_end_x >= result.draw_start_x && result.spec_in_front()
}

/// The run of the sprite stage for a sprite with this preprocessing result, if
/// the sprite is drawn: one work group for each pixel of its span, within the
/// screen.
pub open spec fn sprite_dispatch_of(result: SpritePreprocessResult, resolution: (u32, u32)) -> Option<
    Dispatch,
> {
    if sprite_visible(result) {
        Some(
            Dispatch {
                stage: Stage::Sprite,
                num_groups_x: clamped(
                    result.draw_end_x - result.draw_start_x,
                    resolution.0 as int,
                ) as u32,
                num_groups_y: clamped(
                    result.draw_end_y - result.draw_start_y,
                    resolution.1 as int,
                ) as u32,
                num_groups_z: 1,
                barrier: Barrier::ShaderImageAccess,
            },
        )
    } else {
        None
    }
}

/// The step after the sprite at place `index` is done with: the next sprite, or
/// the copy to the screen after the last one.
pub open spec fn step_after_sprite(index: u32, sprite_count: u32) -> FrameStep {
    if index + 1 < sprite_count {
        FrameStep::SelectSprite((index + 1) as u32)
    } else {
        FrameStep::Blit
    }
}

/// The action of a step of the frame and the step that follows it, for a screen
/// of `resolution` and `sprite_count` sprites. `result` is the preprocessing
/// result of the selected sprite, and counts only where the step draws it.
pub open spec fn frame_step(
    step: FrameStep,
    resolution: (u32, u32),
    sprite_count: u32,
    result: SpritePreprocessResult,
) -> (RenderAction, FrameStep) {
    let (width, height) = resolution;
    match step {
        FrameStep::UpdateSprites => (RenderAction::UpdateSprites, FrameStep::CeilingFloorPreprocess),
        FrameStep::CeilingFloorPreprocess => (
            RenderAction::Dispatch(
                Dispatch {
                    stage: Stage::CeilingFloorPreprocess,
                    num_groups_x: 1,
                    num_groups_y: height,
                    num_groups_z: 1,
                    barrier: Barrier::ShaderStorage,
                },
            ),
            FrameStep::CeilingFloor,
        ),
        FrameStep::CeilingFloor => (
            RenderAction::Dispatch(
                Dispatch {
                    stage: Stage::CeilingFloor,
                    num_groups_x: width,
                    num_groups_y: height,
                    num_groups_z: 1,
                    barrier: Barrier::ShaderImageAccess,
                },
            ),
            FrameStep::WallsPreprocess,
        ),
        FrameStep::WallsPreprocess => (
            RenderAction::Dispatch(
                Dispatch {
                    stage: Stage::WallsPreprocess,
                    num_groups_x: width,
                    num_groups_y: 1,
                    num_groups_z: 1,
                    barrier: Barrier::ShaderStorage,
                },
            ),
            FrameStep::Walls,
        ),
        FrameStep::Walls => (
            RenderAction::Dispatch(
                Dispatch {
                    stage: Stage::Walls,
                    num_groups_x: width,
                    num_groups_y: height,
                    num_groups_z: 1,
                    barrier: Barrier::ShaderImageAccess,
                },
            ),
            FrameStep::SpritePreprocess,
        ),
        FrameStep::SpritePreprocess => (
            RenderAction::Dispatch(
                Dispatch {
                    stage: Stage::SpritePreprocess,
                    num_groups_x: 1,
                    num_groups_y: 1,
                    num_groups_z: sprite_count,
                    barrier: Barrier::ShaderStorage,
                },
            ),
            if sprite_count > 0 {
                FrameStep::SelectSprite(0)
            } else {
                FrameStep::Blit
            },
        ),
        FrameStep::SelectSprite(index) => (
            RenderAction::SelectSprite(index),
            FrameStep::DrawSprite(index),
        ),
        FrameStep::DrawSprite(index) => (
            match sprite_dispatch_of(result, resolution) {
                Some(dispatch) => RenderAction::Dispatch(dispatch),
                None => RenderAction::SkipSprite,
            },
            step_after_sprite(index, sprite_count),
        ),
        FrameStep::Blit => (RenderAction::Blit, FrameStep::Done),
        FrameStep::Done => (RenderAction::Finished, FrameStep::Done),
    }
}

/// An upper bound on the steps that a frame still has to take from `step` on.
pub open spec fn steps_left(step: FrameStep, sprite_count: u32) -> nat {
    match step {
        FrameStep::UpdateSprites => (2 * sprite_count + 9) as nat,
        FrameStep::CeilingFloorPreprocess => (2 * sprite_count + 8) as nat,
        FrameStep::CeilingFloor => (2 * sprite_count + 7) as nat,
        FrameStep::WallsPreprocess => (2 * sprite_count + 6) as nat,
        FrameStep::Walls => (2 * sprite_count + 5) as nat,
        FrameStep::SpritePreprocess => (2 * sprite_count + 4) as nat,
        FrameStep::SelectSprite(index) => if index < sprite_count {
            (2 * (sprite_count - index) + 1) as nat
        } else {
            3
        },
        FrameStep::DrawSprite(index) => if index < sprite_count {
            (2 * (sprite_count - index)) as nat
        } else {
            2
        },
        FrameStep::Blit => 1,
        FrameStep::Done => 0,
    }
}

/// A frame runs to its end: every step but the last leads to a step with fewer
/// steps left, whatever was read back, and only the last step has none left. A
/// dispatch never asks for more work groups than the screen has pixels, but for
/// the sprite preprocessing, which asks for one work group for each sprite.
pub proof fn lemma_frame_completes(
    step: FrameStep,
    resolution: (u32, u32),
    sprite_count: u32,
    result: SpritePreprocessResult,
)
    ensures
        step != FrameStep::Done ==> steps_left(
            frame_step(step, resolution, sprite_count, result).1,
            sprite_count,
        ) < steps_left(step, sprite_count),
        steps_left(step, sprite_count) == 0 <==> step == FrameStep::Done,
        frame_step(step, resolution, sprite_count, result).0 matches RenderAction::Dispatch(d) ==> {
            &&& d.num_groups_x <= resolution.0 || d.num_groups_x == 1
            &&& d.num_groups_y <= resolution.1 || d.num_groups_y == 1
            &&& d.num_groups_z == 1 || (d.stage == Stage::SpritePreprocess && d.num_groups_z
                == sprite_count)
        },
{
}

/// The run of the sprite stage for a sprite with this preprocessing result, or
/// `None` where the sprite is not drawn.
pub fn sprite_dispatch(result: &SpritePreprocessResult, resolution: (u32, u32)) -> (r: Option<
    Dispatch,
>)
    ensures
        r == sprite_dispatch_of(*result, resolution),
        r.is_some() == sprite_visible(*result),
        r matches Some(dispatch) ==> dispatch.num_groups_x <= resolution.0 && dispatch.num_groups_y
            <= resolution.1,
{
    if result.draw_end_x >= result.draw_start_x && result.in_front() {
        let span_x: i64 = result.draw_end_x as i64 - result.draw_start_x as i64;
        let span_y: i64 = result.draw_end_y as i64 - result.draw_start_y as i64;
        Some(
            Dispatch {
                stage: Stage::Sprite,
                num_groups_x: clamp(span_x, resolution.0),
                num_groups_y: clamp(span_y, resolution.1),
                num_groups_z: 1,
                barrier: Barrier::ShaderImageAccess,
            },
        )
    } else {
        None
    }
}

/// `value` held within `0..=limit`.
pub fn clamp(value: i64, limit: u32) -> (r: u32)
    ensures
        r == clamped(value as int, limit as int),
{
    if value < 0 {
        0
    } else if value > limit as i64 {
        limit
    } else {
        value as u32
    }
}

/// Size in bytes of the buffer of wall slices for a screen of this resolution.
pub fn slice_buffer_size(resolution: (u32, u32)) -> (r: u64)
    ensures
        r == 3 * resolution.0 * 4,
{
    3 * (resolution.0 as u64) * 4
}

/// Size in bytes of the buffer of ceiling and floor rows for a screen of this
/// resolution.
pub fn ceiling_floor_buffer_size(resolution: (u32, u32)) -> (r: u64)
    ensures
        r == 4 * resolution.1 * 4,
{
    4 * (resolution.1 as u64) * 4
}

/// Size in bytes of the depth buffer for a screen of this resolution.
pub fn z_buffer_size(resolution: (u32, u32)) -> (r: u64)
    ensures
        r == resolution.0 * 8,
{
    (resolution.0 as u64) * 8
}

/// Why a world cannot be made.
#[derive(Clone, Copy, Debug, PartialEq, Eq, Structural)]
pub enum WorldError {
    /// The layout is not made of full rows of `layout_stride` tiles.
    Layout,
    /// There is not one direction for each sprite of the structure.
    DirectionCount,
    /// The sprite registry cannot be made.
    Registry(RegistryError),
}

pub struct World {
    identifier: String,
    structure: WorldStructure,
    sprite_registry: SpriteRegistry,
    resolution: (u32, u32),
}

/// The sprites of a structure as the registry places them: each with the
/// direction that stands for its angle.
pub open spec fn placements(
    sprites: Seq<(String, Vector2<u32>, u32)>,
    directions: Seq<Vector2<u32>>,
) -> Seq<(String, Vector2<u32>, Vector2<u32>)> {
    Seq::new(sprites.len(), |i: int| (sprites[i].0, sprites[i].1, directions[i]))
}

impl World {
    /// Name of the world.
    pub closed spec fn spec_identifier(&self) -> Seq<char> {
        self.identifier@
    }

    /// Tile grid of the world.
    pub closed spec fn spec_structure(&self) -> WorldStructure {
        self.structure
    }

    /// Sprites of the world.
    pub closed spec fn spec_registry(&self) -> SpriteRegistry {
        self.sprite_registry
    }

    /// Resolution of the screen.
    pub closed spec fn spec_resolution(&self) -> (u32, u32) {
        self.resolution
    }

    /// The grid is made of full rows and the registry is well formed.
    pub open spec fn wf(&self) -> bool {
        &&& self.spec_structure().wf()
        &&& self.spec_registry().wf()
    }

    /// A world of the given structure for a screen of the given resolution, the
    /// atlas of its tiles, and the content of the sprite buffer. The sprites of
    /// the structure are placed, each with its direction, against the templates
    /// of the named sprite sheets, and sorted by falling distance from the
    /// player: `distances[j]` is the key of the sprite `structure.sprites[j]`.
    pub fn load(
        identifier: &str,
        resolution: (u32, u32),
        structure: WorldStructure,
        directions: &Vec<Vector2<u32>>,
        distances: &Vec<u32>,
        world_tile_sheet: &Tilesheet,
        sprite_names: &Vec<String>,
        tile_sheets: &Vec<Tilesheet>,
    ) -> (r: Result<(World, Atlas, Vec<u8>), WorldError>)
        requires
            world_tile_sheet.wf(),
            all_wf(tile_sheets@),
            distances@.len() == structure.sprites@.len(),
        ensures
            match r {
                Ok((world, atlas, bytes)) => {
                    &&& structure.wf()
                    &&& directions@.len() == structure.sprites@.len()
                    &&& world.wf()
                    &&& world.spec_identifier() == identifier@
                    &&& world.spec_resolution() == resolution
                    &&& world.spec_structure() == structure
                    &&& atlas.lays_out(*world_tile_sheet, tile_sheets@)
                    &&& world.spec_registry()@.templates == crate::spriteregistry::templates_for(
                        world_tile_sheet@.tile_count,
                        sprite_names@,
                        tile_sheets@,
                    )
                    &&& world.spec_registry()@.instances == crate::spriteregistry::placed(
                        world.spec_registry()@.templates,
                        placements(structure.sprites@, directions@),
                    )
                    &&& crate::spriteregistry::farthest_first(
                        world.spec_registry()@.order,
                        crate::spriteregistry::placed_keys(
                            world.spec_registry()@.templates,
                            placements(structure.sprites@, directions@),
                            distances@,
                        ),
                    )
                    &&& exists|source: Seq<int>|
                        crate::spriteregistry::is_stable_sort(
                            crate::spriteregistry::placement_order(
                                world.spec_registry()@.instances.len(),
                            ),
                            world.spec_registry()@.order,
                            source,
                            crate::spriteregistry::placed_keys(
                                world.spec_registry()@.templates,
                                placements(structure.sprites@, directions@),
                                distances@,
                            ),
                        )
                    &&& bytes@ == crate::spriteregistry::upload_bytes(
                        world.spec_registry()@.instances,
                        world.spec_registry()@.order,
                    )
                    &&& bytes@.len() == crate::ssbo::SPRITE_SIZE
                        * world.spec_registry()@.instances.len()
                },
                Err(WorldError::Layout) => !structure.wf(),
                Err(WorldError::DirectionCount) => structure.wf() && directions@.len()
                    != structure.sprites@.len(),
                Err(WorldError::Registry(e)) => {
                    &&& structure.wf()
                    &&& directions@.len() == structure.sprites@.len()
                    &&& match e {
                        RegistryError::NameCount => sprite_names@.len() != tile_sheets@.len(),
                        RegistryError::TooManySprites => {
                            &&& sprite_names@.len() == tile_sheets@.len()
                            &&& structure.sprites@.len() > u32::MAX
                        },
                        RegistryError::TooManyTiles => {
                            &&& sprite_names@.len() == tile_sheets@.len()
                            &&& structure.sprites@.len() <= u32::MAX
                            &&& world_tile_sheet@.tile_count + crate::tilesheet::total_tiles(
                                tile_sheets@,
                            ) > i32::MAX
                        },
                    }
                },
            },
    {
        if structure.layout_stride == 0 || structure.layout.len() % (
        structure.layout_stride as usize) != 0 {
            proof {
                if structure.layout_stride > 0 {
                    vstd::arithmetic::div_mod::lemma_fundamental_div_mod(
                        structure.layout@.len() as int,
                        structure.layout_stride as int,
                    );
                }
            }
            return Err(WorldError::Layout);
        }
        proof {
            vstd::arithmetic::div_mod::lemma_fundamental_div_mod(
                structure.layout@.len() as int,
                structure.layout_stride as int,
            );
        }
        if directions.len() != structure.sprites.len() {
            return Err(WorldError::DirectionCount);
        }
        let mut world_sprites: Vec<(String, Vector2<u32>, Vector2<u32>)> = Vec::new();
        let mut i: usize = 0;
        while i < structure.sprites.len()
            invariant
                i <= structure.sprites@.len(),
                directions@.len() == structure.sprites@.len(),
                world_sprites@ == placements(structure.sprites@, directions@).take(i as int),
            decreases structure.sprites.len() - i,
        {
            let sprite = &structure.sprites[i];
            world_sprites.push((sprite.0.clone(), sprite.1, directions[i]));
            i = i + 1;
            assert(world_sprites@ =~= placements(structure.sprites@, directions@).take(i as int));
        }
        assert(world_sprites@ =~= placements(structure.sprites@, directions@));
        match SpriteRegistry::create(
            world_tile_sheet,
            &world_sprites,
            distances,
            sprite_names,
            tile_sheets,
        ) {
            Err(e) => Err(WorldError::Registry(e)),
            Ok((sprite_registry, atlas, bytes)) => Ok(
                (
                    World {
                        identifier: identifier.to_owned(),
                        structure,
                        sprite_registry,
                        resolution,
                    },
                    atlas,
                    bytes,
                ),
            ),
        }
    }

    pub fn identifier(&self) -> (r: &String)
        ensures
            r@ == self.spec_identifier(),
    {
        &self.identifier
    }

    /// The tile grid and the sprite placements of the world.
    pub fn structure(&self) -> (r: &WorldStructure)
        ensures
            *r == self.spec_structure(),
    {
        &self.structure
    }

    /// The sprites of the world.
    pub fn sprite_registry(&self) -> (r: &SpriteRegistry)
        ensures
            *r == self.spec_registry(),
    {
        &self.sprite_registry
    }

    /// Resolution of the screen: width and height.
    pub fn resolution(&self) -> (r: (u32, u32))
        ensures
            r == self.spec_resolution(),
    {
        self.resolution
    }

    /// The tile at column `x` of row `y`.
    pub fn at(&self, x: u32, y: u32) -> (tile: &u32)
        requires
            x < self.spec_structure().layout_stride,
            y < self.spec_structure().height(),
        ensures
            *tile == self.spec_structure().layout@[x + y * self.spec_structure().layout_stride],
    {
        self.structure.at(x, y)
    }

    /// The content of the layout buffer.
    pub fn as_vec_for_gpu(&self) -> (data: Vec<u32>)
        ensures
            data@ == flat_buffer(self.spec_structure().flat()),
    {
        self.structure.as_vec_for_gpu()
    }

    /// Places a sprite of the kind `sprite_id`, as the registry does.
    pub fn instantiate(&mut self, sprite_id: &String, pos: &Vector2<u32>, dir: &Vector2<u32>) -> (r:
        Option<usize>)
        requires
            old(self).wf(),
            old(self).spec_registry()@.instances.len() < u32::MAX,
        ensures
            final(self).wf(),
            final(self).spec_identifier() == old(self).spec_identifier(),
            final(self).spec_structure() == old(self).spec_structure(),
            final(self).spec_resolution() == old(self).spec_resolution(),
            final(self).spec_registry()@ == crate::spriteregistry::instantiated(
                old(self).spec_registry()@,
                sprite_id@,
                *pos,
                *dir,
            ),
            r == match crate::spriteregistry::template_of(
                old(self).spec_registry()@.templates,
                sprite_id@,
            ) {
                None => None,
                Some(_) => Some(old(self).spec_registry()@.instances.len() as usize),
            },
    {
        self.sprite_registry.instantiate(sprite_id, pos, dir)
    }

    /// One movement step of the sprite with the given handle, to `position`.
    pub fn move_sprite(&mut self, handle: usize, position: Vector2<u32>)
        requires
            old(self).wf(),
            handle < old(self).spec_registry()@.instances.len(),
        ensures
            final(self).wf(),
            final(self).spec_identifier() == old(self).spec_identifier(),
            final(self).spec_structure() == old(self).spec_structure(),
            final(self).spec_resolution() == old(self).spec_resolution(),
            final(self).spec_registry()@ == (crate::spriteregistry::RegistryView {
                instances: old(self).spec_registry()@.instances.update(
                    handle as int,
                    old(self).spec_registry()@.instances[handle as int].stepped(position),
                ),
                ..old(self).spec_registry()@
            }),
    {
        self.sprite_registry.move_by(handle, position);
    }

    /// Sorts the sprites by falling distance from the player and returns the
    /// content of the sprite buffer, as the registry does.
    pub fn update_sprites(&mut self, distances: &Vec<u32>) -> (r: Vec<u8>)
        requires
            old(self).wf(),
            distances@.len() == old(self).spec_registry()@.instances.len(),
        ensures
            final(self).wf(),
            final(self).spec_identifier() == old(self).spec_identifier(),
            final(self).spec_structure() == old(self).spec_structure(),
            final(self).spec_resolution() == old(self).spec_resolution(),
            final(self).spec_registry()@.instances == old(self).spec_registry()@.instances,
            final(self).spec_registry()@.templates == old(self).spec_registry()@.templates,
            final(self).spec_registry()@.capacity == old(self).spec_registry()@.capacity,
            exists|source: Seq<int>|
                crate::spriteregistry::is_stable_sort(
                    old(self).spec_registry()@.order,
                    final(self).spec_registry()@.order,
                    source,
                    distances@,
                ),
            crate::spriteregistry::farthest_first(final(self).spec_registry()@.order, distances@),
            r@ == crate::spriteregistry::upload_bytes(
                final(self).spec_registry()@.instances,
                final(self).spec_registry()@.order,
            ),
            r@.len() == crate::ssbo::SPRITE_SIZE * final(self).spec_registry()@.instances.len(),
    {
        self.sprite_registry.update(distances)
    }

    /// The action of the step `step` of a frame, and the step that follows it.
    /// The steps of a frame start at `FrameStep::UpdateSprites` and end at
    /// `FrameStep::Done`. `result` is the preprocessing result that was read
    /// back for the selected sprite; only `FrameStep::DrawSprite` looks at it.
    pub fn render(&self, step: FrameStep, result: &SpritePreprocessResult) -> (r: (
        RenderAction,
        FrameStep,
    ))
        requires
            self.wf(),
        ensures
            r == frame_step(
                step,
                self.spec_resolution(),
                self.spec_registry()@.instances.len() as u32,
                *result,
            ),
    {
        let (width, height) = self.resolution;
        let sprite_count: u32 = self.sprite_registry.count() as u32;
        match step {
            FrameStep::UpdateSprites => (
                RenderAction::UpdateSprites,
                FrameStep::CeilingFloorPreprocess,
            ),
            FrameStep::CeilingFloorPreprocess => (
                RenderAction::Dispatch(
                    Dispatch {
                        stage: Stage::CeilingFloorPreprocess,
                        num_groups_x: 1,
                        num_groups_y: height,
                        num_groups_z: 1,
                        barrier: Barrier::ShaderStorage,
                    },
                ),
                FrameStep::CeilingFloor,
            ),
            FrameStep::CeilingFloor => (
                RenderAction::Dispatch(
                    Dispatch {
                        stage: Stage::CeilingFloor,
                        num_groups_x: width,
                        num_groups_y: height,
                        num_groups_z: 1,
                        barrier: Barrier::ShaderImageAccess,
                    },
                ),
                FrameStep::WallsPreprocess,
            ),
            FrameStep::WallsPreprocess => (
                RenderAction::Dispatch(
                    Dispatch {
                        stage: Stage::WallsPreprocess,
                        num_groups_x: width,
                        num_groups_y: 1,
                        num_groups_z: 1,
                        barrier: Barrier::ShaderStorage,
                    },
                ),
                FrameStep::Walls,
            ),
            FrameStep::Walls => (
                RenderAction::Dispatch(
                    Dispatch {
                        stage: Stage::Walls,
                        num_groups_x: width,
                        num_groups_y: height,
                        num_groups_z: 1,
                        barrier: Barrier::ShaderImageAccess,
                    },
                ),
                FrameStep::SpritePreprocess,
            ),
            FrameStep::SpritePreprocess => (
                RenderAction::Dispatch(
                    Dispatch {
                        stage: Stage::SpritePreprocess,
                        num_groups_x: 1,
                        num_groups_y: 1,
                        num_groups_z: sprite_count,
                        barrier: Barrier::ShaderStorage,
                    },
                ),
                if sprite_count > 0 {
                    FrameStep::SelectSprite(0)
                } else {
                    FrameStep::Blit
                },
            ),
            FrameStep::SelectSprite(index) => (
                RenderAction::SelectSprite(index),
                FrameStep::DrawSprite(index),
            ),
            FrameStep::DrawSprite(index) => {
                let action = match sprite_dispatch(result, self.resolution) {
                    Some(dispatch) => RenderAction::Dispatch(dispatch),
                    None => RenderAction::SkipSprite,
                };
                let next = if index < sprite_count && index + 1 < sprite_count {
                    FrameStep::SelectSprite(index + 1)
                } else {
                    FrameStep::Blit
                };
                (action, next)
            },
            FrameStep::Blit => (RenderAction::Blit, FrameStep::Done),
            FrameStep::Done => (RenderAction::Finished, FrameStep::Done),
        }
    }
}

} // verus!
