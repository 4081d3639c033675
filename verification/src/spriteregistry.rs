//! The sprite registry: the templates of the sprite kinds that the atlas holds,
//! the placed sprites, the order in which they are drawn, and the capacity of
//! the buffers that mirror them.
//!
//! A placed sprite is known by its handle, the number it was given when it was
//! placed. Handles never change; only the drawing order does.

use crate::atlas::{atlas_offset, Atlas};
use crate::picture::Picture;
use crate::sprite::{Sprite, SpritePreprocessResult, SpriteTemplate, ANIMATION_TICK_PERIOD};
use crate::spriteasset::SpriteAsset;
use crate::ssbo::{
    preprocess_result_at, push_sprite, read_preprocess_result, sprite_bytes,
    PREPROCESS_RESULT_SIZE, SPRITE_SIZE,
};
use crate::tilesheet::{all_wf, sliceable, sliced_sheet, Tilesheet};
use crate::vector::Vector2;
use vstd::arithmetic::power2::{lemma_pow2_unfold, pow2};
use vstd::prelude::*;

verus! {

/// Capacity of the sprite buffers of a new registry, in sprites.
pub const INITIAL_CAPACITY: u64 = 1;

/// Why a registry cannot be made.
#[derive(Clone, Copy, Debug, PartialEq, Eq, Structural)]
pub enum RegistryError {
    /// There is not one name for each sprite sheet.
    NameCount,
    /// More sprites are to be placed than a `u32` counts.
    TooManySprites,
    /// The sheets hold more tiles than an `i32` counts.
    TooManyTiles,
}

pub struct SpriteRegistry {
    gpu_capacity: u64,
    sprite_templates: Vec<(String, SpriteTemplate)>,
    sprite_instances: Vec<Sprite>,
    order: Vec<usize>,
}

/// What a registry holds.
pub struct RegistryView {
    /// Capacity of the sprite buffers, in sprites.
    pub capacity: int,
    /// The sprite kinds by name, in the order in which they were added.
    pub templates: Seq<(Seq<char>, SpriteTemplate)>,
    /// The placed sprites, by handle.
    pub instances: Seq<Sprite>,
    /// The handles in drawing order.
    pub order: Seq<usize>,
}

impl View for SpriteRegistry {
    type V = RegistryView;

    closed spec fn view(&self) -> RegistryView {
        RegistryView {
            capacity: self.gpu_capacity as int,
            templates: Seq::new(
                self.sprite_templates@.len(),
                |i: int| (self.sprite_templates@[i].0@, self.sprite_templates@[i].1),
            ),
            instances: self.sprite_instances@,
            order: self.order@,
        }
    }
}

/// The template of the kind `kind`: that of the last entry of this name.
pub open spec fn template_of(
    templates: Seq<(Seq<char>, SpriteTemplate)>,
    kind: Seq<char>,
) -> Option<SpriteTemplate>
    decreases templates.len(),
{
    if templates.len() == 0 {
        None
    } else if templates.last().0 == kind {
        Some(templates.last().1)
    } else {
        template_of(templates.drop_last(), kind)
    }
}

/// The capacity that holds `count` sprites with room to spare: `capacity`, or
/// twice as much where `count` has reached it.
pub open spec fn grown_capacity(capacity: int, count: int) -> int {
    if count >= capacity {
        2 * capacity
    } else {
        capacity
    }
}

/// The capacity of a registry that holds `count` sprites: the initial capacity,
/// grown with each sprite placed.
pub open spec fn capacity_after(count: nat) -> int
    decreases count,
{
    if count == 0 {
        INITIAL_CAPACITY as int
    } else {
        grown_capacity(capacity_after((count - 1) as nat), count as int)
    }
}

/// `n` is the initial capacity doubled some number of times.
pub open spec fn is_doubled_capacity(n: int) -> bool {
    exists|k: nat| n == INITIAL_CAPACITY * #[trigger] pow2(k)
}

/// The sprite that a template gives at a position: idle, at tick 0.
pub open spec fn new_sprite(
    position: Vector2<u32>,
    direction: Vector2<u32>,
    template: SpriteTemplate,
) -> Sprite {
    Sprite {
        position,
        direction,
        template,
        animation_index: 0,
        animation_tick_period: ANIMATION_TICK_PERIOD,
        animation_tick: 0,
    }
}

/// A sprite sheet before it is cut: the name of the sprite kind, the grid, and
/// the image.
pub struct SheetSource {
    pub name: String,
    pub asset: SpriteAsset,
    pub picture: Picture,
}

/// The places in `sources` of the sheets that can be cut, in order.
pub open spec fn kept(sources: Seq<SheetSource>) -> Seq<int>
    decreases sources.len(),
{
    if sources.len() == 0 {
        Seq::empty()
    } else if sliceable(sources.last().asset, sources.last().picture) {
        kept(sources.drop_last()).push(sources.len() - 1)
    } else {
        kept(sources.drop_last())
    }
}

/// The template of a sprite sheet that starts at layer `offset` of the atlas: a
/// row of the sheet holds the idle tile and the animation tiles of one view
/// angle.
pub open spec fn template_for(offset: int, sheet: Tilesheet) -> SpriteTemplate {
    SpriteTemplate {
        texture_base_index: offset as i32,
        animation_count: (sheet@.columns - 1) as i32,
        view_angle_count: sheet@.rows as i32,
        tile_width: sheet@.tile_width as i32,
        tile_height: sheet@.tile_height as i32,
    }
}

/// The templates of the sprite sheets, each under its name.
pub open spec fn templates_for(world_tiles: int, names: Seq<String>, sheets: Seq<Tilesheet>) -> Seq<
    (Seq<char>, SpriteTemplate),
> {
    Seq::new(
        sheets.len(),
        |i: int| (names[i]@, template_for(atlas_offset(world_tiles, sheets, i), sheets[i])),
    )
}

/// The sprites that the placements give, in their order: one for each placement
/// whose kind has a template.
pub open spec fn placed(
    templates: Seq<(Seq<char>, SpriteTemplate)>,
    placements: Seq<(String, Vector2<u32>, Vector2<u32>)>,
) -> Seq<Sprite>
    decreases placements.len(),
{
    if placements.len() == 0 {
        Seq::empty()
    } else {
        let rest = placed(templates, placements.drop_last());
        let last = placements.last();
        match template_of(templates, last.0@) {
            Some(template) => rest.push(new_sprite(last.1, last.2, template)),
            None => rest,
        }
    }
}

/// The keys of the sprites that the placements give, in their order:
/// `distances[j]` for each placement `j` whose kind has a template.
pub open spec fn placed_keys(
    templates: Seq<(Seq<char>, SpriteTemplate)>,
    placements: Seq<(String, Vector2<u32>, Vector2<u32>)>,
    distances: Seq<u32>,
) -> Seq<u32>
    decreases placements.len(),
{
    if placements.len() == 0 {
        Seq::empty()
    } else {
        let rest = placed_keys(templates, placements.drop_last(), distances);
        if template_of(templates, placements.last().0@).is_some() {
            rest.push(distances[placements.len() - 1])
        } else {
            rest
        }
    }
}

/// The handles of `count` sprites in the order of placement.
pub open spec fn placement_order(count: nat) -> Seq<usize> {
    Seq::new(count, |i: int| i as usize)
}

/// Whether the sprite `a` is drawn before the sprite `b`: the one with the larger
/// key first, and of two with the same key the one that came first before.
pub open spec fn drawn_before(keys: Seq<u32>, a: usize, a_place: int, b: usize, b_place: int) -> bool {
    keys[a as int] > keys[b as int] || (keys[a as int] == keys[b as int] && a_place < b_place)
}

/// `sorted` holds the handles of `order` by falling key, handles of one key in
/// the order they had; `source[i]` is the place in `order` of the handle now at
/// place `i`.
pub open spec fn is_stable_sort(
    order: Seq<usize>,
    sorted: Seq<usize>,
    source: Seq<int>,
    keys: Seq<u32>,
) -> bool {
    &&& sorted.len() == order.len()
    &&& source.len() == order.len()
    &&& forall|i: int|
        0 <= i < sorted.len() ==> 0 <= (#[trigger] source[i]) < order.len() && sorted[i] == order[source[i]]
    &&& forall|i: int, j: int|
        0 <= i < j < sorted.len() ==> drawn_before(
            keys,
            #[trigger] sorted[i],
            source[i],
            #[trigger] sorted[j],
            source[j],
        )
}

/// No sprite is drawn before one that is farther away.
pub open spec fn farthest_first(order: Seq<usize>, keys: Seq<u32>) -> bool {
    forall|i: int, j: int|
        0 <= i <= j < order.len() ==> keys[#[trigger] order[i] as int] >= keys[#[trigger] order[j] as int]
}

/// The bytes of the sprites in drawing order, one sprite after another.
pub open spec fn upload_bytes(instances: Seq<Sprite>, order: Seq<usize>) -> Seq<u8>
    decreases order.len(),
{
    if order.len() == 0 {
        Seq::empty()
    } else {
        upload_bytes(instances, order.drop_last()) + sprite_bytes(instances[order.last() as int])
    }
}

/// The handles of `order` by falling distance, as `is_stable_sort` says.
fn sorted_by_distance(order: &Vec<usize>, distances: &Vec<u32>) -> (r: (Vec<usize>, Ghost<Seq<int>>))
    requires
        forall|i: int| 0 <= i < order@.len() ==> (#[trigger] order@[i]) < distances@.len(),
    ensures
        is_stable_sort(order@, r.0@, r.1@, distances@),
{
    let mut sorted: Vec<usize> = Vec::new();
    let ghost mut source: Seq<int> = Seq::empty();
    let mut k: usize = 0;
    while k < order.len()
        invariant
            k <= order@.len(),
            forall|i: int| 0 <= i < order@.len() ==> (#[trigger] order@[i]) < distances@.len(),
            sorted@.len() == k,
            source.len() == k,
            forall|i: int|
                0 <= i < k ==> 0 <= (#[trigger] source[i]) < k && sorted@[i] == order@[source[i]],
            forall|i: int, j: int|
                0 <= i < j < k ==> drawn_before(
                    distances@,
                    #[trigger] sorted@[i],
                    source[i],
                    #[trigger] sorted@[j],
                    source[j],
                ),
        decreases order.len() - k,
    {
        let handle: usize = order[k];
        let key: u32 = distances[handle];
        let mut p: usize = sorted.len();
        proof {
            assert forall|i: int| 0 <= i < k implies (#[trigger] sorted@[i]) < distances@.len() by {
                assert(sorted@[i] == order@[source[i]]);
            }
        }
        while p > 0 && distances[sorted[p - 1]] < key
            invariant
                p <= k,
                forall|i: int| 0 <= i < k ==> (#[trigger] sorted@[i]) < distances@.len(),
                sorted@.len() == k,
                source.len() == k,
                handle < distances@.len(),
                key == distances@[handle as int],
                forall|i: int|
                    0 <= i < k ==> 0 <= (#[trigger] source[i]) < k && sorted@[i] == order@[source[i]],
                forall|i: int| 0 <= i < order@.len() ==> (#[trigger] order@[i]) < distances@.len(),
                k < order@.len(),
                forall|j: int| p <= j < k ==> distances@[#[trigger] sorted@[j] as int] < key,
            decreases p,
        {
            p = p - 1;
        }
        let ghost before = sorted@;
        let ghost before_source = source;
        sorted.insert(p, handle);
        proof {
            source = before_source.insert(p as int, k as int);
            assert forall|i: int| 0 <= i < k + 1 implies 0 <= source[i] < k + 1
                && (#[trigger] sorted@[i]) == order@[source[i]] by {
                if i < p {
                    assert(sorted@[i] == before[i]);
                } else if i > p {
                    assert(sorted@[i] == before[i - 1]);
                }
            }
            assert forall|i: int, j: int| 0 <= i < j < k + 1 implies drawn_before(
                distances@,
                #[trigger] sorted@[i],
                source[i],
                #[trigger] sorted@[j],
                source[j],
            ) by {
                if j < p {
                    assert(sorted@[i] == before[i] && sorted@[j] == before[j]);
                } else if j == p {
                    assert(sorted@[i] == before[i]);
                    if i < p - 1 {
                        assert(drawn_before(
                            distances@,
                            before[i],
                            before_source[i],
                            before[p - 1],
                            before_source[p - 1],
                        ));
                    }
                } else if i < p {
                    assert(sorted@[i] == before[i] && sorted@[j] == before[j - 1]);
                } else if i == p {
                    assert(sorted@[j] == before[j - 1]);
                } else {
                    assert(sorted@[i] == before[i - 1] && sorted@[j] == before[j - 1]);
                }
            }
        }
        k = k + 1;
    }
    (sorted, Ghost(source))
}

/// The registry after a sprite of the kind `kind` was asked for: with the new
/// sprite drawn last and the capacity grown for it, or unchanged where the kind
/// has no template.
pub open spec fn instantiated(
    before: RegistryView,
    kind: Seq<char>,
    position: Vector2<u32>,
    direction: Vector2<u32>,
) -> RegistryView {
    match template_of(before.templates, kind) {
        None => before,
        Some(template) => RegistryView {
            capacity: grown_capacity(before.capacity, before.instances.len() as int + 1),
            templates: before.templates,
            instances: before.instances.push(new_sprite(position, direction, template)),
            order: before.order.push(before.instances.len() as usize),
        },
    }
}

/// The registry after the sprites of `calls` were asked for one after another,
/// each given by kind, position and direction.
pub open spec fn after_calls(
    start: RegistryView,
    calls: Seq<(Seq<char>, Vector2<u32>, Vector2<u32>)>,
) -> RegistryView
    decreases calls.len(),
{
    if calls.len() == 0 {
        start
    } else {
        instantiated(
            after_calls(start, calls.drop_last()),
            calls.last().0,
            calls.last().1,
            calls.last().2,
        )
    }
}

/// The capacity invariant over calls: from a registry without sprites, at the
/// initial capacity, any sequence of requests for sprites, granted or not,
/// leads to a capacity that is above the number of sprites and is the initial
/// capacity doubled some number of times. The sprite kinds stay as they were.
pub proof fn lemma_capacity_after_calls(
    start: RegistryView,
    calls: Seq<(Seq<char>, Vector2<u32>, Vector2<u32>)>,
)
    requires
        start.instances.len() == 0,
        start.capacity == INITIAL_CAPACITY,
    ensures
        after_calls(start, calls).templates == start.templates,
        after_calls(start, calls).instances.len() <= calls.len(),
        after_calls(start, calls).capacity == capacity_after(
            after_calls(start, calls).instances.len(),
        ),
        after_calls(start, calls).capacity > after_calls(start, calls).instances.len(),
        is_doubled_capacity(after_calls(start, calls).capacity),
    decreases calls.len(),
{
    if calls.len() > 0 {
        lemma_capacity_after_calls(start, calls.drop_last());
    }
    lemma_capacity_after(after_calls(start, calls).instances.len());
}

/// The capacity invariant: however many sprites were placed, the capacity is
/// above their number, at most one more than twice their number, and the
/// initial capacity doubled some number of times.
pub proof fn lemma_capacity_after(count: nat)
    ensures
        count < capacity_after(count) <= 2 * count + 1,
        is_doubled_capacity(capacity_after(count)),
    decreases count,
{
    if count == 0 {
        vstd::arithmetic::power2::lemma2_to64();
        assert(capacity_after(0) == INITIAL_CAPACITY * pow2(0));
    } else {
        let before = capacity_after((count - 1) as nat);
        lemma_capacity_after((count - 1) as nat);
        let k = choose|k: nat| before == INITIAL_CAPACITY * #[trigger] pow2(k);
        if count >= before {
            lemma_pow2_unfold(k + 1);
            assert(capacity_after(count) == INITIAL_CAPACITY * pow2(k + 1));
        } else {
            assert(capacity_after(count) == INITIAL_CAPACITY * pow2(k));
        }
    }
}

impl SpriteRegistry {
    /// The drawing order names every handle once, the capacity is a doubled
    /// initial capacity above the number of sprites, and every sprite is well
    /// formed.
    pub open spec fn wf(&self) -> bool {
        let v = self@;
        &&& v.order.len() == v.instances.len()
        &&& forall|i: int| 0 <= i < v.order.len() ==> 0 <= (#[trigger] v.order[i]) < v.instances.len()
        &&& forall|i: int, j: int|
            0 <= i < j < v.order.len() ==> (#[trigger] v.order[i]) != (#[trigger] v.order[j])
        &&& v.instances.len() <= u32::MAX
        &&& v.capacity == capacity_after(v.instances.len())
        &&& forall|h: int| 0 <= h < v.instances.len() ==> (#[trigger] v.instances[h]).wf()
        &&& forall|i: int|
            0 <= i < v.templates.len() ==> (#[trigger] v.templates[i]).1.animation_count < i32::MAX
    }

    /// A template found by name lies within the registry's bound on frames.
    proof fn lemma_template_of_bound(templates: Seq<(Seq<char>, SpriteTemplate)>, kind: Seq<char>)
        requires
            forall|i: int|
                0 <= i < templates.len() ==> (#[trigger] templates[i]).1.animation_count < i32::MAX,
        ensures
            template_of(templates, kind) matches Some(t) ==> t.animation_count < i32::MAX,
        decreases templates.len(),
    {
        if templates.len() > 0 && templates.last().0 != kind {
            Self::lemma_template_of_bound(templates.drop_last(), kind);
        }
    }

    /// A registry of the given sprite kinds, with no sprite placed.
    pub fn with_templates(sprite_templates: Vec<(String, SpriteTemplate)>) -> (r: SpriteRegistry)
        requires
            forall|i: int|
                0 <= i < sprite_templates@.len() ==> (#[trigger] sprite_templates@[i]).1.animation_count
                    < i32::MAX,
        ensures
            r.wf(),
            r@.capacity == INITIAL_CAPACITY,
            r@.instances.len() == 0,
            r@.templates.len() == sprite_templates@.len(),
            forall|i: int|
                0 <= i < sprite_templates@.len() ==> #[trigger] r@.templates[i] == (
                    sprite_templates@[i].0@,
                    sprite_templates@[i].1,
                ),
    {
        SpriteRegistry {
            gpu_capacity: INITIAL_CAPACITY,
            sprite_templates,
            sprite_instances: Vec::new(),
            order: Vec::new(),
        }
    }

    /// Cuts every sheet that can be cut, and leaves the others out: the names
    /// and the tile sheets of those that were cut, in the order of `sources`.
    pub fn assets_to_tilesheets(sources: &Vec<SheetSource>) -> (r: (Vec<String>, Vec<Tilesheet>))
        ensures
            r.0@.len() == kept(sources@).len(),
            r.1@.len() == kept(sources@).len(),
            all_wf(r.1@),
            forall|j: int|
                0 <= j < kept(sources@).len() ==> {
                    let source = sources@[#[trigger] kept(sources@)[j]];
                    &&& 0 <= kept(sources@)[j] < sources@.len()
                    &&& r.0@[j]@ == source.name@
                    &&& r.1@[j]@ == sliced_sheet(source.asset, source.picture)
                },
    {
        let mut names: Vec<String> = Vec::new();
        let mut tile_sheets: Vec<Tilesheet> = Vec::new();
        let mut i: usize = 0;
        while i < sources.len()
            invariant
                i <= sources@.len(),
                names@.len() == kept(sources@.take(i as int)).len(),
                tile_sheets@.len() == kept(sources@.take(i as int)).len(),
                all_wf(tile_sheets@),
                forall|j: int|
                    0 <= j < kept(sources@.take(i as int)).len() ==> {
                        let source = sources@[#[trigger] kept(sources@.take(i as int))[j]];
                        &&& 0 <= kept(sources@.take(i as int))[j] < i
                        &&& names@[j]@ == source.name@
                        &&& tile_sheets@[j]@ == sliced_sheet(source.asset, source.picture)
                    },
            decreases sources.len() - i,
        {
            proof {
                assert(sources@.take(i + 1).drop_last() =~= sources@.take(i as int));
                assert(sources@.take(i + 1).last() == sources@[i as int]);
            }
            let source = &sources[i];
            match Tilesheet::from(&source.asset, &source.picture) {
                Ok(sheet) => {
                    names.push(source.name.clone());
                    tile_sheets.push(sheet);
                },
                Err(_) => {},
            }
            i = i + 1;
        }
        proof {
            assert(sources@.take(i as int) =~= sources@);
        }
        (names, tile_sheets)
    }

    /// Lays out the atlas for the world's sheet and the named sprite sheets,
    /// makes a template for each sprite sheet, places the world's sprites, each
    /// given by kind, position and direction, and sorts them by falling
    /// distance from the player: `distances[j]` is the key of the sprite
    /// `world_sprites[j]`. A sprite whose kind has no template is left out.
    /// Besides the registry and the atlas, the content of the sprite buffer is
    /// returned: every sprite, in drawing order.
    pub fn create(
        world_tile_sheet: &Tilesheet,
        world_sprites: &Vec<(String, Vector2<u32>, Vector2<u32>)>,
        distances: &Vec<u32>,
        sprite_names: &Vec<String>,
        tile_sheets: &Vec<Tilesheet>,
    ) -> (r: Result<(SpriteRegistry, Atlas, Vec<u8>), RegistryError>)
        requires
            world_tile_sheet.wf(),
            all_wf(tile_sheets@),
            distances@.len() == world_sprites@.len(),
        ensures
            match r {
                Ok((registry, atlas, bytes)) => {
                    &&& sprite_names@.len() == tile_sheets@.len()
                    &&& world_sprites@.len() <= u32::MAX
                    &&& atlas.lays_out(*world_tile_sheet, tile_sheets@)
                    &&& registry.wf()
                    &&& registry@.templates == templates_for(
                        world_tile_sheet@.tile_count,
                        sprite_names@,
                        tile_sheets@,
                    )
                    &&& registry@.instances == placed(registry@.templates, world_sprites@)
                    &&& farthest_first(
                        registry@.order,
                        placed_keys(registry@.templates, world_sprites@, distances@),
                    )
                    &&& exists|source: Seq<int>|
                        is_stable_sort(
                            placement_order(registry@.instances.len()),
                            registry@.order,
                            source,
                            placed_keys(registry@.templates, world_sprites@, distances@),
                        )
                    &&& bytes@ == upload_bytes(registry@.instances, registry@.order)
                    &&& bytes@.len() == SPRITE_SIZE * registry@.instances.len()
                },
                Err(RegistryError::NameCount) => sprite_names@.len() != tile_sheets@.len(),
                Err(RegistryError::TooManySprites) => {
                    &&& sprite_names@.len() == tile_sheets@.len()
                    &&& world_sprites@.len() > u32::MAX
                },
                Err(RegistryError::TooManyTiles) => {
                    &&& sprite_names@.len() == tile_sheets@.len()
                    &&& world_sprites@.len() <= u32::MAX
                    &&& world_tile_sheet@.tile_count + crate::tilesheet::total_tiles(tile_sheets@)
                        > i32::MAX
                },
            },
    {
        if sprite_names.len() != tile_sheets.len() {
            return Err(RegistryError::NameCount);
        }
        if world_sprites.len() as u64 > u32::MAX as u64 {
            return Err(RegistryError::TooManySprites);
        }
        let atlas = match Atlas::plan(world_tile_sheet, tile_sheets) {
            Some(atlas) => atlas,
            None => {
                return Err(RegistryError::TooManyTiles);
            },
        };
        let ghost world_tiles = world_tile_sheet@.tile_count;
        let ghost wanted = templates_for(world_tiles, sprite_names@, tile_sheets@);
        let mut sprite_templates: Vec<(String, SpriteTemplate)> = Vec::new();
        let mut i: usize = 0;
        while i < tile_sheets.len()
            invariant
                i <= tile_sheets@.len(),
                sprite_names@.len() == tile_sheets@.len(),
                all_wf(tile_sheets@),
                atlas.lays_out(*world_tile_sheet, tile_sheets@),
                world_tiles == world_tile_sheet@.tile_count,
                wanted == templates_for(world_tiles, sprite_names@, tile_sheets@),
                sprite_templates@.len() == i,
                forall|j: int|
                    0 <= j < i ==> (#[trigger] sprite_templates@[j]).0@ == wanted[j].0
                        && sprite_templates@[j].1 == wanted[j].1,
                forall|j: int|
                    0 <= j < i ==> (#[trigger] sprite_templates@[j]).1.animation_count < i32::MAX,
            decreases tile_sheets.len() - i,
        {
            let sheet = &tile_sheets[i];
            proof {
                assert(sheet.wf());
                assert(atlas.offsets@[i as int] == atlas_offset(world_tiles, tile_sheets@, i as int));
            }
            let template = SpriteTemplate::new(
                atlas.offsets[i],
                sheet.columns() - 1,
                sheet.rows(),
                sheet.tile_width(),
                sheet.tile_height(),
            );
            sprite_templates.push((sprite_names[i].clone(), template));
            i = i + 1;
        }
        let mut registry = SpriteRegistry::with_templates(sprite_templates);
        proof {
            assert(registry@.templates =~= wanted);
            assert(registry@.order =~= placement_order(0));
        }
        let mut keys: Vec<u32> = Vec::new();
        let mut k: usize = 0;
        while k < world_sprites.len()
            invariant
                k <= world_sprites@.len(),
                world_sprites@.len() <= u32::MAX,
                distances@.len() == world_sprites@.len(),
                registry.wf(),
                registry@.templates == wanted,
                registry@.instances.len() <= k,
                registry@.instances == placed(wanted, world_sprites@.take(k as int)),
                registry@.order == placement_order(registry@.instances.len()),
                keys@ == placed_keys(wanted, world_sprites@.take(k as int), distances@),
                keys@.len() == registry@.instances.len(),
            decreases world_sprites.len() - k,
        {
            proof {
                assert(world_sprites@.take(k + 1).drop_last() =~= world_sprites@.take(k as int));
                assert(world_sprites@.take(k + 1).last() == world_sprites@[k as int]);
            }
            let placement = &world_sprites[k];
            let ghost before = registry@;
            match registry.instantiate(&placement.0, &placement.1, &placement.2) {
                Some(_) => {
                    keys.push(distances[k]);
                    proof {
                        assert(registry@.order =~= placement_order(registry@.instances.len()));
                    }
                },
                None => {},
            }
            k = k + 1;
        }
        proof {
            assert(world_sprites@.take(k as int) =~= world_sprites@);
        }
        let bytes = registry.update(&keys);
        Ok((registry, atlas, bytes))
    }

    /// The template of a sprite kind, if the registry has one of this name.
    pub fn template(&self, sprite_id: &String) -> (r: Option<SpriteTemplate>)
        ensures
            r == template_of(self@.templates, sprite_id@),
    {
        let mut i: usize = self.sprite_templates.len();
        proof {
            assert(self@.templates.take(i as int) =~= self@.templates);
        }
        while i > 0
            invariant
                i <= self.sprite_templates@.len(),
                template_of(self@.templates, sprite_id@) == template_of(
                    self@.templates.take(i as int),
                    sprite_id@,
                ),
            decreases i,
        {
            i = i - 1;
            proof {
                assert(self@.templates.take(i + 1).drop_last() =~= self@.templates.take(i as int));
                assert(self@.templates.take(i + 1).last() == self@.templates[i as int]);
            }
            if self.sprite_templates[i].0 == *sprite_id {
                return Some(self.sprite_templates[i].1);
            }
        }
        None
    }

    /// Places a sprite of the kind `sprite_id` and returns its handle, or `None`
    /// where the registry has no template of this name. The new sprite is drawn
    /// last, and the capacity has doubled if the sprite filled it.
    pub fn instantiate(&mut self, sprite_id: &String, pos: &Vector2<u32>, dir: &Vector2<u32>) -> (r:
        Option<usize>)
        requires
            old(self).wf(),
            old(self)@.instances.len() < u32::MAX,
        ensures
            final(self).wf(),
            final(self)@ == instantiated(old(self)@, sprite_id@, *pos, *dir),
            r == match template_of(old(self)@.templates, sprite_id@) {
                None => None,
                Some(_) => Some(old(self)@.instances.len() as usize),
            },
    {
        let found = self.template(sprite_id);
        proof {
            Self::lemma_template_of_bound(self@.templates, sprite_id@);
            lemma_capacity_after(self@.instances.len());
        }
        match found {
            None => None,
            Some(template) => {
                let handle: usize = self.sprite_instances.len();
                let sprite = Sprite::new(*pos, *dir, &template);
                self.sprite_instances.push(sprite);
                self.order.push(handle);
                if self.sprite_instances.len() as u64 >= self.gpu_capacity {
                    self.gpu_capacity = self.gpu_capacity * 2;
                }
                proof {
                    assert(self@.templates =~= old(self)@.templates);
                }
                Some(handle)
            },
        }
    }

    /// The number of placed sprites.
    pub fn count(&self) -> (r: usize)
        ensures
            r == self@.instances.len(),
    {
        self.sprite_instances.len()
    }

    /// Capacity of the sprite buffer and of the buffer of preprocessing results,
    /// in sprites.
    pub fn capacity(&self) -> (r: u64)
        ensures
            r == self@.capacity,
    {
        self.gpu_capacity
    }

    /// Sizes in bytes of the sprite buffer and of the buffer of preprocessing
    /// results: both hold one record for each sprite of the capacity, so that a
    /// sprite and its result stand at the same place.
    pub fn buffer_sizes(&self) -> (r: (u64, u64))
        requires
            self.wf(),
        ensures
            r.0 == self@.capacity * SPRITE_SIZE,
            r.1 == self@.capacity * PREPROCESS_RESULT_SIZE,
    {
        proof {
            lemma_capacity_after(self@.instances.len());
        }
        (
            self.gpu_capacity * (SPRITE_SIZE as u64),
            self.gpu_capacity * (PREPROCESS_RESULT_SIZE as u64),
        )
    }

    /// The sprite with the given handle.
    pub fn sprite(&self, handle: usize) -> (r: &Sprite)
        requires
            handle < self@.instances.len(),
        ensures
            *r == self@.instances[handle as int],
    {
        &self.sprite_instances[handle]
    }

    /// The handle of the sprite that is drawn at place `slot`.
    pub fn handle_at(&self, slot: usize) -> (r: usize)
        requires
            slot < self@.order.len(),
        ensures
            r == self@.order[slot as int],
    {
        self.order[slot]
    }

    /// One movement step of the sprite with the given handle, to `position`.
    pub fn move_by(&mut self, handle: usize, position: Vector2<u32>)
        requires
            old(self).wf(),
            handle < old(self)@.instances.len(),
        ensures
            final(self).wf(),
            final(self)@ == (RegistryView {
                instances: old(self)@.instances.update(
                    handle as int,
                    old(self)@.instances[handle as int].stepped(position),
                ),
                ..old(self)@
            }),
    {
        let mut sprite = self.sprite_instances[handle];
        sprite.move_by(position);
        self.sprite_instances.set(handle, sprite);
        proof {
            assert(self@.templates =~= old(self)@.templates);
        }
    }

    /// The preprocessing result of the sprite drawn at place `index`, read from
    /// the content of the result buffer.
    pub fn preprocess_result(&self, results: &[u8], index: u32) -> (r: SpritePreprocessResult)
        requires
            index < self@.instances.len(),
            (index + 1) * PREPROCESS_RESULT_SIZE <= results@.len(),
        ensures
            r == preprocess_result_at(results@, index * PREPROCESS_RESULT_SIZE),
    {
        // The length is a `usize`, and so is every offset below it.
        let _len: usize = results.len();
        read_preprocess_result(results, index as usize * PREPROCESS_RESULT_SIZE)
    }

    /// Puts the sprites in drawing order for the given distances: the farthest
    /// first, and sprites at one distance in the order they had. `distances[h]`
    /// is the key of the sprite with handle `h`.
    pub fn sort(&mut self, distances: &Vec<u32>)
        requires
            old(self).wf(),
            distances@.len() == old(self)@.instances.len(),
        ensures
            final(self).wf(),
            final(self)@.instances == old(self)@.instances,
            final(self)@.templates == old(self)@.templates,
            final(self)@.capacity == old(self)@.capacity,
            exists|source: Seq<int>|
                is_stable_sort(old(self)@.order, final(self)@.order, source, distances@),
            farthest_first(final(self)@.order, distances@),
    {
        let (sorted, Ghost(source)) = sorted_by_distance(&self.order, distances);
        proof {
            let order = old(self)@.order;
            assert forall|i: int, j: int| 0 <= i < j < sorted@.len() implies (#[trigger] sorted@[i])
                != (#[trigger] sorted@[j]) by {
                if sorted@[i] == sorted@[j] {
                    assert(drawn_before(distances@, sorted@[i], source[i], sorted@[j], source[j]));
                    assert(order[source[i]] == order[source[j]]);
                }
            }
            assert forall|i: int, j: int| 0 <= i <= j < sorted@.len() implies distances@[sorted@[i] as int]
                >= distances@[sorted@[j] as int] by {
                if i < j {
                    assert(drawn_before(distances@, sorted@[i], source[i], sorted@[j], source[j]));
                }
            }
            assert forall|i: int| 0 <= i < sorted@.len() implies 0 <= (#[trigger] sorted@[i])
                < old(self)@.instances.len() by {
                assert(sorted@[i] == order[source[i]]);
            }
        }
        self.order = sorted;
        proof {
            assert(self@.templates =~= old(self)@.templates);
            assert(is_stable_sort(old(self)@.order, self@.order, source, distances@));
        }
    }

    /// Sorts the sprites by falling distance and returns the content of the
    /// sprite buffer: every sprite, in drawing order.
    pub fn update(&mut self, distances: &Vec<u32>) -> (r: Vec<u8>)
        requires
            old(self).wf(),
            distances@.len() == old(self)@.instances.len(),
        ensures
            final(self).wf(),
            final(self)@.instances == old(self)@.instances,
            final(self)@.templates == old(self)@.templates,
            final(self)@.capacity == old(self)@.capacity,
            exists|source: Seq<int>|
                is_stable_sort(old(self)@.order, final(self)@.order, source, distances@),
            farthest_first(final(self)@.order, distances@),
            r@ == upload_bytes(final(self)@.instances, final(self)@.order),
            r@.len() == SPRITE_SIZE * final(self)@.instances.len(),
    {
        self.sort(distances);
        let mut buffer: Vec<u8> = Vec::new();
        let mut i: usize = 0;
        while i < self.order.len()
            invariant
                self.wf(),
                i <= self.order@.len(),
                buffer@ == upload_bytes(self@.instances, self@.order.take(i as int)),
                buffer@.len() == SPRITE_SIZE * i,
            decreases self.order.len() - i,
        {
            proof {
                assert(self@.order.take(i + 1).drop_last() =~= self@.order.take(i as int));
                assert(self@.order.take(i + 1).last() == self@.order[i as int]);
            }
            let handle: usize = self.order[i];
            push_sprite(&mut buffer, &self.sprite_instances[handle]);
            i = i + 1;
        }
        proof {
            assert(self@.order.take(i as int) =~= self@.order);
        }
        buffer
    }
}

} // verus!
