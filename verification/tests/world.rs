use raster::picture::Picture;
use raster::sprite::SpritePreprocessResult;
use raster::spriteasset::SpriteAsset;
use raster::spriteregistry::RegistryError;
use raster::tilesheet::Tilesheet;
use raster::vector::Vector2;
use raster::world::{
    ceiling_floor_buffer_size, clamp, slice_buffer_size, sprite_dispatch, z_buffer_size, Barrier,
    Dispatch, FrameStep, RenderAction, Stage, World, WorldError, WorldStructure,
    CEILING_FLOOR_BINDING, LAYOUT_BINDING, PLAYER_BINDING, PREPROCESS_BINDING, SETTINGS_BINDING,
    SLICE_BINDING, SPRITES_BINDING, Z_BINDING,
};

fn bits(x: f32, y: f32) -> Vector2<u32> {
    Vector2::new(x.to_bits(), y.to_bits())
}

fn sheet(width: u32, height: u32, columns: u32, rows: u32) -> Tilesheet {
    let asset = SpriteAsset { file: String::from("sheet.png"), columns, rows };
    let picture = Picture::from_raw(width, height, vec![0u8; (width * height * 4) as usize]).unwrap();
    Tilesheet::from(&asset, &picture).unwrap()
}

fn structure() -> WorldStructure {
    WorldStructure {
        layout_tile_width: 64,
        layout_stride: 4,
        layout: vec![
            1, 1, 1, 1, //
            1, 0, 0, 2, //
            3, 0, 7, 1,
        ],
        ceiling_idx: 5,
        floor_idx: 6,
        sprites: vec![
            (String::from("guard"), bits(1.5, 1.5), 90.0f32.to_bits()),
            (String::from("ghost"), bits(2.5, 1.5), 0.0f32.to_bits()),
            (String::from("guard"), bits(1.5, 2.5), 180.0f32.to_bits()),
        ],
    }
}

fn directions() -> Vec<Vector2<u32>> {
    vec![bits(0.0, 1.0), bits(1.0, 0.0), bits(-1.0, 0.0)]
}

fn distances() -> Vec<u32> {
    vec![1.0f32.to_bits(), 7.0f32.to_bits(), 4.0f32.to_bits()]
}

fn world(resolution: (u32, u32)) -> World {
    let names: Vec<String> = vec![String::from("guard")];
    let sheets: Vec<Tilesheet> = vec![sheet(12, 4, 3, 2)];
    let loaded = World::load(
        "test_map",
        resolution,
        structure(),
        &directions(),
        &distances(),
        &sheet(8, 8, 2, 2),
        &names,
        &sheets,
    );
    match loaded {
        Ok((world, _atlas, _bytes)) => world,
        Err(e) => panic!("no world: {:?}", e),
    }
}

fn result(start_x: i32, end_x: i32, start_y: i32, end_y: i32, depth: f64) -> SpritePreprocessResult {
    SpritePreprocessResult {
        sprite_width: 0,
        sprite_height: 0,
        draw_start_y: start_y,
        draw_end_y: end_y,
        draw_start_x: start_x,
        draw_end_x: end_x,
        sprite_screen_x: 0,
        transform_y: depth.to_bits(),
    }
}

#[test]
fn bindings_are_those_of_the_shader_stages() {
    assert_eq!(SETTINGS_BINDING, 1);
    assert_eq!(PLAYER_BINDING, 2);
    assert_eq!(LAYOUT_BINDING, 3);
    assert_eq!(SLICE_BINDING, 5);
    assert_eq!(CEILING_FLOOR_BINDING, 6);
    assert_eq!(Z_BINDING, 7);
    assert_eq!(SPRITES_BINDING, 8);
    assert_eq!(PREPROCESS_BINDING, 9);
}

#[test]
fn scratch_buffers_grow_with_the_resolution() {
    assert_eq!(slice_buffer_size((800, 600)), 9600);
    assert_eq!(ceiling_floor_buffer_size((800, 600)), 9600);
    assert_eq!(z_buffer_size((800, 600)), 6400);
    assert_eq!(slice_buffer_size((u32::MAX, 0)), 12 * u32::MAX as u64);
    assert_eq!(ceiling_floor_buffer_size((0, u32::MAX)), 16 * u32::MAX as u64);
    assert_eq!(z_buffer_size((u32::MAX, 0)), 8 * u32::MAX as u64);
}

#[test]
fn flat_buffer_holds_header_then_tiles() {
    let buffer: Vec<u32> = structure().as_vec_for_gpu();
    assert_eq!(buffer, vec![6, 5, 64, 4, 1, 1, 1, 1, 1, 0, 0, 2, 3, 0, 7, 1]);
}

#[test]
fn flat_buffer_round_trip() {
    let given = structure();
    let buffer: Vec<u32> = given.as_vec_for_gpu();
    let parsed = WorldStructure::from_flat_buffer(&buffer).unwrap();
    assert_eq!(parsed.floor_idx, given.floor_idx);
    assert_eq!(parsed.ceiling_idx, given.ceiling_idx);
    assert_eq!(parsed.layout_tile_width, given.layout_tile_width);
    assert_eq!(parsed.layout_stride, given.layout_stride);
    assert_eq!(parsed.layout, given.layout);
    assert!(parsed.sprites.is_empty());
    assert_eq!(parsed.as_vec_for_gpu(), buffer);
}

#[test]
fn flat_buffer_of_an_empty_layout_is_the_header() {
    let empty = WorldStructure {
        layout_tile_width: 1,
        layout_stride: 2,
        layout: Vec::new(),
        ceiling_idx: 3,
        floor_idx: 4,
        sprites: Vec::new(),
    };
    assert_eq!(empty.as_vec_for_gpu(), vec![4, 3, 1, 2]);
    assert!(WorldStructure::from_flat_buffer(&vec![4, 3, 1]).is_none());
    assert!(WorldStructure::from_flat_buffer(&vec![4, 3, 1, 2]).unwrap().layout.is_empty());
}

#[test]
fn tile_lookup_goes_by_column_and_row() {
    let w = world((800, 600));
    assert_eq!(*w.at(0, 0), 1);
    assert_eq!(*w.at(1, 1), 0);
    assert_eq!(*w.at(3, 1), 2);
    assert_eq!(*w.at(0, 2), 3);
    assert_eq!(*w.at(2, 2), 7);
    assert_eq!(*w.at(3, 2), 1);
    assert_eq!(*structure().at(2, 2), 7);
}

#[test]
fn loaded_world_holds_what_it_was_given() {
    let w = world((800, 600));
    assert_eq!(w.identifier(), "test_map");
    assert_eq!(w.resolution(), (800, 600));
    assert_eq!(w.structure().layout_stride, 4);
    assert_eq!(w.as_vec_for_gpu(), structure().as_vec_for_gpu());
    // The sprite of the unknown kind was left out.
    assert_eq!(w.sprite_registry().count(), 2);
    // The sprites are in drawing order from the start: the farther one first.
    assert_eq!(w.sprite_registry().handle_at(0), 1);
    assert_eq!(w.sprite_registry().handle_at(1), 0);
    assert_eq!(w.sprite_registry().sprite(0).direction, bits(0.0, 1.0));
    assert_eq!(w.sprite_registry().sprite(1).position, bits(1.5, 2.5));
    assert_eq!(w.sprite_registry().sprite(1).direction, bits(-1.0, 0.0));
    assert_eq!(w.sprite_registry().sprite(1).template.texture_base_index, 4);
}

#[test]
fn load_gives_the_atlas_of_all_sheets() {
    let names: Vec<String> = vec![String::from("guard"), String::from("barrel")];
    let sheets: Vec<Tilesheet> = vec![sheet(12, 4, 3, 2), sheet(5, 9, 1, 1)];
    let loaded =
        World::load("m", (320, 200), structure(), &directions(), &distances(), &sheet(8, 8, 2, 2), &names, &sheets);
    let (world, atlas, bytes) = loaded.ok().unwrap();
    // Two of the three sprites have a template; the farther one is drawn first.
    assert_eq!(world.sprite_registry().count(), 2);
    assert_eq!(world.sprite_registry().handle_at(0), 1);
    assert_eq!(world.sprite_registry().handle_at(1), 0);
    assert_eq!(bytes.len(), 2 * 48);
    assert_eq!(&bytes[0..4], &1.5f32.to_le_bytes());
    assert_eq!(&bytes[4..8], &2.5f32.to_le_bytes());
    assert_eq!(&bytes[48..52], &1.5f32.to_le_bytes());
    assert_eq!(&bytes[52..56], &1.5f32.to_le_bytes());
    assert_eq!(atlas.offsets, vec![4, 10]);
    assert_eq!(atlas.depth, 11);
    assert_eq!(atlas.width, 5);
    assert_eq!(atlas.height, 9);
}

#[test]
fn load_refuses_a_layout_of_broken_rows() {
    let mut broken = structure();
    broken.layout.push(1);
    let loaded = World::load("m", (8, 8), broken, &directions(), &distances(), &sheet(8, 8, 2, 2), &Vec::new(), &Vec::new());
    assert!(matches!(loaded, Err(WorldError::Layout)));
    let mut no_stride = structure();
    no_stride.layout_stride = 0;
    let loaded = World::load("m", (8, 8), no_stride, &directions(), &distances(), &sheet(8, 8, 2, 2), &Vec::new(), &Vec::new());
    assert!(matches!(loaded, Err(WorldError::Layout)));
}

#[test]
fn load_wants_a_direction_for_each_sprite() {
    let loaded = World::load("m", (8, 8), structure(), &Vec::new(), &distances(), &sheet(8, 8, 2, 2), &Vec::new(), &Vec::new());
    assert!(matches!(loaded, Err(WorldError::DirectionCount)));
}

#[test]
fn load_hands_on_the_error_of_the_registry() {
    let names: Vec<String> = vec![String::from("guard")];
    let loaded = World::load("m", (8, 8), structure(), &directions(), &distances(), &sheet(8, 8, 2, 2), &names, &Vec::new());
    assert!(matches!(loaded, Err(WorldError::Registry(RegistryError::NameCount))));
}

#[test]
fn sprite_in_front_is_dispatched_by_its_span() {
    let dispatch = sprite_dispatch(&result(10, 50, 5, 40, 2.0), (800, 600));
    assert_eq!(
        dispatch,
        Some(Dispatch {
            stage: Stage::Sprite,
            num_groups_x: 40,
            num_groups_y: 35,
            num_groups_z: 1,
            barrier: Barrier::ShaderImageAccess,
        })
    );
}

#[test]
fn sprite_behind_the_camera_is_not_dispatched() {
    assert_eq!(sprite_dispatch(&result(10, 50, 5, 40, -1.0), (800, 600)), None);
    assert_eq!(sprite_dispatch(&result(10, 50, 5, 40, 0.0), (800, 600)), None);
    assert_eq!(sprite_dispatch(&result(10, 50, 5, 40, f64::NAN), (800, 600)), None);
}

#[test]
fn sprite_of_negative_width_is_not_dispatched() {
    assert_eq!(sprite_dispatch(&result(50, 10, 5, 40, 2.0), (800, 600)), None);
    assert_eq!(sprite_dispatch(&result(50, 49, 5, 40, 2.0), (800, 600)), None);
}

#[test]
fn sprite_dispatch_stays_within_the_screen() {
    let wide = sprite_dispatch(&result(-100, 2000, -50, 900, 1.0), (800, 600)).unwrap();
    assert_eq!((wide.num_groups_x, wide.num_groups_y, wide.num_groups_z), (800, 600, 1));
    let empty = sprite_dispatch(&result(10, 10, 5, 5, 1.0), (800, 600)).unwrap();
    assert_eq!((empty.num_groups_x, empty.num_groups_y, empty.num_groups_z), (0, 0, 1));
    let upside_down = sprite_dispatch(&result(10, 20, 40, 5, 1.0), (800, 600)).unwrap();
    assert_eq!((upside_down.num_groups_x, upside_down.num_groups_y), (10, 0));
    let extreme = sprite_dispatch(&result(i32::MIN, i32::MAX, i32::MIN, i32::MAX, 1.0), (800, 600)).unwrap();
    assert_eq!((extreme.num_groups_x, extreme.num_groups_y), (800, 600));
    let exact = sprite_dispatch(&result(0, 800, 0, 600, 1.0), (800, 600)).unwrap();
    assert_eq!((exact.num_groups_x, exact.num_groups_y), (800, 600));
}

#[test]
fn clamp_holds_a_value_within_its_limit() {
    assert_eq!(clamp(-1, 10), 0);
    assert_eq!(clamp(0, 10), 0);
    assert_eq!(clamp(7, 10), 7);
    assert_eq!(clamp(10, 10), 10);
    assert_eq!(clamp(11, 10), 10);
    assert_eq!(clamp(i64::MAX, u32::MAX), u32::MAX);
    assert_eq!(clamp(i64::MIN, u32::MAX), 0);
}

#[test]
fn frame_runs_its_stages_in_order() {
    let w = world((800, 600));
    let results: Vec<SpritePreprocessResult> = vec![result(10, 50, 5, 40, 2.0), result(10, 50, 5, 40, -1.0)];
    let mut actions: Vec<RenderAction> = Vec::new();
    let mut step = FrameStep::UpdateSprites;
    let mut selected = SpritePreprocessResult::default();
    let mut turns: u32 = 0;
    while step != FrameStep::Done {
        let (action, next) = w.render(step, &selected);
        if let RenderAction::SelectSprite(index) = action {
            selected = results[index as usize];
        }
        actions.push(action);
        step = next;
        turns += 1;
        assert!(turns < 100);
    }
    let stage = |stage: Stage, x: u32, y: u32, z: u32, barrier: Barrier| {
        RenderAction::Dispatch(Dispatch { stage, num_groups_x: x, num_groups_y: y, num_groups_z: z, barrier })
    };
    assert_eq!(
        actions,
        vec![
            RenderAction::UpdateSprites,
            stage(Stage::CeilingFloorPreprocess, 1, 600, 1, Barrier::ShaderStorage),
            stage(Stage::CeilingFloor, 800, 600, 1, Barrier::ShaderImageAccess),
            stage(Stage::WallsPreprocess, 800, 1, 1, Barrier::ShaderStorage),
            stage(Stage::Walls, 800, 600, 1, Barrier::ShaderImageAccess),
            stage(Stage::SpritePreprocess, 1, 1, 2, Barrier::ShaderStorage),
            RenderAction::SelectSprite(0),
            stage(Stage::Sprite, 40, 35, 1, Barrier::ShaderImageAccess),
            RenderAction::SelectSprite(1),
            RenderAction::SkipSprite,
            RenderAction::Blit,
        ]
    );
    assert_eq!(w.render(FrameStep::Done, &selected), (RenderAction::Finished, FrameStep::Done));
}

#[test]
fn frame_without_sprites_goes_from_preprocessing_to_the_screen() {
    let mut bare = structure();
    bare.sprites.clear();
    let (w, _atlas, bytes) =
        World::load("m", (320, 200), bare, &Vec::new(), &Vec::new(), &sheet(8, 8, 2, 2), &Vec::new(), &Vec::new())
            .ok()
            .unwrap();
    assert!(bytes.is_empty());
    let none = SpritePreprocessResult::default();
    let (action, next) = w.render(FrameStep::SpritePreprocess, &none);
    assert_eq!(
        action,
        RenderAction::Dispatch(Dispatch {
            stage: Stage::SpritePreprocess,
            num_groups_x: 1,
            num_groups_y: 1,
            num_groups_z: 0,
            barrier: Barrier::ShaderStorage,
        })
    );
    assert_eq!(next, FrameStep::Blit);
    assert_eq!(w.render(FrameStep::Blit, &none), (RenderAction::Blit, FrameStep::Done));
}

#[test]
fn world_places_moves_and_sorts_its_sprites() {
    let mut w = world((800, 600));
    assert_eq!(w.instantiate(&String::from("ghost"), &bits(0.0, 0.0), &bits(1.0, 0.0)), None);
    assert_eq!(w.instantiate(&String::from("guard"), &bits(3.0, 1.0), &bits(1.0, 0.0)), Some(2));
    assert_eq!(w.sprite_registry().count(), 3);
    w.move_sprite(2, bits(3.5, 1.0));
    assert_eq!(w.sprite_registry().sprite(2).position, bits(3.5, 1.0));
    assert_eq!(w.sprite_registry().sprite(2).animation_tick, 1);
    let distances: Vec<u32> = vec![1.0f32.to_bits(), 3.0f32.to_bits(), 2.0f32.to_bits()];
    let bytes: Vec<u8> = w.update_sprites(&distances);
    assert_eq!(bytes.len(), 3 * 48);
    assert_eq!(w.sprite_registry().handle_at(0), 1);
    assert_eq!(w.sprite_registry().handle_at(1), 2);
    assert_eq!(w.sprite_registry().handle_at(2), 0);
    assert_eq!(&bytes[0..4], &1.5f32.to_le_bytes());
    assert_eq!(&bytes[4..8], &2.5f32.to_le_bytes());
}
