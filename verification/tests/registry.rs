use raster::atlas::Atlas;
use raster::picture::Picture;
use raster::sprite::{SpritePreprocessResult, SpriteTemplate};
use raster::spriteasset::SpriteAsset;
use raster::spriteregistry::{RegistryError, SheetSource, SpriteRegistry, INITIAL_CAPACITY};
use raster::tilesheet::Tilesheet;
use raster::vector::Vector2;

fn bits(x: f32, y: f32) -> Vector2<u32> {
    Vector2::new(x.to_bits(), y.to_bits())
}

fn blank_picture(width: u32, height: u32) -> Picture {
    Picture::from_raw(width, height, vec![0u8; (width * height * 4) as usize]).unwrap()
}

fn sheet(width: u32, height: u32, columns: u32, rows: u32) -> Tilesheet {
    let asset = SpriteAsset { file: String::from("sheet.png"), columns, rows };
    Tilesheet::from(&asset, &blank_picture(width, height)).unwrap()
}

fn registry_of_two_kinds() -> SpriteRegistry {
    SpriteRegistry::with_templates(vec![
        (String::from("barrel"), SpriteTemplate::new(4, 0, 1, 8, 8)),
        (String::from("guard"), SpriteTemplate::new(5, 3, 8, 16, 32)),
    ])
}

fn is_power_of_two(n: u64) -> bool {
    n != 0 && n & (n - 1) == 0
}

#[test]
fn new_registry_is_empty() {
    let registry = registry_of_two_kinds();
    assert_eq!(registry.count(), 0);
    assert_eq!(registry.capacity(), 1);
    assert_eq!(INITIAL_CAPACITY, 1);
}

#[test]
fn template_is_found_by_name() {
    let registry = registry_of_two_kinds();
    assert_eq!(registry.template(&String::from("guard")), Some(SpriteTemplate::new(5, 3, 8, 16, 32)));
    assert_eq!(registry.template(&String::from("barrel")), Some(SpriteTemplate::new(4, 0, 1, 8, 8)));
    assert_eq!(registry.template(&String::from("Guard")), None);
    assert_eq!(registry.template(&String::new()), None);
}

#[test]
fn later_template_of_a_name_replaces_the_earlier() {
    let registry = SpriteRegistry::with_templates(vec![
        (String::from("guard"), SpriteTemplate::new(1, 1, 1, 1, 1)),
        (String::from("guard"), SpriteTemplate::new(2, 2, 2, 2, 2)),
    ]);
    assert_eq!(registry.template(&String::from("guard")), Some(SpriteTemplate::new(2, 2, 2, 2, 2)));
}

#[test]
fn instantiate_places_an_idle_sprite() {
    let mut registry = registry_of_two_kinds();
    let handle = registry.instantiate(&String::from("guard"), &bits(1.0, 2.0), &bits(0.0, 1.0));
    assert_eq!(handle, Some(0));
    assert_eq!(registry.count(), 1);
    let sprite = registry.sprite(0);
    assert_eq!(sprite.position, bits(1.0, 2.0));
    assert_eq!(sprite.direction, bits(0.0, 1.0));
    assert_eq!(sprite.template, SpriteTemplate::new(5, 3, 8, 16, 32));
    assert_eq!(sprite.animation_index, 0);
    assert_eq!(sprite.animation_tick_period, 30);
    assert_eq!(sprite.animation_tick, 0);
    assert_eq!(registry.handle_at(0), 0);
    let second = registry.instantiate(&String::from("barrel"), &bits(3.0, 3.0), &bits(1.0, 0.0));
    assert_eq!(second, Some(1));
    assert_eq!(registry.handle_at(1), 1);
}

#[test]
fn instantiate_of_an_unknown_kind_gives_nothing() {
    let mut registry = registry_of_two_kinds();
    assert_eq!(registry.instantiate(&String::from("ghost"), &bits(1.0, 2.0), &bits(0.0, 1.0)), None);
    assert_eq!(registry.count(), 0);
    assert_eq!(registry.capacity(), 1);
}

#[test]
fn capacity_doubles_before_it_is_reached() {
    let mut registry = registry_of_two_kinds();
    let mut capacities: Vec<u64> = Vec::new();
    let mut i: usize = 0;
    while i < 17 {
        let handle = registry.instantiate(&String::from("guard"), &bits(0.0, 0.0), &bits(1.0, 0.0));
        assert_eq!(handle, Some(i));
        i += 1;
        assert_eq!(registry.count(), i);
        assert!(registry.capacity() >= registry.count() as u64);
        assert!(registry.capacity() > registry.count() as u64);
        assert!(is_power_of_two(registry.capacity()));
        capacities.push(registry.capacity());
    }
    assert_eq!(capacities, vec![2, 4, 4, 8, 8, 8, 8, 16, 16, 16, 16, 16, 16, 16, 16, 32, 32]);
}

#[test]
fn update_draws_the_farthest_sprite_first() {
    let mut registry = registry_of_two_kinds();
    let player: (f32, f32) = (2.0, 2.0);
    let places: Vec<(f32, f32)> = vec![(2.5, 2.0), (9.0, 9.0), (2.0, 5.0), (0.0, 0.0), (9.0, 2.0)];
    for place in &places {
        registry.instantiate(&String::from("guard"), &bits(place.0, place.1), &bits(1.0, 0.0));
    }
    let mut distances: Vec<u32> = Vec::new();
    let mut squared: Vec<f32> = Vec::new();
    for place in &places {
        let d: f32 = (place.0 - player.0) * (place.0 - player.0) + (place.1 - player.1) * (place.1 - player.1);
        squared.push(d);
        distances.push(d.to_bits());
    }
    let bytes: Vec<u8> = registry.update(&distances);
    let mut order: Vec<usize> = Vec::new();
    let mut i: usize = 0;
    while i < registry.count() {
        order.push(registry.handle_at(i));
        i += 1;
    }
    assert_eq!(order, vec![1, 4, 2, 3, 0]);
    let mut k: usize = 0;
    while k + 1 < order.len() {
        assert!(squared[order[k]] >= squared[order[k + 1]]);
        k += 1;
    }
    assert_eq!(bytes.len(), 48 * places.len());
    // The buffer starts with the position of the farthest sprite.
    assert_eq!(&bytes[0..4], &9.0f32.to_le_bytes());
    assert_eq!(&bytes[4..8], &9.0f32.to_le_bytes());
    // The last sprite of the buffer is the nearest one.
    assert_eq!(&bytes[48 * 4..48 * 4 + 4], &2.5f32.to_le_bytes());
    // Handles still name the sprites they were given for.
    assert_eq!(registry.sprite(0).position, bits(2.5, 2.0));
    assert_eq!(registry.sprite(3).position, bits(0.0, 0.0));
}

#[test]
fn sprites_at_one_distance_keep_their_order() {
    let mut registry = registry_of_two_kinds();
    let mut i: usize = 0;
    while i < 6 {
        registry.instantiate(&String::from("barrel"), &bits(i as f32, 0.0), &bits(1.0, 0.0));
        i += 1;
    }
    let distances: Vec<u32> = vec![1.0f32, 4.0, 1.0, 4.0, 9.0, 1.0].iter().map(|d| d.to_bits()).collect();
    registry.sort(&distances);
    let order: Vec<usize> = (0..6).map(|slot| registry.handle_at(slot)).collect();
    assert_eq!(order, vec![4, 1, 3, 0, 2, 5]);
    // Sorting again from the new order changes nothing.
    registry.sort(&distances);
    let again: Vec<usize> = (0..6).map(|slot| registry.handle_at(slot)).collect();
    assert_eq!(again, order);
    // With other distances the sprites of one distance keep the order they had.
    let level: Vec<u32> = vec![0.0f32.to_bits(); 6];
    registry.sort(&level);
    let kept: Vec<usize> = (0..6).map(|slot| registry.handle_at(slot)).collect();
    assert_eq!(kept, order);
}

#[test]
fn update_of_an_empty_registry_uploads_nothing() {
    let mut registry = registry_of_two_kinds();
    let bytes: Vec<u8> = registry.update(&Vec::new());
    assert!(bytes.is_empty());
}

#[test]
fn moving_a_sprite_steps_its_animation() {
    let mut registry = registry_of_two_kinds();
    registry.instantiate(&String::from("guard"), &bits(0.0, 0.0), &bits(1.0, 0.0));
    registry.instantiate(&String::from("guard"), &bits(5.0, 5.0), &bits(1.0, 0.0));
    let mut step: i32 = 0;
    while step < 30 {
        registry.move_by(1, bits(5.0 + step as f32, 5.0));
        step += 1;
    }
    assert_eq!(registry.sprite(1).animation_index, 1);
    assert_eq!(registry.sprite(1).animation_tick, 0);
    assert_eq!(registry.sprite(1).position, bits(34.0, 5.0));
    assert_eq!(registry.sprite(0).animation_index, 0);
    assert_eq!(registry.sprite(0).animation_tick, 0);
    assert_eq!(registry.sprite(0).position, bits(0.0, 0.0));
}

#[test]
fn preprocessing_result_is_read_at_its_place() {
    let mut registry = registry_of_two_kinds();
    registry.instantiate(&String::from("guard"), &bits(0.0, 0.0), &bits(1.0, 0.0));
    registry.instantiate(&String::from("guard"), &bits(5.0, 5.0), &bits(1.0, 0.0));
    let mut results: Vec<u8> = vec![0u8; 40];
    for field in [64i32, 128, 5, 40, 10, 50, 320] {
        results.extend_from_slice(&field.to_le_bytes());
    }
    results.extend_from_slice(&[0u8; 4]);
    results.extend_from_slice(&(-1.5f64).to_le_bytes());
    let first: SpritePreprocessResult = registry.preprocess_result(&results, 0);
    assert_eq!(first, SpritePreprocessResult::default());
    let second: SpritePreprocessResult = registry.preprocess_result(&results, 1);
    assert_eq!(second.sprite_width, 64);
    assert_eq!(second.sprite_height, 128);
    assert_eq!(second.draw_start_y, 5);
    assert_eq!(second.draw_end_y, 40);
    assert_eq!(second.draw_start_x, 10);
    assert_eq!(second.draw_end_x, 50);
    assert_eq!(second.sprite_screen_x, 320);
    assert_eq!(second.transform_y, (-1.5f64).to_bits());
}

#[test]
fn atlas_offsets_follow_each_other() {
    let world_sheet = sheet(8, 8, 2, 2);
    let sheets: Vec<Tilesheet> = vec![sheet(12, 4, 3, 2), sheet(5, 9, 1, 1), sheet(4, 2, 4, 1)];
    let atlas: Atlas = Atlas::plan(&world_sheet, &sheets).unwrap();
    assert_eq!(atlas.offsets, vec![4, 10, 11]);
    assert_eq!(atlas.depth, 15);
    assert_eq!(atlas.width, 5);
    assert_eq!(atlas.height, 9);
    let mut i: usize = 0;
    while i + 1 < sheets.len() {
        assert_eq!(atlas.offsets[i] + sheets[i].tile_count(), atlas.offsets[i + 1]);
        assert!(atlas.offsets[i] < atlas.offsets[i + 1]);
        i += 1;
    }
    assert_eq!(atlas.offsets[0], world_sheet.tile_count());
    assert_eq!(atlas.offsets[2] + sheets[2].tile_count(), atlas.depth);
}

#[test]
fn atlas_of_the_world_sheet_alone() {
    let world_sheet = sheet(8, 6, 2, 3);
    let atlas: Atlas = Atlas::plan(&world_sheet, &Vec::new()).unwrap();
    assert!(atlas.offsets.is_empty());
    assert_eq!(atlas.depth, 6);
    assert_eq!(atlas.width, 4);
    assert_eq!(atlas.height, 2);
}

fn keys(distances: &[f32]) -> Vec<u32> {
    distances.iter().map(|d| d.to_bits()).collect()
}

#[test]
fn create_makes_a_template_for_each_sheet() {
    let world_sheet = sheet(8, 8, 2, 2);
    let names: Vec<String> = vec![String::from("guard"), String::from("barrel")];
    let sheets: Vec<Tilesheet> = vec![sheet(12, 4, 3, 2), sheet(5, 9, 1, 1)];
    let placements: Vec<(String, Vector2<u32>, Vector2<u32>)> = vec![
        (String::from("barrel"), bits(1.0, 1.0), bits(1.0, 0.0)),
        (String::from("ghost"), bits(2.0, 2.0), bits(1.0, 0.0)),
        (String::from("guard"), bits(3.0, 3.0), bits(0.0, 1.0)),
    ];
    let distances: Vec<u32> = keys(&[2.0, 50.0, 8.0]);
    let (registry, atlas, bytes) =
        match SpriteRegistry::create(&world_sheet, &placements, &distances, &names, &sheets) {
            Ok(made) => made,
            Err(e) => panic!("no registry: {:?}", e),
        };
    assert_eq!(atlas.offsets, vec![4, 10]);
    assert_eq!(atlas.depth, 11);
    assert_eq!(registry.template(&String::from("guard")), Some(SpriteTemplate::new(4, 2, 2, 4, 2)));
    assert_eq!(registry.template(&String::from("barrel")), Some(SpriteTemplate::new(10, 0, 1, 5, 9)));
    assert_eq!(registry.template(&String::from("ghost")), None);
    assert_eq!(registry.count(), 2);
    assert_eq!(registry.capacity(), 4);
    assert_eq!(registry.sprite(0).position, bits(1.0, 1.0));
    assert_eq!(registry.sprite(0).template, SpriteTemplate::new(10, 0, 1, 5, 9));
    assert_eq!(registry.sprite(0).animation_index, 0);
    assert_eq!(registry.sprite(1).position, bits(3.0, 3.0));
    assert_eq!(registry.sprite(1).direction, bits(0.0, 1.0));
    assert_eq!(registry.sprite(1).template, SpriteTemplate::new(4, 2, 2, 4, 2));
    // The sprite placed later is farther away, and is drawn first.
    assert_eq!(registry.handle_at(0), 1);
    assert_eq!(registry.handle_at(1), 0);
    assert_eq!(bytes.len(), 2 * 48);
    assert_eq!(&bytes[0..4], &3.0f32.to_le_bytes());
    assert_eq!(&bytes[48..52], &1.0f32.to_le_bytes());
}

#[test]
fn create_sorts_by_the_key_of_each_placement() {
    let world_sheet = sheet(8, 8, 2, 2);
    let names: Vec<String> = vec![String::from("guard")];
    let sheets: Vec<Tilesheet> = vec![sheet(12, 4, 3, 2)];
    let placements: Vec<(String, Vector2<u32>, Vector2<u32>)> = vec![
        (String::from("guard"), bits(1.0, 1.0), bits(1.0, 0.0)),
        (String::from("ghost"), bits(2.0, 2.0), bits(1.0, 0.0)),
        (String::from("guard"), bits(3.0, 3.0), bits(0.0, 1.0)),
        (String::from("guard"), bits(4.0, 4.0), bits(0.0, 1.0)),
        (String::from("guard"), bits(5.0, 5.0), bits(0.0, 1.0)),
    ];
    // The key of the sprite that is left out is the largest, and counts for nothing.
    let distances: Vec<u32> = keys(&[2.0, 50.0, 1.0, 2.0, 9.0]);
    let (registry, _atlas, bytes) =
        SpriteRegistry::create(&world_sheet, &placements, &distances, &names, &sheets).ok().unwrap();
    assert_eq!(registry.count(), 4);
    let order: Vec<usize> = (0..4).map(|slot| registry.handle_at(slot)).collect();
    // Farthest first; the two sprites at one distance in the order of placement.
    assert_eq!(order, vec![3, 0, 2, 1]);
    let placed: Vec<f32> = vec![2.0, 1.0, 2.0, 9.0];
    let mut slot: usize = 0;
    while slot + 1 < order.len() {
        assert!(placed[order[slot]] >= placed[order[slot + 1]]);
        slot += 1;
    }
    assert_eq!(&bytes[0..4], &5.0f32.to_le_bytes());
    assert_eq!(&bytes[48..52], &1.0f32.to_le_bytes());
    assert_eq!(&bytes[96..100], &4.0f32.to_le_bytes());
    assert_eq!(&bytes[144..148], &3.0f32.to_le_bytes());
}

#[test]
fn create_without_sprites_uploads_nothing() {
    let world_sheet = sheet(8, 8, 2, 2);
    let (registry, atlas, bytes) =
        SpriteRegistry::create(&world_sheet, &Vec::new(), &Vec::new(), &Vec::new(), &Vec::new()).ok().unwrap();
    assert_eq!(registry.count(), 0);
    assert_eq!(registry.capacity(), 1);
    assert_eq!(registry.buffer_sizes(), (48, 40));
    assert_eq!(atlas.depth, 4);
    assert!(bytes.is_empty());
}

#[test]
fn both_buffers_grow_with_the_capacity() {
    let mut registry = registry_of_two_kinds();
    assert_eq!(registry.buffer_sizes(), (48, 40));
    let mut i: u64 = 0;
    while i < 9 {
        registry.instantiate(&String::from("guard"), &bits(0.0, 0.0), &bits(1.0, 0.0));
        i += 1;
        let capacity: u64 = registry.capacity();
        assert_eq!(registry.buffer_sizes(), (capacity * 48, capacity * 40));
        // Every sprite and its result have their place.
        assert!(registry.buffer_sizes().0 >= 48 * registry.count() as u64);
        assert!(registry.buffer_sizes().1 >= 40 * registry.count() as u64);
    }
    assert_eq!(registry.buffer_sizes(), (16 * 48, 16 * 40));
}

#[test]
fn create_wants_a_name_for_each_sheet() {
    let world_sheet = sheet(8, 8, 2, 2);
    let names: Vec<String> = vec![String::from("guard")];
    let sheets: Vec<Tilesheet> = vec![sheet(12, 4, 3, 2), sheet(5, 9, 1, 1)];
    let made = SpriteRegistry::create(&world_sheet, &Vec::new(), &Vec::new(), &names, &sheets);
    assert!(matches!(made, Err(RegistryError::NameCount)));
}

#[test]
fn sheets_that_cannot_be_cut_are_left_out() {
    let sources: Vec<SheetSource> = vec![
        SheetSource {
            name: String::from("guard"),
            asset: SpriteAsset { file: String::from("guard.png"), columns: 3, rows: 2 },
            picture: blank_picture(12, 4),
        },
        SheetSource {
            name: String::from("broken"),
            asset: SpriteAsset { file: String::from("broken.png"), columns: 0, rows: 2 },
            picture: blank_picture(12, 4),
        },
        SheetSource {
            name: String::from("barrel"),
            asset: SpriteAsset { file: String::from("barrel.png"), columns: 1, rows: 1 },
            picture: blank_picture(5, 9),
        },
    ];
    let (names, sheets) = SpriteRegistry::assets_to_tilesheets(&sources);
    assert_eq!(names, vec![String::from("guard"), String::from("barrel")]);
    assert_eq!(sheets.len(), 2);
    assert_eq!(sheets[0].tile_count(), 6);
    assert_eq!(sheets[0].tile_width(), 4);
    assert_eq!(sheets[1].tile_count(), 1);
    assert_eq!(sheets[1].tile_height(), 9);
    // The kind whose sheet was left out cannot be placed.
    let world_sheet = sheet(8, 8, 2, 2);
    let (mut registry, _atlas, _bytes) =
        SpriteRegistry::create(&world_sheet, &Vec::new(), &Vec::new(), &names, &sheets).ok().unwrap();
    assert_eq!(registry.instantiate(&String::from("broken"), &bits(0.0, 0.0), &bits(1.0, 0.0)), None);
    assert_eq!(registry.instantiate(&String::from("barrel"), &bits(0.0, 0.0), &bits(1.0, 0.0)), Some(0));
}

#[test]
fn atlas_cannot_hold_more_tiles_than_an_i32_counts() {
    // A sheet of as many tiles as the limit allows, each of no pixels.
    let empty = Picture::from_raw(0, 0, Vec::new()).unwrap();
    let asset = SpriteAsset { file: String::from("empty.png"), columns: 0x7fff_ffff, rows: 1 };
    let huge = Tilesheet::from(&asset, &empty).unwrap();
    assert_eq!(huge.tile_count(), i32::MAX);
    assert_eq!(huge.tile_width(), 0);
    let world_sheet = sheet(8, 8, 2, 2);
    let names: Vec<String> = vec![String::from("huge")];
    let sheets: Vec<Tilesheet> = vec![huge];
    assert!(Atlas::plan(&world_sheet, &sheets).is_none());
    let made = SpriteRegistry::create(&world_sheet, &Vec::new(), &Vec::new(), &names, &sheets);
    assert!(matches!(made, Err(RegistryError::TooManyTiles)));
}
