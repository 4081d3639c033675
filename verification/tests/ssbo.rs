use raster::sprite::{Sprite, SpritePreprocessResult, SpriteTemplate};
use raster::ssbo::{
    push_i32, push_sprite, push_template, push_u32, read_i32, read_preprocess_result, read_u32,
    DOUBLE, FLOAT, INT, ISSBO, PREPROCESS_RESULT_SIZE, SPRITE_SIZE, SPRITE_TEMPLATE_SIZE,
};
use raster::vector::Vector2;

#[test]
fn sizes_of_numbers_in_a_buffer() {
    assert_eq!(INT, 4);
    assert_eq!(FLOAT, 4);
    assert_eq!(DOUBLE, 8);
}

#[test]
fn word_is_stored_least_significant_byte_first() {
    let mut buffer: Vec<u8> = vec![9];
    push_u32(&mut buffer, 0x0403_0201);
    assert_eq!(buffer, vec![9, 1, 2, 3, 4]);
    assert_eq!(buffer[1..], 0x0403_0201u32.to_le_bytes());
}

#[test]
fn signed_number_is_stored_in_twos_complement() {
    let mut buffer: Vec<u8> = Vec::new();
    push_i32(&mut buffer, -1);
    push_i32(&mut buffer, -2);
    push_i32(&mut buffer, i32::MIN);
    push_i32(&mut buffer, i32::MAX);
    push_i32(&mut buffer, 0);
    let mut expected: Vec<u8> = Vec::new();
    expected.extend_from_slice(&(-1i32).to_le_bytes());
    expected.extend_from_slice(&(-2i32).to_le_bytes());
    expected.extend_from_slice(&i32::MIN.to_le_bytes());
    expected.extend_from_slice(&i32::MAX.to_le_bytes());
    expected.extend_from_slice(&0i32.to_le_bytes());
    assert_eq!(buffer, expected);
    assert_eq!(&buffer[0..4], &[0xff, 0xff, 0xff, 0xff]);
}

#[test]
fn reading_gives_back_what_was_written() {
    let values: Vec<i32> = vec![0, 1, -1, 255, 256, -256, 65536, i32::MAX, i32::MIN, 123456789];
    let mut buffer: Vec<u8> = Vec::new();
    for value in &values {
        push_i32(&mut buffer, *value);
    }
    let mut i: usize = 0;
    while i < values.len() {
        assert_eq!(read_i32(&buffer, i * 4), values[i]);
        assert_eq!(read_u32(&buffer, i * 4), values[i] as u32);
        i += 1;
    }
}

#[test]
fn words_are_stored_one_after_another() {
    let words: Vec<u32> = vec![1, 0x100, 0xffff_ffff];
    assert_eq!(words.gpu_format(), vec![1, 0, 0, 0, 0, 1, 0, 0, 0xff, 0xff, 0xff, 0xff]);
    let none: Vec<u32> = Vec::new();
    assert!(none.gpu_format().is_empty());
}

#[test]
fn template_is_stored_field_by_field() {
    let template = SpriteTemplate::new(1, 2, 3, 4, -5);
    let bytes: Vec<u8> = template.gpu_format();
    assert_eq!(bytes.len(), SPRITE_TEMPLATE_SIZE);
    assert_eq!(SPRITE_TEMPLATE_SIZE, 20);
    assert_eq!(
        bytes,
        vec![1, 0, 0, 0, 2, 0, 0, 0, 3, 0, 0, 0, 4, 0, 0, 0, 0xfb, 0xff, 0xff, 0xff]
    );
    let mut appended: Vec<u8> = vec![7];
    push_template(&mut appended, &template);
    assert_eq!(&appended[1..], &bytes[..]);
}

#[test]
fn sprite_is_stored_as_twelve_words() {
    let template = SpriteTemplate::new(10, 3, 8, 16, 32);
    let mut sprite = Sprite::new(
        Vector2::new(1.5f32.to_bits(), 2.5f32.to_bits()),
        Vector2::new(0.0f32.to_bits(), (-1.0f32).to_bits()),
        &template,
    );
    sprite.animation_index = 2;
    sprite.animation_tick = 7;
    let bytes: Vec<u8> = sprite.gpu_format();
    assert_eq!(bytes.len(), SPRITE_SIZE);
    assert_eq!(SPRITE_SIZE, 48);
    let mut expected: Vec<u8> = Vec::new();
    expected.extend_from_slice(&1.5f32.to_le_bytes());
    expected.extend_from_slice(&2.5f32.to_le_bytes());
    expected.extend_from_slice(&0.0f32.to_le_bytes());
    expected.extend_from_slice(&(-1.0f32).to_le_bytes());
    for field in [10i32, 3, 8, 16, 32, 2, 30, 7] {
        expected.extend_from_slice(&field.to_le_bytes());
    }
    assert_eq!(bytes, expected);
    let mut appended: Vec<u8> = Vec::new();
    push_sprite(&mut appended, &sprite);
    assert_eq!(appended, expected);
}

#[test]
fn preprocessing_result_is_read_from_forty_bytes() {
    assert_eq!(PREPROCESS_RESULT_SIZE, 40);
    let mut bytes: Vec<u8> = vec![0xaa; 3];
    for field in [64i32, 128, 5, 40, 10, 50, -33] {
        bytes.extend_from_slice(&field.to_le_bytes());
    }
    bytes.extend_from_slice(&[0xee; 4]);
    bytes.extend_from_slice(&2.0f64.to_le_bytes());
    let result: SpritePreprocessResult = read_preprocess_result(&bytes, 3);
    assert_eq!(result.sprite_width, 64);
    assert_eq!(result.sprite_height, 128);
    assert_eq!(result.draw_start_y, 5);
    assert_eq!(result.draw_end_y, 40);
    assert_eq!(result.draw_start_x, 10);
    assert_eq!(result.draw_end_x, 50);
    assert_eq!(result.sprite_screen_x, -33);
    assert_eq!(result.transform_y, 2.0f64.to_bits());
    assert_eq!(f64::from_bits(result.transform_y), 2.0);
}
