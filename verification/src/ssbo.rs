//! The byte layout of what goes into and comes out of shader storage buffers:
//! 32-bit words, least significant byte first, the fields of a record in the
//! order of their declaration.

use crate::sprite::{Sprite, SpritePreprocessResult, SpriteTemplate};
use vstd::prelude::*;

verus! {

/// Size of a 32-bit integer in a buffer, in bytes.
pub const INT: isize = 4;

/// Size of a single-precision number in a buffer, in bytes.
pub const FLOAT: isize = 4;

/// Size of a double-precision number in a buffer, in bytes.
pub const DOUBLE: isize = 8;

/// Size of a sprite in the sprite buffer, in bytes.
pub const SPRITE_SIZE: usize = 48;

/// Size of a sprite template in a buffer, in bytes.
pub const SPRITE_TEMPLATE_SIZE: usize = 20;

/// Size of a preprocessing result in the result buffer, in bytes: seven 32-bit
/// fields, four bytes that hold nothing, and the 64-bit depth.
pub const PREPROCESS_RESULT_SIZE: usize = 40;

/// The four bytes of a word, least significant first.
pub open spec fn u32_bytes(x: u32) -> Seq<u8> {
    seq![
        (x % 256) as u8,
        (x / 256 % 256) as u8,
        (x / 65536 % 256) as u8,
        (x / 16777216) as u8,
    ]
}

/// The word that four bytes spell, least significant first.
pub open spec fn u32_of_bytes(b0: u8, b1: u8, b2: u8, b3: u8) -> u32 {
    (b0 + b1 * 256 + b2 * 65536 + b3 * 16777216) as u32
}

/// The word that holds a signed number in two's complement.
pub open spec fn i32_word(x: i32) -> u32 {
    if x >= 0 {
        x as u32
    } else {
        (x + 0x1_0000_0000) as u32
    }
}

/// The signed number that a word holds in two's complement.
pub open spec fn word_i32(w: u32) -> i32 {
    if w < 0x8000_0000 {
        w as i32
    } else {
        (w - 0x1_0000_0000) as i32
    }
}

/// The four bytes of a signed number.
pub open spec fn i32_bytes(x: i32) -> Seq<u8> {
    u32_bytes(i32_word(x))
}

/// The bytes of a sequence of words, one word after another.
pub open spec fn words_bytes(words: Seq<u32>) -> Seq<u8>
    decreases words.len(),
{
    if words.len() == 0 {
        Seq::empty()
    } else {
        words_bytes(words.drop_last()) + u32_bytes(words.last())
    }
}

/// The bytes of a sprite template: its five fields.
pub open spec fn template_bytes(t: SpriteTemplate) -> Seq<u8> {
    i32_bytes(t.texture_base_index) + i32_bytes(t.animation_count) + i32_bytes(t.view_angle_count)
        + i32_bytes(t.tile_width) + i32_bytes(t.tile_height)
}

/// The bytes of a sprite: position, direction, template and animation state.
pub open spec fn sprite_bytes(s: Sprite) -> Seq<u8> {
    u32_bytes(s.position.x) + u32_bytes(s.position.y) + u32_bytes(s.direction.x) + u32_bytes(
        s.direction.y,
    ) + template_bytes(s.template) + i32_bytes(s.animation_index) + i32_bytes(
        s.animation_tick_period,
    ) + i32_bytes(s.animation_tick)
}

/// Appends the bytes of a word.
pub fn push_u32(buffer: &mut Vec<u8>, x: u32)
    ensures
        final(buffer)@ == old(buffer)@ + u32_bytes(x),
{
    buffer.push((x % 256) as u8);
    buffer.push((x / 256 % 256) as u8);
    buffer.push((x / 65536 % 256) as u8);
    buffer.push((x / 16777216) as u8);
    assert(buffer@ =~= old(buffer)@ + u32_bytes(x));
}

/// Appends the bytes of a signed number.
pub fn push_i32(buffer: &mut Vec<u8>, x: i32)
    ensures
        final(buffer)@ == old(buffer)@ + i32_bytes(x),
{
    let word: u32 = if x >= 0 {
        x as u32
    } else {
        (x as i64 + 0x1_0000_0000) as u32
    };
    push_u32(buffer, word);
}

/// The word at `at` in `bytes`.
pub fn read_u32(bytes: &[u8], at: usize) -> (r: u32)
    requires
        at + 4 <= bytes@.len(),
    ensures
        r == u32_of_bytes(
            bytes@[at as int],
            bytes@[at + 1],
            bytes@[at + 2],
            bytes@[at + 3],
        ),
{
    bytes[at] as u32 + bytes[at + 1] as u32 * 256 + bytes[at + 2] as u32 * 65536 + bytes[at
        + 3] as u32 * 16777216
}

/// The signed number at `at` in `bytes`.
pub fn read_i32(bytes: &[u8], at: usize) -> (r: i32)
    requires
        at + 4 <= bytes@.len(),
    ensures
        r == word_i32(
            u32_of_bytes(bytes@[at as int], bytes@[at + 1], bytes@[at + 2], bytes@[at + 3]),
        ),
{
    let word: u32 = read_u32(bytes, at);
    if word < 0x8000_0000 {
        word as i32
    } else {
        (word as i64 - 0x1_0000_0000) as i32
    }
}

/// The signed number that the four bytes from `at` on spell.
pub open spec fn i32_at(bytes: Seq<u8>, at: int) -> i32 {
    word_i32(u32_of_bytes(bytes[at], bytes[at + 1], bytes[at + 2], bytes[at + 3]))
}

/// The 64-bit word that the eight bytes from `at` on spell.
pub open spec fn u64_at(bytes: Seq<u8>, at: int) -> u64 {
    (u32_of_bytes(bytes[at], bytes[at + 1], bytes[at + 2], bytes[at + 3]) + u32_of_bytes(
        bytes[at + 4],
        bytes[at + 5],
        bytes[at + 6],
        bytes[at + 7],
    ) * 0x1_0000_0000) as u64
}

/// The preprocessing result that the bytes from `at` on hold.
pub open spec fn preprocess_result_at(bytes: Seq<u8>, at: int) -> SpritePreprocessResult {
    SpritePreprocessResult {
        sprite_width: i32_at(bytes, at),
        sprite_height: i32_at(bytes, at + 4),
        draw_start_y: i32_at(bytes, at + 8),
        draw_end_y: i32_at(bytes, at + 12),
        draw_start_x: i32_at(bytes, at + 16),
        draw_end_x: i32_at(bytes, at + 20),
        sprite_screen_x: i32_at(bytes, at + 24),
        transform_y: u64_at(bytes, at + 32),
    }
}

/// The preprocessing result at `at` in `bytes`.
pub fn read_preprocess_result(bytes: &[u8], at: usize) -> (r: SpritePreprocessResult)
    requires
        at + PREPROCESS_RESULT_SIZE <= bytes@.len(),
    ensures
        r == preprocess_result_at(bytes@, at as int),
{
    // The length is a `usize`, and so is every offset below it.
    let _len: usize = bytes.len();
    let low: u64 = read_u32(bytes, at + 32) as u64;
    let high: u64 = read_u32(bytes, at + 36) as u64;
    SpritePreprocessResult {
        sprite_width: read_i32(bytes, at),
        sprite_height: read_i32(bytes, at + 4),
        draw_start_y: read_i32(bytes, at + 8),
        draw_end_y: read_i32(bytes, at + 12),
        draw_start_x: read_i32(bytes, at + 16),
        draw_end_x: read_i32(bytes, at + 20),
        sprite_screen_x: read_i32(bytes, at + 24),
        transform_y: low + high * 0x1_0000_0000,
    }
}

/// Reading gives back the word that was written.
pub proof fn lemma_u32_bytes_round_trip(x: u32)
    ensures
        u32_bytes(x).len() == 4,
        u32_of_bytes(u32_bytes(x)[0], u32_bytes(x)[1], u32_bytes(x)[2], u32_bytes(x)[3]) == x,
{
}

/// Reading gives back the signed number that was written.
pub proof fn lemma_i32_bytes_round_trip(x: i32)
    ensures
        i32_bytes(x).len() == 4,
        word_i32(
            u32_of_bytes(i32_bytes(x)[0], i32_bytes(x)[1], i32_bytes(x)[2], i32_bytes(x)[3]),
        ) == x,
{
    lemma_u32_bytes_round_trip(i32_word(x));
}

/// What can be stored in a shader storage buffer.
pub trait ISSBO {
    /// The bytes that the buffer holds for this value.
    spec fn gpu_bytes(&self) -> Seq<u8>;

    fn gpu_format(&self) -> (r: Vec<u8>)
        ensures
            r@ == self.gpu_bytes(),
    ;
}

impl ISSBO for Vec<u32> {
    open spec fn gpu_bytes(&self) -> Seq<u8> {
        words_bytes(self@)
    }

    fn gpu_format(&self) -> (r: Vec<u8>) {
        let mut out: Vec<u8> = Vec::new();
        let mut i: usize = 0;
        while i < self.len()
            invariant
                i <= self.len(),
                out@ == words_bytes(self@.take(i as int)),
            decreases self.len() - i,
        {
            proof {
                assert(self@.take(i + 1).drop_last() =~= self@.take(i as int));
            }
            push_u32(&mut out, self[i]);
            i = i + 1;
        }
        proof {
            assert(self@.take(i as int) =~= self@);
        }
        out
    }
}

impl ISSBO for SpriteTemplate {
    open spec fn gpu_bytes(&self) -> Seq<u8> {
        template_bytes(*self)
    }

    fn gpu_format(&self) -> (r: Vec<u8>) {
        let mut out: Vec<u8> = Vec::new();
        push_template(&mut out, self);
        assert(out@ =~= template_bytes(*self));
        out
    }
}

impl ISSBO for Sprite {
    open spec fn gpu_bytes(&self) -> Seq<u8> {
        sprite_bytes(*self)
    }

    fn gpu_format(&self) -> (r: Vec<u8>) {
        let mut out: Vec<u8> = Vec::new();
        push_sprite(&mut out, self);
        assert(out@ =~= sprite_bytes(*self));
        out
    }
}

/// Appends the bytes of a sprite template.
pub fn push_template(buffer: &mut Vec<u8>, t: &SpriteTemplate)
    ensures
        final(buffer)@ == old(buffer)@ + template_bytes(*t),
        template_bytes(*t).len() == SPRITE_TEMPLATE_SIZE,
{
    push_i32(buffer, t.texture_base_index);
    push_i32(buffer, t.animation_count);
    push_i32(buffer, t.view_angle_count);
    push_i32(buffer, t.tile_width);
    push_i32(buffer, t.tile_height);
    assert(buffer@ =~= old(buffer)@ + template_bytes(*t));
}

/// Appends the bytes of a sprite.
pub fn push_sprite(buffer: &mut Vec<u8>, s: &Sprite)
    ensures
        final(buffer)@ == old(buffer)@ + sprite_bytes(*s),
        sprite_bytes(*s).len() == SPRITE_SIZE,
{
    push_u32(buffer, s.position.x);
    push_u32(buffer, s.position.y);
    push_u32(buffer, s.direction.x);
    push_u32(buffer, s.direction.y);
    push_template(buffer, &s.template);
    push_i32(buffer, s.animation_index);
    push_i32(buffer, s.animation_tick_period);
    push_i32(buffer, s.animation_tick);
    assert(buffer@ =~= old(buffer)@ + sprite_bytes(*s));
}

} // verus!
