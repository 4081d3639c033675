//! Sprite templates, the placed sprites made from them, and the record that the
//! sprite preprocessing stage leaves for each sprite.
//!
//! The tiles of a sprite kind lie in the atlas from `texture_base_index` on, one
//! row per view angle: the idle tile first, then the animation tiles.

use crate::vector::Vector2;
use vstd::arithmetic::div_mod::{lemma_fundamental_div_mod, lemma_fundamental_div_mod_converse};
use vstd::prelude::*;

verus! {

/// Movement steps between two animation frames of a new sprite.
pub const ANIMATION_TICK_PERIOD: i32 = 30;

/// Where the tiles of a sprite kind lie in the atlas, and their geometry.
#[derive(Clone, Copy, Debug, PartialEq, Eq, Structural)]
pub struct SpriteTemplate {
    pub texture_base_index: i32,
    pub animation_count: i32,
    pub view_angle_count: i32,
    pub tile_width: i32,
    pub tile_height: i32,
}

impl SpriteTemplate {
    pub fn new(
        texture_base_index: i32,
        animation_count: i32,
        view_angle_count: i32,
        tile_width: i32,
        tile_height: i32,
    ) -> (r: SpriteTemplate)
        ensures
            r == (SpriteTemplate {
                texture_base_index,
                animation_count,
                view_angle_count,
                tile_width,
                tile_height,
            }),
    {
        SpriteTemplate {
            texture_base_index,
            animation_count,
            view_angle_count,
            tile_width,
            tile_height,
        }
    }
}

/// A placed sprite. Position and direction hold the bit patterns of
/// single-precision numbers, which this library stores and hands on as they are.
#[derive(Clone, Copy, Debug, PartialEq, Eq, Structural)]
pub struct Sprite {
    pub position: Vector2<u32>,
    pub direction: Vector2<u32>,
    pub template: SpriteTemplate,
    pub animation_index: i32,
    pub animation_tick_period: i32,
    pub animation_tick: i32,
}

/// What the sprite preprocessing stage leaves for one sprite: its size and span
/// on the screen, and its depth in front of the camera. The depth holds the bit
/// pattern of a double-precision number.
#[derive(Clone, Copy, Debug, PartialEq, Eq, Structural)]
pub struct SpritePreprocessResult {
    pub sprite_width: i32,
    pub sprite_height: i32,
    pub draw_start_y: i32,
    pub draw_end_y: i32,
    pub draw_start_x: i32,
    pub draw_end_x: i32,
    pub sprite_screen_x: i32,
    pub transform_y: u64,
}

/// The bit pattern of positive infinity in double precision.
pub const POSITIVE_INFINITY_BITS: u64 = 0x7ff0_0000_0000_0000;

/// Whether `bits` is the bit pattern of a double-precision number above zero:
/// the sign bit is clear, the number is not zero, and it is a number at all.
pub open spec fn is_positive_double(bits: u64) -> bool {
    0 < bits <= POSITIVE_INFINITY_BITS
}

impl SpritePreprocessResult {
    /// Whether the sprite lies in front of the camera.
    pub open spec fn spec_in_front(&self) -> bool {
        is_positive_double(self.transform_y)
    }

    /// Whether the sprite lies in front of the camera.
    pub fn in_front(&self) -> (r: bool)
        ensures
            r == self.spec_in_front(),
    {
        0 < self.transform_y && self.transform_y <= POSITIVE_INFINITY_BITS
    }
}

impl Default for SpritePreprocessResult {
    fn default() -> (r: SpritePreprocessResult)
        ensures
            r == (SpritePreprocessResult {
                sprite_width: 0,
                sprite_height: 0,
                draw_start_y: 0,
                draw_end_y: 0,
                draw_start_x: 0,
                draw_end_x: 0,
                sprite_screen_x: 0,
                transform_y: 0,
            }),
    {
        SpritePreprocessResult {
            sprite_width: 0,
            sprite_height: 0,
            draw_start_y: 0,
            draw_end_y: 0,
            draw_start_x: 0,
            draw_end_x: 0,
            sprite_screen_x: 0,
            transform_y: 0,
        }
    }
}

/// The animation frame that follows `index`: the next one, or the first where
/// `index` was the last of `animation_count` frames.
pub open spec fn frame_after(index: int, animation_count: int) -> int {
    if index + 1 > animation_count {
        1
    } else {
        index + 1
    }
}

impl Sprite {
    /// The tick lies within its period and the frame within the template's frames
    /// (frame 0 is the idle tile, and frame 1 is taken even where the template has
    /// no animation tiles).
    pub open spec fn wf(&self) -> bool {
        &&& 0 <= self.animation_tick < self.animation_tick_period
        &&& 0 <= self.animation_index
        &&& self.animation_index <= self.template.animation_count || self.animation_index <= 1
        &&& self.template.animation_count < i32::MAX
    }

    /// The sprite after one movement step that takes it to `position`: the tick
    /// advances, and where it completes its period it starts over and the sprite
    /// shows its next frame, the first one if it was idle.
    pub open spec fn stepped(self, position: Vector2<u32>) -> Sprite {
        if self.animation_tick + 1 != self.animation_tick_period {
            Sprite { position, animation_tick: (self.animation_tick + 1) as i32, ..self }
        } else if self.animation_index > 0 {
            Sprite {
                position,
                animation_tick: 0,
                animation_index: frame_after(
                    self.animation_index as int,
                    self.template.animation_count as int,
                ) as i32,
                ..self
            }
        } else {
            Sprite { position, animation_tick: 0, animation_index: 1, ..self }
        }
    }

    /// An idle sprite of the given template.
    pub fn new(position: Vector2<u32>, direction: Vector2<u32>, template: &SpriteTemplate) -> (r:
        Sprite)
        ensures
            r == (Sprite {
                position,
                direction,
                template: *template,
                animation_index: 0,
                animation_tick_period: ANIMATION_TICK_PERIOD,
                animation_tick: 0,
            }),
            template.animation_count < i32::MAX ==> r.wf(),
    {
        Sprite {
            position,
            direction,
            animation_index: 0,
            template: *template,
            animation_tick_period: ANIMATION_TICK_PERIOD,
            animation_tick: 0,
        }
    }

    /// One movement step: the sprite is now at `position`, and its animation has
    /// advanced by one tick.
    pub fn move_by(&mut self, position: Vector2<u32>)
        requires
            old(self).wf(),
        ensures
            *final(self) == old(self).stepped(position),
            final(self).wf(),
    {
        self.position = position;
        self.animation_tick = self.animation_tick + 1;
        if self.animation_tick != self.animation_tick_period {
            return ;
        }
        if !self.animating() {
            self.start_animation();
        } else {
            self.next_frame();
        }
        self.animation_tick = 0;
    }

    pub fn position(&self) -> (r: &Vector2<u32>)
        ensures
            *r == self.position,
    {
        &self.position
    }

    /// Whether the sprite shows an animation frame, not the idle tile.
    pub fn animating(&self) -> (r: bool)
        ensures
            r == (self.animation_index > 0),
    {
        self.animation_index > 0
    }

    pub fn start_animation(&mut self)
        ensures
            *final(self) == (Sprite { animation_index: 1, ..*old(self) }),
    {
        self.animation_index = 1;
    }

    pub fn end_animation(&mut self)
        ensures
            *final(self) == (Sprite { animation_index: 0, ..*old(self) }),
    {
        self.animation_index = 0;
    }

    pub fn next_frame(&mut self)
        requires
            old(self).animation_index < i32::MAX,
        ensures
            *final(self) == (Sprite {
                animation_index: frame_after(
                    old(self).animation_index as int,
                    old(self).template.animation_count as int,
                ) as i32,
                ..*old(self)
            }),
    {
        self.animation_index = self.animation_index + 1;
        if self.animation_index > self.template.animation_count {
            self.animation_index = 1;
        }
    }
}

/// The frame that a sprite shows once `periods` tick periods are complete, if it
/// was idle at first: the idle tile before the first one, then the frames from 1
/// to `animation_count` in turn, again and again.
pub open spec fn frame_in_cycle(periods: int, animation_count: int) -> int {
    if periods <= 0 {
        0
    } else if animation_count <= 1 {
        1
    } else {
        (periods - 1) % animation_count + 1
    }
}

impl Sprite {
    /// The sprite after `n` movement steps on the spot.
    pub open spec fn after_steps(self, n: nat) -> Sprite
        decreases n,
    {
        if n == 0 {
            self
        } else {
            self.after_steps((n - 1) as nat).stepped(self.position)
        }
    }
}

/// Quotient and remainder of the successor of `n`.
proof fn lemma_successor_div_mod(n: int, d: int)
    requires
        0 <= n,
        0 < d,
    ensures
        n % d + 1 == d ==> (n + 1) % d == 0 && (n + 1) / d == n / d + 1,
        n % d + 1 != d ==> (n + 1) % d == n % d + 1 && (n + 1) / d == n / d,
        0 <= n % d < d,
        0 <= n / d,
{
    lemma_fundamental_div_mod(n, d);
    let q = n / d;
    let r = n % d;
    assert(n == q * d + r) by (nonlinear_arith)
        requires
            n == d * q + r,
    ;
    assert(0 <= q) by (nonlinear_arith)
        requires
            n == d * q + r,
            0 <= r < d,
            0 <= n,
    ;
    if r + 1 == d {
        assert(n + 1 == (q + 1) * d + 0) by (nonlinear_arith)
            requires
                n == q * d + r,
                r + 1 == d,
        ;
        lemma_fundamental_div_mod_converse(n + 1, d, q + 1, 0);
    } else {
        lemma_fundamental_div_mod_converse(n + 1, d, q, r + 1);
    }
}

/// The animation cycle: a well-formed sprite that is idle at tick 0 has, after `n`
/// movement steps, completed `n / animation_tick_period` periods, and shows the
/// frame that this number of periods gives.
pub proof fn lemma_animation_cycle(s: Sprite, n: nat)
    requires
        s.wf(),
        s.animation_index == 0,
        s.animation_tick == 0,
    ensures
        s.after_steps(n).wf(),
        s.after_steps(n).template == s.template,
        s.after_steps(n).animation_tick_period == s.animation_tick_period,
        s.after_steps(n).animation_tick == n as int % (s.animation_tick_period as int),
        s.after_steps(n).animation_index == frame_in_cycle(
            n as int / (s.animation_tick_period as int),
            s.template.animation_count as int,
        ),
    decreases n,
{
    let p = s.animation_tick_period as int;
    let count = s.template.animation_count as int;
    if n == 0 {
        lemma_fundamental_div_mod_converse(0, p, 0, 0);
    } else {
        let m = (n - 1) as nat;
        lemma_animation_cycle(s, m);
        lemma_successor_div_mod(m as int, p);
        let before = s.after_steps(m);
        let q = m as int / p;
        if before.animation_tick + 1 == p && count > 1 {
            if q >= 1 {
                lemma_successor_div_mod(q - 1, count);
            } else {
                lemma_fundamental_div_mod_converse(0, count, 0, 0);
            }
        }
    }
}

/// An idle sprite stays idle until its first tick period is complete and then
/// shows frame 1; after `animation_count` more periods it shows frame 1 again;
/// and it never shows a frame beyond `animation_count`.
pub proof fn lemma_animation_wraps(s: Sprite, n: nat)
    requires
        s.wf(),
        s.animation_index == 0,
        s.animation_tick == 0,
        s.template.animation_count >= 1,
    ensures
        n < s.animation_tick_period ==> s.after_steps(n).animation_index == 0,
        s.after_steps(s.animation_tick_period as nat).animation_index == 1,
        s.after_steps(
            (s.animation_tick_period + s.template.animation_count * s.animation_tick_period) as nat,
        ).animation_index == 1,
        s.after_steps(n).animation_index <= s.template.animation_count,
        s.after_steps(n).animation_index != s.template.animation_count + 1,
{
    let p = s.animation_tick_period as int;
    let count = s.template.animation_count as int;
    lemma_animation_cycle(s, n);
    lemma_animation_cycle(s, p as nat);
    assert(count * p >= 0) by (nonlinear_arith)
        requires
            count >= 1,
            p >= 1,
    ;
    lemma_animation_cycle(s, (p + count * p) as nat);
    if n < p {
        lemma_fundamental_div_mod_converse(n as int, p, 0, n as int);
    }
    lemma_fundamental_div_mod_converse(p, p, 1, 0);
    assert(p + count * p == (count + 1) * p + 0) by (nonlinear_arith);
    lemma_fundamental_div_mod_converse(p + count * p, p, count + 1, 0);
    if count > 1 {
        lemma_fundamental_div_mod_converse(count, count, 1, 0);
        lemma_fundamental_div_mod_converse(0, count, 0, 0);
        let q = n as int / p;
        if q >= 1 {
            lemma_fundamental_div_mod(q - 1, count);
            vstd::arithmetic::div_mod::lemma_mod_pos_bound(q - 1, count);
        }
    }
}

} // verus!
