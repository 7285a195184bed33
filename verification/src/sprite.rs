//! Sprite compositing: what a draw does to the screen, stated pixel by
//! pixel.
//!
//! A sprite is `n` rows of eight pixels, one byte per row, the most
//! significant bit leftmost. It is placed with its top left corner at
//! column `Vx mod 64`, row `Vy mod 32`. The part of a sprite that would
//! fall beyond the right or the bottom edge of the screen is clipped: it is
//! not drawn, and it does not wrap round to the other side.

use vstd::prelude::*;
use crate::instruction::Instruction;
use crate::machine::{Machine, SCREEN_HEIGHT, SCREEN_WIDTH};

verus! {

/// Bit `col` of `byte`, counted from the most significant bit.
pub open spec fn sprite_bit(byte: u8, col: int) -> bool
    recommends
        0 <= col < 8,
{
    (byte as int / pow2_small(7 - col)) % 2 == 1
}

/// Two to the power `k`, for the eight bit positions of a byte.
pub open spec fn pow2_small(k: int) -> int {
    if k == 0 {
        1
    } else if k == 1 {
        2
    } else if k == 2 {
        4
    } else if k == 3 {
        8
    } else if k == 4 {
        16
    } else if k == 5 {
        32
    } else if k == 6 {
        64
    } else {
        128
    }
}

/// The column of the screen at which the sprite of `ins` starts.
pub open spec fn sprite_left(s: Machine, ins: Instruction) -> int {
    (s.v[ins.x as int] as int) % (SCREEN_WIDTH as int)
}

/// The row of the screen at which the sprite of `ins` starts.
pub open spec fn sprite_top(s: Machine, ins: Instruction) -> int {
    (s.v[ins.y as int] as int) % (SCREEN_HEIGHT as int)
}

/// Whether the sprite of `ins` has a set bit over the pixel in column `px`
/// of row `py`.
pub open spec fn sprite_covers(s: Machine, ins: Instruction, px: int, py: int) -> bool {
    let left = sprite_left(s, ins);
    let top = sprite_top(s, ins);
    &&& left <= px < left + 8
    &&& top <= py < top + ins.n
    &&& sprite_bit(s.memory[s.i + (py - top)], px - left)
}

/// Whether the sprite of `ins` toggles the pixel at index `k` of the
/// screen.
pub open spec fn sprite_hits(s: Machine, ins: Instruction, k: int) -> bool {
    &&& 0 <= k < SCREEN_WIDTH * SCREEN_HEIGHT
    &&& sprite_covers(s, ins, k % (SCREEN_WIDTH as int), k / (SCREEN_WIDTH as int))
}

/// Whether the sprite of `ins` has a set bit over a pixel that is on.
pub open spec fn sprite_collides(s: Machine, ins: Instruction) -> bool {
    exists|k: int| #[trigger] sprite_hits(s, ins, k) && s.pixels[k]
}

/// The screen after the sprite of `ins` is drawn: each pixel under a set
/// bit of the sprite is flipped, every other pixel is kept.
pub open spec fn sprite_drawn(s: Machine, ins: Instruction) -> Seq<bool> {
    Seq::new(
        (SCREEN_WIDTH * SCREEN_HEIGHT) as nat,
        |k: int| s.pixels[k] != sprite_hits(s, ins, k),
    )
}

/// Whether the sprite of `ins` toggles the pixel at index `k`, and that
/// pixel comes before column `x` of row `y` in reading order.
pub open spec fn sprite_hits_before(s: Machine, ins: Instruction, k: int, x: int, y: int) -> bool {
    let col = k % (SCREEN_WIDTH as int);
    let row = k / (SCREEN_WIDTH as int);
    &&& sprite_hits(s, ins, k)
    &&& row < y || (row == y && col < x)
}

/// Whether the sprite of `ins` has a set bit over a pixel that is on and
/// comes before column `x` of row `y` in reading order.
pub open spec fn sprite_collides_before(s: Machine, ins: Instruction, x: int, y: int) -> bool {
    exists|k: int| #[trigger] sprite_hits_before(s, ins, k, x, y) && s.pixels[k]
}

/// Two places in reading order with the same toggled pixels before them
/// have the same collisions before them.
pub proof fn lemma_collides_before_same(
    s: Machine,
    ins: Instruction,
    x1: int,
    y1: int,
    x2: int,
    y2: int,
)
    requires
        forall|k: int| #[trigger]
            sprite_hits_before(s, ins, k, x1, y1) == sprite_hits_before(s, ins, k, x2, y2),
    ensures
        sprite_collides_before(s, ins, x1, y1) == sprite_collides_before(s, ins, x2, y2),
{
    if sprite_collides_before(s, ins, x1, y1) {
        let k = choose|k: int| #[trigger] sprite_hits_before(s, ins, k, x1, y1) && s.pixels[k];
        assert(sprite_hits_before(s, ins, k, x2, y2));
    }
    if sprite_collides_before(s, ins, x2, y2) {
        let k = choose|k: int| #[trigger] sprite_hits_before(s, ins, k, x2, y2) && s.pixels[k];
        assert(sprite_hits_before(s, ins, k, x1, y1));
    }
}

/// The bit that a mask picks from a sprite row is the bit that division
/// gives.
pub proof fn lemma_sprite_bit(byte: u8, col: u8)
    requires
        col < 8,
    ensures
        sprite_bit(byte, col as int) == (byte & (0x80u8 >> col) != 0),
{
    if col == 0 {
        assert((byte & (0x80u8 >> 0u8) != 0) == ((byte / 128) % 2 == 1)) by (bit_vector);
    } else if col == 1 {
        assert((byte & (0x80u8 >> 1u8) != 0) == ((byte / 64) % 2 == 1)) by (bit_vector);
    } else if col == 2 {
        assert((byte & (0x80u8 >> 2u8) != 0) == ((byte / 32) % 2 == 1)) by (bit_vector);
    } else if col == 3 {
        assert((byte & (0x80u8 >> 3u8) != 0) == ((byte / 16) % 2 == 1)) by (bit_vector);
    } else if col == 4 {
        assert((byte & (0x80u8 >> 4u8) != 0) == ((byte / 8) % 2 == 1)) by (bit_vector);
    } else if col == 5 {
        assert((byte & (0x80u8 >> 5u8) != 0) == ((byte / 4) % 2 == 1)) by (bit_vector);
    } else if col == 6 {
        assert((byte & (0x80u8 >> 6u8) != 0) == ((byte / 2) % 2 == 1)) by (bit_vector);
    } else {
        assert((byte & (0x80u8 >> 7u8) != 0) == ((byte / 1) % 2 == 1)) by (bit_vector);
    }
}

} // verus!
