//! What the machine asks of its surroundings: a screen to draw on, a
//! keypad to read and a program to load.
use vstd::prelude::*;
use crate::graphics::{blank_grid, draw_sprite, sprite_collides, valid_grid};
use crate::Key;

verus! {

pub trait GraphicsBuffer {
    /// The pixels, row by row from the top, each row from the left;
    /// a lit pixel is `1`, a dark one `0`.
    spec fn grid(&self) -> Seq<Seq<u8>>;

    /// Clears the entire screen with 0s; wipes everything from the screen.
    fn clear(&mut self)
        requires
            valid_grid(old(self).grid()),
        ensures
            final(self).grid() == blank_grid(),
            valid_grid(final(self).grid()),
    ;

    /// Draws a sprite on the screen, and returns `true` if a pixel on the screen was flipped from
    /// 1 to 0.
    /// `x`: top-left "x" coordinate on screen where to draw
    /// `y`: top-left "y" coordinate on screen where to draw
    /// `num_rows`: the height of the sprite; it is 8 pixels wide, one byte a row
    /// `ir`: The index register, which contains the area of memory to
    /// start reading the sprite from.
    /// `memory`: The memory from which to read the sprite.
    /// `clipping`: whether pixels past the right and bottom edges are
    /// dropped, or else drawn on the opposite side.
    fn draw(&mut self, x: u8, y: u8, num_rows: u8, ir: u16, memory: &[u8], clipping: bool) -> (flipped: bool)
        requires
            valid_grid(old(self).grid()),
            ir + num_rows <= memory@.len(),
        ensures
            final(self).grid() == draw_sprite(
                old(self).grid(),
                x as int % 64,
                y as int % 32,
                memory@.subrange(ir as int, ir + num_rows),
                clipping,
            ),
            flipped == sprite_collides(
                old(self).grid(),
                x as int % 64,
                y as int % 32,
                memory@.subrange(ir as int, ir + num_rows),
                clipping,
            ),
            valid_grid(final(self).grid()),
    ;

    fn buffer(&self) -> (rows: &Vec<Vec<u8>>)
        requires
            valid_grid(self.grid()),
        ensures
            rows.deep_view() == self.grid(),
    ;
}

/// Keeps track of the state of the keys. Chip8 uses 16 keys; this implementation
/// relies on  the following mapping:
///
/// | Keys   | Keys   | Keys   | Keys   |
/// |--------|--------|--------|--------|
/// | 1 (0x1) | 2 (0x2) | 3 (0x3) | 4 (0xC) |
/// | Q (0x4) | W (0x5) | E (0x6) | R (0xD) |
/// | A (0x7) | S (0x8) | D (0x9) | F (0xE) |
/// | Z (0xA) | X (0x0) | C (0xB) | V (0xF) |
///
/// based off of this diagram: <http://devernay.free.fr/hacks/chip8/C8TECH10.HTM#keyboard>
pub trait Input {
    /// The keys that are held down.
    spec fn held(&self) -> Set<Key>;

    /// Returns the state of the specified key. The hex code that the key is
    /// mapped to is used to access its state.
    fn is_pressed(&self, key: Key) -> (pressed: bool)
        ensures
            pressed == self.held().contains(key),
    ;
}

pub trait Rom {
    /// The bytes of the program, in the order in which they are loaded.
    spec fn bytes(&self) -> Seq<u8>;

    fn data(&self) -> (data: &Vec<u8>)
        ensures
            data@ == self.bytes(),
    ;
}

} // verus!
