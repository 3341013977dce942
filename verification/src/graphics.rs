//! The screen, and what drawing a sprite does to it.
use vstd::prelude::*;
use crate::traits::GraphicsBuffer;
use crate::{SCREEN_HEIGHT, SCREEN_WIDTH, SPRITE_WIDTH};

verus! {

pub const PIXEL_ON: u8 = 1;

/// A grid has 32 rows of 64 pixels, each of them `0` or `1`.
pub open spec fn valid_grid(grid: Seq<Seq<u8>>) -> bool {
    &&& grid.len() == 32
    &&& forall|r: int| 0 <= r < 32 ==> (#[trigger] grid[r]).len() == 64
    &&& forall|r: int, c: int| 0 <= r < 32 && 0 <= c < 64 ==> #[trigger] grid[r][c] <= 1
}

/// The grid with every pixel dark.
pub open spec fn blank_grid() -> Seq<Seq<u8>> {
    Seq::new(32, |r: int| Seq::new(64, |c: int| 0u8))
}

/// A lit pixel turned dark, a dark one lit.
pub open spec fn toggled(pixel: u8) -> u8 {
    if pixel == 0 {
        1
    } else {
        0
    }
}

/// Whether pixel `bit` of a sprite row is set. Pixel 0 is the leftmost
/// one, held in the highest bit of the byte.
pub open spec fn sprite_bit(byte: u8, bit: int) -> bool {
    (byte >> ((7 - bit) as u8)) & 1 == 1
}

/// The pixel of a sprite row that falls into screen column `c` when the
/// sprite's left edge is in column `x0` and pixels past the right edge
/// come back in on the left.
pub open spec fn sprite_column(x0: int, c: int) -> int {
    (c - x0) % 64
}

/// Whether pixel `bit` of the sprite row aimed at line `py` is drawn at
/// all. Without clipping every pixel is; with clipping only those that
/// are on the screen without wrapping around.
pub open spec fn pixel_drawn(x0: int, py: int, bit: int, clipping: bool) -> bool {
    !clipping || (py < 32 && x0 + bit < 64)
}

/// Whether drawing the first `width` pixels of a sprite row changes the
/// pixel in row `r`, column `c`. The sprite row is `byte`, its left edge
/// is in column `x0`, and it is aimed at line `py`, which may lie below
/// the screen.
pub open spec fn flips(x0: int, py: int, byte: u8, width: int, clipping: bool, r: int, c: int) -> bool {
    let bit = sprite_column(x0, c);
    &&& r == py % 32
    &&& bit < width
    &&& pixel_drawn(x0, py, bit, clipping)
    &&& sprite_bit(byte, bit)
}

/// The grid after the first `width` pixels of one sprite row are drawn.
pub open spec fn draw_row_part(
    grid: Seq<Seq<u8>>,
    x0: int,
    py: int,
    byte: u8,
    width: int,
    clipping: bool,
) -> Seq<Seq<u8>> {
    Seq::new(
        32,
        |r: int|
            Seq::new(
                64,
                |c: int|
                    if flips(x0, py, byte, width, clipping, r, c) {
                        toggled(grid[r][c])
                    } else {
                        grid[r][c]
                    },
            ),
    )
}

/// The grid after one whole sprite row is drawn.
pub open spec fn draw_row(grid: Seq<Seq<u8>>, x0: int, py: int, byte: u8, clipping: bool) -> Seq<
    Seq<u8>,
> {
    draw_row_part(grid, x0, py, byte, 8, clipping)
}

/// Whether pixel `bit` of a sprite row is drawn, is set, and lands on a
/// pixel that is lit.
pub open spec fn pixel_hits(
    grid: Seq<Seq<u8>>,
    x0: int,
    py: int,
    byte: u8,
    clipping: bool,
    bit: int,
) -> bool {
    &&& pixel_drawn(x0, py, bit, clipping)
    &&& sprite_bit(byte, bit)
    &&& grid[py % 32][(x0 + bit) % 64] == 1
}

/// Whether one of the first `width` pixels of a sprite row turns a lit
/// pixel dark.
pub open spec fn row_collides_part(
    grid: Seq<Seq<u8>>,
    x0: int,
    py: int,
    byte: u8,
    width: int,
    clipping: bool,
) -> bool {
    exists|bit: int| 0 <= bit < width && #[trigger] pixel_hits(grid, x0, py, byte, clipping, bit)
}

/// Whether drawing one whole sprite row turns a lit pixel dark.
pub open spec fn row_collides(grid: Seq<Seq<u8>>, x0: int, py: int, byte: u8, clipping: bool) -> bool {
    row_collides_part(grid, x0, py, byte, 8, clipping)
}

/// The grid after a sprite is drawn with its top left corner in row `y0`,
/// column `x0`: its rows are drawn one after the other, row `i` aimed at
/// line `y0 + i`.
pub open spec fn draw_sprite(
    grid: Seq<Seq<u8>>,
    x0: int,
    y0: int,
    sprite: Seq<u8>,
    clipping: bool,
) -> Seq<Seq<u8>>
    decreases sprite.len(),
{
    if sprite.len() == 0 {
        grid
    } else {
        draw_row(
            draw_sprite(grid, x0, y0, sprite.drop_last(), clipping),
            x0,
            y0 + sprite.len() - 1,
            sprite.last(),
            clipping,
        )
    }
}

/// Whether drawing a sprite turns a lit pixel dark at any point.
pub open spec fn sprite_collides(
    grid: Seq<Seq<u8>>,
    x0: int,
    y0: int,
    sprite: Seq<u8>,
    clipping: bool,
) -> bool
    decreases sprite.len(),
{
    if sprite.len() == 0 {
        false
    } else {
        ||| sprite_collides(grid, x0, y0, sprite.drop_last(), clipping)
        ||| row_collides(
            draw_sprite(grid, x0, y0, sprite.drop_last(), clipping),
            x0,
            y0 + sprite.len() - 1,
            sprite.last(),
            clipping,
        )
    }
}

/// Drawing keeps a grid a grid.
pub proof fn lemma_draw_row_part_valid(
    grid: Seq<Seq<u8>>,
    x0: int,
    py: int,
    byte: u8,
    width: int,
    clipping: bool,
)
    requires
        valid_grid(grid),
    ensures
        valid_grid(draw_row_part(grid, x0, py, byte, width, clipping)),
{
}

/// Drawing keeps a grid a grid.
pub proof fn lemma_draw_sprite_valid(
    grid: Seq<Seq<u8>>,
    x0: int,
    y0: int,
    sprite: Seq<u8>,
    clipping: bool,
)
    requires
        valid_grid(grid),
    ensures
        valid_grid(draw_sprite(grid, x0, y0, sprite, clipping)),
    decreases sprite.len(),
{
    if sprite.len() > 0 {
        lemma_draw_sprite_valid(grid, x0, y0, sprite.drop_last(), clipping);
        lemma_draw_row_part_valid(
            draw_sprite(grid, x0, y0, sprite.drop_last(), clipping),
            x0,
            y0 + sprite.len() - 1,
            sprite.last(),
            8,
            clipping,
        );
    }
}

/// With clipping, a sprite row aimed below the screen or past its right
/// edge draws nothing and hits nothing.
pub proof fn lemma_clipped_row_off_screen(grid: Seq<Seq<u8>>, x0: int, py: int, byte: u8)
    requires
        valid_grid(grid),
        py >= 32 || x0 >= 64,
    ensures
        draw_row(grid, x0, py, byte, true) == grid,
        !row_collides(grid, x0, py, byte, true),
{
    assert(draw_row(grid, x0, py, byte, true) =~~= grid);
}

/// With clipping, a sprite that lies below the screen or past its right
/// edge leaves the screen as it is and reports no collision.
pub proof fn lemma_clipped_sprite_off_screen(grid: Seq<Seq<u8>>, x0: int, y0: int, sprite: Seq<u8>)
    requires
        valid_grid(grid),
        y0 >= 32 || x0 >= 64,
    ensures
        draw_sprite(grid, x0, y0, sprite, true) == grid,
        !sprite_collides(grid, x0, y0, sprite, true),
    decreases sprite.len(),
{
    if sprite.len() > 0 {
        lemma_clipped_sprite_off_screen(grid, x0, y0, sprite.drop_last());
        lemma_clipped_row_off_screen(grid, x0, y0 + sprite.len() - 1, sprite.last());
    }
}

/// With clipping, whatever the sprite, a pixel above or to the left of
/// its corner, below its last row or right of its eighth column stays as
/// it is: nothing comes back in on the other side.
pub proof fn lemma_clipped_sprite_stays_in_its_box(
    grid: Seq<Seq<u8>>,
    x0: int,
    y0: int,
    sprite: Seq<u8>,
    r: int,
    c: int,
)
    requires
        valid_grid(grid),
        0 <= x0,
        0 <= y0,
        0 <= r < 32,
        0 <= c < 64,
        r < y0 || r >= y0 + sprite.len() || c < x0 || c >= x0 + 8,
    ensures
        draw_sprite(grid, x0, y0, sprite, true)[r][c] == grid[r][c],
    decreases sprite.len(),
{
    if sprite.len() > 0 {
        lemma_clipped_sprite_stays_in_its_box(grid, x0, y0, sprite.drop_last(), r, c);
    }
}

/// Without clipping, a sprite row aimed below the screen or past its
/// right edge is drawn where it comes back in: at the line and column
/// that are left after taking away whole screens.
#[verifier::rlimit(40)]
pub proof fn lemma_unclipped_row_wraps(grid: Seq<Seq<u8>>, x0: int, py: int, byte: u8)
    requires
        valid_grid(grid),
        0 <= x0,
        0 <= py,
    ensures
        draw_row(grid, x0, py, byte, false) == draw_row(grid, x0 % 64, py % 32, byte, false),
        row_collides(grid, x0, py, byte, false) == row_collides(grid, x0 % 64, py % 32, byte, false),
{
    assert(draw_row(grid, x0, py, byte, false) =~~= draw_row(grid, x0 % 64, py % 32, byte, false));
    assert forall|bit: int| 0 <= bit < 8 implies pixel_hits(grid, x0, py, byte, false, bit)
        == pixel_hits(grid, x0 % 64, py % 32, byte, false, bit) by {
        assert((x0 + bit) % 64 == (x0 % 64 + bit) % 64);
    }
    if row_collides(grid, x0, py, byte, false) {
        let bit = choose|bit: int|
            0 <= bit < 8 && #[trigger] pixel_hits(grid, x0, py, byte, false, bit);
        assert(pixel_hits(grid, x0 % 64, py % 32, byte, false, bit));
    }
    if row_collides(grid, x0 % 64, py % 32, byte, false) {
        let bit = choose|bit: int|
            0 <= bit < 8 && #[trigger] pixel_hits(grid, x0 % 64, py % 32, byte, false, bit);
        assert(pixel_hits(grid, x0, py, byte, false, bit));
    }
}

/// Without clipping, a sprite whose corner lies below the screen or past
/// its right edge is drawn as if the corner were where it comes back in.
pub proof fn lemma_unclipped_sprite_wraps(grid: Seq<Seq<u8>>, x0: int, y0: int, sprite: Seq<u8>)
    requires
        valid_grid(grid),
        0 <= x0,
        0 <= y0,
    ensures
        draw_sprite(grid, x0, y0, sprite, false) == draw_sprite(
            grid,
            x0 % 64,
            y0 % 32,
            sprite,
            false,
        ),
        sprite_collides(grid, x0, y0, sprite, false) == sprite_collides(
            grid,
            x0 % 64,
            y0 % 32,
            sprite,
            false,
        ),
    decreases sprite.len(),
{
    if sprite.len() > 0 {
        let above = sprite.drop_last();
        let k = sprite.len() - 1;
        lemma_unclipped_sprite_wraps(grid, x0, y0, above);
        let mid = draw_sprite(grid, x0, y0, above, false);
        lemma_draw_sprite_valid(grid, x0, y0, above, false);
        lemma_unclipped_row_wraps(mid, x0, y0 + k, sprite.last());
        lemma_unclipped_row_wraps(mid, x0 % 64, y0 % 32 + k, sprite.last());
        assert((y0 + k) % 32 == (y0 % 32 + k) % 32);
    }
}

/// A sprite row turns a lit pixel dark exactly if one of the pixels that
/// it toggles on its line is lit.
pub proof fn lemma_row_collides_by_pixel(
    grid: Seq<Seq<u8>>,
    x0: int,
    py: int,
    byte: u8,
    clipping: bool,
)
    requires
        0 <= x0 < 64,
        0 <= py,
    ensures
        row_collides(grid, x0, py, byte, clipping) <==> exists|c: int|
            0 <= c < 64 && #[trigger] flips(x0, py, byte, 8, clipping, py % 32, c) && grid[py
                % 32][c] == 1,
{
    if row_collides(grid, x0, py, byte, clipping) {
        let bit = choose|bit: int|
            0 <= bit < 8 && #[trigger] pixel_hits(grid, x0, py, byte, clipping, bit);
        let c = (x0 + bit) % 64;
        assert(sprite_column(x0, c) == bit);
        assert(flips(x0, py, byte, 8, clipping, py % 32, c));
    }
    if exists|c: int|
        0 <= c < 64 && #[trigger] flips(x0, py, byte, 8, clipping, py % 32, c) && grid[py % 32][c]
            == 1 {
        let c = choose|c: int|
            0 <= c < 64 && #[trigger] flips(x0, py, byte, 8, clipping, py % 32, c) && grid[py
                % 32][c] == 1;
        let bit = sprite_column(x0, c);
        assert((x0 + bit) % 64 == c);
        assert(pixel_hits(grid, x0, py, byte, clipping, bit));
    }
}

/// Whether drawing a sprite of at most 32 rows changes the pixel in row
/// `r`, column `c`: the one sprite row that lands on line `r` has a set
/// pixel there, and that pixel is drawn.
pub open spec fn sprite_flips(
    x0: int,
    y0: int,
    sprite: Seq<u8>,
    clipping: bool,
    r: int,
    c: int,
) -> bool {
    let row = (r - y0) % 32;
    row < sprite.len() && flips(x0, y0 + row, sprite[row], 8, clipping, r, c)
}

/// Whether a sprite of at most 32 rows toggles a pixel of `grid` that is
/// lit.
pub open spec fn sprite_hits(
    grid: Seq<Seq<u8>>,
    x0: int,
    y0: int,
    sprite: Seq<u8>,
    clipping: bool,
) -> bool {
    exists|r: int, c: int|
        0 <= r < 32 && 0 <= c < 64 && #[trigger] sprite_flips(x0, y0, sprite, clipping, r, c)
            && grid[r][c] == 1
}

/// A sprite of at most 32 rows touches no pixel twice, so what it does to
/// the screen can be said pixel by pixel: a pixel under a set pixel of the
/// sprite is toggled, every other one stays.
#[verifier::rlimit(40)]
pub proof fn lemma_draw_sprite_by_pixel(
    grid: Seq<Seq<u8>>,
    x0: int,
    y0: int,
    sprite: Seq<u8>,
    clipping: bool,
    r: int,
    c: int,
)
    requires
        valid_grid(grid),
        0 <= y0 < 32,
        sprite.len() <= 32,
        0 <= r < 32,
        0 <= c < 64,
    ensures
        draw_sprite(grid, x0, y0, sprite, clipping)[r][c] == if sprite_flips(
            x0,
            y0,
            sprite,
            clipping,
            r,
            c,
        ) {
            toggled(grid[r][c])
        } else {
            grid[r][c]
        },
    decreases sprite.len(),
{
    if sprite.len() > 0 {
        let above = sprite.drop_last();
        lemma_draw_sprite_by_pixel(grid, x0, y0, above, clipping, r, c);
        lemma_draw_sprite_valid(grid, x0, y0, above, clipping);
    }
}

/// A sprite of at most 32 rows reports a collision exactly if one of the
/// pixels that it toggles was lit before the drawing began.
#[verifier::rlimit(40)]
pub proof fn lemma_sprite_collides_by_pixel(
    grid: Seq<Seq<u8>>,
    x0: int,
    y0: int,
    sprite: Seq<u8>,
    clipping: bool,
)
    requires
        valid_grid(grid),
        0 <= x0 < 64,
        0 <= y0 < 32,
        sprite.len() <= 32,
    ensures
        sprite_collides(grid, x0, y0, sprite, clipping) <==> sprite_hits(
            grid,
            x0,
            y0,
            sprite,
            clipping,
        ),
    decreases sprite.len(),
{
    if sprite.len() > 0 {
        let above = sprite.drop_last();
        let k = sprite.len() - 1;
        let py = y0 + k;
        let line = py % 32;
        let mid = draw_sprite(grid, x0, y0, above, clipping);
        lemma_sprite_collides_by_pixel(grid, x0, y0, above, clipping);
        lemma_row_collides_by_pixel(mid, x0, py, sprite.last(), clipping);
        assert((line - y0) % 32 == k);
        assert forall|c: int| 0 <= c < 64 implies #[trigger] mid[line][c] == grid[line][c] by {
            lemma_draw_sprite_by_pixel(grid, x0, y0, above, clipping, line, c);
        }
        let last_row_hits = exists|c: int|
            0 <= c < 64 && #[trigger] flips(x0, py, sprite.last(), 8, clipping, line, c)
                && mid[line][c] == 1;
        assert(sprite_collides(grid, x0, y0, sprite, clipping) == (sprite_hits(
            grid,
            x0,
            y0,
            above,
            clipping,
        ) || last_row_hits));
        if sprite_hits(grid, x0, y0, above, clipping) {
            let (r, c) = choose|r: int, c: int|
                0 <= r < 32 && 0 <= c < 64 && #[trigger] sprite_flips(x0, y0, above, clipping, r, c)
                    && grid[r][c] == 1;
            assert(sprite_flips(x0, y0, sprite, clipping, r, c));
        }
        if last_row_hits {
            let c = choose|c: int|
                0 <= c < 64 && #[trigger] flips(x0, py, sprite.last(), 8, clipping, line, c)
                    && mid[line][c] == 1;
            assert(sprite_flips(x0, y0, sprite, clipping, line, c));
            assert(grid[line][c] == 1);
        }
        if sprite_hits(grid, x0, y0, sprite, clipping) {
            let (r, c) = choose|r: int, c: int|
                0 <= r < 32 && 0 <= c < 64 && #[trigger] sprite_flips(x0, y0, sprite, clipping, r, c)
                    && grid[r][c] == 1;
            if (r - y0) % 32 == k {
                assert(r == line);
                assert(flips(x0, py, sprite.last(), 8, clipping, line, c));
                assert(mid[line][c] == 1);
            } else {
                assert(sprite_flips(x0, y0, above, clipping, r, c));
            }
        }
    }
}

/// Drawing the same sprite of at most 32 rows twice in the same place
/// brings the screen back to what it was.
pub proof fn lemma_draw_twice_restores(
    grid: Seq<Seq<u8>>,
    x0: int,
    y0: int,
    sprite: Seq<u8>,
    clipping: bool,
)
    requires
        valid_grid(grid),
        0 <= y0 < 32,
        sprite.len() <= 32,
    ensures
        draw_sprite(draw_sprite(grid, x0, y0, sprite, clipping), x0, y0, sprite, clipping) == grid,
{
    let once = draw_sprite(grid, x0, y0, sprite, clipping);
    let twice = draw_sprite(once, x0, y0, sprite, clipping);
    lemma_draw_sprite_valid(grid, x0, y0, sprite, clipping);
    lemma_draw_sprite_valid(once, x0, y0, sprite, clipping);
    assert forall|r: int, c: int| 0 <= r < 32 && 0 <= c < 64 implies twice[r][c] == grid[r][c] by {
        lemma_draw_sprite_by_pixel(grid, x0, y0, sprite, clipping, r, c);
        lemma_draw_sprite_by_pixel(once, x0, y0, sprite, clipping, r, c);
    }
    assert(twice =~~= grid);
}

proof fn lemma_pixel_is_bit(byte: u8, shift: u8)
    by (bit_vector)
    requires
        shift <= 7,
    ensures
        (byte >> shift) & 1 == 0 || (byte >> shift) & 1 == 1,
{
}

proof fn lemma_xor_pixel(cell: u8, pixel: u8)
    by (bit_vector)
    requires
        cell <= 1,
        pixel <= 1,
    ensures
        pixel == 0 ==> cell ^ pixel == cell,
        pixel == 1 && cell == 0 ==> cell ^ pixel == 1,
        pixel == 1 && cell == 1 ==> cell ^ pixel == 0,
{
}

/// Graphics processor for Chip8. The emulator has a screen that is `64`x`32` pixels.
///
/// All sprites drawn on it are `8` pixels wide, with each pixel being `1` bit, so there are `8` pixels
/// in `1` byte. The position and height of each sprite is determined by the opcode `0xDxyn`, where
/// `D` is the symbol for draw, `x` is the `x` position, `y` is the `y` position, and `n` is
/// the height of the sprite.
///
/// Sprites are `XOR`ed onto the screen, and if a pixel flips from `1` to `0`, it is signalled in
/// the `VF` register.
#[derive(Debug)]
pub struct Graphics {
    /// Screen on which sprites are drawn
    screen: Vec<Vec<u8>>,
}

impl Graphics {
    /// The screen holds 32 rows of 64 pixels, each `0` or `1`.
    pub open spec fn wf(&self) -> bool {
        valid_grid(self.grid())
    }

    /// Creates a new Graphics, with a screen of `64`x`32` pixels, and all pixels on the screen
    /// initialized to 0.
    pub fn new() -> (graphics: Self)
        ensures
            graphics.wf(),
            graphics.grid() == blank_grid(),
    {
        let graphics = Graphics { screen: vec![vec![0u8; SCREEN_WIDTH as usize]; SCREEN_HEIGHT as usize] };
        assert(graphics.grid() =~~= blank_grid());
        graphics
    }

    /// What a valid grid says of the rows that hold it.
    proof fn lemma_rows(&self)
        requires
            valid_grid(self.grid()),
        ensures
            self.screen@.len() == 32,
            forall|r: int| 0 <= r < 32 ==> (#[trigger] self.screen@[r])@.len() == 64,
            forall|r: int| 0 <= r < 32 ==> #[trigger] self.grid()[r] == self.screen@[r]@,
    {
        assert forall|r: int| 0 <= r < 32 implies (#[trigger] self.screen@[r])@.len() == 64 by {
            assert(self.grid()[r].len() == 64);
        }
    }
}

impl Default for Graphics {
    /// A blank screen, as `Graphics::new` makes it.
    fn default() -> (graphics: Self)
        ensures
            graphics.wf(),
            graphics.grid() == blank_grid(),
    {
        Graphics::new()
    }
}

impl GraphicsBuffer for Graphics {
    closed spec fn grid(&self) -> Seq<Seq<u8>> {
        Seq::new(self.screen@.len(), |r: int| self.screen@[r]@)
    }

    /// Clears the entire screen with 0s; wipes everything from the screen.
    fn clear(&mut self) {
        let mut i: usize = 0;
        proof {
            self.lemma_rows();
        }
        while i < self.screen.len()
            invariant
                self.screen@.len() == 32,
                i <= 32,
                valid_grid(self.grid()),
                forall|r: int, c: int| 0 <= r < i && 0 <= c < 64 ==> #[trigger] self.grid()[r][c] == 0,
            decreases 32 - i,
        {
            let mut j: usize = 0;
            proof {
                self.lemma_rows();
            }
            while j < self.screen[0].len()
                invariant
                    self.screen@.len() == 32,
                    self.screen@[0]@.len() == 64,
                    i < 32,
                    j <= 64,
                    valid_grid(self.grid()),
                    forall|r: int, c: int| 0 <= r < i && 0 <= c < 64 ==> #[trigger] self.grid()[r][c] == 0,
                    forall|c: int| 0 <= c < j ==> #[trigger] self.grid()[i as int][c] == 0,
                decreases 64 - j,
            {
                let ghost before = self.grid();
                proof {
                    self.lemma_rows();
                }
                self.screen[i][j] = 0;
                assert(self.grid() =~~= before.update(i as int, before[i as int].update(j as int, 0u8)));
                j += 1;
            }
            i += 1;
        }
        assert(self.grid() =~~= blank_grid());
    }

    /// Draws a sprite on the screen, and returns `true` if a pixel on the screen was flipped from
    /// 1 to 0. The sprite is read from `memory`, `num_rows` bytes from `ir` on.
    #[verifier::rlimit(40)]
    fn draw(&mut self, x: u8, y: u8, num_rows: u8, ir: u16, memory: &[u8], clipping: bool) -> (flipped: bool) {
        // Assume no collisions happen
        let mut pixel_flipped = false;
        let x = x % SCREEN_WIDTH as u8;
        let y = y % SCREEN_HEIGHT as u8;
        let ghost start = self.grid();
        let ghost sprite = memory@.subrange(ir as int, ir + num_rows);
        proof {
            assert(sprite.take(0) =~= Seq::empty());
        }

        // Width of each pixel is 8 bits, and height is determined by the last nibble in opcode
        let mut row: u8 = 0;
        while row < num_rows
            invariant
                row <= num_rows,
                x < 64,
                y < 32,
                ir + num_rows <= memory@.len(),
                sprite == memory@.subrange(ir as int, ir + num_rows),
                valid_grid(self.grid()),
                self.grid() == draw_sprite(start, x as int, y as int, sprite.take(row as int), clipping),
                pixel_flipped == sprite_collides(start, x as int, y as int, sprite.take(row as int), clipping),
            decreases num_rows - row,
        {
            let sprite_byte = memory[ir as usize + row as usize];
            let ghost above = self.grid();
            let ghost hit_above = pixel_flipped;
            let ghost py = y as int + row as int;
            proof {
                assert(sprite.take(row + 1).drop_last() =~= sprite.take(row as int));
                assert(sprite.take(row + 1).last() == sprite_byte);
                assert(self.grid() =~~= draw_row_part(above, x as int, py, sprite_byte, 0, clipping));
            }
            let mut bit: u8 = 0;
            while bit < SPRITE_WIDTH
                invariant
                    bit <= 8,
                    x < 64,
                    y < 32,
                    py == y as int + row as int,
                    valid_grid(above),
                    valid_grid(self.grid()),
                    self.grid() == draw_row_part(above, x as int, py, sprite_byte, bit as int, clipping),
                    pixel_flipped == (hit_above || row_collides_part(
                        above,
                        x as int,
                        py,
                        sprite_byte,
                        bit as int,
                        clipping,
                    )),
                decreases 8 - bit,
            {
                // Keep only the smallest bit, because that's what we care about
                let pixel = (sprite_byte >> (7 - bit)) & 0x1;
                let ghost before = self.grid();
                let ghost hit_before = pixel_flipped;
                proof {
                    lemma_pixel_is_bit(sprite_byte, (7 - bit) as u8);
                }

                let mut pos_y = y as usize + row as usize;
                let mut pos_x = (x + bit) as usize;

                if clipping && (pos_y >= SCREEN_HEIGHT as usize || pos_x >= SCREEN_WIDTH as usize) {
                    // Nothing of this pixel is drawn
                } else {
                    // Allow wrap-around by modulusing the result
                    pos_y %= SCREEN_HEIGHT as usize;
                    pos_x %= SCREEN_WIDTH as usize;
                    proof {
                        self.lemma_rows();
                    }
                    let cell = self.screen[pos_y][pos_x];
                    proof {
                        assert(cell == before[pos_y as int][pos_x as int]);
                        assert(cell == above[pos_y as int][pos_x as int]);
                        lemma_xor_pixel(cell, pixel);
                    }
                    if pixel == PIXEL_ON && cell == PIXEL_ON {
                        self.screen[pos_y][pos_x] ^= pixel;
                        pixel_flipped = true;
                    } else {
                        self.screen[pos_y][pos_x] ^= pixel;
                    }
                    assert(self.grid() =~~= before.update(
                        pos_y as int,
                        before[pos_y as int].update(pos_x as int, cell ^ pixel),
                    ));
                }
                proof {
                    assert(self.grid() =~~= draw_row_part(
                        above,
                        x as int,
                        py,
                        sprite_byte,
                        bit + 1,
                        clipping,
                    ));
                    assert(pixel_flipped == (hit_before || pixel_hits(
                        above,
                        x as int,
                        py,
                        sprite_byte,
                        clipping,
                        bit as int,
                    )));
                }
                bit += 1;
            }
            row += 1;
        }
        proof {
            assert(sprite.take(num_rows as int) =~= sprite);
        }

        pixel_flipped
    }

    fn buffer(&self) -> (rows: &Vec<Vec<u8>>) {
        assert(self.screen.deep_view() =~~= self.grid());
        &self.screen
    }
}

} // verus!
