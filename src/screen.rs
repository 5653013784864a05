use vstd::prelude::*;

verus! {

pub const CHIP8_WIDTH: usize = 64;
pub const CHIP8_HEIGHT: usize = 32;
pub const CHIP8_PIXELS: usize = 2048;

/// Whether column `col` (0 = leftmost) of sprite row `b` is set; the most
/// significant bit is the leftmost column.
pub open spec fn sprite_bit(b: u8, col: u8) -> bool {
    b & (0x80u8 >> col) != 0
}

/// How far screen column `px` lies to the right of column `x`, wrapping
/// around the width.
pub open spec fn col_offset(x: int, px: int) -> int {
    (px - x) % 64
}

/// Whether sprite row `r`, drawn at (x, y), toggles the cell (px, py).
pub open spec fn row_toggles(sprite: Seq<u8>, x: int, y: int, r: int, px: int, py: int) -> bool {
    &&& (y + r) % 32 == py
    &&& col_offset(x, px) < 8
    &&& sprite_bit(sprite[r], col_offset(x, px) as u8)
}

/// How many of the first `rows` sprite rows, drawn at (x, y), toggle the
/// cell (px, py).
pub open spec fn toggles(sprite: Seq<u8>, x: int, y: int, rows: int, px: int, py: int) -> nat
    decreases rows,
{
    if rows <= 0 {
        0
    } else {
        toggles(sprite, x, y, rows - 1, px, py) + if row_toggles(sprite, x, y, rows - 1, px, py) {
            1nat
        } else {
            0nat
        }
    }
}

/// Toggles of cell `i` (row-major index) by the first `rows` sprite rows.
pub open spec fn cell_toggles(sprite: Seq<u8>, x: int, y: int, rows: int, i: int) -> nat {
    toggles(sprite, x, y, rows, i % 64, i / 64)
}

/// The framebuffer after XOR-drawing the first `rows` rows of `sprite` at (x, y):
/// a cell flips once for each time the sprite covers it with a set bit.
pub open spec fn draw_result(pixels: Seq<bool>, x: int, y: int, sprite: Seq<u8>, rows: int) -> Seq<bool> {
    Seq::new(
        pixels.len(),
        |i: int| pixels[i] != (cell_toggles(sprite, x, y, rows, i) % 2 == 1),
    )
}

/// Whether the draw turns a lit cell off at some point: some covered cell was
/// lit before, or is covered more than once.
pub open spec fn draw_collision(pixels: Seq<bool>, x: int, y: int, sprite: Seq<u8>, rows: int) -> bool {
    exists|i: int|
        0 <= i < pixels.len() && #[trigger] cell_toggles(sprite, x, y, rows, i) >= 1 && (pixels[i]
            || cell_toggles(sprite, x, y, rows, i) >= 2)
}

/// The number of sprite rows that a draw of `num` rows from `sprite` uses.
pub open spec fn sprite_rows(sprite: Seq<u8>, num: int) -> int {
    if num < sprite.len() {
        num
    } else {
        sprite.len() as int
    }
}

/// Toggles of cell `i` once sprite rows before `r`, and the columns before `c`
/// of row `r`, have been drawn.
pub open spec fn partial_toggles(sprite: Seq<u8>, x: int, y: int, r: int, c: int, i: int) -> nat {
    cell_toggles(sprite, x, y, r, i) + if row_toggles(sprite, x, y, r, i % 64, i / 64) && col_offset(
        x,
        i % 64,
    ) < c {
        1nat
    } else {
        0nat
    }
}

/// Collision so far, once sprite rows before `r`, and the columns before `c`
/// of row `r`, have been drawn.
pub open spec fn partial_collision(pixels: Seq<bool>, x: int, y: int, sprite: Seq<u8>, r: int, c: int) -> bool {
    exists|i: int|
        0 <= i < pixels.len() && #[trigger] partial_toggles(sprite, x, y, r, c, i) >= 1 && (pixels[i]
            || partial_toggles(sprite, x, y, r, c, i) >= 2)
}

proof fn lemma_cell_index(px: int, py: int)
    requires
        0 <= px < 64,
        0 <= py < 32,
    ensures
        0 <= py * 64 + px < 2048,
        (py * 64 + px) % 64 == px,
        (py * 64 + px) / 64 == py,
{
}

proof fn lemma_index_cell(i: int)
    requires
        0 <= i < 2048,
    ensures
        0 <= i % 64 < 64,
        0 <= i / 64 < 32,
        i == (i / 64) * 64 + i % 64,
{
}

proof fn lemma_col(x: int, px: int, c: int)
    requires
        0 <= px < 64,
        0 <= c < 8,
    ensures
        (px - x) % 64 == c <==> px == (x % 64 + c) % 64,
{
}

proof fn lemma_row(y: int, r: int)
    requires
        0 <= y,
        0 <= r,
    ensures
        (y + r) % 32 == (y % 32 + r % 32) % 32,
{
}

/// Drawing column `c` of sprite row `r` flips the one cell that it covers when
/// that bit is set, and nothing otherwise.
proof fn lemma_column_step(sprite: Seq<u8>, x: int, y: int, r: int, c: int)
    requires
        0 <= x,
        0 <= y,
        0 <= r < sprite.len(),
        0 <= c < 8,
    ensures
        forall|i: int|
            0 <= i < 2048 ==> #[trigger] partial_toggles(sprite, x, y, r, c + 1, i) == partial_toggles(
                sprite,
                x,
                y,
                r,
                c,
                i,
            ) + if sprite_bit(sprite[r], c as u8) && i == ((y % 32 + r % 32) % 32) * 64 + (x % 64
                + c) % 64 {
                1nat
            } else {
                0nat
            },
{
    let sx = (x % 64 + c) % 64;
    let sy = (y % 32 + r % 32) % 32;
    lemma_cell_index(sx, sy);
    lemma_row(y, r);
    assert forall|i: int| 0 <= i < 2048 implies #[trigger] partial_toggles(
        sprite,
        x,
        y,
        r,
        c + 1,
        i,
    ) == partial_toggles(sprite, x, y, r, c, i) + if sprite_bit(sprite[r], c as u8) && i == sy
        * 64 + sx {
        1nat
    } else {
        0nat
    } by {
        lemma_index_cell(i);
        lemma_col(x, i % 64, c);
    }
}

/// The collision flag after one more column: what it was, or whether the
/// flipped cell `k` was lit just before.
proof fn lemma_collision_step(
    before: Seq<bool>,
    sprite: Seq<u8>,
    x: int,
    y: int,
    r: int,
    c: int,
    k: int,
    lit_k: bool,
)
    requires
        before.len() == 2048,
        0 <= k < 2048,
        forall|i: int|
            0 <= i < 2048 ==> #[trigger] partial_toggles(sprite, x, y, r, c + 1, i) == partial_toggles(
                sprite,
                x,
                y,
                r,
                c,
                i,
            ) + if i == k {
                1nat
            } else {
                0nat
            },
        lit_k == (before[k] != (partial_toggles(sprite, x, y, r, c, k) % 2 == 1)),
    ensures
        partial_collision(before, x, y, sprite, r, c + 1) == (partial_collision(
            before,
            x,
            y,
            sprite,
            r,
            c,
        ) || lit_k),
{
    if partial_collision(before, x, y, sprite, r, c + 1) {
        let j = choose|j: int|
            0 <= j < before.len() && #[trigger] partial_toggles(sprite, x, y, r, c + 1, j) >= 1 && (
            before[j] || partial_toggles(sprite, x, y, r, c + 1, j) >= 2);
        if j != k && !lit_k {
            assert(partial_toggles(sprite, x, y, r, c, j) >= 1);
        }
        if j == k && !lit_k {
            assert(partial_toggles(sprite, x, y, r, c, k) >= 1);
            assert(before[k] || partial_toggles(sprite, x, y, r, c, k) >= 2);
        }
    }
    if lit_k {
        assert(partial_toggles(sprite, x, y, r, c + 1, k) >= 1);
    } else if partial_collision(before, x, y, sprite, r, c) {
        let j = choose|j: int|
            0 <= j < before.len() && #[trigger] partial_toggles(sprite, x, y, r, c, j) >= 1 && (
            before[j] || partial_toggles(sprite, x, y, r, c, j) >= 2);
        assert(partial_toggles(sprite, x, y, r, c + 1, j) >= 1);
    }
}

/// An unset bit changes neither the cells nor the collision flag.
proof fn lemma_collision_unchanged(before: Seq<bool>, sprite: Seq<u8>, x: int, y: int, r: int, c: int)
    requires
        forall|i: int|
            0 <= i < 2048 ==> #[trigger] partial_toggles(sprite, x, y, r, c + 1, i)
                == partial_toggles(sprite, x, y, r, c, i),
        before.len() == 2048,
    ensures
        partial_collision(before, x, y, sprite, r, c + 1) == partial_collision(
            before,
            x,
            y,
            sprite,
            r,
            c,
        ),
{
    if partial_collision(before, x, y, sprite, r, c) {
        let j = choose|j: int|
            0 <= j < before.len() && #[trigger] partial_toggles(sprite, x, y, r, c, j) >= 1 && (
            before[j] || partial_toggles(sprite, x, y, r, c, j) >= 2);
        assert(partial_toggles(sprite, x, y, r, c + 1, j) >= 1);
    }
}

/// Starting a row, and finishing one, in terms of whole rows.
proof fn lemma_row_bounds(before: Seq<bool>, sprite: Seq<u8>, x: int, y: int, r: int)
    requires
        before.len() == 2048,
        0 <= r,
    ensures
        forall|i: int|
            0 <= i < 2048 ==> #[trigger] partial_toggles(sprite, x, y, r, 0, i) == cell_toggles(
                sprite,
                x,
                y,
                r,
                i,
            ),
        forall|i: int|
            0 <= i < 2048 ==> #[trigger] partial_toggles(sprite, x, y, r, 8, i) == cell_toggles(
                sprite,
                x,
                y,
                r + 1,
                i,
            ),
        partial_collision(before, x, y, sprite, r, 0) == draw_collision(before, x, y, sprite, r),
        partial_collision(before, x, y, sprite, r, 8) == draw_collision(before, x, y, sprite, r + 1),
{
    assert forall|i: int| 0 <= i < 2048 implies #[trigger] partial_toggles(sprite, x, y, r, 0, i)
        == cell_toggles(sprite, x, y, r, i) by {
        lemma_index_cell(i);
    }
    assert forall|i: int| 0 <= i < 2048 implies #[trigger] partial_toggles(sprite, x, y, r, 8, i)
        == cell_toggles(sprite, x, y, r + 1, i) by {
        lemma_index_cell(i);
    }
    if partial_collision(before, x, y, sprite, r, 0) {
        let j = choose|j: int|
            0 <= j < before.len() && #[trigger] partial_toggles(sprite, x, y, r, 0, j) >= 1 && (
            before[j] || partial_toggles(sprite, x, y, r, 0, j) >= 2);
        assert(cell_toggles(sprite, x, y, r, j) >= 1);
    }
    if draw_collision(before, x, y, sprite, r) {
        let j = choose|j: int|
            0 <= j < before.len() && #[trigger] cell_toggles(sprite, x, y, r, j) >= 1 && (before[j]
                || cell_toggles(sprite, x, y, r, j) >= 2);
        assert(partial_toggles(sprite, x, y, r, 0, j) >= 1);
    }
    if partial_collision(before, x, y, sprite, r, 8) {
        let j = choose|j: int|
            0 <= j < before.len() && #[trigger] partial_toggles(sprite, x, y, r, 8, j) >= 1 && (
            before[j] || partial_toggles(sprite, x, y, r, 8, j) >= 2);
        assert(cell_toggles(sprite, x, y, r + 1, j) >= 1);
    }
    if draw_collision(before, x, y, sprite, r + 1) {
        let j = choose|j: int|
            0 <= j < before.len() && #[trigger] cell_toggles(sprite, x, y, r + 1, j) >= 1 && (
            before[j] || cell_toggles(sprite, x, y, r + 1, j) >= 2);
        assert(partial_toggles(sprite, x, y, r, 8, j) >= 1);
    }
}

/// Drawing the same sprite at the same place twice gives back the framebuffer
/// that was there before; the second draw reports a collision whenever the
/// sprite covers some cell that was unlit before the first draw, or covers a
/// cell more than once.
pub proof fn lemma_redraw_restores(pixels: Seq<bool>, x: int, y: int, sprite: Seq<u8>, rows: int)
    requires
        exists|i: int|
            0 <= i < pixels.len() && #[trigger] cell_toggles(sprite, x, y, rows, i) >= 1 && (
            !pixels[i] || cell_toggles(sprite, x, y, rows, i) >= 2),
    ensures
        draw_result(draw_result(pixels, x, y, sprite, rows), x, y, sprite, rows) == pixels,
        draw_collision(draw_result(pixels, x, y, sprite, rows), x, y, sprite, rows),
{
    let once = draw_result(pixels, x, y, sprite, rows);
    assert(draw_result(once, x, y, sprite, rows) =~= pixels);
    let i = choose|i: int|
        0 <= i < pixels.len() && #[trigger] cell_toggles(sprite, x, y, rows, i) >= 1 && (!pixels[i]
            || cell_toggles(sprite, x, y, rows, i) >= 2);
    assert(once[i] || cell_toggles(sprite, x, y, rows, i) >= 2);
}

/// Monochrome 64x32 framebuffer, stored row by row.
pub struct Screen {
    pub pixels: [bool; 2048],
}

impl Screen {
    /// Whether the cell at column `x`, row `y` is lit.
    pub open spec fn lit(&self, x: int, y: int) -> bool {
        self.pixels@[y * 64 + x]
    }

    pub fn new() -> (r: Self)
        ensures
            forall|i: int| 0 <= i < 2048 ==> !r.pixels@[i],
    {
        Self { pixels: [false; 2048] }
    }

    /// Demands that (x, y) is a cell of the framebuffer.
    pub fn check_bounds(&self, x: usize, y: usize)
        requires
            x < CHIP8_WIDTH,
            y < CHIP8_HEIGHT,
    {
    }

    pub fn set_screen(&mut self, x: usize, y: usize)
        requires
            x < CHIP8_WIDTH,
            y < CHIP8_HEIGHT,
        ensures
            final(self).pixels@ == old(self).pixels@.update(y * 64 + x, true),
            final(self).lit(x as int, y as int),
    {
        self.check_bounds(x, y);
        self.pixels[y * CHIP8_WIDTH + x] = true;
    }

    pub fn clear(&mut self)
        ensures
            forall|i: int| 0 <= i < 2048 ==> !final(self).pixels@[i],
    {
        let mut i: usize = 0;
        while i < CHIP8_PIXELS
            invariant
                i <= CHIP8_PIXELS,
                forall|j: int| 0 <= j < i ==> !self.pixels@[j],
            decreases CHIP8_PIXELS - i,
        {
            self.pixels[i] = false;
            i = i + 1;
        }
    }

    pub fn is_set(&self, x: usize, y: usize) -> (r: bool)
        requires
            x < CHIP8_WIDTH,
            y < CHIP8_HEIGHT,
        ensures
            r == self.lit(x as int, y as int),
    {
        self.check_bounds(x, y);
        self.pixels[y * CHIP8_WIDTH + x]
    }

    /// XOR-draws the first `num` rows of `sprite` (all of it, if shorter) with its
    /// top-left corner at (x, y), wrapping across the edges; returns whether a
    /// lit cell was turned off.
    pub fn chip8_screen_draw_sprite(&mut self, x: usize, y: usize, sprite: &[u8], num: usize) -> (r:
        bool)
        ensures
            final(self).pixels@ == draw_result(
                old(self).pixels@,
                x as int,
                y as int,
                sprite@,
                sprite_rows(sprite@, num as int),
            ),
            r == draw_collision(
                old(self).pixels@,
                x as int,
                y as int,
                sprite@,
                sprite_rows(sprite@, num as int),
            ),
    {
        let rows: usize = if num < sprite.len() {
            num
        } else {
            sprite.len()
        };
        let ghost before = self.pixels@;
        let ghost s = sprite@;
        let mut pixel_collision = false;
        let mut ly: usize = 0;
        while ly < rows
            invariant
                rows == sprite_rows(s, num as int),
                rows <= s.len(),
                s == sprite@,
                ly <= rows,
                before.len() == 2048,
                forall|i: int|
                    0 <= i < 2048 ==> self.pixels@[i] == (before[i] != (cell_toggles(
                        s,
                        x as int,
                        y as int,
                        ly as int,
                        i,
                    ) % 2 == 1)),
                pixel_collision == draw_collision(before, x as int, y as int, s, ly as int),
            decreases rows - ly,
        {
            let c = sprite[ly];
            proof {
                lemma_row_bounds(before, s, x as int, y as int, ly as int);
            }
            let mut lx: u8 = 0;
            while lx < 8
                invariant
                    rows <= s.len(),
                    s == sprite@,
                    ly < rows,
                    c == s[ly as int],
                    lx <= 8,
                    before.len() == 2048,
                    forall|i: int|
                        0 <= i < 2048 ==> self.pixels@[i] == (before[i] != (partial_toggles(
                            s,
                            x as int,
                            y as int,
                            ly as int,
                            lx as int,
                            i,
                        ) % 2 == 1)),
                    pixel_collision == partial_collision(
                        before,
                        x as int,
                        y as int,
                        s,
                        ly as int,
                        lx as int,
                    ),
                decreases 8 - lx,
            {
                proof {
                    lemma_column_step(s, x as int, y as int, ly as int, lx as int);
                }
                if c & (0x80u8 >> lx) != 0 {
                    let sx: usize = (x % CHIP8_WIDTH + lx as usize) % CHIP8_WIDTH;
                    let sy: usize = (y % CHIP8_HEIGHT + ly % CHIP8_HEIGHT) % CHIP8_HEIGHT;
                    let idx: usize = sy * CHIP8_WIDTH + sx;
                    let was_lit = self.pixels[idx];
                    proof {
                        lemma_collision_step(
                            before,
                            s,
                            x as int,
                            y as int,
                            ly as int,
                            lx as int,
                            idx as int,
                            was_lit,
                        );
                    }
                    if was_lit {
                        pixel_collision = true;
                    }
                    self.pixels[idx] = !was_lit;
                } else {
                    proof {
                        lemma_collision_unchanged(before, s, x as int, y as int, ly as int, lx as int);
                    }
                }
                lx = lx + 1;
            }
            ly = ly + 1;
        }
        proof {
            assert(self.pixels@ =~= draw_result(before, x as int, y as int, s, rows as int));
        }
        pixel_collision
    }
}

} // verus!
