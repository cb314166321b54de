use vstd::prelude::*;

verus! {

/// Width of the grid in pixels.
pub const WIDTH: u8 = 64;

/// Height of the grid in pixels.
pub const HEIGHT: u8 = 32;

/// Number of pixels in the grid, stored row by row.
pub const BUFFER_SIZE: usize = 2048;

/// The all-unlit grid.
pub open spec fn blank_grid() -> Seq<bool> {
    Seq::new(2048, |k: int| false)
}

/// Column `col` (0 is the leftmost) of a sprite row is set.
pub open spec fn sprite_bit(line: u8, col: int) -> bool {
    line & (0x80u8 >> (col as u8)) != 0
}

/// Pixel `k` of the grid is hit by a set bit of `sprite` drawn with its
/// top-left corner at `(x, y)`. The corner wraps into the grid; a pixel
/// beyond the right or bottom edge is clipped (pixel `k` is always on the
/// grid, so an off-grid sprite bit hits nothing).
pub open spec fn covers(x: u8, y: u8, sprite: Seq<u8>, k: int) -> bool {
    let ox = (x % 64) as int;
    let oy = (y % 32) as int;
    let px = k % 64;
    let py = k / 64;
    &&& ox <= px < ox + 8
    &&& oy <= py < oy + sprite.len()
    &&& sprite_bit(sprite[py - oy], px - ox)
}

/// The grid after XOR-ing the sprite into it.
pub open spec fn drawn(grid: Seq<bool>, x: u8, y: u8, sprite: Seq<u8>) -> Seq<bool> {
    Seq::new(grid.len(), |k: int| grid[k] != covers(x, y, sprite, k))
}

/// Drawing the sprite turns off at least one lit pixel.
pub open spec fn collides(grid: Seq<bool>, x: u8, y: u8, sprite: Seq<u8>) -> bool {
    exists|k: int| 0 <= k < grid.len() && #[trigger] grid[k] && covers(x, y, sprite, k)
}

/// Drawing a sprite twice at the same place restores the grid, since each
/// pixel is XOR-ed with the same bit twice. On an unlit grid the first draw
/// reports no collision, and the second reports one exactly when the sprite
/// lit some pixel.
pub proof fn lemma_draw_twice(grid: Seq<bool>, x: u8, y: u8, sprite: Seq<u8>)
    requires
        grid.len() == 2048,
    ensures
        drawn(drawn(grid, x, y, sprite), x, y, sprite) == grid,
        !collides(blank_grid(), x, y, sprite),
        collides(drawn(blank_grid(), x, y, sprite), x, y, sprite) <==> exists|k: int|
            0 <= k < 2048 && #[trigger] covers(x, y, sprite, k),
{
    assert(drawn(drawn(grid, x, y, sprite), x, y, sprite) =~= grid);
    let once = drawn(blank_grid(), x, y, sprite);
    if exists|k: int| 0 <= k < 2048 && #[trigger] covers(x, y, sprite, k) {
        let k = choose|k: int| 0 <= k < 2048 && #[trigger] covers(x, y, sprite, k);
        assert(once[k]);
    }
}

/// `covers`, restricted to the sprite bits scanned before row `r`, column `c`.
spec fn covers_before(x: u8, y: u8, sprite: Seq<u8>, r: int, c: int, k: int) -> bool {
    let row = k / 64 - (y % 32) as int;
    let col = k % 64 - (x % 64) as int;
    covers(x, y, sprite, k) && (row < r || (row == r && col < c))
}

/// Pixel indices are in row-major order.
proof fn lemma_index(row: int, col: int)
    requires
        0 <= row < 32,
        0 <= col < 64,
    ensures
        (row * 64 + col) / 64 == row,
        (row * 64 + col) % 64 == col,
        0 <= row * 64 + col < 2048,
{
    assert((row * 64 + col) / 64 == row && (row * 64 + col) % 64 == col) by (nonlinear_arith)
        requires
            0 <= row < 32,
            0 <= col < 64,
    ;
}

/// A monochrome 64 by 32 grid drawn with XOR sprites.
pub struct Screen {
    buffer: Vec<bool>,
}

impl View for Screen {
    type V = Seq<bool>;

    closed spec fn view(&self) -> Seq<bool> {
        self.buffer@
    }
}

impl Screen {
    /// The grid holds exactly one flag per pixel.
    pub open spec fn wf(&self) -> bool {
        self@.len() == 2048
    }

    /// A grid with every pixel unlit.
    pub fn new() -> (r: Screen)
        ensures
            r.wf(),
            r@ == blank_grid(),
    {
        let mut buffer: Vec<bool> = Vec::new();
        while buffer.len() < BUFFER_SIZE
            invariant
                buffer.len() <= 2048,
                forall|k: int| 0 <= k < buffer.len() ==> !buffer@[k],
            decreases 2048 - buffer.len(),
        {
            buffer.push(false);
        }
        let r = Screen { buffer };
        assert(r@ =~= blank_grid());
        r
    }

    /// Unlights every pixel.
    pub fn clear(&mut self)
        requires
            old(self).wf(),
        ensures
            final(self).wf(),
            final(self)@ == blank_grid(),
    {
        let mut k: usize = 0;
        while k < BUFFER_SIZE
            invariant
                self.buffer.len() == 2048,
                forall|j: int| 0 <= j < k ==> !self.buffer@[j],
            decreases 2048 - k,
        {
            self.buffer.set(k, false);
            k += 1;
        }
        assert(self@ =~= blank_grid());
    }

    /// XORs an 8-pixel-wide sprite, one byte per row, into the grid with its
    /// top-left corner at `(x, y)` wrapped into the grid, clipping what falls
    /// beyond the right and bottom edges. Returns whether any lit pixel was
    /// turned off.
    pub fn draw(&mut self, x: u8, y: u8, sprite: &[u8]) -> (collision: bool)
        requires
            old(self).wf(),
        ensures
            final(self).wf(),
            final(self)@ == drawn(old(self)@, x, y, sprite@),
            collision == collides(old(self)@, x, y, sprite@),
    {
        let ghost grid = self@;
        let ghost s = sprite@;
        let ox: usize = (x % WIDTH) as usize;
        let oy: usize = (y % HEIGHT) as usize;
        let rows: usize = if sprite.len() < 32 - oy {
            sprite.len()
        } else {
            32 - oy
        };
        let cols: usize = 64 - ox;
        let cols: usize = if cols < 8 {
            cols
        } else {
            8
        };
        let mut collision = false;
        let mut r: usize = 0;
        while r < rows
            invariant
                ox == x % 64,
                oy == y % 32,
                s == sprite@,
                rows <= sprite.len(),
                oy + rows <= 32,
                cols <= 8,
                ox + cols <= 64,
                cols == 8 || ox + cols == 64,
                rows == sprite.len() || oy + rows == 32,
                r <= rows,
                self.buffer.len() == 2048,
                grid.len() == 2048,
                forall|k: int|
                    0 <= k < 2048 ==> #[trigger] self.buffer@[k] == (grid[k] != covers_before(
                        x,
                        y,
                        s,
                        r as int,
                        0,
                        k,
                    )),
                collision == exists|k: int|
                    0 <= k < 2048 && #[trigger] grid[k] && covers_before(x, y, s, r as int, 0, k),
            decreases rows - r,
        {
            let line = sprite[r];
            let mut c: usize = 0;
            while c < cols
                invariant
                    ox == x % 64,
                    oy == y % 32,
                    s == sprite@,
                    line == s[r as int],
                    r < rows,
                    rows <= sprite.len(),
                    oy + rows <= 32,
                    cols <= 8,
                    ox + cols <= 64,
                    c <= cols,
                    self.buffer.len() == 2048,
                    grid.len() == 2048,
                    forall|k: int|
                        0 <= k < 2048 ==> #[trigger] self.buffer@[k] == (grid[k]
                            != covers_before(x, y, s, r as int, c as int, k)),
                    collision == exists|k: int|
                        0 <= k < 2048 && #[trigger] grid[k] && covers_before(
                            x,
                            y,
                            s,
                            r as int,
                            c as int,
                            k,
                        ),
                decreases cols - c,
            {
                let index: usize = (oy + r) * 64 + (ox + c);
                proof {
                    lemma_index((oy + r) as int, (ox + c) as int);
                    assert forall|k: int| 0 <= k < 2048 && k != index implies covers_before(
                        x,
                        y,
                        s,
                        r as int,
                        c + 1,
                        k,
                    ) == covers_before(x, y, s, r as int, c as int, k) by {
                        if k / 64 == oy + r && k % 64 == ox + c {
                            assert(k == (k / 64) * 64 + k % 64);
                        }
                    }
                    assert(!covers_before(x, y, s, r as int, c as int, index as int));
                    assert(covers_before(x, y, s, r as int, c + 1, index as int) == sprite_bit(
                        line,
                        c as int,
                    ));
                }
                let bit = line & (0x80u8 >> (c as u8));
                if bit != 0 {
                    if self.buffer[index] {
                        collision = true;
                    }
                    let lit = self.buffer[index];
                    self.buffer.set(index, !lit);
                }
                proof {
                    if collision {
                        let w = choose|k: int|
                            0 <= k < 2048 && #[trigger] grid[k] && covers_before(
                                x,
                                y,
                                s,
                                r as int,
                                c as int,
                                k,
                            ) || (k == index && grid[k] && bit != 0);
                        assert(0 <= w < 2048 && grid[w] && covers_before(
                            x,
                            y,
                            s,
                            r as int,
                            c + 1,
                            w,
                        ));
                    }
                }
                c += 1;
            }
            proof {
                assert forall|k: int| 0 <= k < 2048 implies covers_before(
                    x,
                    y,
                    s,
                    r as int,
                    cols as int,
                    k,
                ) == covers_before(x, y, s, r + 1, 0, k) by {}
            }
            r += 1;
        }
        proof {
            assert forall|k: int| 0 <= k < 2048 implies covers_before(
                x,
                y,
                s,
                rows as int,
                0,
                k,
            ) == covers(x, y, s, k) by {}
            assert(self@ =~= drawn(grid, x, y, s));
        }
        collision
    }

    /// The grid, pixel by pixel in row-major order; reading it changes nothing.
    pub fn refresh(&self) -> (r: Vec<bool>)
        requires
            self.wf(),
        ensures
            r@ == self@,
    {
        self.buffer.clone()
    }

    /// The pixel at column `x`, row `y`.
    pub fn pixel(&self, x: u8, y: u8) -> (lit: bool)
        requires
            self.wf(),
            x < WIDTH,
            y < HEIGHT,
        ensures
            lit == self@[y * 64 + x],
    {
        self.buffer[y as usize * 64 + x as usize]
    }

    /// The grid as RGBA bytes, four per pixel: white for a lit pixel, opaque
    /// black for an unlit one.
    pub fn rasterize(&self) -> (rgba: Vec<u8>)
        requires
            self.wf(),
        ensures
            rgba@.len() == 4 * 2048,
            forall|k: int|
                0 <= k < 2048 ==> {
                    &&& rgba@[4 * k] == (if self@[k] { 0xFFu8 } else { 0u8 })
                    &&& rgba@[4 * k + 1] == (if self@[k] { 0xFFu8 } else { 0u8 })
                    &&& rgba@[4 * k + 2] == (if self@[k] { 0xFFu8 } else { 0u8 })
                    &&& rgba@[4 * k + 3] == 0xFFu8
                },
    {
        let mut rgba: Vec<u8> = Vec::new();
        let mut k: usize = 0;
        while k < BUFFER_SIZE
            invariant
                self.buffer.len() == 2048,
                k <= 2048,
                rgba@.len() == 4 * k,
                forall|j: int|
                    0 <= j < k ==> {
                        &&& rgba@[4 * j] == (if self@[j] { 0xFFu8 } else { 0u8 })
                        &&& rgba@[4 * j + 1] == (if self@[j] { 0xFFu8 } else { 0u8 })
                        &&& rgba@[4 * j + 2] == (if self@[j] { 0xFFu8 } else { 0u8 })
                        &&& rgba@[4 * j + 3] == 0xFFu8
                    },
            decreases 2048 - k,
        {
            let level: u8 = if self.buffer[k] {
                0xFF
            } else {
                0
            };
            rgba.push(level);
            rgba.push(level);
            rgba.push(level);
            rgba.push(0xFF);
            k += 1;
        }
        rgba
    }
}

} // verus!
