use vstd::prelude::*;

verus! {

/// Width of the display, in pixels.
pub const REAL_WIDTH: usize = 64;

/// Height of the display, in pixels.
pub const REAL_HEIGHT: usize = 32;

/// Bytes per pixel in the RGBA frame handed to a presenter.
pub const BUFFER_CHUNK_SIZE: usize = 4;

/// Number of pixels on the display.
pub const PIXEL_COUNT: usize = 2048;

/// State of one display pixel.
#[derive(PartialEq, Eq, Structural, Clone, Copy, Debug)]
pub enum PixelState {
    Off,
    On,
}

impl PixelState {
    pub open spec fn from_lit(lit: bool) -> PixelState {
        if lit {
            PixelState::On
        } else {
            PixelState::Off
        }
    }
}

/// Whether `(x, y)` lies on the 64 x 32 display.
pub open spec fn on_screen(x: int, y: int) -> bool {
    0 <= x < REAL_WIDTH && 0 <= y < REAL_HEIGHT
}

/// A display with every pixel off, as 32 rows of 64 pixels.
pub open spec fn blank_screen() -> Seq<Seq<bool>> {
    Seq::new(REAL_HEIGHT as nat, |y: int| Seq::new(REAL_WIDTH as nat, |x: int| false))
}

/// The display `screen` with pixel `(x, y)` set to `lit`; unchanged off the display.
pub open spec fn with_pixel(screen: Seq<Seq<bool>>, x: int, y: int, lit: bool) -> Seq<Seq<bool>> {
    if on_screen(x, y) {
        screen.update(y, screen[y].update(x, lit))
    } else {
        screen
    }
}

/// Bit `col` (0 = most significant) of a sprite row.
pub open spec fn sprite_bit(row: u8, col: int) -> bool {
    (row >> ((7 - col) as u8)) & 1u8 == 1u8
}

/// Whether the sprite `rows`, with its top-left corner at `(x0, y0)`, has a set bit over
/// pixel `(x, y)`.
pub open spec fn sprite_covers(rows: Seq<u8>, x0: int, y0: int, x: int, y: int) -> bool {
    &&& x0 <= x < x0 + 8
    &&& y0 <= y < y0 + rows.len()
    &&& sprite_bit(rows[y - y0], x - x0)
}

/// The display after XOR-ing the sprite onto it; the parts of the sprite that fall off the
/// display are dropped.
pub open spec fn drawn(screen: Seq<Seq<bool>>, rows: Seq<u8>, x0: int, y0: int) -> Seq<Seq<bool>> {
    Seq::new(
        REAL_HEIGHT as nat,
        |y: int|
            Seq::new(REAL_WIDTH as nat, |x: int| screen[y][x] != sprite_covers(rows, x0, y0, x, y)),
    )
}

/// Whether drawing the sprite turns off a pixel that was on.
pub open spec fn collides(screen: Seq<Seq<bool>>, rows: Seq<u8>, x0: int, y0: int) -> bool {
    exists|x: int, y: int|
        on_screen(x, y) && #[trigger] screen[y][x] && sprite_covers(rows, x0, y0, x, y)
}

/// Sprite cell `(x - x0, y - y0)` comes before cell `(j, i)` in row-major drawing order.
spec fn drawn_before(x0: int, y0: int, x: int, y: int, i: int, j: int) -> bool {
    y - y0 < i || (y - y0 == i && x - x0 < j)
}

/// The display after the sprite cells before `(j, i)` have been drawn.
spec fn drawn_upto(
    screen: Seq<Seq<bool>>,
    rows: Seq<u8>,
    x0: int,
    y0: int,
    i: int,
    j: int,
) -> Seq<Seq<bool>> {
    Seq::new(
        REAL_HEIGHT as nat,
        |y: int|
            Seq::new(
                REAL_WIDTH as nat,
                |x: int|
                    screen[y][x] != (sprite_covers(rows, x0, y0, x, y) && drawn_before(
                        x0,
                        y0,
                        x,
                        y,
                        i,
                        j,
                    )),
            ),
    )
}

/// Whether a sprite cell before `(j, i)` turned off a lit pixel.
spec fn collides_upto(
    screen: Seq<Seq<bool>>,
    rows: Seq<u8>,
    x0: int,
    y0: int,
    i: int,
    j: int,
) -> bool {
    exists|x: int, y: int|
        on_screen(x, y) && #[trigger] screen[y][x] && sprite_covers(rows, x0, y0, x, y)
            && drawn_before(x0, y0, x, y, i, j)
}

/// The display is 32 rows of 64 pixels.
pub open spec fn screen_shaped(screen: Seq<Seq<bool>>) -> bool {
    &&& screen.len() == REAL_HEIGHT
    &&& forall|y: int| 0 <= y < REAL_HEIGHT ==> (#[trigger] screen[y]).len() == REAL_WIDTH
}

/// Byte `m` of the RGBA encoding of a pixel: white when lit, black otherwise, always opaque.
pub open spec fn rgba_byte(lit: bool, m: int) -> u8 {
    if m == 3 || lit {
        0xff
    } else {
        0
    }
}

/// Index of pixel `(x, y)` in row-major order.
pub open spec fn cell_index(x: int, y: int) -> int {
    y * REAL_WIDTH + x
}

proof fn lemma_cell_index_unique(x1: int, y1: int, x2: int, y2: int)
    requires
        0 <= x1 < 64,
        0 <= x2 < 64,
        cell_index(x1, y1) == cell_index(x2, y2),
    ensures
        x1 == x2,
        y1 == y2,
{
    assert(y1 * 64 + x1 == y2 * 64 + x2);
    assert(y1 == y2) by (nonlinear_arith)
        requires
            0 <= x1 < 64,
            0 <= x2 < 64,
            y1 * 64 + x1 == y2 * 64 + x2,
    ;
}

/// The monochrome display surface: 64 x 32 pixels, plus a request to present it.
#[derive(Debug)]
pub struct Graphics {
    cells: [bool; 2048],
    redraw: bool,
}

impl View for Graphics {
    type V = Seq<Seq<bool>>;

    closed spec fn view(&self) -> Seq<Seq<bool>> {
        Seq::new(
            REAL_HEIGHT as nat,
            |y: int| Seq::new(REAL_WIDTH as nat, |x: int| self.cells@[cell_index(x, y)]),
        )
    }
}

impl Graphics {
    /// Every display is 32 rows of 64 pixels.
    pub proof fn lemma_shaped(&self)
        ensures
            screen_shaped(self@),
    {
    }

    /// Whether the display has been flagged for presentation since the flag was last taken.
    pub closed spec fn redraw_requested(&self) -> bool {
        self.redraw
    }

    /// A display with every pixel off and nothing to present.
    pub fn new() -> (r: Self)
        ensures
            r@ == blank_screen(),
            !r.redraw_requested(),
    {
        let r = Graphics { cells: [false; 2048], redraw: false };
        assert(r@ =~~= blank_screen());
        r
    }

    /// The state of pixel `(x, y)`; a pixel off the display reads as off.
    pub fn get_pixel(&self, x: usize, y: usize) -> (r: PixelState)
        ensures
            r == PixelState::from_lit(on_screen(x as int, y as int) && self@[y as int][x as int]),
    {
        if x >= REAL_WIDTH || y >= REAL_HEIGHT {
            return PixelState::Off;
        }
        if self.cells[y * REAL_WIDTH + x] {
            PixelState::On
        } else {
            PixelState::Off
        }
    }

    /// Sets pixel `(x, y)`; a pixel off the display is left alone.
    pub fn set_pixel(&mut self, x: usize, y: usize, state: PixelState)
        ensures
            final(self)@ == with_pixel(old(self)@, x as int, y as int, state == PixelState::On),
            final(self).redraw_requested() == old(self).redraw_requested(),
    {
        if x >= REAL_WIDTH || y >= REAL_HEIGHT {
            return;
        }
        let k = y * REAL_WIDTH + x;
        self.cells[k] = state == PixelState::On;
        proof {
            let lit = state == PixelState::On;
            let expect = with_pixel(old(self)@, x as int, y as int, lit);
            assert forall|yy: int, xx: int| 0 <= yy < 32 && 0 <= xx < 64 implies
                #[trigger] self@[yy][xx] == expect[yy][xx] by {
                if xx != x || yy != y {
                    if cell_index(xx, yy) == k {
                        lemma_cell_index_unique(xx, yy, x as int, y as int);
                    }
                }
            }
            assert(self@ =~~= expect);
        }
    }

    /// Turns every pixel off.
    pub fn clear_screen(&mut self)
        ensures
            final(self)@ == blank_screen(),
            final(self).redraw_requested() == old(self).redraw_requested(),
    {
        self.cells = [false; 2048];
        assert(self@ =~~= blank_screen());
    }

    /// XORs the sprite `rows` onto the display with its top-left corner at `(x, y)`,
    /// one row per byte, most significant bit leftmost. Cells that fall off the display
    /// are dropped. Returns whether a lit pixel was turned off.
    pub fn draw_sprite(&mut self, rows: &[u8], x: usize, y: usize) -> (collision: bool)
        ensures
            final(self)@ == drawn(old(self)@, rows@, x as int, y as int),
            collision == collides(old(self)@, rows@, x as int, y as int),
            final(self).redraw_requested() == old(self).redraw_requested(),
    {
        let ghost screen0 = self@;
        proof {
            self.lemma_shaped();
        }
        let ghost x0 = x as int;
        let ghost y0 = y as int;
        let mut collision = false;
        let mut i: usize = 0;
        assert(self@ =~~= drawn_upto(screen0, rows@, x0, y0, 0, 0));
        while i < rows.len()
            invariant
                i <= rows@.len(),
                x0 == x as int,
                y0 == y as int,
                screen_shaped(self@),
                self@ == drawn_upto(screen0, rows@, x0, y0, i as int, 0),
                collision == collides_upto(screen0, rows@, x0, y0, i as int, 0),
                self.redraw_requested() == old(self).redraw_requested(),
            decreases rows@.len() - i,
        {
            let row = rows[i];
            let mut j: u8 = 0;
            while j < 8
                invariant
                    i < rows@.len(),
                    x0 == x as int,
                    y0 == y as int,
                    row == rows@[i as int],
                    j <= 8,
                    screen_shaped(self@),
                    self@ == drawn_upto(screen0, rows@, x0, y0, i as int, j as int),
                    collision == collides_upto(screen0, rows@, x0, y0, i as int, j as int),
                    self.redraw_requested() == old(self).redraw_requested(),
                decreases 8 - j,
            {
                let bit = (row >> (7 - j)) & 1 == 1;
                let visible = x < REAL_WIDTH && (j as usize) < REAL_WIDTH - x && y < REAL_HEIGHT
                    && i < REAL_HEIGHT - y;
                let ghost before = self@;
                let ghost px = x0 + j;
                let ghost py = y0 + i;
                assert(bit == sprite_bit(rows@[py - y0], px - x0));
                if visible {
                    let lit = self.get_pixel(x + j as usize, y + i) == PixelState::On;
                    if bit && lit {
                        collision = true;
                    }
                    let state = if lit != bit {
                        PixelState::On
                    } else {
                        PixelState::Off
                    };
                    self.set_pixel(x + j as usize, y + i, state);
                }
                proof {
                    let next = drawn_upto(screen0, rows@, x0, y0, i as int, j + 1);
                    assert forall|yy: int, xx: int| 0 <= yy < 32 && 0 <= xx < 64 implies
                        #[trigger] self@[yy][xx] == next[yy][xx] by {
                        if xx == px && yy == py {
                        } else {
                            assert(self@[yy][xx] == before[yy][xx]);
                        }
                    }
                    assert(self@ =~~= next);
                    if visible && bit && screen0[py][px] {
                        assert(on_screen(px, py) && screen0[py][px] && sprite_covers(
                            rows@,
                            x0,
                            y0,
                            px,
                            py,
                        ) && drawn_before(x0, y0, px, py, i as int, j + 1));
                    }
                    if collides_upto(screen0, rows@, x0, y0, i as int, j + 1) {
                        let (wx, wy) = choose|wx: int, wy: int|
                            on_screen(wx, wy) && #[trigger] screen0[wy][wx] && sprite_covers(
                                rows@,
                                x0,
                                y0,
                                wx,
                                wy,
                            ) && drawn_before(x0, y0, wx, wy, i as int, j + 1);
                        if !(wx == px && wy == py) {
                            assert(drawn_before(x0, y0, wx, wy, i as int, j as int));
                        }
                    }
                }
                j = j + 1;
            }
            proof {
                let a = drawn_upto(screen0, rows@, x0, y0, i as int, 8);
                let b = drawn_upto(screen0, rows@, x0, y0, i + 1, 0);
                assert forall|yy: int, xx: int| 0 <= yy < 32 && 0 <= xx < 64 implies
                    #[trigger] a[yy][xx] == b[yy][xx] by {}
                assert(a =~~= b);
                if collides_upto(screen0, rows@, x0, y0, i + 1, 0) {
                    let (wx, wy) = choose|wx: int, wy: int|
                        on_screen(wx, wy) && #[trigger] screen0[wy][wx] && sprite_covers(
                            rows@,
                            x0,
                            y0,
                            wx,
                            wy,
                        ) && drawn_before(x0, y0, wx, wy, i + 1, 0);
                    assert(drawn_before(x0, y0, wx, wy, i as int, 8));
                }
                if collides_upto(screen0, rows@, x0, y0, i as int, 8) {
                    let (wx, wy) = choose|wx: int, wy: int|
                        on_screen(wx, wy) && #[trigger] screen0[wy][wx] && sprite_covers(
                            rows@,
                            x0,
                            y0,
                            wx,
                            wy,
                        ) && drawn_before(x0, y0, wx, wy, i as int, 8);
                    assert(drawn_before(x0, y0, wx, wy, i + 1, 0));
                }
            }
            i = i + 1;
        }
        proof {
            let n = rows@.len() as int;
            let a = drawn_upto(screen0, rows@, x0, y0, n, 0);
            let b = drawn(screen0, rows@, x0, y0);
            assert forall|yy: int, xx: int| 0 <= yy < 32 && 0 <= xx < 64 implies
                #[trigger] a[yy][xx] == b[yy][xx] by {}
            assert(a =~~= b);
            if collides(screen0, rows@, x0, y0) {
                let (wx, wy) = choose|wx: int, wy: int|
                    on_screen(wx, wy) && #[trigger] screen0[wy][wx] && sprite_covers(
                        rows@,
                        x0,
                        y0,
                        wx,
                        wy,
                    );
                assert(drawn_before(x0, y0, wx, wy, n, 0));
            }
        }
        collision
    }

    /// The display as an RGBA frame, row-major, four bytes per pixel: white when lit,
    /// black otherwise, always opaque.
    pub fn to_rgba(&self) -> (r: Vec<u8>)
        ensures
            r@.len() == PIXEL_COUNT * BUFFER_CHUNK_SIZE,
            forall|x: int, y: int, m: int|
                on_screen(x, y) && 0 <= m < 4 ==> #[trigger] r@[4 * cell_index(x, y) + m]
                    == rgba_byte(self@[y][x], m),
    {
        let mut r: Vec<u8> = Vec::new();
        let mut k: usize = 0;
        while k < PIXEL_COUNT
            invariant
                k <= PIXEL_COUNT,
                r@.len() == 4 * k,
                forall|c: int, m: int|
                    0 <= c < k && 0 <= m < 4 ==> #[trigger] r@[4 * c + m] == rgba_byte(
                        self.cells@[c],
                        m,
                    ),
            decreases PIXEL_COUNT - k,
        {
            let level: u8 = if self.cells[k] {
                0xff
            } else {
                0
            };
            let ghost prev = r@;
            r.push(level);
            r.push(level);
            r.push(level);
            r.push(0xff);
            proof {
                assert forall|c: int, m: int| 0 <= c < k + 1 && 0 <= m < 4 implies #[trigger] r@[4
                    * c + m] == rgba_byte(self.cells@[c], m) by {
                    if c < k {
                        assert(r@[4 * c + m] == prev[4 * c + m]);
                    }
                }
            }
            k = k + 1;
        }
        r
    }

    /// Flags the display for presentation.
    pub fn present(&mut self)
        ensures
            final(self)@ == old(self)@,
            final(self).redraw_requested(),
    {
        self.redraw = true;
    }

    /// Reports whether the display was flagged for presentation, and clears the flag.
    pub fn take_redraw_request(&mut self) -> (r: bool)
        ensures
            r == old(self).redraw_requested(),
            final(self)@ == old(self)@,
            !final(self).redraw_requested(),
    {
        let r = self.redraw;
        self.redraw = false;
        r
    }
}

} // verus!
