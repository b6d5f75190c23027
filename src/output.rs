use vstd::prelude::*;
use crate::sprites::Chip8Sprite;

verus! {

/// Display width in pixels.
pub const WIDTH: usize = 64;

/// Display height in pixels.
pub const HEIGHT: usize = 32;

/// The state of one pixel: `White` is on, `Black` is off.
#[derive(Debug, Clone, Copy, PartialEq, Eq, Structural)]
pub enum Chip8Pixel {
    White,
    Black,
}

/// The other state of a pixel.
pub open spec fn flip(p: Chip8Pixel) -> Chip8Pixel {
    match p {
        Chip8Pixel::White => Chip8Pixel::Black,
        Chip8Pixel::Black => Chip8Pixel::White,
    }
}

/// A display with every pixel off.
pub open spec fn blank_display() -> Seq<Seq<Chip8Pixel>> {
    Seq::new(HEIGHT as nat, |row: int| Seq::new(WIDTH as nat, |col: int| Chip8Pixel::Black))
}

/// A grid of 32 rows of 64 pixels.
pub open spec fn is_grid(d: Seq<Seq<Chip8Pixel>>) -> bool {
    d.len() == HEIGHT && forall|row: int| 0 <= row < HEIGHT ==> #[trigger] d[row].len() == WIDTH
}

/// The display with the pixel at (`col`, `row`) flipped.
pub open spec fn toggled(d: Seq<Seq<Chip8Pixel>>, col: int, row: int) -> Seq<Seq<Chip8Pixel>> {
    d.update(row, d[row].update(col, flip(d[row][col])))
}

/// Whether a sprite drawn with its top-left corner at (`x`, `y`) has a set
/// pixel over the display pixel (`col`, `row`), coordinates wrapping around
/// the edges. The sprite's row and column for that pixel are the distances,
/// modulo the display's size, from the wrapped corner.
pub open spec fn covers(sprite: Seq<Seq<Chip8Pixel>>, x: int, y: int, col: int, row: int) -> bool {
    let dc = (col - x % 64) % 64;
    let dr = (row - y % 32) % 32;
    dc < 8 && dr < sprite.len() && sprite[dr][dc] == Chip8Pixel::White
}

/// The display after the sprite is XOR-composited at (`x`, `y`): every
/// pixel under a set sprite pixel flips, every other pixel is kept.
pub open spec fn drawn(d: Seq<Seq<Chip8Pixel>>, sprite: Seq<Seq<Chip8Pixel>>, x: int, y: int) -> Seq<
    Seq<Chip8Pixel>,
> {
    Seq::new(
        HEIGHT as nat,
        |row: int|
            Seq::new(
                WIDTH as nat,
                |col: int|
                    if covers(sprite, x, y, col, row) {
                        flip(d[row][col])
                    } else {
                        d[row][col]
                    },
            ),
    )
}

/// Whether drawing the sprite at (`x`, `y`) turns some pixel from on to off.
pub open spec fn collides(d: Seq<Seq<Chip8Pixel>>, sprite: Seq<Seq<Chip8Pixel>>, x: int, y: int) -> bool {
    exists|col: int, row: int|
        0 <= col < WIDTH && 0 <= row < HEIGHT && #[trigger] covers(sprite, x, y, col, row)
            && d[row][col] == Chip8Pixel::White
}

/// `covers`, limited to the sprite pixels before row `i`, column `j`.
pub open spec fn covers_before(
    sprite: Seq<Seq<Chip8Pixel>>,
    x: int,
    y: int,
    col: int,
    row: int,
    i: int,
    j: int,
) -> bool {
    let dc = (col - x % 64) % 64;
    let dr = (row - y % 32) % 32;
    covers(sprite, x, y, col, row) && (dr < i || (dr == i && dc < j))
}

pub open spec fn drawn_before(
    d: Seq<Seq<Chip8Pixel>>,
    sprite: Seq<Seq<Chip8Pixel>>,
    x: int,
    y: int,
    i: int,
    j: int,
) -> Seq<Seq<Chip8Pixel>> {
    Seq::new(
        HEIGHT as nat,
        |row: int|
            Seq::new(
                WIDTH as nat,
                |col: int|
                    if covers_before(sprite, x, y, col, row, i, j) {
                        flip(d[row][col])
                    } else {
                        d[row][col]
                    },
            ),
    )
}

pub open spec fn collides_before(
    d: Seq<Seq<Chip8Pixel>>,
    sprite: Seq<Seq<Chip8Pixel>>,
    x: int,
    y: int,
    i: int,
    j: int,
) -> bool {
    exists|col: int, row: int|
        0 <= col < WIDTH && 0 <= row < HEIGHT && #[trigger] covers_before(sprite, x, y, col, row, i, j)
            && d[row][col] == Chip8Pixel::White
}

/// The byte that stands for a pixel: 1 on, 0 off.
pub open spec fn pixel_value(p: Chip8Pixel) -> u8 {
    match p {
        Chip8Pixel::White => 1,
        Chip8Pixel::Black => 0,
    }
}

/// The two characters that draw a pixel in text: dark shade on, medium
/// shade off.
pub open spec fn pixel_text(p: Chip8Pixel) -> Seq<char> {
    match p {
        Chip8Pixel::White => seq!['\u{2593}', '\u{2593}'],
        Chip8Pixel::Black => seq!['\u{2592}', '\u{2592}'],
    }
}

/// The text of a row of pixels, left to right.
pub open spec fn row_text(row: Seq<Chip8Pixel>) -> Seq<char>
    decreases row.len(),
{
    if row.len() == 0 {
        Seq::empty()
    } else {
        row_text(row.drop_last()) + pixel_text(row.last())
    }
}

/// The text of the display: each row, top to bottom, ended by a newline.
pub open spec fn display_text(d: Seq<Seq<Chip8Pixel>>) -> Seq<char>
    decreases d.len(),
{
    if d.len() == 0 {
        Seq::empty()
    } else {
        display_text(d.drop_last()) + row_text(d.last()) + seq!['\n']
    }
}

/// Offsetting a wrapped coordinate and measuring the distance back gives
/// the offset again.
proof fn lemma_wrap_offset(x: int, j: int, m: int)
    requires
        0 <= x < m,
        0 <= j < m,
        m == 64 || m == 32,
    ensures
        ((x + j) % m - x) % m == j,
{
    if x + j < m {
        assert((x + j) % m == x + j);
    } else {
        assert((x + j) % m == x + j - m);
        assert((j - m) % m == j);
    }
}

/// A wrapped coordinate lies at distance `j` from the wrapped corner `x`
/// exactly when it is `x + j` wrapped.
proof fn lemma_wrap_unique(x: int, c: int, j: int, m: int)
    requires
        0 <= x < m,
        0 <= c < m,
        0 <= j < m,
        m == 64 || m == 32,
    ensures
        ((c - x) % m == j) <==> (c == (x + j) % m),
{
    lemma_wrap_offset(x, j, m);
    if c >= x {
        assert((c - x) % m == c - x);
    } else {
        assert((c - x) % m == c - x + m);
    }
}

/// Drawing the sprite pixel at row `i`, column `j`: it covers one display
/// pixel, which nothing drawn before covers.
proof fn lemma_draw_step(d: Seq<Seq<Chip8Pixel>>, s: Seq<Seq<Chip8Pixel>>, x: int, y: int, i: int, j: int)
    requires
        0 <= x,
        0 <= y,
        0 <= i < s.len() < 16,
        0 <= j < 8,
        s[i].len() == 8,
    ensures
        ({
            let col0 = (x % 64 + j) % 64;
            let row0 = (y % 32 + i) % 32;
            &&& 0 <= col0 < 64
            &&& 0 <= row0 < 32
            &&& !covers_before(s, x, y, col0, row0, i, j)
            &&& forall|col: int, row: int|
                0 <= col < 64 && 0 <= row < 32 ==> (covers_before(s, x, y, col, row, i, j + 1) <==> (
                covers_before(s, x, y, col, row, i, j) || (col == col0 && row == row0 && s[i][j]
                == Chip8Pixel::White)))
            &&& (s[i][j] == Chip8Pixel::White ==> covers_before(s, x, y, col0, row0, i, j + 1))
            &&& collides_before(d, s, x, y, i, j + 1) == (collides_before(d, s, x, y, i, j) || (
            s[i][j] == Chip8Pixel::White && d[row0][col0] == Chip8Pixel::White))
            &&& drawn_before(d, s, x, y, i, j)[row0][col0] == d[row0][col0]
        }),
{
    let col0 = (x % 64 + j) % 64;
    let row0 = (y % 32 + i) % 32;
    lemma_wrap_offset(x % 64, j, 64);
    lemma_wrap_offset(y % 32, i, 32);
    assert forall|col: int, row: int| 0 <= col < 64 && 0 <= row < 32 implies (covers_before(
        s,
        x,
        y,
        col,
        row,
        i,
        j + 1,
    ) <==> (covers_before(s, x, y, col, row, i, j) || (col == col0 && row == row0 && s[i][j]
        == Chip8Pixel::White))) by {
        lemma_wrap_unique(x % 64, col, j, 64);
        lemma_wrap_unique(y % 32, row, i, 32);
    }
    if collides_before(d, s, x, y, i, j + 1) {
        let (c, r) = choose|c: int, r: int|
            0 <= c < WIDTH && 0 <= r < HEIGHT && #[trigger] covers_before(s, x, y, c, r, i, j + 1)
                && d[r][c] == Chip8Pixel::White;
        if !(c == col0 && r == row0) {
            assert(covers_before(s, x, y, c, r, i, j));
        }
    }
    if collides_before(d, s, x, y, i, j) {
        let (c, r) = choose|c: int, r: int|
            0 <= c < WIDTH && 0 <= r < HEIGHT && #[trigger] covers_before(s, x, y, c, r, i, j)
                && d[r][c] == Chip8Pixel::White;
        assert(covers_before(s, x, y, c, r, i, j + 1));
    }
    if s[i][j] == Chip8Pixel::White && d[row0][col0] == Chip8Pixel::White {
        assert(covers_before(s, x, y, col0, row0, i, j + 1));
    }
}

/// After the eight pixels of row `i`, the next row starts.
proof fn lemma_draw_next_row(d: Seq<Seq<Chip8Pixel>>, s: Seq<Seq<Chip8Pixel>>, x: int, y: int, i: int)
    ensures
        drawn_before(d, s, x, y, i, 8) == drawn_before(d, s, x, y, i + 1, 0),
        collides_before(d, s, x, y, i, 8) == collides_before(d, s, x, y, i + 1, 0),
{
    assert forall|col: int, row: int| #[trigger] covers_before(s, x, y, col, row, i, 8)
        == covers_before(s, x, y, col, row, i + 1, 0) by {}
    assert(drawn_before(d, s, x, y, i, 8) =~~= drawn_before(d, s, x, y, i + 1, 0));
    if collides_before(d, s, x, y, i, 8) {
        let (c, r) = choose|c: int, r: int|
            0 <= c < WIDTH && 0 <= r < HEIGHT && #[trigger] covers_before(s, x, y, c, r, i, 8)
                && d[r][c] == Chip8Pixel::White;
        assert(covers_before(s, x, y, c, r, i + 1, 0));
    }
    if collides_before(d, s, x, y, i + 1, 0) {
        let (c, r) = choose|c: int, r: int|
            0 <= c < WIDTH && 0 <= r < HEIGHT && #[trigger] covers_before(s, x, y, c, r, i + 1, 0)
                && d[r][c] == Chip8Pixel::White;
        assert(covers_before(s, x, y, c, r, i, 8));
    }
}

/// After every row, the whole sprite is drawn.
proof fn lemma_draw_done(d: Seq<Seq<Chip8Pixel>>, s: Seq<Seq<Chip8Pixel>>, x: int, y: int)
    ensures
        drawn_before(d, s, x, y, s.len() as int, 0) == drawn(d, s, x, y),
        collides_before(d, s, x, y, s.len() as int, 0) == collides(d, s, x, y),
{
    assert forall|col: int, row: int| #[trigger] covers_before(s, x, y, col, row, s.len() as int, 0)
        == covers(s, x, y, col, row) by {}
    assert(drawn_before(d, s, x, y, s.len() as int, 0) =~~= drawn(d, s, x, y));
    if collides(d, s, x, y) {
        let (c, r) = choose|c: int, r: int|
            0 <= c < WIDTH && 0 <= r < HEIGHT && #[trigger] covers(s, x, y, c, r) && d[r][c]
                == Chip8Pixel::White;
        assert(covers_before(s, x, y, c, r, s.len() as int, 0));
    }
}

/// The 64x32 display.
#[derive(Debug)]
pub struct Chip8Output {
    pub display: [[Chip8Pixel; 64]; 32],
}

impl View for Chip8Output {
    type V = Seq<Seq<Chip8Pixel>>;

    open spec fn view(&self) -> Seq<Seq<Chip8Pixel>> {
        self.display@.map_values(|row: [Chip8Pixel; 64]| row@)
    }
}

impl Chip8Output {
    /// A display with every pixel off.
    pub fn new() -> (r: Chip8Output)
        ensures
            r@ == blank_display(),
    {
        let r = Chip8Output { display: [[Chip8Pixel::Black; 64]; 32] };
        assert(r@ =~~= blank_display());
        r
    }

    pub fn get_display(&self) -> (r: &[[Chip8Pixel; 64]; 32])
        ensures
            *r == self.display,
    {
        &self.display
    }

    /// Turns every pixel off.
    pub fn clear_display(&mut self)
        ensures
            final(self)@ == blank_display(),
    {
        let mut row: usize = 0;
        while row < HEIGHT
            invariant
                row <= HEIGHT,
                forall|r: int| 0 <= r < row ==> #[trigger] self@[r] == blank_display()[r],
            decreases HEIGHT - row,
        {
            let ghost prev = self@;
            self.display[row] = [Chip8Pixel::Black; 64];
            assert(self@[row as int] =~= blank_display()[row as int]);
            assert forall|r: int| 0 <= r < row + 1 implies #[trigger] self@[r] == blank_display()[r] by {
                if r < row {
                    assert(self@[r] == prev[r]);
                }
            }
            row = row + 1;
        }
        assert(self@ =~~= blank_display());
    }

    /// Flips the pixel at (`x`, `y`), both wrapped to the display, and
    /// returns whether it was on before.
    pub fn toggle_pixel(&mut self, x: usize, y: usize) -> (r: bool)
        ensures
            final(self)@ == toggled(old(self)@, x as int % 64, y as int % 32),
            r == (old(self)@[y as int % 32][x as int % 64] == Chip8Pixel::White),
    {
        let x = x % WIDTH;
        let y = y % HEIGHT;
        let orig_pixel = self.display[y][x];
        let mut row = self.display[y];
        row[x] = if orig_pixel == Chip8Pixel::White {
            Chip8Pixel::Black
        } else {
            Chip8Pixel::White
        };
        self.display[y] = row;
        assert(self@ =~~= toggled(old(self)@, x as int, y as int));
        orig_pixel == Chip8Pixel::White
    }

    /// XOR-composites the sprite with its top-left corner at (`x`, `y`),
    /// wrapping around the edges, and returns whether any pixel went from
    /// on to off.
    pub fn draw_sprite_on_display(&mut self, x: usize, y: usize, sprite: Chip8Sprite) -> (r: bool)
        requires
            sprite.pixels.len() < 16,
        ensures
            final(self)@ == drawn(old(self)@, sprite@, x as int, y as int),
            r == collides(old(self)@, sprite@, x as int, y as int),
    {
        let ghost d0 = self@;
        let ghost s = sprite@;
        let x0 = x % WIDTH;
        let y0 = y % HEIGHT;
        let mut flipped_from_white = false;
        let mut i: usize = 0;
        assert(self@ =~~= drawn_before(d0, s, x as int, y as int, 0, 0));
        while i < sprite.pixels.len()
            invariant
                i <= sprite.pixels.len() < 16,
                s == sprite@,
                x0 == x % 64,
                y0 == y % 32,
                self@ == drawn_before(d0, s, x as int, y as int, i as int, 0),
                flipped_from_white == collides_before(d0, s, x as int, y as int, i as int, 0),
            decreases sprite.pixels.len() - i,
        {
            let pixel_row = sprite.pixels[i];
            let mut j: usize = 0;
            while j < 8
                invariant
                    i < sprite.pixels.len() < 16,
                    j <= 8,
                    s == sprite@,
                    pixel_row@ == s[i as int],
                    x0 == x % 64,
                    y0 == y % 32,
                    self@ == drawn_before(d0, s, x as int, y as int, i as int, j as int),
                    flipped_from_white == collides_before(
                        d0,
                        s,
                        x as int,
                        y as int,
                        i as int,
                        j as int,
                    ),
                decreases 8 - j,
            {
                let ghost before = self@;
                let ghost flipped_before = flipped_from_white;
                let ghost col0 = ((x0 + j) % 64) as int;
                let ghost row0 = ((y0 + i) % 32) as int;
                proof {
                    lemma_draw_step(d0, s, x as int, y as int, i as int, j as int);
                }
                if pixel_row[j] == Chip8Pixel::White {
                    let was_white = self.toggle_pixel(x0 + j, y0 + i);
                    flipped_from_white = flipped_from_white || was_white;
                    proof {
                        assert(self@ =~~= drawn_before(d0, s, x as int, y as int, i as int, j + 1));
                    }
                } else {
                    proof {
                        assert(self@ =~~= drawn_before(d0, s, x as int, y as int, i as int, j + 1));
                    }
                }
                j = j + 1;
            }
            proof {
                lemma_draw_next_row(d0, s, x as int, y as int, i as int);
            }
            i = i + 1;
        }
        proof {
            lemma_draw_done(d0, s, x as int, y as int);
        }
        flipped_from_white
    }
    /// The display as rows of bytes, 1 for a pixel that is on, 0 for off.
    pub fn get_display_as_ints(&self) -> (r: Vec<Vec<u8>>)
        ensures
            r@.len() == HEIGHT,
            forall|row: int| 0 <= row < HEIGHT ==> #[trigger] r@[row]@ == self@[row].map_values(|p: Chip8Pixel| pixel_value(p)),
    {
        let mut r: Vec<Vec<u8>> = Vec::new();
        let mut row: usize = 0;
        while row < HEIGHT
            invariant
                row <= HEIGHT,
                r@.len() == row,
                forall|k: int| 0 <= k < row ==> #[trigger] r@[k]@ == self@[k].map_values(|p: Chip8Pixel| pixel_value(p)),
            decreases HEIGHT - row,
        {
            let mut ints: Vec<u8> = Vec::new();
            let mut col: usize = 0;
            while col < WIDTH
                invariant
                    row < HEIGHT,
                    col <= WIDTH,
                    ints@ == self@[row as int].subrange(0, col as int).map_values(|p: Chip8Pixel| pixel_value(p)),
                decreases WIDTH - col,
            {
                let v: u8 = match self.display[row][col] {
                    Chip8Pixel::Black => 0,
                    Chip8Pixel::White => 1,
                };
                ints.push(v);
                assert(self@[row as int].subrange(0, col + 1) =~= self@[row as int].subrange(0, col as int).push(self.display[row as int][col as int]));
                assert(ints@ =~= self@[row as int].subrange(0, col + 1).map_values(|p: Chip8Pixel| pixel_value(p)));
                col = col + 1;
            }
            assert(self@[row as int].subrange(0, WIDTH as int) =~= self@[row as int]);
            r.push(ints);
            row = row + 1;
        }
        r
    }

    /// The display as text, two characters per pixel and a newline after
    /// each row.
    pub fn get_display_as_str(&self) -> (r: String)
        ensures
            r@ == display_text(self@),
    {
        let mut s = String::new();
        let mut row: usize = 0;
        while row < HEIGHT
            invariant
                row <= HEIGHT,
                s@ == display_text(self@.subrange(0, row as int)),
            decreases HEIGHT - row,
        {
            let ghost start = s@;
            let mut col: usize = 0;
            while col < WIDTH
                invariant
                    row < HEIGHT,
                    col <= WIDTH,
                    start == display_text(self@.subrange(0, row as int)),
                    s@ == start + row_text(self@[row as int].subrange(0, col as int)),
                decreases WIDTH - col,
            {
                let p = self.display[row][col];
                proof {
                    reveal_strlit("\u{2593}\u{2593}");
                    reveal_strlit("\u{2592}\u{2592}");
                }
                match p {
                    Chip8Pixel::White => s.append("\u{2593}\u{2593}"),
                    Chip8Pixel::Black => s.append("\u{2592}\u{2592}"),
                }
                assert(self@[row as int].subrange(0, col + 1).drop_last() =~= self@[row as int].subrange(0, col as int));
                assert(s@ =~= start + row_text(self@[row as int].subrange(0, col + 1)));
                col = col + 1;
            }
            proof {
                reveal_strlit("\n");
            }
            s.append("\n");
            assert(self@[row as int].subrange(0, WIDTH as int) =~= self@[row as int]);
            assert(self@.subrange(0, row + 1).drop_last() =~= self@.subrange(0, row as int));
            assert(s@ =~= display_text(self@.subrange(0, row + 1)));
            row = row + 1;
        }
        assert(self@.subrange(0, HEIGHT as int) =~= self@);
        s
    }
}

} // verus!
