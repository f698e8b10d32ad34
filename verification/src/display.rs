use vstd::prelude::*;

verus! {

/// Width of the screen in pixels.
pub const SCREEN_WIDTH: u8 = 64;

/// Height of the screen in pixels.
pub const SCREEN_HEIGHT: u8 = 32;

/// Bytes per pixel in a rendered frame (red, green, blue, alpha).
pub const BYTES_PER_PIXEL: usize = 4;

/// Whether bit `x` of `word` is set.
pub open spec fn bit_set(word: u64, x: int) -> bool {
    (word >> (x as u64)) & 1u64 == 1u64
}

/// The screen that the rows of pixel words show: `screen[y][x]` is the
/// pixel in column `x` of row `y`, stored in bit `x` of word `y`.
pub open spec fn screen_of(words: Seq<u64>) -> Seq<Seq<bool>> {
    Seq::new(SCREEN_HEIGHT as nat, |y: int| Seq::new(SCREEN_WIDTH as nat, |x: int| bit_set(words[y], x)))
}

/// A screen with every pixel off.
pub open spec fn blank_screen() -> Seq<Seq<bool>> {
    Seq::new(SCREEN_HEIGHT as nat, |y: int| Seq::new(SCREEN_WIDTH as nat, |x: int| false))
}

/// `screen` with the pixel at column `x`, row `y` inverted.
pub open spec fn flip_pixel(screen: Seq<Seq<bool>>, x: int, y: int) -> Seq<Seq<bool>> {
    screen.update(y, screen[y].update(x, !screen[y][x]))
}

/// Whether `screen` has `SCREEN_HEIGHT` rows of `SCREEN_WIDTH` pixels.
pub open spec fn screen_shaped(screen: Seq<Seq<bool>>) -> bool {
    &&& screen.len() == SCREEN_HEIGHT
    &&& forall|y: int| 0 <= y < SCREEN_HEIGHT ==> (#[trigger] screen[y]).len() == SCREEN_WIDTH
}

/// The value of byte `k` of the RGBA frame that shows `screen`: white for a
/// lit pixel, black for a dark one, always opaque.
pub open spec fn frame_byte(screen: Seq<Seq<bool>>, k: int) -> u8 {
    let p = k / 4;
    if k % 4 == 3 {
        255
    } else if screen[p / 64][p % 64] {
        255
    } else {
        0
    }
}

/// The 64x32 monochrome screen; row `y` is the word `pixels[y]`, whose bit
/// `x` is the pixel in column `x`.
#[derive(Debug)]
pub struct Display {
    pub pixels: [u64; 32],
}

impl View for Display {
    type V = Seq<Seq<bool>>;

    open spec fn view(&self) -> Seq<Seq<bool>> {
        screen_of(self.pixels@)
    }
}

proof fn lemma_flip_bit(w: u64, x: u64, p: u64)
    requires
        x < 64,
        p < 64,
    ensures
        ((w ^ (1u64 << x)) >> p) & 1u64 == 1u64 <==> (((w >> p) & 1u64 == 1u64) != (p == x)),
        (w & (1u64 << x) != 0u64) <==> ((w >> x) & 1u64 == 1u64),
{
    assert(((w ^ (1u64 << x)) >> p) & 1u64 == 1u64 <==> (((w >> p) & 1u64 == 1u64) != (p == x)))
        by (bit_vector)
        requires
            x < 64,
            p < 64,
    ;
    assert((w & (1u64 << x) != 0u64) <==> ((w >> x) & 1u64 == 1u64)) by (bit_vector)
        requires
            x < 64,
    ;
}

proof fn lemma_zero_word_dark(p: u64)
    ensures
        (0u64 >> p) & 1u64 != 1u64,
{
    assert((0u64 >> p) & 1u64 != 1u64) by (bit_vector);
}

impl Display {
    /// A screen with every pixel off.
    pub fn new() -> (d: Self)
        ensures
            d@ == blank_screen(),
    {
        let d = Display { pixels: [0u64; 32] };
        proof {
            assert forall|y: int, x: int| 0 <= y < 32 && 0 <= x < 64 implies !bit_set(
                d.pixels@[y],
                x,
            ) by {
                lemma_zero_word_dark(x as u64);
            }
            assert(d@ =~~= blank_screen());
        }
        d
    }

    /// Turns every pixel off.
    pub fn clear(&mut self)
        ensures
            final(self)@ == blank_screen(),
    {
        self.pixels = [0u64; 32];
        proof {
            assert forall|y: int, x: int| 0 <= y < 32 && 0 <= x < 64 implies !bit_set(
                self.pixels@[y],
                x,
            ) by {
                lemma_zero_word_dark(x as u64);
            }
            assert(self@ =~~= blank_screen());
        }
    }

    /// Whether the pixel at (`x`, `y`) is lit; coordinates wrap around the
    /// screen's edges.
    pub fn get_pixel(&self, x: u8, y: u8) -> (lit: bool)
        ensures
            lit == self@[(y % SCREEN_HEIGHT) as int][(x % SCREEN_WIDTH) as int],
    {
        let x = x % SCREEN_WIDTH;
        let y = y % SCREEN_HEIGHT;
        let word = self.pixels[y as usize];
        proof {
            lemma_flip_bit(word, x as u64, x as u64);
        }
        (word & (1u64 << (x as u64))) != 0
    }

    /// Inverts the pixel at (`x`, `y`), coordinates wrapping around the
    /// screen's edges, and tells whether it was lit before.
    pub fn toggle_pixel(&mut self, x: u8, y: u8) -> (was_lit: bool)
        ensures
            was_lit == old(self)@[(y % SCREEN_HEIGHT) as int][(x % SCREEN_WIDTH) as int],
            final(self)@ == flip_pixel(
                old(self)@,
                (x % SCREEN_WIDTH) as int,
                (y % SCREEN_HEIGHT) as int,
            ),
    {
        let x = x % SCREEN_WIDTH;
        let y = y % SCREEN_HEIGHT;
        let mask: u64 = 1u64 << (x as u64);
        let word = self.pixels[y as usize];
        let collision = (word & mask) != 0;
        self.pixels[y as usize] = word ^ mask;
        proof {
            lemma_flip_bit(word, x as u64, x as u64);
            let before = old(self)@;
            let after = self@;
            assert forall|py: int, px: int| 0 <= py < 32 && 0 <= px < 64 implies after[py][px]
                == flip_pixel(before, x as int, y as int)[py][px] by {
                if py == y as int {
                    lemma_flip_bit(word, x as u64, px as u64);
                }
            }
            assert(after =~~= flip_pixel(before, x as int, y as int));
        }
        collision
    }

    /// The screen as RGBA bytes, row by row: four bytes per pixel, white
    /// where lit and black where dark, alpha always opaque.
    pub fn frame_rgba(&self) -> (frame: Vec<u8>)
        ensures
            frame@.len() == SCREEN_WIDTH * SCREEN_HEIGHT * BYTES_PER_PIXEL,
            forall|k: int| 0 <= k < frame@.len() ==> #[trigger] frame@[k] == frame_byte(self@, k),
    {
        let mut frame: Vec<u8> = Vec::new();
        let mut p: usize = 0;
        while p < 2048
            invariant
                p <= 2048,
                frame@.len() == 4 * p,
                forall|k: int| 0 <= k < frame@.len() ==> #[trigger] frame@[k] == frame_byte(self@, k),
            decreases 2048 - p,
        {
            let x = (p % 64) as u8;
            let y = (p / 64) as u8;
            let lit = self.get_pixel(x, y);
            let shade: u8 = if lit { 255 } else { 0 };
            let ghost base = frame@.len() as int;
            frame.push(shade);
            frame.push(shade);
            frame.push(shade);
            frame.push(255);
            proof {
                assert forall|k: int| 0 <= k < frame@.len() implies #[trigger] frame@[k]
                    == frame_byte(self@, k) by {
                    if k >= base {
                        assert(k / 4 == p as int);
                    }
                }
            }
            p = p + 1;
        }
        frame
    }
}

impl Default for Display {
    fn default() -> (d: Self)
        ensures
            d@ == blank_screen(),
    {
        Display::new()
    }
}

/// Inverting the same pixel twice leaves the screen as it was.
pub proof fn lemma_flip_twice(screen: Seq<Seq<bool>>, x: int, y: int)
    requires
        screen_shaped(screen),
        0 <= x < SCREEN_WIDTH,
        0 <= y < SCREEN_HEIGHT,
    ensures
        flip_pixel(flip_pixel(screen, x, y), x, y) == screen,
{
    assert(flip_pixel(flip_pixel(screen, x, y), x, y)[y] =~= screen[y]);
    assert(flip_pixel(flip_pixel(screen, x, y), x, y) =~= screen);
}

/// Inverting a pixel changes that pixel and no other.
pub proof fn lemma_flip_only_target(screen: Seq<Seq<bool>>, x: int, y: int, px: int, py: int)
    requires
        screen_shaped(screen),
        0 <= x < SCREEN_WIDTH,
        0 <= y < SCREEN_HEIGHT,
        0 <= px < SCREEN_WIDTH,
        0 <= py < SCREEN_HEIGHT,
    ensures
        flip_pixel(screen, x, y)[py][px] == (screen[py][px] != (px == x && py == y)),
{
}

} // verus!
