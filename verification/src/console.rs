//! The text console: a character grid over a framebuffer. The grid state —
//! which character stands where, and the cursor position — is the console's
//! own logic; the glyphs come pre-rasterized from the bitmap font crate,
//! and rendering copies their pixel bytes into the framebuffer model.

use vstd::prelude::*;

verus! {

/// Height in pixels of the font raster in use.
pub const FONT_HEIGHT: usize = 16;

/// A framebuffer as the console draws into it: the mode description and
/// the pixel bytes. The surrounding runtime copies the bytes to the device
/// memory the bootloader described.
pub struct FrameBuffer {
    pub width: usize,
    pub height: usize,
    pub stride: usize,
    pub bpp: usize,
    pub pixels: Vec<u8>,
}

impl FrameBuffer {
    /// The mode is the 32-bit-per-pixel one the bootloader sets up, and the
    /// pixel buffer covers the whole mode.
    pub open spec fn wf(self) -> bool {
        &&& self.bpp == 32
        &&& self.width <= self.stride
        &&& self.pixels.len() == self.height * self.stride * 4
    }
}

/// What the pre-rasterized glyph of a character is: rows of pixel
/// intensity bytes, or nothing for a character the font does not know.
pub uninterp spec fn glyph_of(c: char) -> Option<Seq<Seq<u8>>>;

/// Relies on noto_sans_mono_bitmap::get_raster_width: every glyph of the
/// regular weight at the 16-pixel raster height is 7 pixels wide.
#[verifier::external_body]
fn font_raster_width() -> (r: usize)
    ensures
        r == 7,
{
    noto_sans_mono_bitmap::get_raster_width(
        noto_sans_mono_bitmap::FontWeight::Regular,
        noto_sans_mono_bitmap::RasterHeight::Size16,
    )
}

/// Relies on noto_sans_mono_bitmap::get_raster: the pre-rasterized glyph
/// depends on the character alone; a regular-weight 16-pixel glyph is 16
/// rows of 7 intensity bytes, and `None` comes back exactly for characters
/// outside the font.
#[verifier::external_body]
fn glyph_raster(c: char) -> (r: Option<Vec<Vec<u8>>>)
    ensures
        r matches Some(rows) ==> {
            &&& glyph_of(c) == Some(rows.deep_view())
            &&& rows.len() == 16
            &&& forall|i: int| 0 <= i < 16 ==> (#[trigger] rows[i]).len() == 7
        },
        r is None ==> glyph_of(c) is None,
{
    noto_sans_mono_bitmap::get_raster(
        c,
        noto_sans_mono_bitmap::FontWeight::Regular,
        noto_sans_mono_bitmap::RasterHeight::Size16,
    ).map(|g| g.raster().iter().map(|row| row.to_vec()).collect())
}

/// What writing one already-translated byte does to the character grid:
/// a newline jumps the cursor to the next line's start, anything else
/// lands at the cursor and advances it.
pub open spec fn spec_putc(chars: Seq<u8>, pos: int, width: int, byte: u8) -> (Seq<u8>, int) {
    if byte == 10 {
        (chars, pos + (width - pos % width))
    } else {
        (chars.update(pos, byte), pos + 1)
    }
}

/// How `write_string` translates a byte before writing it: printable
/// ASCII and newline pass, anything else becomes the replacement byte.
pub open spec fn spec_translate(byte: u8) -> u8 {
    if (0x20 <= byte <= 0x7e) || byte == 10 {
        byte
    } else {
        0xfe
    }
}

/// The grid state after the first `n` bytes of `s` are translated and
/// written.
pub open spec fn spec_write(chars: Seq<u8>, pos: int, width: int, s: Seq<u8>, n: int) -> (
    Seq<u8>,
    int,
)
    decreases n,
{
    if n <= 0 {
        (chars, pos)
    } else {
        let prev = spec_write(chars, pos, width, s, n - 1);
        spec_putc(prev.0, prev.1, width, spec_translate(s[n - 1]))
    }
}

/// The text console over a framebuffer: the character grid, the cursor,
/// and the font cell metrics.
pub struct Console {
    pub font_width: usize,
    pub font_height: usize,
    pub width: usize,
    pub height: usize,
    pub pos: usize,
    pub chars: Vec<u8>,
    pub fb: FrameBuffer,
}

impl Console {
    /// The grid covers the framebuffer in whole font cells and the cursor
    /// never leaves it.
    pub open spec fn wf(self) -> bool {
        &&& self.fb.wf()
        &&& self.font_width == 7
        &&& self.font_height == FONT_HEIGHT
        &&& 1 <= self.width
        &&& self.width == self.fb.width / 7
        &&& self.height == self.fb.height / FONT_HEIGHT
        &&& self.chars.len() == self.width * self.height
        &&& self.pos <= self.chars.len()
    }

    /// A console over the given framebuffer, blank and with the cursor at
    /// the top left.
    pub fn new(fb: FrameBuffer) -> (r: Console)
        requires
            fb.wf(),
            fb.width >= 7,
        ensures
            r.wf(),
            r.pos == 0,
            r.width == fb.width / 7,
            r.height == fb.height / FONT_HEIGHT,
            forall|i: int| 0 <= i < r.chars.len() ==> r.chars[i] == 0x20,
            r.fb == fb,
    {
        let font_width = font_raster_width();
        let pixel_count = fb.pixels.len();
        let width = fb.width / font_width;
        let height = fb.height / FONT_HEIGHT;
        proof {
            vstd::arithmetic::div_mod::lemma_div_non_zero(fb.width as int, 7);
            vstd::arithmetic::div_mod::lemma_div_nonincreasing(fb.width as int, 7);
            vstd::arithmetic::div_mod::lemma_div_nonincreasing(fb.height as int, 16);
            assert(width * height <= usize::MAX) by (nonlinear_arith)
                requires
                    0 <= width,
                    0 <= height,
                    width <= fb.stride,
                    height <= fb.height,
                    fb.height * fb.stride * 4 == pixel_count,
                    pixel_count <= usize::MAX,
            ;
        }
        let cells = width * height;
        let mut chars: Vec<u8> = Vec::new();
        let mut k: usize = 0;
        while k < cells
            invariant
                k <= cells,
                chars.len() == k,
                forall|i: int| 0 <= i < k ==> chars[i] == 0x20,
            decreases cells - k,
        {
            chars.push(0x20);
            k = k + 1;
        }
        Console { font_width, font_height: FONT_HEIGHT, width, height, pos: 0, chars, fb }
    }

    /// Writes one raw byte to the grid: a newline moves the cursor to the
    /// next line, anything else lands at the cursor, is drawn, and the
    /// cursor advances.
    pub fn write_byte(&mut self, byte: u8)
        requires
            old(self).wf(),
            old(self).pos < old(self).chars.len(),
        ensures
            final(self).wf(),
            (final(self).chars@, final(self).pos as int) == spec_putc(
                old(self).chars@,
                old(self).pos as int,
                old(self).width as int,
                byte,
            ),
            final(self).width == old(self).width,
            final(self).height == old(self).height,
            final(self).fb.pixels.len() == old(self).fb.pixels.len(),
    {
        if byte == 10 {
            let line_rest = self.width - self.pos % self.width;
            proof {
                let p = self.pos as int;
                let w = self.width as int;
                let h = self.height as int;
                let len = self.chars.len() as int;
                vstd::arithmetic::div_mod::lemma_fundamental_div_mod(p, w);
                assert(p + (w - p % w) <= len) by (nonlinear_arith)
                    requires
                        1 <= w,
                        0 <= h,
                        0 <= p,
                        p < len,
                        len == w * h,
                        p == w * (p / w) + p % w,
                        0 <= p % w < w,
                ;
            }
            self.pos = self.pos + line_rest;
        } else {
            let pos = self.pos;
            self.chars[pos] = byte;
            self.draw_text(pos, pos + 1);
            self.pos = pos + 1;
        }
    }

    /// Writes a string of bytes: printable ASCII and newline as they are,
    /// anything else as the replacement glyph.
    pub fn write_string(&mut self, s: &[u8])
        requires
            old(self).wf(),
            old(self).pos + s@.len() * old(self).width <= old(self).chars.len(),
        ensures
            final(self).wf(),
            (final(self).chars@, final(self).pos as int) == spec_write(
                old(self).chars@,
                old(self).pos as int,
                old(self).width as int,
                s@,
                s@.len() as int,
            ),
            final(self).width == old(self).width,
            final(self).height == old(self).height,
    {
        let n = s.len();
        let mut k: usize = 0;
        while k < n
            invariant
                k <= n,
                n == s@.len(),
                self.wf(),
                self.width == old(self).width,
                self.height == old(self).height,
                self.chars.len() == old(self).chars.len(),
                (self.chars@, self.pos as int) == spec_write(
                    old(self).chars@,
                    old(self).pos as int,
                    old(self).width as int,
                    s@,
                    k as int,
                ),
                self.pos + (n - k) * self.width <= self.chars.len(),
            decreases n - k,
        {
            let b = s[k];
            let tb: u8 = if (0x20 <= b && b <= 0x7e) || b == 10 {
                b
            } else {
                0xfe
            };
            let ghost prev_pos = self.pos as int;
            let ghost left = (n - k) as int;
            let ghost w = self.width as int;
            proof {
                vstd::arithmetic::mul::lemma_mul_inequality(1, left, w);
                assert(prev_pos + w <= self.chars.len());
            }
            self.write_byte(tb);
            proof {
                assert(self.pos <= prev_pos + w);
                assert((left - 1) * w == left * w - w) by (nonlinear_arith);
            }
            k = k + 1;
        }
    }

    /// Draws the characters of cells `start..end` into the framebuffer:
    /// each cell's glyph — the replacement glyph for a character outside
    /// the font — is copied pixel by pixel into the cell's rectangle. The
    /// grid, the cursor, and the framebuffer's shape are untouched.
    pub fn draw_text(&mut self, start: usize, end: usize)
        requires
            old(self).wf(),
            end <= old(self).chars.len(),
        ensures
            final(self).wf(),
            final(self).chars == old(self).chars,
            final(self).pos == old(self).pos,
            final(self).width == old(self).width,
            final(self).height == old(self).height,
            final(self).font_width == old(self).font_width,
            final(self).font_height == old(self).font_height,
            final(self).fb.width == old(self).fb.width,
            final(self).fb.height == old(self).fb.height,
            final(self).fb.stride == old(self).fb.stride,
            final(self).fb.bpp == old(self).fb.bpp,
            final(self).fb.pixels.len() == old(self).fb.pixels.len(),
    {
        let mut i = start;
        while i < end
            invariant
                self.wf(),
                end <= self.chars.len(),
                self.chars == old(self).chars,
                self.pos == old(self).pos,
                self.width == old(self).width,
                self.height == old(self).height,
                self.font_width == old(self).font_width,
                self.font_height == old(self).font_height,
                self.fb.width == old(self).fb.width,
                self.fb.height == old(self).fb.height,
                self.fb.stride == old(self).fb.stride,
                self.fb.bpp == old(self).fb.bpp,
                self.fb.pixels.len() == old(self).fb.pixels.len(),
            decreases end - i,
        {
            let glyph = match glyph_raster(self.chars[i] as char) {
                Some(g) => Some(g),
                None => glyph_raster('?'),
            };
            match glyph {
                Some(g) => {
                    proof {
                        let w = self.width as int;
                        let h = self.height as int;
                        let ii = i as int;
                        assert(ii / w < h) by (nonlinear_arith)
                            requires
                                0 <= ii,
                                1 <= w,
                                ii < w * h,
                        ;
                        vstd::arithmetic::div_mod::lemma_fundamental_div_mod(
                            self.fb.height as int,
                            16,
                        );
                        vstd::arithmetic::div_mod::lemma_fundamental_div_mod(
                            self.fb.width as int,
                            7,
                        );
                        assert((ii / w) * 16 + 16 <= h * 16) by (nonlinear_arith)
                            requires
                                ii / w < h,
                        ;
                        assert((ii % w) * 7 + 7 <= w * 7) by (nonlinear_arith)
                            requires
                                0 <= ii % w < w,
                        ;
                    }
                    let y = (i / self.width) * self.font_height;
                    let x = (i % self.width) * self.font_width;
                    let mut row: usize = 0;
                    while row < 16
                        invariant
                            self.wf(),
                            row <= 16,
                            g.len() == 16,
                            forall|ri: int| 0 <= ri < 16 ==> (#[trigger] g[ri]).len() == 7,
                            self.chars == old(self).chars,
                            self.pos == old(self).pos,
                            self.width == old(self).width,
                            self.height == old(self).height,
                            self.font_width == old(self).font_width,
                            self.font_height == old(self).font_height,
                            self.fb.width == old(self).fb.width,
                            self.fb.height == old(self).fb.height,
                            self.fb.stride == old(self).fb.stride,
                            self.fb.bpp == old(self).fb.bpp,
                            self.fb.pixels.len() == old(self).fb.pixels.len(),
                            y + 16 <= self.fb.height,
                            x + 7 <= self.fb.width,
                        decreases 16 - row,
                    {
                        let mut col: usize = 0;
                        while col < 7
                            invariant
                                self.wf(),
                                col <= 7,
                                row < 16,
                                g.len() == 16,
                                forall|ri: int| 0 <= ri < 16 ==> (#[trigger] g[ri]).len() == 7,
                                self.chars == old(self).chars,
                                self.pos == old(self).pos,
                                self.width == old(self).width,
                                self.height == old(self).height,
                                self.font_width == old(self).font_width,
                                self.font_height == old(self).font_height,
                                self.fb.width == old(self).fb.width,
                                self.fb.height == old(self).fb.height,
                                self.fb.stride == old(self).fb.stride,
                                self.fb.bpp == old(self).fb.bpp,
                                self.fb.pixels.len() == old(self).fb.pixels.len(),
                                y + 16 <= self.fb.height,
                                x + 7 <= self.fb.width,
                            decreases 7 - col,
                        {
                            let value = g[row][col];
                            self.put_pixel(y + row, x + col, value);
                            col = col + 1;
                        }
                        row = row + 1;
                    }
                },
                None => {},
            }
            i = i + 1;
        }
    }

    /// Writes one pixel's three colour bytes into the framebuffer, if the
    /// pixel lies inside it; a pixel outside the buffer is ignored rather
    /// than written wild.
    fn put_pixel(&mut self, py: usize, px: usize, value: u8)
        requires
            old(self).wf(),
        ensures
            final(self).wf(),
            final(self).chars == old(self).chars,
            final(self).pos == old(self).pos,
            final(self).width == old(self).width,
            final(self).height == old(self).height,
            final(self).font_width == old(self).font_width,
            final(self).font_height == old(self).font_height,
            final(self).fb.width == old(self).fb.width,
            final(self).fb.height == old(self).fb.height,
            final(self).fb.stride == old(self).fb.stride,
            final(self).fb.bpp == old(self).fb.bpp,
            final(self).fb.pixels.len() == old(self).fb.pixels.len(),
    {
        if py < self.fb.height && px < self.fb.stride {
            proof {
                assert((py * self.fb.stride + px) * 4 + 3 < self.fb.pixels.len()) by (
                nonlinear_arith)
                    requires
                        py < self.fb.height,
                        px < self.fb.stride,
                        self.fb.pixels.len() == self.fb.height * self.fb.stride * 4,
                ;
            }
            let index = (py * self.fb.stride + px) * 4;
            self.fb.pixels[index] = value;
            self.fb.pixels[index + 1] = value;
            self.fb.pixels[index + 2] = value;
        }
    }
}

} // verus!
