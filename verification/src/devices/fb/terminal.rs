//! A text terminal drawn on the framebuffer with a bitmap font.
use vstd::prelude::*;
use super::{
    cleared, drawable, fb_wf, pixel_bytes, pixel_offset, write_at, Framebuffer, FramebufferView,
    RgbPixel,
};
use crate::byteorder::le_u32;

verus! {

/// Columns a tab advances to a multiple of.
pub const TAB_WIDTH: usize = 8;

/// The width of a character cell, in pixels (the font is known to be no
/// wider, so cells are not spread apart).
pub const MAX_WIDTH: usize = 8;

/// A bitmap font, as plain values.
pub struct Font {
    /// The bytes of one glyph's bitmap.
    pub glyph_byte_length: usize,
    /// A glyph's width, in pixels.
    pub glyph_width: usize,
    /// A glyph's height, in pixels.
    pub glyph_height: usize,
    /// The bitmaps of all glyphs, one after another.
    pub glyphs: Vec<u8>,
}

/// A [`Font`] as plain values.
pub struct FontView {
    pub glyph_byte_length: nat,
    pub glyph_width: nat,
    pub glyph_height: nat,
    pub glyphs: Seq<u8>,
}

impl View for Font {
    type V = FontView;

    open spec fn view(&self) -> FontView {
        FontView {
            glyph_byte_length: self.glyph_byte_length as nat,
            glyph_width: self.glyph_width as nat,
            glyph_height: self.glyph_height as nat,
            glyphs: self.glyphs@,
        }
    }
}

/// The header's sizes fit a `usize` when added up the way the parser does.
pub open spec fn font_header_fits(data: Seq<u8>) -> bool {
    data.len() >= 32 ==> le_u32(data, 8) + le_u32(data, 16) * le_u32(data, 20) <= usize::MAX
}

/// The font a PSF2 file holds: refused when shorter than its 32-byte header,
/// without the magic bytes `72 b5 4a 86`, of a version other than 0, or too
/// short for the glyph table its header announces; otherwise the header's
/// little-endian fields give the glyph size and count, and the glyph table
/// follows the header.
pub open spec fn pcf_font(data: Seq<u8>) -> Option<FontView> {
    if data.len() < 32 {
        None
    } else if data[0] != 0x72 || data[1] != 0xb5 || data[2] != 0x4a || data[3] != 0x86 {
        None
    } else if le_u32(data, 4) != 0 {
        None
    } else {
        let header_size = le_u32(data, 8);
        let glyph_count = le_u32(data, 16);
        let glyph_byte_length = le_u32(data, 20);
        let expected = header_size + glyph_count * glyph_byte_length;
        if data.len() < expected {
            None
        } else {
            Some(
                FontView {
                    glyph_byte_length: glyph_byte_length as nat,
                    glyph_width: le_u32(data, 28) as nat,
                    glyph_height: le_u32(data, 24) as nat,
                    glyphs: data.subrange(header_size, expected),
                },
            )
        }
    }
}

/// Parses a PSF2 font with `simple_pcf::Pcf::parse` and copies out its
/// glyph size and glyph table: `pcf_font` is what that parse makes of the
/// header and glyphs (its unicode table is not used here).
#[verifier::external_body]
fn parse_font(data: &[u8]) -> (r: Option<Font>)
    requires
        font_header_fits(data@),
    ensures
        match r {
            Some(f) => pcf_font(data@) == Some(f@),
            None => pcf_font(data@) == None::<FontView>,
        },
{
    let pcf = simple_pcf::Pcf::parse(data).ok()?;
    Some(Font {
        glyph_byte_length: pcf.glyph_byte_length,
        glyph_width: pcf.glyph_width,
        glyph_height: pcf.glyph_height,
        glyphs: pcf.glyphs.to_vec(),
    })
}

/// The bytes of one row of a glyph's bitmap.
pub open spec fn bytes_per_row(f: FontView) -> nat {
    f.glyph_width / 8 + 1
}

/// Every glyph's pixels lie inside its bitmap, glyphs are at least one pixel
/// and at most a cell wide, and at least one pixel high.
pub open spec fn font_wf(f: FontView) -> bool {
    &&& 1 <= f.glyph_width <= MAX_WIDTH
    &&& f.glyph_height >= 1
    &&& (f.glyph_height - 1) * bytes_per_row(f) + (f.glyph_width - 1) / 8 < f.glyph_byte_length
}

/// The font has a glyph at `index`.
pub open spec fn has_glyph(f: FontView, index: int) -> bool {
    (index + 1) * f.glyph_byte_length <= f.glyphs.len()
}

/// Whether pixel `i` of glyph `index` is lit: pixels go row by row, and a
/// row's pixels are the bits of its bytes, most significant bit first.
pub open spec fn glyph_pixel(f: FontView, index: int, i: int) -> bool {
    let x = i % (f.glyph_width as int);
    let y = i / (f.glyph_width as int);
    let byte = f.glyphs[index * f.glyph_byte_length + x / 8 + y * bytes_per_row(f)];
    (byte >> ((7 - x % 8) as u8)) & 1 == 1
}

/// Reads pixel `i` of glyph `index`.
fn read_glyph_pixel(font: &Font, index: usize, i: usize) -> (r: bool)
    requires
        font_wf(font@),
        has_glyph(font@, index as int),
        i < font@.glyph_width * font@.glyph_height,
    ensures
        r == glyph_pixel(font@, index as int, i as int),
{
    let len = font.glyphs.len();
    let w = font.glyph_width;
    let x = i % w;
    let y = i / w;
    let bpr = w / 8 + 1;
    proof {
        let h = font.glyph_height as int;
        assert(y < h) by (nonlinear_arith)
            requires
                i < w * h,
                y == i / w,
                w >= 1,
        ;
        assert(y * bpr <= (h - 1) * bpr) by (nonlinear_arith)
            requires
                y <= h - 1,
                bpr >= 0,
        ;
        assert(x / 8 <= (w - 1) / 8) by (nonlinear_arith)
            requires
                x < w,
        ;
        assert(index * font.glyph_byte_length + font.glyph_byte_length <= len) by (
        nonlinear_arith)
            requires
                (index + 1) * font.glyph_byte_length <= len,
        ;
        assert(x / 8 + y * bpr < font.glyph_byte_length);
    }
    let byte = font.glyphs[index * font.glyph_byte_length + x / 8 + y * bpr];
    let bit_offset = (7 - x % 8) as u8;
    (byte >> bit_offset) & 1 == 1
}

/// The terminal's state, as plain values.
pub struct TerminalView {
    pub fb: FramebufferView,
    pub font: FontView,
    pub row: nat,
    pub col: nat,
    pub fg: RgbPixel,
    pub bg: RgbPixel,
}

/// The terminal's width, in character cells.
pub open spec fn term_width(v: TerminalView) -> nat {
    v.fb.width / (MAX_WIDTH as nat)
}

/// The terminal's height, in character cells.
pub open spec fn term_height(v: TerminalView) -> nat {
    v.fb.height / v.font.glyph_height
}

/// The terminal can write: the framebuffer and font are sound, the screen
/// holds at least one cell and its rows are no narrower than its width, the
/// cursor is on the screen (or just below it), and both colors can be drawn.
pub open spec fn term_wf(v: TerminalView) -> bool {
    &&& fb_wf(v.fb)
    &&& font_wf(v.font)
    &&& v.fb.bytes_per_pixel >= 1
    &&& v.fb.width <= v.fb.stride
    &&& term_width(v) >= 1
    &&& term_height(v) >= 1
    &&& v.row <= term_height(v)
    &&& v.col < term_width(v)
    &&& drawable(v.fb.format, v.fg)
    &&& drawable(v.fb.format, v.bg)
}

/// Where pixel `i` of a glyph drawn at the cursor goes on the screen.
pub open spec fn glyph_x(v: TerminalView, i: int) -> int {
    i % (v.font.glyph_width as int) + v.col * MAX_WIDTH
}

/// Where pixel `i` of a glyph drawn at the cursor goes on the screen.
pub open spec fn glyph_y(v: TerminalView, i: int) -> int {
    i / (v.font.glyph_width as int) + v.row * v.font.glyph_height
}

/// The back buffer after the first `n` pixels of glyph `index` are drawn at
/// the cursor, lit pixels in the foreground color and the rest in the
/// background color.
pub open spec fn glyph_drawn(v: TerminalView, index: int, n: nat) -> Seq<u8>
    decreases n,
{
    if n == 0 {
        v.fb.back
    } else {
        let i = n - 1;
        let color = if glyph_pixel(v.font, index, i) {
            v.fg
        } else {
            v.bg
        };
        write_at(
            glyph_drawn(v, index, (n - 1) as nat),
            pixel_offset(v.fb, glyph_x(v, i), glyph_y(v, i)),
            pixel_bytes(v.fb.format, color),
        )
    }
}

/// Drawing a glyph keeps the back buffer's length.
proof fn lemma_glyph_drawn_len(v: TerminalView, index: int, n: nat)
    ensures
        glyph_drawn(v, index, n).len() == v.fb.back.len(),
    decreases n,
{
    if n > 0 {
        lemma_glyph_drawn_len(v, index, (n - 1) as nat);
    }
}

/// The character needs a glyph (it is not a line feed, carriage return or
/// tab).
pub open spec fn needs_glyph(c: char) -> bool {
    c != '\n' && c != '\r' && c != '\t'
}

/// Writing a character: a full screen is first cleared and the cursor sent
/// home; a line feed moves to the start of the next row, a carriage return
/// to the start of the row, a tab to the next multiple of the tab width, and
/// any other character is drawn at the cursor, which moves one cell right.
/// A cursor past the last column then wraps to the next row.
pub open spec fn write_char_step(v: TerminalView, c: char) -> TerminalView {
    let v1 = if v.row >= term_height(v) {
        TerminalView {
            fb: FramebufferView { back: cleared(v.fb, RgbPixel { red: 0, green: 0, blue: 0 }), ..v.fb },
            row: 0,
            col: 0,
            ..v
        }
    } else {
        v
    };
    let v2 = if c == '\n' {
        TerminalView { row: v1.row + 1, col: 0, ..v1 }
    } else if c == '\r' {
        TerminalView { col: 0, ..v1 }
    } else if c == '\t' {
        TerminalView { col: v1.col + (TAB_WIDTH - v1.col % (TAB_WIDTH as nat)) as nat, ..v1 }
    } else {
        TerminalView {
            fb: FramebufferView {
                back: glyph_drawn(v1, c as int, v1.font.glyph_width * v1.font.glyph_height),
                ..v1.fb
            },
            col: v1.col + 1,
            ..v1
        }
    };
    if v2.col >= term_width(v2) {
        TerminalView { col: 0, row: v2.row + 1, ..v2 }
    } else {
        v2
    }
}

/// A tab moves the cursor to the next tab stop: the least multiple of
/// [`TAB_WIDTH`] past its column (after a full screen is cleared and the
/// cursor sent home), on the same row; it moves to the start of the next
/// row only when that stop is past the last column.
pub proof fn lemma_tab_stop(v: TerminalView)
    ensures
        ({
            let w = write_char_step(v, '\t');
            let (row, col) = if v.row >= term_height(v) {
                (0nat, 0nat)
            } else {
                (v.row, v.col)
            };
            let stays = w.row == row && w.col % (TAB_WIDTH as nat) == 0 && col < w.col && w.col
                <= col + TAB_WIDTH;
            let wraps = w.row == row + 1 && w.col == 0 && forall|n: nat|
                col < n && #[trigger] (n % (TAB_WIDTH as nat)) == 0 ==> n >= term_width(v);
            &&& stays || wraps
            &&& w.fb == (if v.row >= term_height(v) {
                FramebufferView {
                    back: cleared(v.fb, RgbPixel { red: 0, green: 0, blue: 0 }),
                    ..v.fb
                }
            } else {
                v.fb
            })
        }),
{
    let w = write_char_step(v, '\t');
    let col: nat = if v.row >= term_height(v) { 0 } else { v.col };
    let next = col + (TAB_WIDTH - col % (TAB_WIDTH as nat));
    assert(next % 8 == 0 && col < next <= col + 8);
    if next >= term_width(v) {
        assert forall|n: nat| col < n && #[trigger] (n % (TAB_WIDTH as nat)) == 0 implies n
            >= term_width(v) by {
            assert(n >= next);
        }
    }
}

/// How writing a character moves the cursor (after a full screen is
/// cleared and the cursor sent home): a line feed goes to the start of the
/// next row, a carriage return to the start of the row, and a drawn
/// character one cell right, or to the start of the next row when that
/// cell is past the last column. The colors and the font never change.
pub proof fn lemma_cursor_moves(v: TerminalView, c: char)
    requires
        c != '\t',
    ensures
        ({
            let w = write_char_step(v, c);
            let (row, col) = if v.row >= term_height(v) {
                (0nat, 0nat)
            } else {
                (v.row, v.col)
            };
            &&& w.fg == v.fg && w.bg == v.bg && w.font == v.font
            &&& term_width(w) == term_width(v) && term_height(w) == term_height(v)
            &&& c == '\n' ==> (w.row, w.col) == (if term_width(v) == 0 {
                (row + 2, 0nat)
            } else {
                (row + 1, 0nat)
            })
            &&& c == '\r' ==> (w.row, w.col) == (if term_width(v) == 0 {
                (row + 1, 0nat)
            } else {
                (row, 0nat)
            })
            &&& needs_glyph(c) ==> (w.row, w.col) == (if col + 1 < term_width(v) {
                (row, col + 1)
            } else {
                (row + 1, 0nat)
            })
        }),
{
}

/// A text terminal on a framebuffer.
pub struct FbTerminal {
    font: Font,
    fb: Framebuffer,
    row: usize,
    col: usize,
    fg: RgbPixel,
    bg: RgbPixel,
}

impl View for FbTerminal {
    type V = TerminalView;

    closed spec fn view(&self) -> TerminalView {
        TerminalView {
            fb: self.fb@,
            font: self.font@,
            row: self.row as nat,
            col: self.col as nat,
            fg: self.fg,
            bg: self.bg,
        }
    }
}

/// A pixel of a glyph drawn in a cell on the screen lies inside the back
/// buffer.
proof fn lemma_glyph_pixel_in_bounds(v: TerminalView, i: int)
    requires
        term_wf(v),
        v.row < term_height(v),
        0 <= i < v.font.glyph_width * v.font.glyph_height,
    ensures
        pixel_offset(v.fb, glyph_x(v, i), glyph_y(v, i)) + v.fb.bytes_per_pixel <= v.fb.back.len(),
        0 <= glyph_x(v, i) < v.fb.stride,
        0 <= glyph_y(v, i) < v.fb.height,
        v.font.glyph_width * v.font.glyph_height <= v.fb.back.len(),
        v.row * v.font.glyph_height + v.font.glyph_height <= v.fb.height,
        v.col * MAX_WIDTH + MAX_WIDTH <= v.fb.stride,
{
    let w = v.font.glyph_width as int;
    let h = v.font.glyph_height as int;
    let x = glyph_x(v, i);
    let y = glyph_y(v, i);
    let stride = v.fb.stride as int;
    let bpp = v.fb.bytes_per_pixel as int;
    let height_px = v.fb.height as int;
    let tw = term_width(v) as int;
    let th = term_height(v) as int;
    assert(i % w < w && i / w < h && i / w >= 0 && i % w >= 0) by (nonlinear_arith)
        requires
            0 <= i < w * h,
            w >= 1,
    ;
    assert(tw * 8 <= v.fb.width) by (nonlinear_arith)
        requires
            tw == v.fb.width / 8,
    ;
    assert(th * h <= height_px) by (nonlinear_arith)
        requires
            th == height_px / h,
            h >= 1,
            height_px >= 0,
    ;
    assert(x < stride) by (nonlinear_arith)
        requires
            x == i % w + v.col * 8,
            i % w < w,
            w <= 8,
            v.col < tw,
            tw * 8 <= v.fb.width,
            v.fb.width <= stride,
    ;
    let row = v.row as int;
    assert(row * h + h <= height_px) by (nonlinear_arith)
        requires
            row + 1 <= th,
            th * h <= height_px,
            h >= 1,
    ;
    assert(y < height_px);
    assert(v.col * 8 + 8 <= stride) by (nonlinear_arith)
        requires
            v.col + 1 <= tw,
            tw * 8 <= v.fb.width,
            v.fb.width <= stride,
    ;
    assert(w * h <= stride * height_px * bpp) by (nonlinear_arith)
        requires
            1 <= w <= 8,
            8 <= stride,
            1 <= h <= height_px,
            bpp >= 1,
    ;
    assert((y * stride + x) * bpp + bpp <= stride * height_px * bpp) by (nonlinear_arith)
        requires
            0 <= x < stride,
            0 <= y < height_px,
            bpp >= 1,
    ;
}

impl FbTerminal {
    /// The terminal's invariant holds.
    pub open spec fn wf(&self) -> bool {
        term_wf(self@)
    }

    /// Creates a terminal on the framebuffer with the font in `font_data`,
    /// clearing the screen; white on black, the cursor at the top left.
    /// Returns `None` when the font cannot be parsed.
    pub fn new(fb: Framebuffer, font_data: &[u8]) -> (r: Option<FbTerminal>)
        requires
            fb_wf(fb@),
            font_header_fits(font_data@),
        ensures
            match r {
                Some(t) => {
                    &&& pcf_font(font_data@) == Some(t@.font)
                    &&& t@.fb == (FramebufferView {
                        back: cleared(fb@, RgbPixel { red: 0, green: 0, blue: 0 }),
                        ..fb@
                    })
                    &&& t@.row == 0
                    &&& t@.col == 0
                    &&& t@.fg == (RgbPixel { red: 0xFF, green: 0xFF, blue: 0xFF })
                    &&& t@.bg == (RgbPixel { red: 0, green: 0, blue: 0 })
                },
                None => pcf_font(font_data@) == None::<FontView>,
            },
    {
        let font = parse_font(font_data)?;
        let mut fb = fb;
        fb.clear();
        Some(
            FbTerminal {
                font,
                fb,
                row: 0,
                col: 0,
                fg: RgbPixel { red: 0xFF, green: 0xFF, blue: 0xFF },
                bg: RgbPixel { red: 0, green: 0, blue: 0 },
            },
        )
    }

    /// The width of the terminal, in characters.
    pub fn width(&self) -> (r: usize)
        ensures
            r == term_width(self@),
    {
        self.fb.get_width() / MAX_WIDTH
    }

    /// The height of the terminal, in characters.
    pub fn height(&self) -> (r: usize)
        requires
            self@.font.glyph_height >= 1,
        ensures
            r == term_height(self@),
    {
        self.fb.get_height() / self.font.glyph_height
    }

    /// The cursor's row and column, in character cells.
    pub fn cursor(&self) -> (r: (usize, usize))
        ensures
            r.0 == self@.row,
            r.1 == self@.col,
    {
        (self.row, self.col)
    }

    /// Copies the terminal's back buffer into the display's buffer (which
    /// must be the same size).
    pub fn flush(&self, front: &mut [u8])
        requires
            old(front)@.len() == self@.fb.back.len(),
        ensures
            final(front)@ == self@.fb.back,
    {
        self.fb.flush(front);
    }

    /// Changes the color text is written in.
    pub fn set_fg(&mut self, color: RgbPixel)
        ensures
            final(self)@ == (TerminalView { fg: color, ..old(self)@ }),
    {
        self.fg = color;
    }

    /// Whether [`Self::write_char`] can write `c`: a character that is
    /// drawn needs a glyph in the font.
    pub fn can_write(&self, c: char) -> (r: bool)
        ensures
            r == (needs_glyph(c) ==> has_glyph(self@.font, c as int)),
    {
        if c == '\n' || c == '\r' || c == '\t' {
            return true;
        }
        let index = c as u32 as u64;
        assert(index == c as int);
        let len = self.font.glyphs.len() as u64;
        assert(len == self@.font.glyphs.len());
        match (index + 1).checked_mul(self.font.glyph_byte_length as u64) {
            Some(end) => end <= len,
            None => false,
        }
    }

    /// Writes one character at the cursor and advances it.
    pub fn write_char(&mut self, c: char)
        requires
            old(self).wf(),
            needs_glyph(c) ==> has_glyph(old(self)@.font, c as int),
        ensures
            final(self).wf(),
            final(self)@ == write_char_step(old(self)@, c),
    {
        let ghost v0 = self@;
        if self.row >= self.height() {
            self.fb.clear();
            self.row = 0;
            self.col = 0;
        }
        let ghost v1 = self@;
        assert(v1 == (if v0.row >= term_height(v0) {
            TerminalView {
                fb: FramebufferView {
                    back: cleared(v0.fb, RgbPixel { red: 0, green: 0, blue: 0 }),
                    ..v0.fb
                },
                row: 0,
                col: 0,
                ..v0
            }
        } else {
            v0
        }));
        if c == '\n' {
            self.row = self.row + 1;
            self.col = 0;
        } else if c == '\r' {
            self.col = 0;
        } else if c == '\t' {
            let mut offset = TAB_WIDTH - (self.col % TAB_WIDTH);
            if offset == 0 {
                offset = TAB_WIDTH;
            }
            self.col = self.col + offset;
        } else {
            let index = c as usize;
            proof {
                assert(0 < v1.font.glyph_width * v1.font.glyph_height) by (nonlinear_arith)
                    requires
                        v1.font.glyph_width >= 1,
                        v1.font.glyph_height >= 1,
                ;
                lemma_glyph_pixel_in_bounds(v1, 0);
            }
            let n = self.font.glyph_width * self.font.glyph_height;
            let mut i: usize = 0;
            while i < n
                invariant
                    term_wf(v1),
                    v1.row < term_height(v1),
                    has_glyph(v1.font, index as int),
                    index as int == c as int,
                    n == v1.font.glyph_width * v1.font.glyph_height,
                    i <= n,
                    self@ == (TerminalView {
                        fb: FramebufferView { back: glyph_drawn(v1, index as int, i as nat), ..v1.fb },
                        ..v1
                    }),
                decreases n - i,
            {
                proof {
                    lemma_glyph_pixel_in_bounds(v1, i as int);
                    lemma_glyph_drawn_len(v1, index as int, i as nat);
                }
                let lit = read_glyph_pixel(&self.font, index, i);
                let color = if lit {
                    self.fg
                } else {
                    self.bg
                };
                let x = i % self.font.glyph_width + self.col * MAX_WIDTH;
                let y = i / self.font.glyph_width + self.row * self.font.glyph_height;
                self.fb.draw_pixel(x, y, color);
                i = i + 1;
            }
            proof {
                lemma_glyph_drawn_len(v1, index as int, n as nat);
            }
            self.col = self.col + 1;
        }
        if self.col >= self.width() {
            self.col = 0;
            self.row = self.row + 1;
        }
    }
}

} // verus!
