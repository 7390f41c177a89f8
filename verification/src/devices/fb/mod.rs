//! A double-buffered framebuffer: drawing goes to a back buffer in memory,
//! which is copied to the display's buffer on a flush.
use vstd::prelude::*;

/// A text terminal drawn on the framebuffer
pub mod terminal;

verus! {

/// A single RGB pixel
#[derive(Clone, Copy, Debug, PartialEq, Eq, Structural)]
pub struct RgbPixel {
    pub red: u8,
    pub green: u8,
    pub blue: u8,
}

impl RgbPixel {
    /// The average value of the three channels (used for grayscale
    /// displays).
    pub fn average(&self) -> (r: u8)
        ensures
            r == (self.red + self.green + self.blue) / 3,
    {
        let sum: u16 = self.red as u16 + self.green as u16 + self.blue as u16;
        (sum / 3) as u8
    }
}

/// How a pixel is laid out in the display's bytes.
#[derive(Clone, Copy, Debug, PartialEq, Eq, Structural)]
pub enum PixelFormat {
    /// Red, green, blue bytes.
    Rgb,
    /// Blue, green, red bytes.
    Bgr,
    /// One grayscale byte.
    U8,
    /// Some other layout, with the positions of the channels.
    Unknown { red_position: u8, green_position: u8, blue_position: u8 },
}

/// What the bootloader reports about the display's framebuffer.
#[derive(Clone, Copy, Debug, PartialEq, Eq, Structural)]
pub struct FrameBufferInfo {
    /// The size of the buffer, in bytes.
    pub byte_len: usize,
    /// The visible width, in pixels.
    pub width: usize,
    /// The height, in pixels.
    pub height: usize,
    /// The pixel layout.
    pub pixel_format: PixelFormat,
    /// The bytes per pixel.
    pub bytes_per_pixel: usize,
    /// The pixels per row in memory (at least the width).
    pub stride: usize,
}

/// The bytes one pixel takes in a format (zero for a layout this driver
/// cannot draw).
pub open spec fn pixel_width(format: PixelFormat) -> nat {
    match format {
        PixelFormat::U8 => 1,
        PixelFormat::Rgb => 3,
        PixelFormat::Bgr => 3,
        PixelFormat::Unknown { .. } => 0,
    }
}

/// The bytes that encode a pixel in a format.
pub open spec fn pixel_bytes(format: PixelFormat, p: RgbPixel) -> Seq<u8> {
    match format {
        PixelFormat::U8 => seq![((p.red + p.green + p.blue) / 3) as u8],
        PixelFormat::Rgb => seq![p.red, p.green, p.blue],
        PixelFormat::Bgr => seq![p.blue, p.green, p.red],
        PixelFormat::Unknown { .. } => Seq::empty(),
    }
}

/// A pixel can be drawn in a format: the format is one the driver knows.
pub open spec fn drawable(format: PixelFormat, p: RgbPixel) -> bool {
    pixel_width(format) > 0
}

/// `buf` with `bytes` written from index `at` on.
pub open spec fn write_at(buf: Seq<u8>, at: int, bytes: Seq<u8>) -> Seq<u8> {
    Seq::new(buf.len(), |k: int| if at <= k < at + bytes.len() { bytes[k - at] } else { buf[k] })
}

/// The framebuffer's metadata and back buffer, as plain values.
pub struct FramebufferView {
    pub height: nat,
    pub width: nat,
    pub bytes_per_pixel: nat,
    pub stride: nat,
    pub format: PixelFormat,
    pub back: Seq<u8>,
}

/// The back buffer holds every pixel of every row, each pixel wide enough
/// for the format, and the format is one the driver can draw.
pub open spec fn fb_wf(v: FramebufferView) -> bool {
    &&& pixel_width(v.format) > 0
    &&& v.bytes_per_pixel >= pixel_width(v.format)
    &&& v.stride * v.height * v.bytes_per_pixel <= v.back.len()
    &&& v.back.len() <= usize::MAX
}

/// A double-buffered framebuffer and its metadata
pub struct Framebuffer {
    height: usize,
    width: usize,
    bytes_per_pixel: usize,
    stride: usize,
    format: PixelFormat,
    back_buffer: Vec<u8>,
}

impl View for Framebuffer {
    type V = FramebufferView;

    closed spec fn view(&self) -> FramebufferView {
        FramebufferView {
            height: self.height as nat,
            width: self.width as nat,
            bytes_per_pixel: self.bytes_per_pixel as nat,
            stride: self.stride as nat,
            format: self.format,
            back: self.back_buffer@,
        }
    }
}

/// Where pixel `(x, y)` starts in the back buffer.
pub open spec fn pixel_offset(v: FramebufferView, x: int, y: int) -> int {
    (y * v.stride + x) * v.bytes_per_pixel
}

/// The back buffer after every pixel of every row is set to one color: the
/// first bytes of each pixel hold the color, the padding bytes of a pixel and
/// the bytes past the last row keep their values.
pub open spec fn cleared(v: FramebufferView, color: RgbPixel) -> Seq<u8> {
    let bpp = v.bytes_per_pixel as int;
    let bytes = pixel_bytes(v.format, color);
    Seq::new(
        v.back.len(),
        |k: int|
            if k < v.stride * v.height * bpp && k % bpp < bytes.len() {
                bytes[k % bpp]
            } else {
                v.back[k]
            },
    )
}

impl Framebuffer {
    /// Creates a double-buffered framebuffer from what the bootloader reports
    /// of the display's: its metadata, and a back buffer of the same size,
    /// zeroed.
    pub fn new(info: FrameBufferInfo) -> (r: Framebuffer)
        ensures
            r@.height == info.height,
            r@.width == info.width,
            r@.bytes_per_pixel == info.bytes_per_pixel,
            r@.stride == info.stride,
            r@.format == info.pixel_format,
            r@.back == Seq::new(info.byte_len as nat, |i: int| 0u8),
    {
        let back_buffer: Vec<u8> = vec![0u8; info.byte_len];
        proof {
            assert(back_buffer@ =~= Seq::new(info.byte_len as nat, |i: int| 0u8));
        }
        Framebuffer {
            height: info.height,
            width: info.width,
            bytes_per_pixel: info.bytes_per_pixel,
            stride: info.stride,
            format: info.pixel_format,
            back_buffer,
        }
    }

    /// The height, in pixels, of the display
    pub fn get_height(&self) -> (r: usize)
        ensures
            r == self@.height,
    {
        self.height
    }

    /// The width, in pixels, of the display
    pub fn get_width(&self) -> (r: usize)
        ensures
            r == self@.width,
    {
        self.width
    }

    /// Whether or not the display is greyscale
    pub fn is_grayscale(&self) -> (r: bool)
        ensures
            r == (self@.format == PixelFormat::U8),
    {
        match self.format {
            PixelFormat::U8 => true,
            _ => false,
        }
    }

    fn draw_pixel_at_byte(&mut self, byte_index: usize, pixel: RgbPixel)
        requires
            drawable(old(self)@.format, pixel),
            byte_index + pixel_width(old(self)@.format) <= old(self)@.back.len(),
        ensures
            final(self)@ == (FramebufferView {
                back: write_at(old(self)@.back, byte_index as int, pixel_bytes(old(self)@.format, pixel)),
                ..old(self)@
            }),
    {
        let ghost old_back = self.back_buffer@;
        assert(byte_index + pixel_width(self.format) <= self.back_buffer.len());
        match self.format {
            PixelFormat::U8 => {
                let avg = pixel.average();
                self.back_buffer.set(byte_index, avg);
            },
            PixelFormat::Rgb => {
                self.back_buffer.set(byte_index, pixel.red);
                self.back_buffer.set(byte_index + 1, pixel.green);
                self.back_buffer.set(byte_index + 2, pixel.blue);
            },
            PixelFormat::Bgr => {
                self.back_buffer.set(byte_index, pixel.blue);
                self.back_buffer.set(byte_index + 1, pixel.green);
                self.back_buffer.set(byte_index + 2, pixel.red);
            },
            PixelFormat::Unknown { .. } => {},
        }
        proof {
            assert(self.back_buffer@ =~= write_at(
                old_back,
                byte_index as int,
                pixel_bytes(self.format, pixel),
            ));
        }
    }

    /// Draws a pixel at a given position to the back-buffer
    pub fn draw_pixel(&mut self, x: usize, y: usize, pixel: RgbPixel)
        requires
            drawable(old(self)@.format, pixel),
            old(self)@.bytes_per_pixel >= 1,
            pixel_offset(old(self)@, x as int, y as int) + pixel_width(old(self)@.format)
                <= old(self)@.back.len(),
        ensures
            final(self)@ == (FramebufferView {
                back: write_at(
                    old(self)@.back,
                    pixel_offset(old(self)@, x as int, y as int),
                    pixel_bytes(old(self)@.format, pixel),
                ),
                ..old(self)@
            }),
    {
        let len = self.back_buffer.len();
        proof {
            let a = y * self.stride + x;
            let bpp = self.bytes_per_pixel as int;
            assert(a * bpp <= len);
            assert(y * self.stride <= a <= a * bpp) by (nonlinear_arith)
                requires
                    bpp >= 1,
                    a == y * self.stride + x,
                    x >= 0,
                    y * self.stride >= 0,
            ;
        }
        let px_index = y * self.stride + x;
        let b_index = px_index * self.bytes_per_pixel;
        self.draw_pixel_at_byte(b_index, pixel);
    }

    /// Clears the back-buffer to black
    pub fn clear(&mut self)
        requires
            fb_wf(old(self)@),
        ensures
            final(self)@ == (FramebufferView {
                back: cleared(old(self)@, RgbPixel { red: 0, green: 0, blue: 0 }),
                ..old(self)@
            }),
    {
        let black = RgbPixel { red: 0, green: 0, blue: 0 };
        self.clear_with_color(black);
    }

    /// Clears the back-buffer to a given color
    pub fn clear_with_color(&mut self, color: RgbPixel)
        requires
            fb_wf(old(self)@),
            drawable(old(self)@.format, color),
        ensures
            final(self)@ == (FramebufferView { back: cleared(old(self)@, color), ..old(self)@ }),
    {
        let ghost v0 = self@;
        let ghost bytes = pixel_bytes(v0.format, color);
        let ghost bpp = v0.bytes_per_pixel as int;
        let len = self.back_buffer.len();
        proof {
            assert(self.stride * self.height * self.bytes_per_pixel <= len);
            assert(self.stride * self.height <= self.stride * self.height * self.bytes_per_pixel)
                by (nonlinear_arith)
                requires
                    self.bytes_per_pixel >= 1,
            ;
            assert(bytes.len() == pixel_width(v0.format));
        }
        let n = self.stride * self.height;
        let mut pixel: usize = 0;
        while pixel < n
            invariant
                fb_wf(v0),
                drawable(v0.format, color),
                bytes == pixel_bytes(v0.format, color),
                bpp == v0.bytes_per_pixel,
                bpp >= 1,
                bytes.len() == pixel_width(v0.format),
                n == v0.stride * v0.height,
                pixel <= n,
                n * bpp <= len,
                len == v0.back.len(),
                self@ == (FramebufferView { back: self@.back, ..v0 }),
                self@.back.len() == v0.back.len(),
                forall|k: int|
                    0 <= k < v0.back.len() ==> #[trigger] self@.back[k] == (if k < pixel * bpp && k
                        % bpp < bytes.len() {
                        bytes[k % bpp]
                    } else {
                        v0.back[k]
                    }),
            decreases n - pixel,
        {
            proof {
                assert(pixel * bpp + bpp <= n * bpp) by (nonlinear_arith)
                    requires
                        pixel < n,
                        bpp >= 1,
                ;
            }
            let ghost before = self@.back;
            assert forall|k: int| 0 <= k < v0.back.len() implies #[trigger] before[k] == (if k
                < pixel * bpp && k % bpp < bytes.len() {
                bytes[k % bpp]
            } else {
                v0.back[k]
            }) by {
                assert(self@.back[k] == before[k]);
            }
            self.draw_pixel_at_byte(pixel * self.bytes_per_pixel, color);
            proof {
                assert forall|k: int| 0 <= k < v0.back.len() implies #[trigger] self@.back[k] == (
                if k < (pixel + 1) * bpp && k % bpp < bytes.len() {
                    bytes[k % bpp]
                } else {
                    v0.back[k]
                }) by {
                    lemma_pixel_slot(k, pixel as int, bpp);
                }
            }
            pixel = pixel + 1;
        }
        proof {
            assert(self@.back =~= cleared(v0, color));
        }
    }

    /// Copies the back-buffer into the display's buffer (which must be the
    /// same size).
    pub fn flush(&self, front: &mut [u8])
        requires
            old(front)@.len() == self@.back.len(),
        ensures
            final(front)@ == self@.back,
    {
        let mut i: usize = 0;
        while i < front.len()
            invariant
                front@.len() == self.back_buffer@.len(),
                forall|k: int| 0 <= k < i ==> #[trigger] front@[k] == self.back_buffer@[k],
            decreases front.len() - i,
        {
            front[i] = self.back_buffer[i];
            i = i + 1;
        }
        proof {
            assert(front@ =~= self.back_buffer@);
        }
    }
}

/// Byte `k` lies in the pixel slot `p` (of `bpp` bytes) exactly when it is
/// past the first `p` slots and not past the first `p + 1`; it then sits at
/// `k - p * bpp` within its slot.
proof fn lemma_pixel_slot(k: int, p: int, bpp: int)
    requires
        bpp >= 1,
        p >= 0,
        k >= 0,
    ensures
        (p + 1) * bpp == p * bpp + bpp,
        p * bpp <= k < (p + 1) * bpp ==> k % bpp == k - p * bpp,
        k < p * bpp ==> k < (p + 1) * bpp,
        k >= (p + 1) * bpp ==> k >= p * bpp,
{
    assert((p + 1) * bpp == p * bpp + bpp) by (nonlinear_arith);
    if p * bpp <= k < (p + 1) * bpp {
        vstd::arithmetic::div_mod::lemma_fundamental_div_mod_converse(k, bpp, p, k - p * bpp);
    }
}

} // verus!
