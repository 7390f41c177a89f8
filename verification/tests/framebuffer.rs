use azpos_kernel::devices::fb::terminal::FbTerminal;
use azpos_kernel::devices::fb::{FrameBufferInfo, Framebuffer, PixelFormat, RgbPixel};

fn info(format: PixelFormat, width: usize, height: usize, bpp: usize, stride: usize) -> FrameBufferInfo {
    FrameBufferInfo {
        byte_len: stride * height * bpp,
        width,
        height,
        pixel_format: format,
        bytes_per_pixel: bpp,
        stride,
    }
}

fn contents(fb: &Framebuffer, len: usize) -> Vec<u8> {
    let mut front = vec![0u8; len];
    fb.flush(&mut front);
    front
}

const RED: RgbPixel = RgbPixel { red: 200, green: 10, blue: 20 };

#[test]
fn grayscale_average() {
    assert_eq!(RgbPixel { red: 30, green: 60, blue: 90 }.average(), 60);
    assert_eq!(RgbPixel { red: 1, green: 1, blue: 0 }.average(), 0);
    assert_eq!(RgbPixel { red: 255, green: 255, blue: 255 }.average(), 255);
    assert_eq!(RgbPixel { red: 200, green: 100, blue: 0 }.average(), 100);
}

#[test]
fn new_framebuffer_is_black() {
    let fb = Framebuffer::new(info(PixelFormat::Rgb, 4, 2, 3, 4));
    assert_eq!(fb.get_width(), 4);
    assert_eq!(fb.get_height(), 2);
    assert!(!fb.is_grayscale());
    assert_eq!(contents(&fb, 24), vec![0u8; 24]);
}

#[test]
fn pixels_follow_the_format() {
    let mut rgb = Framebuffer::new(info(PixelFormat::Rgb, 4, 2, 4, 4));
    rgb.draw_pixel(1, 1, RED);
    let bytes = contents(&rgb, 32);
    assert_eq!(&bytes[20..24], &[200, 10, 20, 0]);
    assert_eq!(bytes.iter().filter(|b| **b != 0).count(), 3);

    let mut bgr = Framebuffer::new(info(PixelFormat::Bgr, 4, 2, 3, 4));
    bgr.draw_pixel(0, 1, RED);
    assert_eq!(&contents(&bgr, 24)[12..15], &[20, 10, 200]);

    let mut gray = Framebuffer::new(info(PixelFormat::U8, 4, 2, 1, 4));
    assert!(gray.is_grayscale());
    gray.draw_pixel(3, 0, RgbPixel { red: 30, green: 60, blue: 90 });
    assert_eq!(contents(&gray, 8), vec![0, 0, 0, 60, 0, 0, 0, 0]);
}

#[test]
fn clearing_sets_every_pixel_but_not_padding() {
    let mut fb = Framebuffer::new(info(PixelFormat::Bgr, 2, 2, 4, 2));
    fb.clear_with_color(RED);
    let bytes = contents(&fb, 16);
    for p in 0..4 {
        assert_eq!(&bytes[4 * p..4 * p + 4], &[20, 10, 200, 0]);
    }
    fb.clear();
    assert_eq!(contents(&fb, 16), vec![0u8; 16]);
}

/// A PSF2 font of 128 glyphs, 4 pixels wide and 2 high (one byte per row);
/// glyph `A` is a checkerboard.
fn font() -> Vec<u8> {
    let mut f = vec![0u8; 32 + 256];
    f[0..4].copy_from_slice(&[0x72, 0xb5, 0x4a, 0x86]);
    f[8..12].copy_from_slice(&32u32.to_le_bytes());
    f[16..20].copy_from_slice(&128u32.to_le_bytes());
    f[20..24].copy_from_slice(&2u32.to_le_bytes());
    f[24..28].copy_from_slice(&2u32.to_le_bytes());
    f[28..32].copy_from_slice(&4u32.to_le_bytes());
    f[32 + 2 * 65] = 0b1010_0000;
    f[32 + 2 * 65 + 1] = 0b0101_0000;
    f
}

#[test]
fn malformed_font_is_refused() {
    let fb = Framebuffer::new(info(PixelFormat::Rgb, 16, 4, 3, 16));
    let mut f = font();
    f[0] = 0;
    assert!(FbTerminal::new(fb, &f).is_none());
    let fb = Framebuffer::new(info(PixelFormat::Rgb, 16, 4, 3, 16));
    assert!(FbTerminal::new(fb, &font()[..100]).is_none());
}

#[test]
fn terminal_draws_glyphs_and_moves_the_cursor() {
    let fb = Framebuffer::new(info(PixelFormat::Rgb, 16, 4, 3, 16));
    let mut term = FbTerminal::new(fb, &font()).unwrap();
    assert_eq!(term.width(), 2);
    assert_eq!(term.height(), 2);
    term.write_char('A');
    assert_eq!(term.cursor(), (0, 1));
    let mut front = vec![0u8; 16 * 4 * 3];
    term.flush(&mut front);
    // Row 0 of the glyph: lit, dark, lit, dark
    assert_eq!(&front[0..3], &[255, 255, 255]);
    assert_eq!(&front[3..6], &[0, 0, 0]);
    assert_eq!(&front[6..9], &[255, 255, 255]);
    // Row 1: dark, lit
    assert_eq!(&front[48..51], &[0, 0, 0]);
    assert_eq!(&front[51..54], &[255, 255, 255]);
    term.write_char('\n');
    assert_eq!(term.cursor(), (1, 0));
    term.write_char('\t');
    // A tab past the last column wraps to the next row.
    assert_eq!(term.cursor(), (2, 0));
    term.write_char('\r');
    // The screen was full: it is cleared and the cursor sent home first.
    assert_eq!(term.cursor(), (0, 0));
    term.flush(&mut front);
    assert_eq!(front, vec![0u8; 16 * 4 * 3]);
}

#[test]
fn terminal_wraps_at_the_last_column() {
    let fb = Framebuffer::new(info(PixelFormat::Rgb, 16, 4, 3, 16));
    let mut term = FbTerminal::new(fb, &font()).unwrap();
    term.set_fg(RED);
    term.write_char('A');
    term.write_char('A');
    assert_eq!(term.cursor(), (1, 0));
    let mut front = vec![0u8; 16 * 4 * 3];
    term.flush(&mut front);
    // The second glyph starts at column 8.
    assert_eq!(&front[24..27], &[200, 10, 20]);
}
