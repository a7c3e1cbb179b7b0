use macground::color::Rgba;
use macground::framebuffer::BackgroundImage;
use macground::glyph::PositionedGlyph;
use macground::text::{draw_text, TextConfig};

fn rgba(r: u8, g: u8, b: u8, a: u8) -> Rgba {
    Rgba { r, g, b, a }
}

#[test]
fn new_fills_every_pixel() {
    let img = BackgroundImage::new(4, 3, &rgba(9, 8, 7, 255));
    assert_eq!(img.width(), 4);
    assert_eq!(img.height(), 3);
    for y in 0..3 {
        for x in 0..4 {
            assert_eq!(img.get_pixel(x, y), rgba(9, 8, 7, 255));
        }
    }
}

#[test]
fn from_raw_reads_rgba_quads() {
    let bytes = vec![1, 2, 3, 255, 4, 5, 6, 255];
    let img = BackgroundImage::from_raw(2, 1, bytes).expect("matching length must succeed");
    assert_eq!(img.get_pixel(0, 0), rgba(1, 2, 3, 255));
    assert_eq!(img.get_pixel(1, 0), rgba(4, 5, 6, 255));
}

#[test]
fn from_raw_rejects_wrong_length() {
    assert!(BackgroundImage::from_raw(2, 1, vec![0; 7]).is_none());
    assert!(BackgroundImage::from_raw(2, 1, vec![0; 9]).is_none());
}

#[test]
fn set_pixel_blends_in_range() {
    let mut img = BackgroundImage::new(2, 2, &rgba(255, 0, 0, 255));
    img.set_pixel(1, 1, &rgba(255, 255, 255, 128));
    assert_eq!(img.get_pixel(1, 1), rgba(255, 128, 128, 255));
    assert_eq!(img.get_pixel(0, 0), rgba(255, 0, 0, 255));
}

#[test]
fn set_pixel_out_of_range_is_dropped() {
    let mut img = BackgroundImage::new(2, 2, &rgba(10, 20, 30, 255));
    img.set_pixel(2, 0, &rgba(255, 255, 255, 255));
    img.set_pixel(0, 2, &rgba(255, 255, 255, 255));
    img.set_pixel(4000, 4000, &rgba(255, 255, 255, 255));
    for y in 0..2 {
        for x in 0..2 {
            assert_eq!(img.get_pixel(x, y), rgba(10, 20, 30, 255));
        }
    }
}

fn opaque_square_glyph(min_x: i32, min_y: i32, side: u32) -> PositionedGlyph {
    let coverage = vec![255u8; (side * side) as usize];
    PositionedGlyph::new(min_x, min_y, side, side, coverage).expect("matching coverage")
}

#[test]
fn draw_text_blends_covered_pixels() {
    let mut img = BackgroundImage::new(4, 4, &rgba(0, 0, 0, 255));
    let mut config = TextConfig::default();
    config.color = rgba(255, 255, 255, 255);
    let glyph = opaque_square_glyph(1, 1, 2);
    draw_text(&mut img, vec![glyph], config, 0, 0);
    assert_eq!(img.get_pixel(1, 1), rgba(255, 255, 255, 255));
    assert_eq!(img.get_pixel(2, 2), rgba(255, 255, 255, 255));
    assert_eq!(img.get_pixel(0, 0), rgba(0, 0, 0, 255));
    assert_eq!(img.get_pixel(3, 3), rgba(0, 0, 0, 255));
}

#[test]
fn draw_text_straddling_the_edge_drops_outside_pixels() {
    // A glyph whose box sticks out past the right and bottom edges: the
    // in-range pixels are blended, the rest are dropped, and nothing panics.
    let mut img = BackgroundImage::new(4, 4, &rgba(0, 0, 0, 255));
    let mut config = TextConfig::default();
    config.color = rgba(255, 255, 255, 255);
    let glyph = opaque_square_glyph(3, 3, 2);
    draw_text(&mut img, vec![glyph], config, 0, 0);
    assert_eq!(img.get_pixel(3, 3), rgba(255, 255, 255, 255));
    for y in 0..4 {
        for x in 0..4 {
            if !(x == 3 && y == 3) {
                assert_eq!(img.get_pixel(x, y), rgba(0, 0, 0, 255));
            }
        }
    }
}

#[test]
fn draw_text_negative_coordinates_are_dropped() {
    let mut img = BackgroundImage::new(3, 3, &rgba(0, 0, 0, 255));
    let mut config = TextConfig::default();
    config.color = rgba(200, 200, 200, 255);
    let glyph = opaque_square_glyph(-1, -1, 2);
    draw_text(&mut img, vec![glyph], config, 0, 0);
    assert_eq!(img.get_pixel(0, 0), rgba(200, 200, 200, 255));
    assert_eq!(img.get_pixel(1, 0), rgba(0, 0, 0, 255));
    assert_eq!(img.get_pixel(0, 1), rgba(0, 0, 0, 255));
}

#[test]
fn draw_text_uses_coverage_as_alpha() {
    let mut img = BackgroundImage::new(2, 1, &rgba(255, 0, 0, 255));
    let mut config = TextConfig::default();
    config.color = rgba(255, 255, 255, 255);
    let glyph = PositionedGlyph::new(0, 0, 2, 1, vec![128, 0]).expect("matching coverage");
    draw_text(&mut img, vec![glyph], config, 0, 0);
    assert_eq!(img.get_pixel(0, 0), rgba(255, 128, 128, 255));
    assert_eq!(img.get_pixel(1, 0), rgba(255, 0, 0, 255));
}

#[test]
fn glyph_new_rejects_wrong_coverage_length() {
    assert!(PositionedGlyph::new(0, 0, 2, 2, vec![0; 3]).is_none());
    assert!(PositionedGlyph::new(0, 0, 2, 2, vec![0; 5]).is_none());
    assert!(PositionedGlyph::new(0, 0, 2, 2, vec![0; 4]).is_some());
}
