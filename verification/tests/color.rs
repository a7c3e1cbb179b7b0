use macground::color::Rgba;
use macground::source::{color_source_from_css, random_color, ColorSource, Source};

fn rgba(r: u8, g: u8, b: u8, a: u8) -> Rgba {
    Rgba { r, g, b, a }
}

#[test]
fn blend_fully_opaque_replaces_destination() {
    let dst = rgba(12, 200, 7, 255);
    let src = rgba(90, 91, 92, 255);
    assert_eq!(dst.blend(src), rgba(90, 91, 92, 255));
}

#[test]
fn blend_fully_transparent_leaves_destination() {
    let dst = rgba(12, 200, 7, 255);
    let src = rgba(90, 91, 92, 0);
    assert_eq!(dst.blend(src), dst);
}

#[test]
fn blend_half_white_over_red_gives_exact_literals() {
    // White text at alpha 128 over a pure red pixel: the red channel stays
    // saturated, green and blue each take 128/255 of the source's 255.
    let dst = rgba(255, 0, 0, 255);
    let src = rgba(255, 255, 255, 128);
    assert_eq!(dst.blend(src), rgba(255, 128, 128, 255));
}

#[test]
fn blend_half_over_black() {
    let dst = rgba(0, 0, 0, 255);
    let src = rgba(255, 255, 255, 128);
    assert_eq!(dst.blend(src), rgba(128, 128, 128, 255));
}

#[test]
fn parse_named_color_through_color_source() {
    let cs = color_source_from_css(3, 2, "red").expect("red must parse");
    let img = cs.get_background();
    assert_eq!(img.width(), 3);
    assert_eq!(img.height(), 2);
    assert_eq!(img.get_pixel(0, 0), rgba(255, 0, 0, 255));
    assert_eq!(img.get_pixel(2, 1), rgba(255, 0, 0, 255));
}

#[test]
fn parse_hex_color() {
    let cs = color_source_from_css(1, 1, "#ff0").expect("#ff0 must parse");
    let img = cs.get_background();
    assert_eq!(img.get_pixel(0, 0), rgba(255, 255, 0, 255));
}

#[test]
fn parse_rgb_function_color() {
    let cs = color_source_from_css(1, 1, "rgb(20, 48, 200)").expect("rgb() must parse");
    let img = cs.get_background();
    assert_eq!(img.get_pixel(0, 0), rgba(20, 48, 200, 255));
}

#[test]
fn parse_invalid_color_fails() {
    assert!(color_source_from_css(1, 1, "no-such-color-name").is_none());
    assert!(color_source_from_css(1, 1, "").is_none());
}

#[test]
fn random_color_is_opaque() {
    for _ in 0..16 {
        let c = random_color();
        assert_eq!(c.a, 255);
        assert!(c.r < 255 && c.g < 255 && c.b < 255);
    }
}

#[test]
fn explicit_color_source_keeps_its_color() {
    let cs = ColorSource::new(2, 2, rgba(1, 2, 3, 255));
    let img = cs.get_background();
    assert_eq!(img.get_pixel(1, 1), rgba(1, 2, 3, 255));
}
