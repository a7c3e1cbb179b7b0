use macground::args::{Options, RawOptions};
use macground::color::Rgba;
use macground::glyph::PositionedGlyph;
use macground::text::{
    fits, text_config_from_options, within_bounds, FontError, FontLoader, HorizontalAlign,
    LineBreaker, TextBox, TextConfig, TextLayout, TextSize, VerticalAlign,
};

fn glyph_at(min_x: i32, min_y: i32, w: u32, h: u32) -> PositionedGlyph {
    PositionedGlyph::new(min_x, min_y, w, h, vec![255u8; (w * h) as usize])
        .expect("matching coverage")
}

fn boxed(width: u32, height: u32) -> TextBox {
    TextBox { text: "Motto".to_string(), width, height, style: TextConfig::default() }
}

#[test]
fn default_config_is_white_wrapped_fill_parent() {
    let cfg = TextConfig::default();
    assert_eq!(cfg.font, "default");
    assert!(matches!(cfg.size, TextSize::FillParent));
    assert_eq!(cfg.color, Rgba { r: 255, g: 255, b: 255, a: 255 });
    assert_eq!(
        cfg.layout,
        TextLayout::Wrap {
            line_breaker: LineBreaker::Unicode,
            h_align: HorizontalAlign::Center,
            v_align: VerticalAlign::Center,
        }
    );
}

#[test]
fn glyph_inside_the_box_fits() {
    let tb = boxed(10, 10);
    assert!(within_bounds(&glyph_at(-5, -5, 9, 9), &tb));
    assert!(within_bounds(&glyph_at(0, 0, 4, 4), &tb));
}

#[test]
fn touching_left_or_top_edge_is_allowed() {
    let tb = boxed(10, 10);
    assert!(within_bounds(&glyph_at(-5, -5, 1, 1), &tb));
}

#[test]
fn reaching_right_or_bottom_edge_is_not_allowed() {
    let tb = boxed(10, 10);
    // max_x == width/2: treated as not fitting.
    assert!(!within_bounds(&glyph_at(0, 0, 5, 4), &tb));
    assert!(!within_bounds(&glyph_at(0, 0, 4, 5), &tb));
}

#[test]
fn crossing_left_or_top_edge_is_not_allowed() {
    let tb = boxed(10, 10);
    assert!(!within_bounds(&glyph_at(-6, 0, 1, 1), &tb));
    assert!(!within_bounds(&glyph_at(0, -6, 1, 1), &tb));
}

#[test]
fn fits_requires_every_glyph_inside() {
    let good = glyph_at(0, 0, 4, 4);
    let bad = glyph_at(0, 0, 5, 4);
    assert!(fits(&vec![glyph_at(0, 0, 4, 4), glyph_at(-5, -5, 9, 9)], 10, 10));
    assert!(!fits(&vec![good, bad], 10, 10));
    assert!(fits(&vec![], 10, 10));
}

#[test]
fn loading_garbage_font_bytes_fails_and_keeps_registry() {
    let mut loader = FontLoader::empty();
    let err = loader.load_font("broken".to_string(), vec![0, 1, 2, 3]);
    assert_eq!(err, Err(FontError::FontLoadError));
    assert_eq!(loader.font("broken").err(), Some(FontError::FontNotFound));
}

#[test]
fn registry_from_garbage_default_fails() {
    assert_eq!(FontLoader::new(vec![9, 9, 9]).err(), Some(FontError::FontLoadError));
}

#[test]
fn lookup_of_unregistered_name_fails() {
    let loader = FontLoader::empty();
    assert_eq!(loader.font("default").err(), Some(FontError::FontNotFound));
}

fn options_with(color: &str, size: Option<u32>) -> Options {
    Options::from(RawOptions {
        background_image: None,
        random_image: false,
        color: None,
        message: None,
        random_quote: false,
        random_word: false,
        text_color: Some(color.to_string()),
        text_size: size,
    })
}

#[test]
fn text_config_parses_the_text_color() {
    let cfg = text_config_from_options(&options_with("white", None)).expect("white parses");
    assert_eq!(cfg.color, Rgba { r: 255, g: 255, b: 255, a: 255 });
    assert!(matches!(cfg.size, TextSize::FillParent));
    let cfg = text_config_from_options(&options_with("#FE7789", Some(40))).expect("hex parses");
    assert_eq!(cfg.color, Rgba { r: 0xFE, g: 0x77, b: 0x89, a: 255 });
    assert_eq!(cfg.size, TextSize::PxScale(40));
}

#[test]
fn text_config_rejects_an_invalid_color() {
    assert!(text_config_from_options(&options_with("definitely-not-a-color", None)).is_none());
}
