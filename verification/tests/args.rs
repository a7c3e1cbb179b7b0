use macground::args::{BackgroundOptions, Options, RawOptions, TextOptions};

fn empty_raw() -> RawOptions {
    RawOptions {
        background_image: None,
        random_image: false,
        color: None,
        message: None,
        random_quote: false,
        random_word: false,
        text_color: None,
        text_size: None,
    }
}

#[test]
fn defaults_when_nothing_given() {
    let opts = Options::from(empty_raw());
    match opts.background {
        BackgroundOptions::Color(c) => assert_eq!(c, "random"),
        _ => panic!("expected color background"),
    }
    assert!(matches!(opts.text, TextOptions::RandomWord));
    assert_eq!(opts.font.font_path, None);
    assert_eq!(opts.font.color, "white");
    assert_eq!(opts.font.font_size, None);
}

#[test]
fn explicit_color_wins_over_image_flags() {
    let mut raw = empty_raw();
    raw.color = Some("teal".to_string());
    raw.random_image = true;
    raw.background_image = Some("http://example.com/a.jpg".to_string());
    let opts = Options::from(raw);
    match opts.background {
        BackgroundOptions::Color(c) => assert_eq!(c, "teal"),
        _ => panic!("expected color background"),
    }
}

#[test]
fn random_image_wins_over_url() {
    let mut raw = empty_raw();
    raw.random_image = true;
    raw.background_image = Some("http://example.com/a.jpg".to_string());
    let opts = Options::from(raw);
    assert!(matches!(opts.background, BackgroundOptions::RandomImage));
}

#[test]
fn url_used_when_no_other_background() {
    let mut raw = empty_raw();
    raw.background_image = Some("http://example.com/a.jpg".to_string());
    let opts = Options::from(raw);
    match opts.background {
        BackgroundOptions::Url(u) => assert_eq!(u, "http://example.com/a.jpg"),
        _ => panic!("expected url background"),
    }
}

#[test]
fn message_wins_over_random_quote_and_word() {
    let mut raw = empty_raw();
    raw.message = Some("Motto".to_string());
    raw.random_quote = true;
    raw.random_word = true;
    let opts = Options::from(raw);
    match opts.text {
        TextOptions::Message(m) => assert_eq!(m, "Motto"),
        _ => panic!("expected message text"),
    }
}

#[test]
fn random_quote_wins_over_random_word() {
    let mut raw = empty_raw();
    raw.random_quote = true;
    raw.random_word = true;
    let opts = Options::from(raw);
    assert!(matches!(opts.text, TextOptions::RandomQuote));
}

#[test]
fn font_options_carried_over() {
    let mut raw = empty_raw();
    raw.text_size = Some(42);
    raw.text_color = Some("rgb(1, 2, 3)".to_string());
    let opts = Options::from(raw);
    assert_eq!(opts.font.font_size, Some(42));
    assert_eq!(opts.font.color, "rgb(1, 2, 3)");
}
