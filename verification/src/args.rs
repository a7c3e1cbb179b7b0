use vstd::prelude::*;

verus! {

/// Raw command-line switches, before the precedence rules below are applied.
pub struct RawOptions {
    /// Url of a background image
    pub background_image: Option<String>,
    /// Flag to set the background to a random image
    pub random_image: bool,
    /// Color of the background, if no image is set
    pub color: Option<String>,
    /// Message to display to the screen
    pub message: Option<String>,
    /// Random quote to display to the screen
    pub random_quote: bool,
    /// Random word to display to the screen
    pub random_word: bool,
    /// Color of the text, if any is displayed
    pub text_color: Option<String>,
    /// Size of the text characters in pixels; defaults to filling
    /// the text's parent
    pub text_size: Option<u32>,
}

pub enum BackgroundOptions {
    Url(String),
    RandomImage,
    Color(String),
}

/// Contains the options for the raw text to be displayed. Does
/// not include text styling. For styling, use [`FontOptions`].
pub enum TextOptions {
    Message(String),
    RandomQuote,
    RandomWord,
}

pub struct FontOptions {
    /// Relative path to the font
    pub font_path: Option<String>,
    pub color: String,
    /// Size of the font in pixels
    pub font_size: Option<u32>,
}

pub struct Options {
    pub background: BackgroundOptions,
    pub text: TextOptions,
    pub font: FontOptions,
}

impl Options {
    /// Resolves raw switches into a configuration: an explicit color wins over
    /// a random image, which wins over an image url; a literal message wins
    /// over a random quote, which wins over a random word; missing choices
    /// fall back to a random color, a random word, and white text that fills
    /// its box.
    pub fn from(raw_options: RawOptions) -> (r: Self)
        ensures
            raw_options.color matches Some(c) ==> r.background == BackgroundOptions::Color(c),
            raw_options.color is None && raw_options.random_image ==> r.background
                is RandomImage,
            raw_options.color is None && !raw_options.random_image ==> (
            raw_options.background_image matches Some(u) ==> r.background
                == BackgroundOptions::Url(u)),
            raw_options.color is None && !raw_options.random_image
                && raw_options.background_image is None ==> (r.background
                matches BackgroundOptions::Color(c) && c@ == "random"@),
            raw_options.message matches Some(m) ==> r.text == TextOptions::Message(m),
            raw_options.message is None && raw_options.random_quote ==> r.text is RandomQuote,
            raw_options.message is None && !raw_options.random_quote ==> r.text is RandomWord,
            r.font.font_path is None,
            r.font.font_size == raw_options.text_size,
            raw_options.text_color matches Some(c) ==> r.font.color == c,
            raw_options.text_color is None ==> r.font.color@ == "white"@,
    {
        let mut background = BackgroundOptions::Color("random".to_owned());
        let mut text = TextOptions::RandomWord;
        let mut font = FontOptions {
            font_path: None,
            color: "white".to_owned(),
            font_size: None,  // Fill the parent
        };

        if let Some(color) = raw_options.color {
            background = BackgroundOptions::Color(color);
        } else if raw_options.random_image {
            background = BackgroundOptions::RandomImage;
        } else if let Some(url) = raw_options.background_image {
            background = BackgroundOptions::Url(url);
        }

        if let Some(message) = raw_options.message {
            text = TextOptions::Message(message);
        } else if raw_options.random_quote {
            text = TextOptions::RandomQuote;
        } else if raw_options.random_word {
            text = TextOptions::RandomWord;
        }

        if let Some(size) = raw_options.text_size {
            font.font_size = Some(size);
        }
        if let Some(font_color) = raw_options.text_color {
            font.color = font_color;
        }

        Self { background, text, font }
    }
}

} // verus!
