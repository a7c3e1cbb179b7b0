use vstd::prelude::*;

use crate::color::{css_color_of, parse_color, Rgba};
use crate::framebuffer::BackgroundImage;
use rand::Rng;

verus! {

/// A supplier of a ready background framebuffer.
pub trait Source {
    /// The source asks for dimensions small enough for an owned pixel grid.
    spec fn source_wf(&self) -> bool;

    fn get_background(&self) -> (r: BackgroundImage)
        requires
            self.source_wf(),
        ensures
            r.wf(),
    ;
}

/// A solid-color background of given dimensions.
pub struct ColorSource {
    width: u32,
    height: u32,
    color: Rgba,
}

impl ColorSource {
    pub closed spec fn spec_width(self) -> u32 {
        self.width
    }

    pub closed spec fn spec_height(self) -> u32 {
        self.height
    }

    pub closed spec fn spec_color(self) -> Rgba {
        self.color
    }

    pub fn new(width: u32, height: u32, color: Rgba) -> (r: Self)
        ensures
            r.spec_width() == width,
            r.spec_height() == height,
            r.spec_color() == color,
    {
        Self { width, height, color }
    }

    /// A source of a random, fully opaque color.
    pub fn random(width: u32, height: u32) -> (r: Self)
        ensures
            r.spec_width() == width,
            r.spec_height() == height,
            r.spec_color().a == 255,
    {
        ColorSource::new(width, height, random_color())
    }
}

impl Source for ColorSource {
    open spec fn source_wf(&self) -> bool {
        self.spec_width() * self.spec_height() <= usize::MAX
    }

    /// A framebuffer of the source's dimensions with every pixel set to its
    /// color.
    fn get_background(&self) -> (r: BackgroundImage)
        ensures
            r.spec_width() == self.spec_width(),
            r.spec_height() == self.spec_height(),
            forall|i: int|
                0 <= i < r.pixels_view().len() ==> r.pixels_view()[i] == self.spec_color(),
    {
        BackgroundImage::new(self.width, self.height, &self.color)
    }
}

/// Relies on rand's `thread_rng` and `Uniform`: `sample(Uniform::new(0, 255))`
/// draws a value uniformly from `[0, 255)`; nothing is assumed of the draw
/// beyond that range.
#[verifier::external_body]
fn random_channel() -> (r: u8)
    ensures
        r < 255,
{
    let mut rng = rand::thread_rng();
    rng.sample(rand::distributions::Uniform::new(0, 255))
}

/// A random, fully opaque color.
pub fn random_color() -> (c: Rgba)
    ensures
        c.a == 255,
        c.r < 255,
        c.g < 255,
        c.b < 255,
{
    let r = random_channel();
    let g = random_channel();
    let b = random_channel();

    Rgba { r, g, b, a: 255 }
}

/// The solid-color source an explicit CSS color string asks for; fails if
/// and only if the string does not parse.
pub fn color_source_from_css(width: u32, height: u32, color: &str) -> (r: Option<ColorSource>)
    ensures
        r is Some <==> css_color_of(color@) is Some,
        r matches Some(cs) ==> {
            &&& cs.spec_width() == width
            &&& cs.spec_height() == height
            &&& css_color_of(color@) matches Some(c) && cs.spec_color() == c
        },
{
    match parse_color(color) {
        Some(c) => Some(ColorSource::new(width, height, c)),
        None => None,
    }
}

/// A background fetched from an image url, resized to fill the given
/// dimensions. Fetching and decoding are the caller's work; this type only
/// carries the request.
pub struct ImageSource {
    image_url: String,
    width: u32,
    height: u32,
}

impl ImageSource {
    pub closed spec fn spec_url(self) -> Seq<char> {
        self.image_url@
    }

    pub closed spec fn spec_width(self) -> u32 {
        self.width
    }

    pub closed spec fn spec_height(self) -> u32 {
        self.height
    }

    pub fn new(width: u32, height: u32, image_url: String) -> (r: Self)
        ensures
            r.spec_width() == width,
            r.spec_height() == height,
            r.spec_url() == image_url@,
    {
        Self { width, height, image_url }
    }

    pub fn image_url(&self) -> (r: &String)
        ensures
            r@ == self.spec_url(),
    {
        &self.image_url
    }

    pub fn width(&self) -> (r: u32)
        ensures
            r == self.spec_width(),
    {
        self.width
    }

    pub fn height(&self) -> (r: u32)
        ensures
            r == self.spec_height(),
    {
        self.height
    }
}

} // verus!
