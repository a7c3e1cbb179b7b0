use vstd::prelude::*;

use crate::args::Options;
use crate::color::{css_color_of, parse_color, spec_blend, Rgba};
use crate::framebuffer::BackgroundImage;
use crate::glyph::PositionedGlyph;
use glyph_brush_layout::ab_glyph::FontArc;

verus! {

/// Errors of the text engine's font registry.
#[derive(Clone, Copy, PartialEq, Eq, Structural, Debug)]
pub enum FontError {
    /// Malformed or unreadable font bytes.
    FontLoadError,
    /// Lookup of a name that was never registered.
    FontNotFound,
}

#[derive(Clone, Copy, PartialEq, Eq, Structural, Debug)]
pub enum TextSize {
    /// Text scale in pixels
    PxScale(u32),
    /// Fill the box containing the text
    FillParent,
}

#[derive(Clone, Copy, PartialEq, Eq, Structural, Debug)]
pub enum HorizontalAlign {
    Left,
    Center,
    Right,
}

#[derive(Clone, Copy, PartialEq, Eq, Structural, Debug)]
pub enum VerticalAlign {
    Top,
    Center,
    Bottom,
}

#[derive(Clone, Copy, PartialEq, Eq, Structural, Debug)]
pub enum LineBreaker {
    Unicode,
    AnyChar,
}

/// How lines are broken and aligned inside the text box.
#[derive(Clone, Copy, PartialEq, Eq, Structural, Debug)]
pub enum TextLayout {
    SingleLine { line_breaker: LineBreaker, h_align: HorizontalAlign, v_align: VerticalAlign },
    Wrap { line_breaker: LineBreaker, h_align: HorizontalAlign, v_align: VerticalAlign },
}

#[derive(Clone)]
pub struct TextConfig {
    /// Name of the font (as found in the [`FontLoader`])
    pub font: String,
    /// Size of the text
    pub size: TextSize,
    /// Color of the text
    pub color: Rgba,
    /// Text layout
    pub layout: TextLayout,
}

impl Default for TextConfig {
    /// White text that fills its box, wrapped and centered, in the default
    /// font.
    fn default() -> (r: TextConfig)
        ensures
            r.font@ == "default"@,
            r.size is FillParent,
            r.color == (Rgba { r: 255, g: 255, b: 255, a: 255 }),
            r.layout == (TextLayout::Wrap {
                line_breaker: LineBreaker::Unicode,
                h_align: HorizontalAlign::Center,
                v_align: VerticalAlign::Center,
            }),
    {
        let layout = TextLayout::Wrap {
            line_breaker: LineBreaker::Unicode,
            h_align: HorizontalAlign::Center,
            v_align: VerticalAlign::Center,
        };

        TextConfig {
            font: "default".to_owned(),
            size: TextSize::FillParent,
            color: Rgba { r: 255, g: 255, b: 255, a: 255 },
            layout,
        }
    }
}

pub struct TextBox {
    /// The text inside of the text box
    pub text: String,
    /// Width of the text box
    pub width: u32,
    /// Height of the text box
    pub height: u32,
    /// Configuration options for text
    pub style: TextConfig,
}

/// Whether a glyph's bounding box lies inside a `width x height` box centered
/// on the layout origin: within `[-width/2, width/2) x [-height/2, height/2)`.
/// Touching the left or top edge is allowed; reaching the right or bottom
/// edge is not.
pub open spec fn spec_within_bounds(glyph: PositionedGlyph, width: int, height: int) -> bool {
    &&& -width <= 2 * glyph.spec_min_x()
    &&& 2 * glyph.spec_max_x() < width
    &&& -height <= 2 * glyph.spec_min_y()
    &&& 2 * glyph.spec_max_y() < height
}

/// Whether every glyph of a layout lies inside the centered box.
pub open spec fn spec_fits(glyphs: Seq<PositionedGlyph>, width: int, height: int) -> bool {
    forall|i: int| 0 <= i < glyphs.len() ==> spec_within_bounds(glyphs[i], width, height)
}

/// Strict containment: every glyph of a fitting layout has its bounding box
/// inside the centered box on all four sides — at or right of `-width/2`,
/// strictly left of `width/2`, and likewise vertically.
pub proof fn lemma_fits_containment(
    glyphs: Seq<PositionedGlyph>,
    width: int,
    height: int,
    i: int,
)
    requires
        spec_fits(glyphs, width, height),
        0 <= i < glyphs.len(),
    ensures
        -width <= 2 * glyphs[i].spec_min_x(),
        2 * glyphs[i].spec_max_x() < width,
        -height <= 2 * glyphs[i].spec_min_y(),
        2 * glyphs[i].spec_max_y() < height,
{
}

fn within_bounds_box(glyph: &PositionedGlyph, width: u32, height: u32) -> (r: bool)
    ensures
        r == spec_within_bounds(*glyph, width as int, height as int),
{
    let min_x: i64 = glyph.min_x() as i64;
    let min_y: i64 = glyph.min_y() as i64;
    let max_x: i64 = min_x + glyph.width() as i64;
    let max_y: i64 = min_y + glyph.height() as i64;
    let w: i64 = width as i64;
    let h: i64 = height as i64;

    if 2 * min_x < -w || 2 * max_x >= w {
        false
    } else if 2 * min_y < -h || 2 * max_y >= h {
        false
    } else {
        true
    }
}

/// Check if a glyph lies within the bounds of a textbox
pub fn within_bounds(glyph: &PositionedGlyph, textbox: &TextBox) -> (r: bool)
    ensures
        r == spec_within_bounds(*glyph, textbox.width as int, textbox.height as int),
{
    within_bounds_box(glyph, textbox.width, textbox.height)
}

/// The stopping predicate of the autofit search: true if and only if every
/// glyph of the layout lies strictly inside the centered box.
pub fn fits(glyphs: &Vec<PositionedGlyph>, width: u32, height: u32) -> (r: bool)
    ensures
        r == spec_fits(glyphs@, width as int, height as int),
{
    let mut i: usize = 0;
    while i < glyphs.len()
        invariant
            i <= glyphs@.len(),
            forall|j: int| 0 <= j < i ==> spec_within_bounds(glyphs@[j], width as int, height as int),
        decreases glyphs@.len() - i,
    {
        if !within_bounds_box(&glyphs[i], width, height) {
            return false;
        }
        i = i + 1;
    }
    true
}

/// Whether a byte buffer parses as an outline font: what ab_glyph's
/// `FontArc::try_from_vec` decides, a function of the bytes alone.
pub uninterp spec fn font_parse_ok(bytes: Seq<u8>) -> bool;

/// Relies on ab_glyph's `FontArc::try_from_vec`: raw font bytes either parse
/// into an outline font or fail with `InvalidFont`, depending on the bytes
/// alone.
#[verifier::external_body]
fn parse_font_bytes(bytes: Vec<u8>) -> (r: Option<FontArc>)
    ensures
        r is Some <==> font_parse_ok(bytes@),
{
    FontArc::try_from_vec(bytes).ok()
}

/// Relies on ab_glyph's `FontArc` being an `Arc`-based handle: `clone` hands
/// out another cheap handle to the same loaded font.
#[verifier::external_body]
fn clone_font_handle(font: &FontArc) -> (r: FontArc) {
    font.clone()
}

#[verifier::external_type_specification]
#[verifier::external_body]
pub struct ExFontArc(FontArc);

/// A handle to a loaded outline font. The registry remembers, as ghost data,
/// the bytes the font was parsed from, which determine every layout the font
/// produces.
pub struct Font {
    handle: FontArc,
    bytes: Ghost<Seq<u8>>,
}

impl Font {
    /// The raw bytes this font was parsed from.
    pub closed spec fn bytes_view(self) -> Seq<u8> {
        self.bytes@
    }

    /// The underlying ab_glyph font handle, for the unverified layout caller.
    pub fn handle(&self) -> &FontArc {
        &self.handle
    }
}

struct FontEntry {
    name: String,
    font: FontArc,
    bytes: Ghost<Seq<u8>>,
}

/// The font registry: owns the loaded fonts, keyed by logical name. Entries
/// are append-only; a later load of a name shadows an earlier one.
pub struct FontLoader {
    fonts: Vec<FontEntry>,
}

impl View for FontLoader {
    type V = Map<Seq<char>, Seq<u8>>;

    /// The registry as a map from font name to the bytes its font was
    /// parsed from.
    closed spec fn view(&self) -> Map<Seq<char>, Seq<u8>> {
        FontLoader::entries_map(self.fonts@)
    }
}

impl FontLoader {
    spec fn entries_map(entries: Seq<FontEntry>) -> Map<Seq<char>, Seq<u8>>
        decreases entries.len(),
    {
        if entries.len() == 0 {
            Map::empty()
        } else {
            Self::entries_map(entries.drop_last()).insert(
                entries.last().name@,
                entries.last().bytes@,
            )
        }
    }

    proof fn lemma_map_last_match(entries: Seq<FontEntry>, i: int)
        requires
            0 <= i < entries.len(),
            forall|j: int| i < j < entries.len() ==> entries[j].name@ != entries[i].name@,
        ensures
            Self::entries_map(entries).dom().contains(entries[i].name@),
            Self::entries_map(entries)[entries[i].name@] == entries[i].bytes@,
        decreases entries.len(),
    {
        if i < entries.len() - 1 {
            assert(entries.drop_last()[i] == entries[i]);
            Self::lemma_map_last_match(entries.drop_last(), i);
        }
    }

    proof fn lemma_map_no_match(entries: Seq<FontEntry>, name: Seq<char>)
        requires
            forall|j: int| 0 <= j < entries.len() ==> entries[j].name@ != name,
        ensures
            !Self::entries_map(entries).dom().contains(name),
        decreases entries.len(),
    {
        if entries.len() > 0 {
            Self::lemma_map_no_match(entries.drop_last(), name);
        }
    }

    /// An empty registry: no font resolvable yet.
    pub fn empty() -> (r: FontLoader)
        ensures
            r@ == Map::<Seq<char>, Seq<u8>>::empty(),
    {
        FontLoader { fonts: Vec::new() }
    }

    /// Builds the registry and seeds it with the given bytes as the font
    /// named "default"; fails if and only if the bytes do not parse.
    pub fn new(default_font: Vec<u8>) -> (r: Result<FontLoader, FontError>)
        ensures
            r is Ok <==> font_parse_ok(default_font@),
            r matches Ok(loader) ==> loader@ == Map::<Seq<char>, Seq<u8>>::empty().insert(
                "default"@,
                default_font@,
            ),
            r is Err ==> r == Err::<FontLoader, FontError>(FontError::FontLoadError),
    {
        let mut loader = FontLoader::empty();
        match loader.load_font("default".to_owned(), default_font) {
            Ok(_) => Ok(loader),
            Err(e) => Err(e),
        }
    }

    /// Parses `bytes` and registers the font under `name`, shadowing any
    /// prior entry of that name; if the bytes do not parse, the registry is
    /// left unchanged.
    pub fn load_font(&mut self, name: String, bytes: Vec<u8>) -> (r: Result<(), FontError>)
        ensures
            r is Ok <==> font_parse_ok(bytes@),
            r is Ok ==> final(self)@ == old(self)@.insert(name@, bytes@),
            r is Err ==> final(self)@ == old(self)@ && r == Err::<(), FontError>(
                FontError::FontLoadError,
            ),
    {
        let ghost bytes_view = bytes@;
        match parse_font_bytes(bytes) {
            Some(handle) => {
                let entry = FontEntry { name, font: handle, bytes: Ghost(bytes_view) };
                proof {
                    assert(self.fonts@.push(entry).drop_last() =~= self.fonts@);
                }
                self.fonts.push(entry);
                Ok(())
            },
            None => Err(FontError::FontLoadError),
        }
    }

    /// Looks up the font registered under `name`: a handle to the most
    /// recently loaded font of that name, or `FontNotFound` if the name was
    /// never registered.
    pub fn font(&self, name: &str) -> (r: Result<Font, FontError>)
        ensures
            self@.dom().contains(name@) ==> (r matches Ok(f) && f.bytes_view() == self@[name@]),
            !self@.dom().contains(name@) ==> r == Err::<Font, FontError>(FontError::FontNotFound),
    {
        let wanted: String = name.to_owned();
        let mut i: usize = self.fonts.len();
        while i > 0
            invariant
                i <= self.fonts@.len(),
                wanted@ == name@,
                forall|j: int| i <= j < self.fonts@.len() ==> self.fonts@[j].name@ != name@,
            decreases i,
        {
            i = i - 1;
            if self.fonts[i].name == wanted {
                proof {
                    Self::lemma_map_last_match(self.fonts@, i as int);
                }
                let f = Font {
                    handle: clone_font_handle(&self.fonts[i].font),
                    bytes: self.fonts[i].bytes,
                };
                return Ok(f);
            }
        }
        proof {
            Self::lemma_map_no_match(self.fonts@, name@);
        }
        Err(FontError::FontNotFound)
    }
}

/// Loading the same bytes under the same name twice leaves the registry
/// exactly as a single load does: every later lookup sees the same font
/// data either way.
pub proof fn lemma_load_idempotent(m: Map<Seq<char>, Seq<u8>>, name: Seq<char>, bytes: Seq<u8>)
    ensures
        m.insert(name, bytes).insert(name, bytes) =~= m.insert(name, bytes),
{
}

/// Builds the text style an options set asks for: a fixed pixel size where
/// one was given, else fill-parent; the text color parsed from its CSS
/// string; the default font and layout. Fails if and only if the color
/// string does not parse.
pub fn text_config_from_options(options: &Options) -> (r: Option<TextConfig>)
    ensures
        r is Some <==> css_color_of(options.font.color@) is Some,
        r matches Some(cfg) ==> {
            &&& css_color_of(options.font.color@) matches Some(c) && cfg.color == c
            &&& (options.font.font_size matches Some(s) ==> cfg.size == TextSize::PxScale(s))
            &&& (options.font.font_size is None ==> cfg.size is FillParent)
            &&& cfg.font@ == "default"@
            &&& cfg.layout == (TextLayout::Wrap {
                line_breaker: LineBreaker::Unicode,
                h_align: HorizontalAlign::Center,
                v_align: VerticalAlign::Center,
            })
        },
{
    let color = match parse_color(options.font.color.as_str()) {
        Some(c) => c,
        None => {
            return None;
        },
    };
    let size = match options.font.font_size {
        Some(s) => TextSize::PxScale(s),
        None => TextSize::FillParent,
    };
    let mut cfg = TextConfig::default();
    cfg.size = size;
    cfg.color = color;
    Some(cfg)
}

/// The source pixel a glyph contributes at its cell `(gx, gy)`: the text
/// color under the glyph's coverage alpha at that cell.
pub open spec fn cell_color(g: PositionedGlyph, color: Rgba, gx: int, gy: int) -> Rgba {
    Rgba { r: color.r, g: color.g, b: color.b, a: g.alpha_at(gx, gy) }
}

/// The framebuffer after blending coverage cell `k` (row-major) of glyph `g`
/// anchored at `(sx, sy)`; a cell landing outside the buffer changes nothing.
pub open spec fn apply_cell(
    fb: Seq<Rgba>,
    fb_w: int,
    fb_h: int,
    g: PositionedGlyph,
    color: Rgba,
    sx: int,
    sy: int,
    k: int,
) -> Seq<Rgba> {
    if g.spec_width() <= 0 {
        fb
    } else {
        let gx = k % g.spec_width();
        let gy = k / g.spec_width();
        let tx = sx + g.spec_min_x() + gx;
        let ty = sy + g.spec_min_y() + gy;
        if 0 <= tx < fb_w && 0 <= ty < fb_h {
            fb.update(ty * fb_w + tx, spec_blend(fb[ty * fb_w + tx], cell_color(g, color, gx, gy)))
        } else {
            fb
        }
    }
}

/// The framebuffer after blending the first `k` coverage cells of glyph `g`.
pub open spec fn draw_glyph_upto(
    fb: Seq<Rgba>,
    fb_w: int,
    fb_h: int,
    g: PositionedGlyph,
    color: Rgba,
    sx: int,
    sy: int,
    k: int,
) -> Seq<Rgba>
    decreases k,
{
    if k <= 0 {
        fb
    } else {
        apply_cell(
            draw_glyph_upto(fb, fb_w, fb_h, g, color, sx, sy, k - 1),
            fb_w,
            fb_h,
            g,
            color,
            sx,
            sy,
            k - 1,
        )
    }
}

/// The framebuffer after blending every coverage cell of glyph `g`.
pub open spec fn spec_draw_glyph(
    fb: Seq<Rgba>,
    fb_w: int,
    fb_h: int,
    g: PositionedGlyph,
    color: Rgba,
    sx: int,
    sy: int,
) -> Seq<Rgba> {
    draw_glyph_upto(fb, fb_w, fb_h, g, color, sx, sy, g.spec_width() * g.spec_height())
}

/// The framebuffer after drawing the first `n` glyphs of a layout in order.
pub open spec fn draw_glyphs_upto(
    fb: Seq<Rgba>,
    fb_w: int,
    fb_h: int,
    glyphs: Seq<PositionedGlyph>,
    color: Rgba,
    sx: int,
    sy: int,
    n: int,
) -> Seq<Rgba>
    decreases n,
{
    if n <= 0 {
        fb
    } else {
        spec_draw_glyph(
            draw_glyphs_upto(fb, fb_w, fb_h, glyphs, color, sx, sy, n - 1),
            fb_w,
            fb_h,
            glyphs[n - 1],
            color,
            sx,
            sy,
        )
    }
}

/// The framebuffer after drawing a whole layout.
pub open spec fn spec_draw_text(
    fb: Seq<Rgba>,
    fb_w: int,
    fb_h: int,
    glyphs: Seq<PositionedGlyph>,
    color: Rgba,
    sx: int,
    sy: int,
) -> Seq<Rgba> {
    draw_glyphs_upto(fb, fb_w, fb_h, glyphs, color, sx, sy, glyphs.len() as int)
}

/// Whether the glyph, anchored at `(sx, sy)`, covers the framebuffer pixel
/// `(x, y)`.
pub open spec fn glyph_covers(g: PositionedGlyph, sx: int, sy: int, x: int, y: int) -> bool {
    &&& sx + g.spec_min_x() <= x < sx + g.spec_max_x()
    &&& sy + g.spec_min_y() <= y < sy + g.spec_max_y()
}

proof fn lemma_index_distinct(fb_w: int, tx: int, ty: int, x: int, y: int)
    requires
        0 <= tx < fb_w,
        0 <= x < fb_w,
        tx != x || ty != y,
    ensures
        ty * fb_w + tx != y * fb_w + x,
{
    if ty != y {
        assert((ty - y) * fb_w >= fb_w || (ty - y) * fb_w <= -fb_w) by (nonlinear_arith)
            requires
                ty != y,
                fb_w > 0,
        ;
        assert(ty * fb_w == y * fb_w + (ty - y) * fb_w) by (nonlinear_arith);
    }
}

proof fn lemma_apply_cell_len(
    fb: Seq<Rgba>,
    fb_w: int,
    fb_h: int,
    g: PositionedGlyph,
    color: Rgba,
    sx: int,
    sy: int,
    k: int,
)
    requires
        fb.len() == fb_w * fb_h,
    ensures
        apply_cell(fb, fb_w, fb_h, g, color, sx, sy, k).len() == fb.len(),
{
    if g.spec_width() > 0 {
        let gw = g.spec_width();
        let tx = sx + g.spec_min_x() + k % gw;
        let ty = sy + g.spec_min_y() + k / gw;
        if 0 <= tx < fb_w && 0 <= ty < fb_h {
            assert(0 <= ty * fb_w + tx < fb_w * fb_h) by (nonlinear_arith)
                requires
                    0 <= tx < fb_w,
                    0 <= ty < fb_h,
            ;
        }
    }
}

proof fn lemma_draw_glyph_len(
    fb: Seq<Rgba>,
    fb_w: int,
    fb_h: int,
    g: PositionedGlyph,
    color: Rgba,
    sx: int,
    sy: int,
    k: int,
)
    requires
        fb.len() == fb_w * fb_h,
    ensures
        draw_glyph_upto(fb, fb_w, fb_h, g, color, sx, sy, k).len() == fb.len(),
    decreases k,
{
    if k > 0 {
        lemma_draw_glyph_len(fb, fb_w, fb_h, g, color, sx, sy, k - 1);
        lemma_apply_cell_len(
            draw_glyph_upto(fb, fb_w, fb_h, g, color, sx, sy, k - 1),
            fb_w,
            fb_h,
            g,
            color,
            sx,
            sy,
            k - 1,
        );
    }
}

proof fn lemma_draw_glyph_untouched(
    fb: Seq<Rgba>,
    fb_w: int,
    fb_h: int,
    g: PositionedGlyph,
    color: Rgba,
    sx: int,
    sy: int,
    k: int,
    x: int,
    y: int,
)
    requires
        fb.len() == fb_w * fb_h,
        0 <= x < fb_w,
        0 <= y < fb_h,
        k <= g.spec_width() * g.spec_height(),
        !glyph_covers(g, sx, sy, x, y),
    ensures
        draw_glyph_upto(fb, fb_w, fb_h, g, color, sx, sy, k)[y * fb_w + x] == fb[y * fb_w + x],
    decreases k,
{
    assert(0 <= y * fb_w + x < fb_w * fb_h) by (nonlinear_arith)
        requires
            0 <= x < fb_w,
            0 <= y < fb_h,
    ;
    if k > 0 {
        lemma_draw_glyph_untouched(fb, fb_w, fb_h, g, color, sx, sy, k - 1, x, y);
        lemma_draw_glyph_len(fb, fb_w, fb_h, g, color, sx, sy, k - 1);
        let prev = draw_glyph_upto(fb, fb_w, fb_h, g, color, sx, sy, k - 1);
        if g.spec_width() > 0 {
            let gw = g.spec_width();
            let gx = (k - 1) % gw;
            let gy = (k - 1) / gw;
            assert(0 <= gx < gw && 0 <= gy < g.spec_height()) by (nonlinear_arith)
                requires
                    0 <= k - 1 < gw * g.spec_height(),
                    gw > 0,
                    gx == (k - 1) % gw,
                    gy == (k - 1) / gw,
            ;
            let tx = sx + g.spec_min_x() + gx;
            let ty = sy + g.spec_min_y() + gy;
            if 0 <= tx < fb_w && 0 <= ty < fb_h {
                // The cell's target pixel lies inside the glyph's box, so it
                // cannot be the untouched pixel.
                assert(glyph_covers(g, sx, sy, tx, ty));
                assert(tx != x || ty != y);
                lemma_index_distinct(fb_w, tx, ty, x, y);
                assert(0 <= ty * fb_w + tx < fb_w * fb_h) by (nonlinear_arith)
                    requires
                        0 <= tx < fb_w,
                        0 <= ty < fb_h,
                ;
                assert(draw_glyph_upto(fb, fb_w, fb_h, g, color, sx, sy, k) == prev.update(
                    ty * fb_w + tx,
                    spec_blend(prev[ty * fb_w + tx], cell_color(g, color, gx, gy)),
                ));
                assert(prev.update(
                    ty * fb_w + tx,
                    spec_blend(prev[ty * fb_w + tx], cell_color(g, color, gx, gy)),
                )[y * fb_w + x] == prev[y * fb_w + x]);
            }
        }
    }
}

/// Drawing touches only what the layout covers: a pixel outside every
/// glyph's anchored bounding box keeps its value through `spec_draw_text`.
pub proof fn lemma_draw_text_untouched(
    fb: Seq<Rgba>,
    fb_w: int,
    fb_h: int,
    glyphs: Seq<PositionedGlyph>,
    color: Rgba,
    sx: int,
    sy: int,
    x: int,
    y: int,
)
    requires
        fb.len() == fb_w * fb_h,
        0 <= x < fb_w,
        0 <= y < fb_h,
        forall|i: int| 0 <= i < glyphs.len() ==> !glyph_covers(glyphs[i], sx, sy, x, y),
    ensures
        spec_draw_text(fb, fb_w, fb_h, glyphs, color, sx, sy)[y * fb_w + x] == fb[y * fb_w + x],
{
    lemma_draw_glyphs_untouched(fb, fb_w, fb_h, glyphs, color, sx, sy, glyphs.len() as int, x, y);
}

proof fn lemma_draw_glyphs_untouched(
    fb: Seq<Rgba>,
    fb_w: int,
    fb_h: int,
    glyphs: Seq<PositionedGlyph>,
    color: Rgba,
    sx: int,
    sy: int,
    n: int,
    x: int,
    y: int,
)
    requires
        fb.len() == fb_w * fb_h,
        0 <= x < fb_w,
        0 <= y < fb_h,
        n <= glyphs.len(),
        forall|i: int| 0 <= i < glyphs.len() ==> !glyph_covers(glyphs[i], sx, sy, x, y),
    ensures
        draw_glyphs_upto(fb, fb_w, fb_h, glyphs, color, sx, sy, n).len() == fb.len(),
        draw_glyphs_upto(fb, fb_w, fb_h, glyphs, color, sx, sy, n)[y * fb_w + x] == fb[y * fb_w
            + x],
    decreases n,
{
    if n > 0 {
        lemma_draw_glyphs_untouched(fb, fb_w, fb_h, glyphs, color, sx, sy, n - 1, x, y);
        let prev = draw_glyphs_upto(fb, fb_w, fb_h, glyphs, color, sx, sy, n - 1);
        let g = glyphs[n - 1];
        lemma_draw_glyph_len(prev, fb_w, fb_h, g, color, sx, sy, g.spec_width() * g.spec_height());
        lemma_draw_glyph_untouched(
            prev,
            fb_w,
            fb_h,
            g,
            color,
            sx,
            sy,
            g.spec_width() * g.spec_height(),
            x,
            y,
        );
    }
}

/// Text never renders outside its box: drawing a layout that fits a
/// `box_w x box_h` box, anchored at the box center `(sx, sy)`, leaves every
/// framebuffer pixel outside that box unchanged.
pub proof fn lemma_fitting_layout_renders_inside_box(
    fb: Seq<Rgba>,
    fb_w: int,
    fb_h: int,
    glyphs: Seq<PositionedGlyph>,
    color: Rgba,
    sx: int,
    sy: int,
    box_w: int,
    box_h: int,
    x: int,
    y: int,
)
    requires
        fb.len() == fb_w * fb_h,
        0 <= x < fb_w,
        0 <= y < fb_h,
        spec_fits(glyphs, box_w, box_h),
        2 * (x - sx) < -box_w || 2 * (x - sx) >= box_w || 2 * (y - sy) < -box_h || 2 * (y - sy)
            >= box_h,
    ensures
        spec_draw_text(fb, fb_w, fb_h, glyphs, color, sx, sy)[y * fb_w + x] == fb[y * fb_w + x],
{
    assert forall|i: int| 0 <= i < glyphs.len() implies !glyph_covers(
        glyphs[i],
        sx,
        sy,
        x,
        y,
    ) by {
        assert(spec_within_bounds(glyphs[i], box_w, box_h));
    }
    lemma_draw_text_untouched(fb, fb_w, fb_h, glyphs, color, sx, sy, x, y);
}

/// Draws text at a given screen position (the layout origin): each glyph's
/// coverage is alpha-blended in order onto the image; pixels that land
/// outside the framebuffer are dropped.
pub fn draw_text(
    image: &mut BackgroundImage,
    glyphs: Vec<PositionedGlyph>,
    text_config: TextConfig,
    screen_x: u32,
    screen_y: u32,
)
    requires
        old(image).wf(),
        forall|i: int| 0 <= i < glyphs@.len() ==> glyphs@[i].wf(),
    ensures
        final(image).wf(),
        final(image).spec_width() == old(image).spec_width(),
        final(image).spec_height() == old(image).spec_height(),
        final(image).pixels_view() == spec_draw_text(
            old(image).pixels_view(),
            old(image).spec_width() as int,
            old(image).spec_height() as int,
            glyphs@,
            text_config.color,
            screen_x as int,
            screen_y as int,
        ),
{
    let ghost fb0 = old(image).pixels_view();
    let ghost w = old(image).spec_width() as int;
    let ghost h = old(image).spec_height() as int;
    let ghost color = text_config.color;
    let ghost sx = screen_x as int;
    let ghost sy = screen_y as int;
    let mut i: usize = 0;
    while i < glyphs.len()
        invariant
            image.wf(),
            image.spec_width() as int == w,
            image.spec_height() as int == h,
            i <= glyphs@.len(),
            forall|j: int| 0 <= j < glyphs@.len() ==> glyphs@[j].wf(),
            image.pixels_view() == draw_glyphs_upto(fb0, w, h, glyphs@, color, sx, sy, i as int),
            color == text_config.color,
            sx == screen_x as int,
            sy == screen_y as int,
        decreases glyphs@.len() - i,
    {
        let g = &glyphs[i];
        let ghost gg = glyphs@[i as int];
        let gw: u32 = g.width();
        let gh: u32 = g.height();
        let total: usize = (gw as usize) * (gh as usize);
        let ghost prev = image.pixels_view();
        let mut k: usize = 0;
        while k < total
            invariant
                image.wf(),
                image.spec_width() as int == w,
                image.spec_height() as int == h,
                k <= total,
                gg.wf(),
                gg == glyphs@[i as int],
                0 <= i < glyphs@.len(),
                g == &glyphs[i as int],
                gw == gg.spec_width(),
                gh == gg.spec_height(),
                total == gg.spec_width() * gg.spec_height(),
                image.pixels_view() == draw_glyph_upto(prev, w, h, gg, color, sx, sy, k as int),
                color == text_config.color,
                sx == screen_x as int,
                sy == screen_y as int,
            decreases total - k,
        {
            proof {
                assert(gw > 0 && (k as int) / (gw as int) < gh as int) by (nonlinear_arith)
                    requires
                        0 <= (k as int) < (gw as int) * (gh as int),
                ;
            }
            let gx: u32 = (k % (gw as usize)) as u32;
            let gy: u32 = (k / (gw as usize)) as u32;
            let a: u8 = g.alpha(gx, gy);
            let tx: i64 = screen_x as i64 + g.min_x() as i64 + gx as i64;
            let ty: i64 = screen_y as i64 + g.min_y() as i64 + gy as i64;
            let iw: i64 = image.width() as i64;
            let ih: i64 = image.height() as i64;
            if 0 <= tx && tx < iw && 0 <= ty && ty < ih {
                let src = Rgba {
                    r: text_config.color.r,
                    g: text_config.color.g,
                    b: text_config.color.b,
                    a,
                };
                image.set_pixel(tx as u32, ty as u32, &src);
                proof {
                    assert(image.pixels_view() =~= draw_glyph_upto(
                        prev,
                        w,
                        h,
                        gg,
                        color,
                        sx,
                        sy,
                        k as int + 1,
                    ));
                }
            } else {
                proof {
                    assert(image.pixels_view() =~= draw_glyph_upto(
                        prev,
                        w,
                        h,
                        gg,
                        color,
                        sx,
                        sy,
                        k as int + 1,
                    ));
                }
            }
            k = k + 1;
        }
        proof {
            assert(image.pixels_view() == spec_draw_glyph(prev, w, h, gg, color, sx, sy));
            assert(draw_glyphs_upto(fb0, w, h, glyphs@, color, sx, sy, i as int + 1)
                == spec_draw_glyph(
                draw_glyphs_upto(fb0, w, h, glyphs@, color, sx, sy, i as int),
                w,
                h,
                glyphs@[i as int],
                color,
                sx,
                sy,
            ));
        }
        i = i + 1;
    }
}

} // verus!
