use vstd::prelude::*;

verus! {

/// An RGBA color, 8 bits per channel.
#[derive(Clone, Copy, PartialEq, Eq, Structural, Debug)]
pub struct Rgba {
    pub r: u8,
    pub g: u8,
    pub b: u8,
    pub a: u8,
}

/// Source-over compositing of one color channel: the source contributes in
/// proportion `alpha / 255`, the destination keeps the rest.
pub open spec fn blend_channel(src: int, dst: int, alpha: int) -> int {
    (alpha * src + (255 - alpha) * dst) / 255
}

/// Source-over compositing of the alpha channel itself: the destination's
/// transparency is scaled down by what the source covers.
pub open spec fn blend_alpha(src: int, dst: int) -> int {
    src + (255 - src) * dst / 255
}

/// The pixel that results from drawing `src` over `dst`.
pub open spec fn spec_blend(dst: Rgba, src: Rgba) -> Rgba {
    Rgba {
        r: blend_channel(src.r as int, dst.r as int, src.a as int) as u8,
        g: blend_channel(src.g as int, dst.g as int, src.a as int) as u8,
        b: blend_channel(src.b as int, dst.b as int, src.a as int) as u8,
        a: blend_alpha(src.a as int, dst.a as int) as u8,
    }
}

proof fn lemma_blend_channel_bounds(src: int, dst: int, alpha: int)
    requires
        0 <= src <= 255,
        0 <= dst <= 255,
        0 <= alpha <= 255,
    ensures
        0 <= blend_channel(src, dst, alpha) <= 255,
{
    assert(0 <= alpha * src + (255 - alpha) * dst <= 255 * 255) by (nonlinear_arith)
        requires
            0 <= src <= 255,
            0 <= dst <= 255,
            0 <= alpha <= 255,
    ;
}

proof fn lemma_blend_alpha_bounds(src: int, dst: int)
    requires
        0 <= src <= 255,
        0 <= dst <= 255,
    ensures
        0 <= blend_alpha(src, dst) <= 255,
{
    assert(0 <= (255 - src) * dst <= (255 - src) * 255) by (nonlinear_arith)
        requires
            0 <= src <= 255,
            0 <= dst <= 255,
    ;
    assert((255 - src) * 255 / 255 == 255 - src) by (nonlinear_arith);
    assert((255 - src) * dst / 255 <= (255 - src) * 255 / 255) by (nonlinear_arith)
        requires
            0 <= (255 - src) * dst <= (255 - src) * 255,
    ;
}

fn blend_channel_exec(src: u8, dst: u8, alpha: u8) -> (r: u8)
    ensures
        r == blend_channel(src as int, dst as int, alpha as int),
{
    proof {
        lemma_blend_channel_bounds(src as int, dst as int, alpha as int);
        assert((alpha as u32) * (src as u32) <= 255 * 255) by (nonlinear_arith)
            requires
                alpha <= 255,
                src <= 255,
        ;
        assert((255 - alpha as u32) * (dst as u32) <= 255 * 255) by (nonlinear_arith)
            requires
                alpha <= 255,
                dst <= 255,
        ;
    }
    let num: u32 = (alpha as u32) * (src as u32) + (255 - alpha as u32) * (dst as u32);
    (num / 255) as u8
}

fn blend_alpha_exec(src: u8, dst: u8) -> (r: u8)
    ensures
        r == blend_alpha(src as int, dst as int),
{
    proof {
        lemma_blend_alpha_bounds(src as int, dst as int);
        assert((255 - src as u32) * (dst as u32) <= 255 * 255) by (nonlinear_arith)
            requires
                src <= 255,
                dst <= 255,
        ;
    }
    let scaled: u32 = (255 - src as u32) * (dst as u32) / 255;
    (src as u32 + scaled) as u8
}

impl Rgba {
    /// Draws `src` over `self` with standard source-over compositing.
    pub fn blend(self, src: Rgba) -> (r: Rgba)
        ensures
            r == spec_blend(self, src),
    {
        Rgba {
            r: blend_channel_exec(src.r, self.r, src.a),
            g: blend_channel_exec(src.g, self.g, src.a),
            b: blend_channel_exec(src.b, self.b, src.a),
            a: blend_alpha_exec(src.a, self.a),
        }
    }
}

/// A fully opaque source replaces the destination's color exactly.
pub proof fn lemma_blend_opaque(dst: Rgba, src: Rgba)
    requires
        src.a == 255,
    ensures
        spec_blend(dst, src) == (Rgba { r: src.r, g: src.g, b: src.b, a: 255 }),
{
    assert(blend_channel(src.r as int, dst.r as int, 255) == src.r) by (nonlinear_arith);
    assert(blend_channel(src.g as int, dst.g as int, 255) == src.g) by (nonlinear_arith);
    assert(blend_channel(src.b as int, dst.b as int, 255) == src.b) by (nonlinear_arith);
    assert(blend_alpha(255, dst.a as int) == 255) by (nonlinear_arith);
}

/// A fully transparent source leaves the destination unchanged.
pub proof fn lemma_blend_transparent(dst: Rgba, src: Rgba)
    requires
        src.a == 0,
    ensures
        spec_blend(dst, src) == dst,
{
    assert(blend_channel(src.r as int, dst.r as int, 0) == dst.r) by (nonlinear_arith);
    assert(blend_channel(src.g as int, dst.g as int, 0) == dst.g) by (nonlinear_arith);
    assert(blend_channel(src.b as int, dst.b as int, 0) == dst.b) by (nonlinear_arith);
    assert(blend_alpha(0, dst.a as int) == dst.a) by (nonlinear_arith);
}

/// What csscolorparser computes for a color string: a deterministic function
/// of the characters alone.
pub uninterp spec fn css_color_of(s: Seq<char>) -> Option<Rgba>;

/// Relies on csscolorparser::parse and Color::to_rgba8: a CSS color string
/// (named, `#RRGGBB`, `rgb(..)`, `hsl(..)`) parses to its 8-bit RGBA
/// components, a function of the string alone; an invalid string is an error.
#[verifier::external_body]
pub(crate) fn parse_color(raw_color: &str) -> (r: Option<Rgba>)
    ensures
        r == css_color_of(raw_color@),
{
    match csscolorparser::parse(raw_color) {
        Ok(color) => {
            let c = color.to_rgba8();
            Some(Rgba { r: c[0], g: c[1], b: c[2], a: c[3] })
        }
        _ => None,
    }
}

} // verus!
