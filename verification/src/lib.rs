//! Text-fitting and glyph-compositing engine for generated wallpapers.
//!
//! Given a caption, a font, and a rectangular text box, the library finds
//! the largest pixel size whose layout stays inside the box
//! ([`autofit::AutofitSearch`] driving the bounds checker in [`text`]), and
//! alpha-blends the rasterized glyph coverage onto an owned RGBA framebuffer
//! ([`framebuffer::BackgroundImage`], [`text::draw_text`]). Laying text out
//! and rasterizing coverage are the work of an outside font engine; what
//! comes back is checked, searched over, and composited here, under the
//! contracts on each function.

pub mod args;
pub mod autofit;
pub mod color;
pub mod framebuffer;
pub mod glyph;
pub mod source;
pub mod text;
