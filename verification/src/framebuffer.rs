use vstd::prelude::*;

use crate::color::{spec_blend, Rgba};

verus! {

/// An owned RGBA framebuffer. Pixels are stored row-major: the pixel at
/// `(x, y)` sits at index `y * width + x`. Writes outside the grid are
/// silently dropped, never an error.
pub struct BackgroundImage {
    width: u32,
    height: u32,
    pixels: Vec<Rgba>,
}

impl BackgroundImage {
    pub open spec fn wf(self) -> bool {
        &&& self.pixels_view().len() == self.spec_width() * self.spec_height()
        &&& self.spec_width() * self.spec_height() <= usize::MAX
    }

    pub closed spec fn spec_width(self) -> u32 {
        self.width
    }

    pub closed spec fn spec_height(self) -> u32 {
        self.height
    }

    /// The pixel grid as a flat row-major sequence.
    pub closed spec fn pixels_view(self) -> Seq<Rgba> {
        self.pixels@
    }

    pub open spec fn in_range(self, x: int, y: int) -> bool {
        0 <= x < self.spec_width() && 0 <= y < self.spec_height()
    }

    pub open spec fn pixel(self, x: int, y: int) -> Rgba {
        self.pixels_view()[y * self.spec_width() + x]
    }

    /// A buffer of the given dimensions with every pixel set to
    /// `background_color`.
    pub fn new(width: u32, height: u32, background_color: &Rgba) -> (r: Self)
        requires
            width * height <= usize::MAX,
        ensures
            r.wf(),
            r.spec_width() == width,
            r.spec_height() == height,
            forall|i: int|
                0 <= i < r.pixels_view().len() ==> r.pixels_view()[i] == *background_color,
    {
        let total: usize = (width as usize) * (height as usize);
        let mut pixels: Vec<Rgba> = Vec::new();
        let mut i: usize = 0;
        while i < total
            invariant
                i <= total,
                pixels@.len() == i,
                forall|j: int| 0 <= j < i ==> pixels@[j] == *background_color,
            decreases total - i,
        {
            pixels.push(*background_color);
            i = i + 1;
        }
        BackgroundImage { width, height, pixels }
    }

    /// Wraps a raw row-major RGBA byte buffer, four bytes per pixel; fails
    /// if and only if the byte count does not match the dimensions.
    pub fn from_raw(width: u32, height: u32, bytes: Vec<u8>) -> (r: Option<Self>)
        ensures
            r is Some <==> bytes@.len() == 4 * (width * height),
            r matches Some(img) ==> {
                &&& img.wf()
                &&& img.spec_width() == width
                &&& img.spec_height() == height
                &&& forall|i: int|
                    0 <= i < width * height ==> img.pixels_view()[i] == (Rgba {
                        r: bytes@[4 * i],
                        g: bytes@[4 * i + 1],
                        b: bytes@[4 * i + 2],
                        a: bytes@[4 * i + 3],
                    })
            },
    {
        let n: usize = bytes.len();
        let total: usize = match (width as usize).checked_mul(height as usize) {
            Some(t) => t,
            None => {
                proof {
                    assert(n <= usize::MAX < width * height <= 4 * (width * height));
                }
                return None;
            },
        };
        let byte_len: usize = match total.checked_mul(4) {
            Some(b) => b,
            None => {
                proof {
                    assert(n <= usize::MAX < 4 * (width * height));
                }
                return None;
            },
        };
        if n != byte_len {
            return None;
        }
        let mut pixels: Vec<Rgba> = Vec::new();
        let mut i: usize = 0;
        while i < total
            invariant
                i <= total,
                total == width * height,
                4 * total <= usize::MAX,
                bytes@.len() == 4 * total,
                pixels@.len() == i,
                forall|j: int|
                    0 <= j < i ==> pixels@[j] == (Rgba {
                        r: bytes@[4 * j],
                        g: bytes@[4 * j + 1],
                        b: bytes@[4 * j + 2],
                        a: bytes@[4 * j + 3],
                    }),
            decreases total - i,
        {
            let p = Rgba {
                r: bytes[4 * i],
                g: bytes[4 * i + 1],
                b: bytes[4 * i + 2],
                a: bytes[4 * i + 3],
            };
            pixels.push(p);
            i = i + 1;
        }
        Some(BackgroundImage { width, height, pixels })
    }

    pub fn width(&self) -> (w: u32)
        ensures
            w == self.spec_width(),
    {
        self.width
    }

    pub fn height(&self) -> (h: u32)
        ensures
            h == self.spec_height(),
    {
        self.height
    }

    /// Blends `color` over the pixel at `(x, y)`; a write outside the grid
    /// changes nothing.
    pub fn set_pixel(&mut self, x: u32, y: u32, color: &Rgba)
        requires
            old(self).wf(),
        ensures
            final(self).wf(),
            final(self).spec_width() == old(self).spec_width(),
            final(self).spec_height() == old(self).spec_height(),
            old(self).in_range(x as int, y as int) ==> final(self).pixels_view() == old(
                self,
            ).pixels_view().update(
                y * old(self).spec_width() + x,
                spec_blend(old(self).pixel(x as int, y as int), *color),
            ),
            !old(self).in_range(x as int, y as int) ==> *final(self) == *old(self),
    {
        if x >= self.width || y >= self.height {
            return ;
        }
        proof {
            assert((y as int) * (self.width as int) + (x as int) < (self.width as int) * (
            self.height as int)) by (nonlinear_arith)
                requires
                    (x as int) < (self.width as int),
                    (y as int) < (self.height as int),
                    0 <= (x as int),
                    0 <= (y as int),
            ;
        }
        let idx: usize = (y as usize) * (self.width as usize) + (x as usize);
        let dst = self.pixels[idx];
        let blended = dst.blend(*color);
        self.pixels.set(idx, blended);
    }

    /// Reads the pixel at `(x, y)`.
    pub fn get_pixel(&self, x: u32, y: u32) -> (r: Rgba)
        requires
            self.wf(),
            x < self.spec_width(),
            y < self.spec_height(),
        ensures
            r == self.pixel(x as int, y as int),
    {
        proof {
            assert((y as int) * (self.width as int) + (x as int) < (self.width as int) * (
            self.height as int)) by (nonlinear_arith)
                requires
                    (x as int) < (self.width as int),
                    (y as int) < (self.height as int),
                    0 <= (x as int),
                    0 <= (y as int),
            ;
        }
        let idx: usize = (y as usize) * (self.width as usize) + (x as usize);
        self.pixels[idx]
    }
}

} // verus!
