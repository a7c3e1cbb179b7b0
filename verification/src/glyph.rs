use vstd::prelude::*;

verus! {

/// One laid-out glyph: its pixel-space bounding box, relative to the center
/// of the text box it was laid out in, and the rasterized coverage of every
/// pixel inside that box. Coverage is stored row-major as an alpha value in
/// `0..=255` (`round(255 * coverage)`): the cell `(gx, gy)` sits at index
/// `gy * width + gx`.
pub struct PositionedGlyph {
    min_x: i32,
    min_y: i32,
    width: u32,
    height: u32,
    coverage: Vec<u8>,
}

impl PositionedGlyph {
    pub open spec fn wf(self) -> bool {
        &&& self.coverage_view().len() == self.spec_width() * self.spec_height()
        &&& self.spec_width() * self.spec_height() <= usize::MAX
    }

    pub closed spec fn spec_min_x(self) -> int {
        self.min_x as int
    }

    pub closed spec fn spec_min_y(self) -> int {
        self.min_y as int
    }

    pub closed spec fn spec_width(self) -> int {
        self.width as int
    }

    pub closed spec fn spec_height(self) -> int {
        self.height as int
    }

    /// One past the rightmost pixel column of the bounding box.
    pub open spec fn spec_max_x(self) -> int {
        self.spec_min_x() + self.spec_width()
    }

    /// One past the bottommost pixel row of the bounding box.
    pub open spec fn spec_max_y(self) -> int {
        self.spec_min_y() + self.spec_height()
    }

    pub closed spec fn coverage_view(self) -> Seq<u8> {
        self.coverage@
    }

    /// The alpha of the cell `(gx, gy)` of the bounding box.
    pub open spec fn alpha_at(self, gx: int, gy: int) -> u8 {
        self.coverage_view()[gy * self.spec_width() + gx]
    }

    /// Builds a glyph; fails if and only if the coverage buffer does not hold
    /// exactly one alpha value per pixel of the `width * height` box.
    pub fn new(min_x: i32, min_y: i32, width: u32, height: u32, coverage: Vec<u8>) -> (r: Option<
        Self,
    >)
        ensures
            r is Some <==> coverage@.len() == width * height,
            r matches Some(g) ==> {
                &&& g.wf()
                &&& g.spec_min_x() == min_x
                &&& g.spec_min_y() == min_y
                &&& g.spec_width() == width
                &&& g.spec_height() == height
                &&& g.coverage_view() == coverage@
            },
    {
        let n: usize = coverage.len();
        match (width as usize).checked_mul(height as usize) {
            Some(total) => {
                if n == total {
                    Some(PositionedGlyph { min_x, min_y, width, height, coverage })
                } else {
                    None
                }
            },
            None => {
                proof {
                    assert(n <= usize::MAX < width * height);
                }
                None
            },
        }
    }

    pub fn min_x(&self) -> (r: i32)
        ensures
            r == self.spec_min_x(),
    {
        self.min_x
    }

    pub fn min_y(&self) -> (r: i32)
        ensures
            r == self.spec_min_y(),
    {
        self.min_y
    }

    pub fn width(&self) -> (r: u32)
        ensures
            r == self.spec_width(),
    {
        self.width
    }

    pub fn height(&self) -> (r: u32)
        ensures
            r == self.spec_height(),
    {
        self.height
    }

    /// Reads the alpha of the cell `(gx, gy)`.
    pub fn alpha(&self, gx: u32, gy: u32) -> (r: u8)
        requires
            self.wf(),
            gx < self.spec_width(),
            gy < self.spec_height(),
        ensures
            r == self.alpha_at(gx as int, gy as int),
    {
        proof {
            assert((gy as int) * (self.width as int) + (gx as int) < (self.width as int) * (
            self.height as int)) by (nonlinear_arith)
                requires
                    (gx as int) < (self.width as int),
                    (gy as int) < (self.height as int),
                    0 <= (gx as int),
                    0 <= (gy as int),
            ;
        }
        let idx: usize = (gy as usize) * (self.width as usize) + (gx as usize);
        self.coverage[idx]
    }
}

} // verus!
