//! The run's fixed data: the grid dimensions and the target raster that
//! chromosomes are scored against.

use vstd::prelude::*;

use crate::gene::GeneType;

verus! {

/// The pixel grid's dimensions, as configured for one run.
#[derive(Clone, Copy, Debug, PartialEq, Eq, Structural)]
pub struct ImageDimensions {
    pub x: i32,
    pub y: i32,
}

impl ImageDimensions {
    /// The number of pixels the grid holds.
    pub fn total_pixels(&self) -> (r: i32)
        requires
            0 <= self.x,
            0 <= self.y,
            self.x * self.y <= i32::MAX,
        ensures
            r == self.x * self.y,
    {
        proof {
            assert(0 <= self.x * self.y) by (nonlinear_arith)
                requires
                    0 <= self.x,
                    0 <= self.y,
            ;
        }
        self.x * self.y
    }
}

/// The immutable raster being approximated. Pixels are stored row-major, so
/// the pixel at raster coordinate (x, y) is `pixels[y * width + x]`; gene
/// index `i` of a chromosome corresponds to pixel index `i`.
pub struct TargetImage {
    pub pixels: Vec<GeneType>,
    pub width: u32,
    pub height: u32,
}

impl TargetImage {
    /// The pixel buffer covers exactly the stated dimensions.
    pub open spec fn wf(&self) -> bool {
        self.pixels@.len() == self.width * self.height
    }

    /// The pixel at raster coordinate (x, y), following the row-major index
    /// convention shared with chromosome genes and image reconstruction.
    pub open spec fn pixel_at(&self, x: int, y: int) -> GeneType {
        self.pixels@[y * self.width + x]
    }
}

/// Index correspondence: in a well-formed target every raster coordinate
/// (x, y) maps to the in-bounds pixel index `y * width + x`, the same index
/// at which the fitness evaluator reads the gene and at which the output
/// raster is written back.
pub proof fn lemma_index_correspondence(t: &TargetImage, x: int, y: int)
    requires
        t.wf(),
        0 <= x < t.width,
        0 <= y < t.height,
    ensures
        0 <= y * t.width + x < t.pixels@.len(),
        t.pixel_at(x, y) == t.pixels@[y * t.width + x],
{
    assert(0 <= y * t.width && y * t.width + x < t.width * t.height) by (nonlinear_arith)
        requires
            0 <= x < t.width,
            0 <= y < t.height,
    ;
}

} // verus!
