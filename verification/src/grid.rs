//! Grids of luminance samples.

use crate::error::HashError;
use vstd::prelude::*;

verus! {

/// The mathematical content of a grid: its size and its samples, row by row.
pub struct GridView {
    pub width: nat,
    pub height: nat,
    pub samples: Seq<u8>,
}

impl GridView {
    /// Both dimensions are positive and there is one sample per cell.
    pub open spec fn wf(self) -> bool {
        &&& self.width > 0
        &&& self.height > 0
        &&& self.samples.len() == self.width * self.height
    }

    /// The sample in column `x` of row `y`.
    pub open spec fn at(self, x: int, y: int) -> u8 {
        self.samples[y * self.width + x]
    }

    /// Whether the grid is `width` samples wide and `height` samples high.
    pub open spec fn has_shape(self, width: nat, height: nat) -> bool {
        self.width == width && self.height == height
    }
}

/// The position of cell (`x`, `y`) in a row-major grid lies inside the grid,
/// and the cell can be read back from the position.
pub proof fn lemma_cell_index(x: int, y: int, width: int, height: int)
    requires
        0 <= x < width,
        0 <= y < height,
    ensures
        0 <= y * width + x < width * height,
        (y * width + x) % width == x,
        (y * width + x) / width == y,
{
    assert(0 <= y * width && y * width + width <= width * height) by (nonlinear_arith)
        requires
            0 <= y < height,
            0 < width,
    ;
    vstd::arithmetic::div_mod::lemma_fundamental_div_mod_converse(y * width + x, width, y, x);
}

/// A rectangular grid of 8-bit luminance samples, stored row by row. It is
/// never empty and never changes.
#[derive(Debug)]
pub struct SampleGrid {
    width: u32,
    height: u32,
    samples: Vec<u8>,
}

impl View for SampleGrid {
    type V = GridView;

    closed spec fn view(&self) -> GridView {
        GridView {
            width: self.width as nat,
            height: self.height as nat,
            samples: self.samples@,
        }
    }
}

impl SampleGrid {
    /// What holds of every grid: its content is well formed.
    #[verifier::type_invariant]
    pub open spec fn well_formed(&self) -> bool {
        self@.wf()
    }

    /// The dimensions and the sample count of a grid fit the machine's integers.
    pub proof fn lemma_bounded(&self)
        ensures
            self@.width <= u32::MAX,
            self@.height <= u32::MAX,
            self@.samples.len() <= usize::MAX,
    {
        assert(self.samples.len() == self.samples@.len());
    }

    /// Builds a grid from its size and its samples in row-major order.
    /// Refuses an empty grid and a sample count other than `width * height`.
    pub fn new(width: u32, height: u32, samples: Vec<u8>) -> (r: Result<SampleGrid, HashError>)
        ensures
            r is Ok <==> width > 0 && height > 0 && samples@.len() == width * height,
            r matches Ok(g) ==> g@ == (GridView {
                width: width as nat,
                height: height as nat,
                samples: samples@,
            }),
            r matches Err(e) ==> e == HashError::InvalidDimension,
    {
        if width == 0 || height == 0 {
            return Err(HashError::InvalidDimension);
        }
        assert(width * height <= u64::MAX) by (nonlinear_arith)
            requires
                width <= u32::MAX,
                height <= u32::MAX,
        ;
        let cells: u64 = (width as u64) * (height as u64);
        if samples.len() as u64 != cells {
            return Err(HashError::InvalidDimension);
        }
        Ok(SampleGrid { width, height, samples })
    }

    /// The number of columns.
    pub fn width(&self) -> (w: u32)
        ensures
            w == self@.width,
    {
        self.width
    }

    /// The number of rows.
    pub fn height(&self) -> (h: u32)
        ensures
            h == self@.height,
    {
        self.height
    }

    /// The samples, row by row.
    pub fn samples(&self) -> (s: &Vec<u8>)
        ensures
            s@ == self@.samples,
    {
        &self.samples
    }

    /// The sample in column `x` of row `y`, if the grid has such a cell.
    pub fn sample(&self, x: u32, y: u32) -> (r: Option<u8>)
        ensures
            r == (if x < self@.width && y < self@.height {
                Some(self@.at(x as int, y as int))
            } else {
                None
            }),
    {
        proof {
            use_type_invariant(self);
        }
        if x < self.width && y < self.height {
            Some(self.cell(x, y))
        } else {
            None
        }
    }

    /// The sample in column `x` of row `y`.
    pub(crate) fn cell(&self, x: u32, y: u32) -> (v: u8)
        requires
            x < self@.width,
            y < self@.height,
        ensures
            v == self@.at(x as int, y as int),
    {
        proof {
            use_type_invariant(self);
            lemma_cell_index(x as int, y as int, self.width as int, self.height as int);
            self.lemma_bounded();
        }
        self.samples[(y as usize) * (self.width as usize) + (x as usize)]
    }
}

impl Clone for SampleGrid {
    fn clone(&self) -> (r: Self)
        ensures
            r@ == self@,
    {
        proof {
            use_type_invariant(self);
        }
        SampleGrid { width: self.width, height: self.height, samples: self.samples.clone() }
    }
}

} // verus!
