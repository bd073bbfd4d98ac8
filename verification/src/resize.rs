//! Resampling of sample grids to a given size.

use crate::error::HashError;
use crate::grid::{lemma_cell_index, GridView, SampleGrid};
use vstd::prelude::*;

verus! {

/// The interpolation kernel used when a grid is resampled.
#[derive(Clone, Copy, Debug, PartialEq, Eq, Structural)]
pub enum FilterType {
    /// Nearest neighbour: each output copies the closest source sample.
    Nearest,
    /// Linear interpolation along each axis.
    Triangle,
    /// Cubic interpolation with four taps along each axis.
    CatmullRom,
    /// Gaussian low-pass whose support grows with the scale.
    Gaussian,
    /// Windowed sinc of radius three.
    Lanczos3,
}

/// The largest width or height that can be resampled, on either side: 2^21.
///
/// The bound is that of the kernels' arithmetic. They place each target
/// sample in the source by a product of two rounded `f32` values and weigh
/// the source samples by their distance from that place. Up to 2^21 the place
/// is off by less than a fifth of a sample, so the nearest source sample
/// always gets a weight that the kernel's negative lobes cannot cancel.
/// Beyond 2^21 that is no longer certain, and from 2^23 on, where a
/// half-sample offset is not representable, all weights of a target sample do
/// come out zero for some sizes, and the division by their sum has no value.
pub const MAX_DIMENSION: u32 = 2_097_152;

/// Whether a buffer of `width * height` samples can be allocated.
pub open spec fn addressable(width: nat, height: nat) -> bool {
    width * height <= isize::MAX
}

/// Whether the resampling call takes a `width` by `height` image to
/// `target_width` by `target_height`: all four dimensions are positive and at
/// most `MAX_DIMENSION`, and the result and the intermediate image of the
/// two passes, `width` by `target_height`, can be allocated.
pub open spec fn resamplable(
    width: nat,
    height: nat,
    target_width: nat,
    target_height: nat,
) -> bool {
    &&& 0 < width <= MAX_DIMENSION
    &&& 0 < height <= MAX_DIMENSION
    &&& 0 < target_width <= MAX_DIMENSION
    &&& 0 < target_height <= MAX_DIMENSION
    &&& addressable(width, target_height)
    &&& addressable(target_width, target_height)
}

/// Whether `resize` gives a grid of `target_width` by `target_height` for the
/// grid `g`: the target is not empty, and `g` either has that size already or
/// can be resampled to it. The grid is handed to the resampling call turned
/// over, so it is the turned sizes that the call must take.
pub open spec fn resizable(g: GridView, target_width: nat, target_height: nat) -> bool {
    &&& target_width > 0
    &&& target_height > 0
    &&& g.has_shape(target_width, target_height) || resamplable(
        g.height,
        g.width,
        target_height,
        target_width,
    )
}

/// Whether the kernel works in exact arithmetic only, so that what it gives
/// is fixed by the samples and the sizes. `Nearest` and `Triangle` add,
/// multiply, divide and round; the other three also raise to powers, take
/// exponentials or sines, whose last digit depends on the platform.
pub open spec fn exact_kernel(filter: FilterType) -> bool {
    filter == FilterType::Nearest || filter == FilterType::Triangle
}

/// The samples of a `width` by `height` grid turned over its diagonal: the
/// sample of column `x` and row `y` goes to column `y` and row `x` of a
/// `height` by `width` grid.
pub open spec fn transposed(samples: Seq<u8>, width: nat, height: nat) -> Seq<u8> {
    Seq::new(
        width * height,
        |i: int| samples[(i % (height as int)) * (width as int) + i / (height as int)],
    )
}

/// The samples that the resampling call gives for a `width` by `height` image
/// brought to `target_width` by `target_height` with an exact kernel, row by
/// row. The values are those of `image::imageops::resize` and are not written
/// out here.
pub uninterp spec fn resampled(
    samples: Seq<u8>,
    width: nat,
    height: nat,
    target_width: nat,
    target_height: nat,
    filter: FilterType,
) -> Seq<u8>;

/// The grid that `resize` gives for `g` with an exact kernel, or for a `g`
/// that already has the target size: `g` itself in the latter case, and
/// otherwise the grid of the target size whose samples come from resampling
/// the rows of `g` and then the columns of what that gave.
pub open spec fn resized(
    g: GridView,
    target_width: nat,
    target_height: nat,
    filter: FilterType,
) -> GridView {
    if g.has_shape(target_width, target_height) {
        g
    } else {
        GridView {
            width: target_width,
            height: target_height,
            samples: transposed(
                resampled(
                    transposed(g.samples, g.width, g.height),
                    g.height,
                    g.width,
                    target_height,
                    target_width,
                    filter,
                ),
                target_height,
                target_width,
            ),
        }
    }
}

/// Whether what `resize` gives for `g` is fixed by `g`, the target size and
/// the filter: `g` needs no resampling, or the kernel is exact.
pub open spec fn resize_is_fixed(
    g: GridView,
    target_width: nat,
    target_height: nat,
    filter: FilterType,
) -> bool {
    g.has_shape(target_width, target_height) || exact_kernel(filter)
}

/// Resamples a one-channel 8-bit image with `image::imageops::resize`, which
/// filters along the columns and then along the rows of what that gave, with
/// the chosen kernel.
///
/// The contract claims that the call returns for the sizes that `requires`
/// admits, and that the result has one sample per cell of the target. For
/// `Nearest` and `Triangle`, whose arithmetic is exact, it also claims that
/// the result is a function of the arguments alone, named `resampled`. For
/// `CatmullRom`, `Gaussian` and `Lanczos3`, which call `powi`, `exp` and
/// `sin`, nothing is claimed of the sample values.
#[verifier::external_body]
fn resample(
    samples: &Vec<u8>,
    width: u32,
    height: u32,
    target_width: u32,
    target_height: u32,
    filter: FilterType,
) -> (out: Vec<u8>)
    requires
        resamplable(width as nat, height as nat, target_width as nat, target_height as nat),
        samples@.len() == width * height,
    ensures
        out@.len() == target_width * target_height,
        exact_kernel(filter) ==> out@ == resampled(
            samples@,
            width as nat,
            height as nat,
            target_width as nat,
            target_height as nat,
            filter,
        ),
{
    let kernel = match filter {
        FilterType::Nearest => image::imageops::FilterType::Nearest,
        FilterType::Triangle => image::imageops::FilterType::Triangle,
        FilterType::CatmullRom => image::imageops::FilterType::CatmullRom,
        FilterType::Gaussian => image::imageops::FilterType::Gaussian,
        FilterType::Lanczos3 => image::imageops::FilterType::Lanczos3,
    };
    let source: image::ImageBuffer<image::Luma<u8>, &[u8]> =
        image::ImageBuffer::from_raw(width, height, samples.as_slice()).unwrap();
    image::imageops::resize(&source, target_width, target_height, kernel).into_raw()
}

/// Whether a buffer of `width * height` samples can be allocated.
fn is_addressable(width: u32, height: u32) -> (b: bool)
    ensures
        b == addressable(width as nat, height as nat),
{
    assert(width * height <= u64::MAX) by (nonlinear_arith)
        requires
            width <= u32::MAX,
            height <= u32::MAX,
    ;
    (width as u64) * (height as u64) <= isize::MAX as u64
}

/// Whether the resampling call takes a `width` by `height` image to
/// `target_width` by `target_height`.
fn is_resamplable(width: u32, height: u32, target_width: u32, target_height: u32) -> (b: bool)
    ensures
        b == resamplable(width as nat, height as nat, target_width as nat, target_height as nat),
{
    0 < width && width <= MAX_DIMENSION && 0 < height && height <= MAX_DIMENSION && 0
        < target_width && target_width <= MAX_DIMENSION && 0 < target_height && target_height
        <= MAX_DIMENSION && is_addressable(width, target_height) && is_addressable(
        target_width,
        target_height,
    )
}

/// Turns the samples of a `width` by `height` grid over its diagonal.
fn transpose(samples: &Vec<u8>, width: u32, height: u32) -> (out: Vec<u8>)
    requires
        width > 0,
        height > 0,
        samples@.len() == width * height,
    ensures
        out@ == transposed(samples@, width as nat, height as nat),
{
    let ghost all = transposed(samples@, width as nat, height as nat);
    let mut out: Vec<u8> = Vec::new();
    let mut x: u32 = 0;
    while x < width
        invariant
            width > 0,
            height > 0,
            samples@.len() == width * height,
            all == transposed(samples@, width as nat, height as nat),
            x <= width,
            0 <= x * height <= width * height,
            out@ == all.take(x * height),
        decreases width - x,
    {
        let mut y: u32 = 0;
        while y < height
            invariant
                width > 0,
                height > 0,
                samples@.len() == width * height,
                all == transposed(samples@, width as nat, height as nat),
                x < width,
                y <= height,
                out@ == all.take(x * height + y),
            decreases height - y,
        {
            proof {
                lemma_cell_index(x as int, y as int, width as int, height as int);
                lemma_cell_index(y as int, x as int, height as int, width as int);
                assert(width * height == height * width) by (nonlinear_arith);
                let i = x * height + y;
                assert(all.take(i + 1) =~= all.take(i).push(all[i]));
                assert(samples.len() == samples@.len());
            }
            out.push(samples[(y as usize) * (width as usize) + (x as usize)]);
            y = y + 1;
        }
        proof {
            assert(x * height + height == (x + 1) * height && (x + 1) * height <= width * height)
                by (nonlinear_arith)
                requires
                    x < width,
                    0 < height,
            ;
        }
        x = x + 1;
    }
    proof {
        assert(x * height == width * height) by (nonlinear_arith)
            requires
                x == width,
        ;
        assert(all.take(width * height) =~= all);
    }
    out
}

/// Scales `grid` to exactly `target_width` by `target_height` samples with the
/// kernel `filter`. The kernel is applied along the rows first and then along
/// the columns of what that gave; where it reaches beyond the border it takes
/// the samples that are there, never those of the other side.
///
/// A grid that already has the target size is returned as it is, whatever the
/// filter. An empty target is refused. So is a resampling that `resizable`
/// rules out: one that the machine cannot hold, or one with a side beyond what
/// the kernels' arithmetic carries.
///
/// What comes back has the target size. Its samples are fixed, as `resized`,
/// where the grid needs no resampling or the kernel is exact.
pub fn resize(grid: &SampleGrid, target_width: u32, target_height: u32, filter: FilterType) -> (r:
    Result<SampleGrid, HashError>)
    ensures
        r is Ok <==> resizable(grid@, target_width as nat, target_height as nat),
        r matches Err(e) ==> e == HashError::InvalidDimension,
        r matches Ok(g) ==> g@.wf() && g@.has_shape(target_width as nat, target_height as nat),
        r matches Ok(g) ==> (resize_is_fixed(
            grid@,
            target_width as nat,
            target_height as nat,
            filter,
        ) ==> g@ == resized(grid@, target_width as nat, target_height as nat, filter)),
        r matches Ok(g) ==> (grid@.has_shape(target_width as nat, target_height as nat) ==> g@
            == grid@),
{
    proof {
        use_type_invariant(grid);
    }
    if target_width == 0 || target_height == 0 {
        return Err(HashError::InvalidDimension);
    }
    let width = grid.width();
    let height = grid.height();
    if width == target_width && height == target_height {
        return Ok(grid.clone());
    }
    if !is_resamplable(height, width, target_height, target_width) {
        return Err(HashError::InvalidDimension);
    }
    proof {
        assert(width * height == height * width) by (nonlinear_arith);
        assert(target_width * target_height == target_height * target_width)
            by (nonlinear_arith);
    }
    let turned = transpose(grid.samples(), width, height);
    let scaled = resample(&turned, height, width, target_height, target_width, filter);
    let out = transpose(&scaled, target_height, target_width);
    match SampleGrid::new(target_width, target_height, out) {
        Ok(g) => Ok(g),
        Err(e) => Err(e),
    }
}

} // verus!
