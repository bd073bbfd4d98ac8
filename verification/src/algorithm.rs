//! The hash algorithms: how a grid of samples becomes a sequence of bits.

use crate::error::HashError;
use crate::grid::{lemma_cell_index, GridView, SampleGrid};
use crate::sums::{lemma_rect_sum_bound, rect_sum, rect_sum_of, sum, sum_of};
use vstd::prelude::*;

verus! {

/// The rule by which bits are drawn from a grid.
#[derive(Clone, Copy, Debug, PartialEq, Eq, Structural)]
pub enum HashAlg {
    /// One bit per sample: whether it reaches the mean of the grid.
    Mean,
    /// One bit per cell: whether the sample to its right is brighter.
    Gradient,
    /// One bit per cell: whether the sample below it is brighter.
    VertGradient,
    /// Two bits per cell: all the bits of `Gradient`, then all those of
    /// `VertGradient`.
    DoubleGradient,
    /// One bit per block of samples: whether the block's mean reaches the
    /// mean of all the blocks' means.
    Blockhash,
}

/// The bits of `Mean`: bit `i` says whether sample `i` is at least the mean
/// of all samples. The comparison is exact: the sample times the number of
/// samples is held against their sum.
pub open spec fn mean_bits(g: GridView) -> Seq<bool> {
    Seq::new(
        g.width * g.height,
        |i: int| g.samples[i] as nat * g.samples.len() >= sum(g.samples),
    )
}

/// One bit per cell of `hw` by `hh` cells, row by row: the bit of cell
/// (`x`, `y`) says whether the sample at (`x + dx`, `y + dy`) is brighter than
/// the one at (`x`, `y`).
pub open spec fn brighter_neighbour_bits(g: GridView, hw: nat, hh: nat, dx: int, dy: int) -> Seq<
    bool,
> {
    Seq::new(
        hw * hh,
        |i: int|
            g.at(i % (hw as int), i / (hw as int)) < g.at(
                i % (hw as int) + dx,
                i / (hw as int) + dy,
            ),
    )
}

/// The bits of `Gradient` for `hw` by `hh` cells, row by row: the bit of
/// cell (`x`, `y`) says whether the sample to its right, at (`x + 1`, `y`),
/// is brighter than the one at (`x`, `y`).
pub open spec fn gradient_bits(g: GridView, hw: nat, hh: nat) -> Seq<bool> {
    brighter_neighbour_bits(g, hw, hh, 1, 0)
}

/// The bits of `VertGradient` for `hw` by `hh` cells, row by row: the bit of
/// cell (`x`, `y`) says whether the sample below it, at (`x`, `y + 1`), is
/// brighter than the one at (`x`, `y`).
pub open spec fn vert_gradient_bits(g: GridView, hw: nat, hh: nat) -> Seq<bool> {
    brighter_neighbour_bits(g, hw, hh, 0, 1)
}

/// The bits of `DoubleGradient`: those of `Gradient`, then those of
/// `VertGradient`, both over the same `hw` by `hh` cells.
pub open spec fn double_gradient_bits(g: GridView, hw: nat, hh: nat) -> Seq<bool> {
    gradient_bits(g, hw, hh) + vert_gradient_bits(g, hw, hh)
}

/// The sum of the samples of block `i`, where the grid is cut into `hw` by
/// `hh` blocks of equal size, numbered row by row.
pub open spec fn block_sum(g: GridView, hw: nat, hh: nat, i: int) -> nat {
    let bw = (g.width / hw) as int;
    let bh = (g.height / hh) as int;
    let bx = i % (hw as int);
    let by = i / (hw as int);
    rect_sum(g, bx * bw, bx * bw + bw, by * bh, by * bh + bh)
}

/// The sum of the block sums of the first `n` blocks.
pub open spec fn blocks_total(g: GridView, hw: nat, hh: nat, n: nat) -> nat
    decreases n,
{
    if n == 0 {
        0
    } else {
        blocks_total(g, hw, hh, (n - 1) as nat) + block_sum(g, hw, hh, n - 1)
    }
}

/// The bits of `Blockhash` for `hw` by `hh` blocks, row by row: the bit of a
/// block says whether its mean is at least the mean of all the blocks' means.
/// The blocks have equal size, so the comparison is made exactly, on sums:
/// the block's sum times the number of blocks against the sum of all block
/// sums.
pub open spec fn blockhash_bits(g: GridView, hw: nat, hh: nat) -> Seq<bool> {
    Seq::new(
        hw * hh,
        |i: int| block_sum(g, hw, hh, i) * (hw * hh) >= blocks_total(g, hw, hh, hw * hh),
    )
}

impl HashAlg {
    /// The number of bits that the algorithm gives for a hash of `hw` by
    /// `hh` cells.
    pub open spec fn bit_count(self, hw: nat, hh: nat) -> nat {
        match self {
            HashAlg::DoubleGradient => 2 * (hw * hh),
            _ => hw * hh,
        }
    }

    /// Whether the grid `g` has the shape from which the algorithm draws a
    /// hash of `hw` by `hh` cells: neither hash dimension is zero, and
    /// the grid has one more column, one more row or both where samples are
    /// compared with their neighbours; for `Blockhash`, both grid
    /// dimensions are multiples of the hash dimensions, so that no block is
    /// empty and all are equal.
    pub open spec fn accepts(self, g: GridView, hw: nat, hh: nat) -> bool {
        &&& hw > 0
        &&& hh > 0
        &&& match self {
            HashAlg::Mean => g.has_shape(hw, hh),
            HashAlg::Gradient => g.has_shape(hw + 1, hh),
            HashAlg::VertGradient => g.has_shape(hw, hh + 1),
            HashAlg::DoubleGradient => g.has_shape(hw + 1, hh + 1),
            HashAlg::Blockhash => g.width % hw == 0 && g.height % hh == 0,
        }
    }

    /// The bits that the algorithm draws from `g` for a hash of `hw` by `hh`
    /// cells.
    pub open spec fn bits(self, g: GridView, hw: nat, hh: nat) -> Seq<bool> {
        match self {
            HashAlg::Mean => mean_bits(g),
            HashAlg::Gradient => gradient_bits(g, hw, hh),
            HashAlg::VertGradient => vert_gradient_bits(g, hw, hh),
            HashAlg::DoubleGradient => double_gradient_bits(g, hw, hh),
            HashAlg::Blockhash => blockhash_bits(g, hw, hh),
        }
    }

    /// The width of the grid from which the algorithm draws a hash `hw`
    /// cells wide, for a source `source_width` samples wide. `Blockhash`
    /// takes the largest multiple of `hw` that the source can fill, or `hw`
    /// itself for a narrower source; the others do not look at the source.
    pub open spec fn grid_width(self, hw: nat, source_width: nat) -> nat {
        match self {
            HashAlg::Mean | HashAlg::VertGradient => hw,
            HashAlg::Gradient | HashAlg::DoubleGradient => hw + 1,
            HashAlg::Blockhash => if source_width < hw {
                hw
            } else {
                (source_width / hw) * hw
            },
        }
    }

    /// The height of the grid from which the algorithm draws a hash `hh`
    /// cells high, for a source `source_height` samples high.
    pub open spec fn grid_height(self, hh: nat, source_height: nat) -> nat {
        match self {
            HashAlg::Mean | HashAlg::Gradient => hh,
            HashAlg::VertGradient | HashAlg::DoubleGradient => hh + 1,
            HashAlg::Blockhash => if source_height < hh {
                hh
            } else {
                (source_height / hh) * hh
            },
        }
    }

    /// A grid of the width and height that `grid_width` and `grid_height`
    /// give is one that the algorithm accepts.
    pub proof fn lemma_grid_shape_accepted(
        self,
        g: GridView,
        hw: nat,
        hh: nat,
        source_width: nat,
        source_height: nat,
    )
        requires
            hw > 0,
            hh > 0,
            g.has_shape(self.grid_width(hw, source_width), self.grid_height(hh, source_height)),
        ensures
            self.accepts(g, hw, hh),
    {
        vstd::arithmetic::div_mod::lemma_mod_multiples_basic(
            (source_width / hw) as int,
            hw as int,
        );
        vstd::arithmetic::div_mod::lemma_mod_multiples_basic(
            (source_height / hh) as int,
            hh as int,
        );
        vstd::arithmetic::div_mod::lemma_mod_self_0(hw as int);
        vstd::arithmetic::div_mod::lemma_mod_self_0(hh as int);
    }

    /// Draws the bits of a hash of `hash_width` by `hash_height` cells from
    /// `grid`. Refuses a zero hash dimension and a grid whose shape is not the
    /// one that the algorithm works on.
    pub fn compute(self, grid: &SampleGrid, hash_width: u32, hash_height: u32) -> (r: Result<
        Vec<bool>,
        HashError,
    >)
        ensures
            r is Ok <==> self.accepts(grid@, hash_width as nat, hash_height as nat),
            r matches Err(e) ==> e == HashError::InvalidConfiguration,
            r matches Ok(bits) ==> bits@ == self.bits(grid@, hash_width as nat, hash_height as nat)
                && bits@.len() == self.bit_count(hash_width as nat, hash_height as nat),
    {
        proof {
            use_type_invariant(grid);
            grid.lemma_bounded();
        }
        if hash_width == 0 || hash_height == 0 {
            return Err(HashError::InvalidConfiguration);
        }
        let width = grid.width() as u64;
        let height = grid.height() as u64;
        let hw = hash_width as u64;
        let hh = hash_height as u64;
        let mut bits: Vec<bool> = Vec::new();
        match self {
            HashAlg::Mean => {
                if width != hw || height != hh {
                    return Err(HashError::InvalidConfiguration);
                }
                bits = mean_bits_of(grid);
            },
            HashAlg::Gradient => {
                if width != hw + 1 || height != hh {
                    return Err(HashError::InvalidConfiguration);
                }
                push_brighter_neighbour_bits(grid, hash_width, hash_height, 1, 0, &mut bits);
            },
            HashAlg::VertGradient => {
                if width != hw || height != hh + 1 {
                    return Err(HashError::InvalidConfiguration);
                }
                push_brighter_neighbour_bits(grid, hash_width, hash_height, 0, 1, &mut bits);
            },
            HashAlg::DoubleGradient => {
                if width != hw + 1 || height != hh + 1 {
                    return Err(HashError::InvalidConfiguration);
                }
                push_brighter_neighbour_bits(grid, hash_width, hash_height, 1, 0, &mut bits);
                push_brighter_neighbour_bits(grid, hash_width, hash_height, 0, 1, &mut bits);
            },
            HashAlg::Blockhash => {
                if width % hw != 0 || height % hh != 0 {
                    return Err(HashError::InvalidConfiguration);
                }
                bits = blockhash_bits_of(grid, hash_width, hash_height);
            },
        }
        proof {
            assert(2 * (hash_width * hash_height) == hash_width * hash_height + hash_width
                * hash_height);
        }
        Ok(bits)
    }

    /// On a grid that the algorithm accepts, it gives `bit_count` bits.
    pub proof fn lemma_bits_len(self, g: GridView, hw: nat, hh: nat)
        requires
            self.accepts(g, hw, hh),
        ensures
            self.bits(g, hw, hh).len() == self.bit_count(hw, hh),
    {
    }
}

/// The bits of `Mean` for `grid`.
fn mean_bits_of(grid: &SampleGrid) -> (bits: Vec<bool>)
    ensures
        bits@ == mean_bits(grid@),
{
    proof {
        use_type_invariant(grid);
    }
    let samples = grid.samples();
    let n = samples.len();
    let total = sum_of(samples);
    let mut bits: Vec<bool> = Vec::new();
    let mut i: usize = 0;
    while i < n
        invariant
            samples@ == grid@.samples,
            n == samples@.len(),
            n == grid@.width * grid@.height,
            total == sum(samples@),
            i <= n,
            bits@ == mean_bits(grid@).take(i as int),
        decreases n - i,
    {
        let sample = samples[i];
        assert(sample * n <= 255 * n) by (nonlinear_arith)
            requires
                sample <= 255,
                0 <= n,
        ;
        bits.push((sample as u128) * (n as u128) >= total);
        i = i + 1;
    }
    bits
}

/// Appends to `bits` one bit per cell of `hw` by `hh` cells of `grid`, row by
/// row: whether the sample `dx` columns to the right and `dy` rows below the
/// cell is brighter than the cell's own.
fn push_brighter_neighbour_bits(
    grid: &SampleGrid,
    hw: u32,
    hh: u32,
    dx: u32,
    dy: u32,
    bits: &mut Vec<bool>,
)
    requires
        hw > 0,
        hw + dx <= grid@.width,
        hh + dy <= grid@.height,
    ensures
        final(bits)@ == old(bits)@ + brighter_neighbour_bits(
            grid@,
            hw as nat,
            hh as nat,
            dx as int,
            dy as int,
        ),
{
    let ghost start = bits@;
    let ghost all = brighter_neighbour_bits(grid@, hw as nat, hh as nat, dx as int, dy as int);
    let mut y: u32 = 0;
    while y < hh
        invariant
            hw > 0,
            hw + dx <= grid@.width,
            hh + dy <= grid@.height,
            y <= hh,
            all == brighter_neighbour_bits(grid@, hw as nat, hh as nat, dx as int, dy as int),
            0 <= y * hw <= hw * hh,
            bits@ == start + all.take(y * hw),
        decreases hh - y,
    {
        let mut x: u32 = 0;
        while x < hw
            invariant
                hw > 0,
                hw + dx <= grid@.width,
                hh + dy <= grid@.height,
                y < hh,
                x <= hw,
                all == brighter_neighbour_bits(
                    grid@,
                    hw as nat,
                    hh as nat,
                    dx as int,
                    dy as int,
                ),
                bits@ == start + all.take(y * hw + x),
            decreases hw - x,
        {
            proof {
                grid.lemma_bounded();
            }
            let here = grid.cell(x, y);
            let there = grid.cell(x + dx, y + dy);
            proof {
                lemma_cell_index(x as int, y as int, hw as int, hh as int);
                let k = y * hw + x;
                assert(all[k] == (here < there));
                assert(all.take(k + 1) =~= all.take(k).push(all[k]));
            }
            bits.push(here < there);
            x = x + 1;
        }
        proof {
            assert(y * hw + hw == (y + 1) * hw && (y + 1) * hw <= hw * hh) by (nonlinear_arith)
                requires
                    y < hh,
                    0 < hw,
            ;
        }
        y = y + 1;
    }
    proof {
        assert(y * hw == hw * hh) by (nonlinear_arith)
            requires
                y == hh,
        ;
        assert(all.take(hw * hh) =~= all);
    }
}

/// Where the grid is cut into `hw` by `hh` equal blocks: the blocks tile the
/// grid, and there are no more blocks than samples.
proof fn lemma_block_size(g: GridView, hw: nat, hh: nat)
    requires
        g.wf(),
        hw > 0,
        hh > 0,
        g.width % hw == 0,
        g.height % hh == 0,
    ensures
        (g.width / hw) * hw == g.width,
        (g.height / hh) * hh == g.height,
        g.width / hw > 0,
        g.height / hh > 0,
        ((g.width / hw) * (g.height / hh)) * (hw * hh) == g.width * g.height,
        hw * hh <= g.width * g.height,
{
    let w = g.width as int;
    let h = g.height as int;
    let bw = w / (hw as int);
    let bh = h / (hh as int);
    vstd::arithmetic::div_mod::lemma_fundamental_div_mod(w, hw as int);
    vstd::arithmetic::div_mod::lemma_fundamental_div_mod(h, hh as int);
    assert(bw * hw == w && bh * hh == h && bw > 0 && bh > 0) by (nonlinear_arith)
        requires
            w == hw * bw,
            h == hh * bh,
            w > 0,
            h > 0,
            hw > 0,
            hh > 0,
    ;
    assert((bw * bh) * (hw * hh) == w * h && hw * hh <= w * h) by (nonlinear_arith)
        requires
            bw * hw == w,
            bh * hh == h,
            bw > 0,
            bh > 0,
            hw > 0,
            hh > 0,
    ;
}

/// Block `i` lies inside the grid, and its sum is at most 255 times its
/// number of samples.
proof fn lemma_block_bounds(g: GridView, hw: nat, hh: nat, bx: int, by: int)
    requires
        g.wf(),
        hw > 0,
        hh > 0,
        g.width % hw == 0,
        g.height % hh == 0,
        0 <= bx < hw,
        0 <= by < hh,
    ensures
        0 <= bx * (g.width / hw) && bx * (g.width / hw) + g.width / hw <= g.width,
        0 <= by * (g.height / hh) && by * (g.height / hh) + g.height / hh <= g.height,
        block_sum(g, hw, hh, by * hw + bx) == rect_sum(
            g,
            bx * (g.width / hw),
            bx * (g.width / hw) + g.width / hw,
            by * (g.height / hh),
            by * (g.height / hh) + g.height / hh,
        ),
        block_sum(g, hw, hh, by * hw + bx) <= 255 * ((g.width / hw) * (g.height / hh)),
{
    let bw = (g.width / hw) as int;
    let bh = (g.height / hh) as int;
    lemma_block_size(g, hw, hh);
    lemma_cell_index(bx, by, hw as int, hh as int);
    assert(0 <= bx * bw && bx * bw + bw <= bw * hw) by (nonlinear_arith)
        requires
            0 <= bx < hw,
            bw > 0,
    ;
    assert(0 <= by * bh && by * bh + bh <= bh * hh) by (nonlinear_arith)
        requires
            0 <= by < hh,
            bh > 0,
    ;
    lemma_rect_sum_bound(g, bx * bw, bx * bw + bw, by * bh, by * bh + bh);
}

/// The bits of `Blockhash` for `grid` cut into `hw` by `hh` blocks.
fn blockhash_bits_of(grid: &SampleGrid, hw: u32, hh: u32) -> (bits: Vec<bool>)
    requires
        hw > 0,
        hh > 0,
        grid@.width % (hw as nat) == 0,
        grid@.height % (hh as nat) == 0,
    ensures
        bits@ == blockhash_bits(grid@, hw as nat, hh as nat),
{
    proof {
        use_type_invariant(grid);
        grid.lemma_bounded();
        lemma_block_size(grid@, hw as nat, hh as nat);
    }
    let bw = grid.width() / hw;
    let bh = grid.height() / hh;
    let ghost g = grid@;
    let ghost cap = 255 * (bw * bh);
    let mut sums: Vec<u128> = Vec::new();
    let mut total: u128 = 0;
    let mut by: u32 = 0;
    while by < hh
        invariant
            g == grid@,
            g.wf(),
            hw > 0,
            hh > 0,
            g.width % (hw as nat) == 0,
            g.height % (hh as nat) == 0,
            bw == g.width / (hw as nat),
            bh == g.height / (hh as nat),
            cap == 255 * (bw * bh),
            (bw * bh) * (hw * hh) == g.width * g.height,
            g.width * g.height <= usize::MAX,
            g.width <= u32::MAX,
            g.height <= u32::MAX,
            forall|i: int| 0 <= i < sums@.len() ==> sums@[i] <= cap,
            by <= hh,
            0 <= by * hw <= hw * hh,
            sums@.len() == by * hw,
            forall|i: int| 0 <= i < sums@.len() ==> sums@[i] == block_sum(g, hw as nat, hh as nat, i),
            total == blocks_total(g, hw as nat, hh as nat, sums@.len()),
            total <= cap * sums@.len(),
        decreases hh - by,
    {
        let mut bx: u32 = 0;
        while bx < hw
            invariant
                g == grid@,
                g.wf(),
                hw > 0,
                hh > 0,
                g.width % (hw as nat) == 0,
                g.height % (hh as nat) == 0,
                bw == g.width / (hw as nat),
                bh == g.height / (hh as nat),
                cap == 255 * (bw * bh),
                (bw * bh) * (hw * hh) == g.width * g.height,
                g.width * g.height <= usize::MAX,
                g.width <= u32::MAX,
                g.height <= u32::MAX,
                forall|i: int| 0 <= i < sums@.len() ==> sums@[i] <= cap,
                by < hh,
                bx <= hw,
                sums@.len() == by * hw + bx,
                forall|i: int|
                    0 <= i < sums@.len() ==> sums@[i] == block_sum(g, hw as nat, hh as nat, i),
                total == blocks_total(g, hw as nat, hh as nat, sums@.len()),
                total <= cap * sums@.len(),
            decreases hw - bx,
        {
            proof {
                lemma_block_bounds(g, hw as nat, hh as nat, bx as int, by as int);
                lemma_cell_index(bx as int, by as int, hw as int, hh as int);
                assert(cap * (by * hw + bx + 1) == cap * (by * hw + bx) + cap
                    && cap * (by * hw + bx + 1) <= cap * (hw * hh)) by (nonlinear_arith)
                    requires
                        0 <= by * hw + bx < hw * hh,
                        0 <= cap,
                ;
                assert(cap * (hw * hh) == 255 * (g.width * g.height)) by (nonlinear_arith)
                    requires
                        cap == 255 * (bw * bh),
                        (bw * bh) * (hw * hh) == g.width * g.height,
                ;
            }
            let x0 = bx * bw;
            let y0 = by * bh;
            let s = rect_sum_of(grid, x0, x0 + bw, y0, y0 + bh);
            sums.push(s);
            total = total + s;
            bx = bx + 1;
        }
        proof {
            assert(by * hw + hw == (by + 1) * hw && (by + 1) * hw <= hw * hh) by (nonlinear_arith)
                requires
                    by < hh,
                    0 < hw,
            ;
        }
        by = by + 1;
    }
    proof {
        assert(by * hw == hw * hh) by (nonlinear_arith)
            requires
                by == hh,
        ;
        assert(cap * (hw * hh) == 255 * (g.width * g.height)) by (nonlinear_arith)
            requires
                cap == 255 * (bw * bh),
                (bw * bh) * (hw * hh) == g.width * g.height,
        ;
    }
    let n = sums.len();
    let mut bits: Vec<bool> = Vec::new();
    let mut i: usize = 0;
    while i < n
        invariant
            n == sums@.len(),
            n == hw * hh,
            i <= n,
            cap * n <= 255 * usize::MAX,
            0 <= cap,
            forall|k: int| 0 <= k < n ==> sums@[k] == block_sum(g, hw as nat, hh as nat, k),
            forall|k: int| 0 <= k < n ==> sums@[k] <= cap,
            total == blocks_total(g, hw as nat, hh as nat, n as nat),
            bits@ == blockhash_bits(g, hw as nat, hh as nat).take(i as int),
        decreases n - i,
    {
        let s = sums[i];
        assert(s * n <= cap * n) by (nonlinear_arith)
            requires
                0 <= s <= cap,
                0 <= n,
        ;
        bits.push(s * (n as u128) >= total);
        i = i + 1;
    }
    bits
}

} // verus!
