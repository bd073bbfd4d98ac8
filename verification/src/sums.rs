//! Sums of samples: over a sequence, over part of a row, over a rectangle.

use crate::grid::{GridView, SampleGrid};
use vstd::prelude::*;

verus! {

/// The sum of the samples of `s`.
pub open spec fn sum(s: Seq<u8>) -> nat
    decreases s.len(),
{
    if s.len() == 0 {
        0
    } else {
        sum(s.drop_last()) + s.last() as nat
    }
}

/// The sum of the samples of row `y` in the columns from `x0` up to, not
/// including, `x1`.
pub open spec fn row_sum(g: GridView, y: int, x0: int, x1: int) -> nat
    decreases x1 - x0,
{
    if x1 <= x0 {
        0
    } else {
        row_sum(g, y, x0, x1 - 1) + g.at(x1 - 1, y) as nat
    }
}

/// The sum of the samples in the columns from `x0` up to `x1` of the rows
/// from `y0` up to `y1`, the upper ends not included.
pub open spec fn rect_sum(g: GridView, x0: int, x1: int, y0: int, y1: int) -> nat
    decreases y1 - y0,
{
    if y1 <= y0 {
        0
    } else {
        rect_sum(g, x0, x1, y0, y1 - 1) + row_sum(g, y1 - 1, x0, x1)
    }
}

/// The sum of the first `i + 1` samples is the sum of the first `i` and
/// sample `i`.
pub proof fn lemma_sum_take(s: Seq<u8>, i: int)
    requires
        0 <= i < s.len(),
    ensures
        sum(s.take(i + 1)) == sum(s.take(i)) + s[i] as nat,
{
    assert(s.take(i + 1).drop_last() =~= s.take(i));
}

/// A row sum is at most 255 times the number of its columns.
pub proof fn lemma_row_sum_bound(g: GridView, y: int, x0: int, x1: int)
    requires
        x0 <= x1,
    ensures
        row_sum(g, y, x0, x1) <= 255 * (x1 - x0),
    decreases x1 - x0,
{
    if x0 < x1 {
        lemma_row_sum_bound(g, y, x0, x1 - 1);
    }
}

/// A rectangle's sum is at most 255 times the number of its cells.
pub proof fn lemma_rect_sum_bound(g: GridView, x0: int, x1: int, y0: int, y1: int)
    requires
        x0 <= x1,
        y0 <= y1,
    ensures
        rect_sum(g, x0, x1, y0, y1) <= 255 * ((x1 - x0) * (y1 - y0)),
    decreases y1 - y0,
{
    if y0 < y1 {
        lemma_rect_sum_bound(g, x0, x1, y0, y1 - 1);
        lemma_row_sum_bound(g, y1 - 1, x0, x1);
        assert((x1 - x0) * (y1 - y0) == (x1 - x0) * (y1 - 1 - y0) + (x1 - x0))
            by (nonlinear_arith);
    } else {
        assert((x1 - x0) * (y1 - y0) == 0) by (nonlinear_arith)
            requires
                y1 - y0 == 0,
        ;
    }
}

/// The sum of all the samples of `samples`.
pub(crate) fn sum_of(samples: &Vec<u8>) -> (total: u128)
    ensures
        total == sum(samples@),
{
    let n = samples.len();
    let mut total: u128 = 0;
    let mut i: usize = 0;
    while i < n
        invariant
            n == samples@.len(),
            i <= n,
            total == sum(samples@.take(i as int)),
            total <= 255 * i,
        decreases n - i,
    {
        proof {
            lemma_sum_take(samples@, i as int);
        }
        total = total + samples[i] as u128;
        i = i + 1;
    }
    assert(samples@.take(n as int) =~= samples@);
    total
}

/// The sum of the samples of `grid` in the columns from `x0` up to `x1` of
/// the rows from `y0` up to `y1`.
pub(crate) fn rect_sum_of(grid: &SampleGrid, x0: u32, x1: u32, y0: u32, y1: u32) -> (total: u128)
    requires
        x0 <= x1 <= grid@.width,
        y0 <= y1 <= grid@.height,
    ensures
        total == rect_sum(grid@, x0 as int, x1 as int, y0 as int, y1 as int),
{
    let mut total: u128 = 0;
    let mut y: u32 = y0;
    while y < y1
        invariant
            x0 <= x1 <= grid@.width,
            y0 <= y <= y1 <= grid@.height,
            total == rect_sum(grid@, x0 as int, x1 as int, y0 as int, y as int),
        decreases y1 - y,
    {
        let mut row: u128 = 0;
        let mut x: u32 = x0;
        while x < x1
            invariant
                x0 <= x <= x1 <= grid@.width,
                y < grid@.height,
                row == row_sum(grid@, y as int, x0 as int, x as int),
                row <= 255 * (x - x0),
            decreases x1 - x,
        {
            row = row + grid.cell(x, y) as u128;
            x = x + 1;
        }
        proof {
            lemma_rect_sum_bound(grid@, x0 as int, x1 as int, y0 as int, y as int);
            assert((x1 - x0) * (y - y0) <= 0x1_0000_0000 * 0x1_0000_0000) by (nonlinear_arith)
                requires
                    0 <= x1 - x0 <= 0x1_0000_0000,
                    0 <= y - y0 <= 0x1_0000_0000,
            ;
        }
        total = total + row;
        y = y + 1;
    }
    total
}

} // verus!
