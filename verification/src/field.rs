//! The trail field: a dense row-major array of pheromone intensities.
//!
//! One `u64` intensity per cell, addressed by `(x, y)` with
//! `0 <= x < width`, `0 <= y < height` at index `y * width + x`. Agents add
//! to it (deposition) and the post-process pass replaces it wholesale
//! (diffusion and decay). The summed intensity and the peak intensity of
//! the field are the measures the conservation and decay laws speak of.

use vstd::prelude::*;
use crate::params::MAX_DIM;

verus! {

/// Sum of all intensities in a field snapshot.
pub open spec fn total_of(s: Seq<u64>) -> int
    decreases s.len(),
{
    if s.len() == 0 {
        0
    } else {
        total_of(s.drop_last()) + s.last()
    }
}

/// Largest intensity in a field snapshot (zero for an empty one).
pub open spec fn max_of(s: Seq<u64>) -> int
    decreases s.len(),
{
    if s.len() == 0 {
        0
    } else if s.last() >= max_of(s.drop_last()) {
        s.last() as int
    } else {
        max_of(s.drop_last())
    }
}

/// The total intensity is never negative.
pub proof fn lemma_total_nonneg(s: Seq<u64>)
    ensures
        total_of(s) >= 0,
    decreases s.len(),
{
    if s.len() > 0 {
        lemma_total_nonneg(s.drop_last());
    }
}

/// An all-zero field has total intensity zero.
pub proof fn lemma_total_of_zeros(s: Seq<u64>)
    requires
        forall|i: int| 0 <= i < s.len() ==> s[i] == 0,
    ensures
        total_of(s) == 0,
    decreases s.len(),
{
    if s.len() > 0 {
        assert(s.last() == s[s.len() - 1]);
        lemma_total_of_zeros(s.drop_last());
    }
}

/// Every cell's intensity is at most the field's total.
pub proof fn lemma_elem_le_total(s: Seq<u64>, i: int)
    requires
        0 <= i < s.len(),
    ensures
        s[i] <= total_of(s),
    decreases s.len(),
{
    lemma_total_nonneg(s.drop_last());
    if i < s.len() - 1 {
        lemma_elem_le_total(s.drop_last(), i);
    }
}

/// Raising one cell by `v - s[i]` raises the total by the same amount.
pub proof fn lemma_total_update(s: Seq<u64>, i: int, v: u64)
    requires
        0 <= i < s.len(),
    ensures
        total_of(s.update(i, v)) == total_of(s) - s[i] + v,
    decreases s.len(),
{
    let t = s.update(i, v);
    if i == s.len() - 1 {
        assert(t.drop_last() =~= s.drop_last());
    } else {
        assert(t.drop_last() =~= s.drop_last().update(i, v));
        lemma_total_update(s.drop_last(), i, v);
    }
}

/// Every cell's intensity is at most the field's maximum.
pub proof fn lemma_elem_le_max(s: Seq<u64>, i: int)
    requires
        0 <= i < s.len(),
    ensures
        s[i] <= max_of(s),
    decreases s.len(),
{
    if i < s.len() - 1 {
        lemma_elem_le_max(s.drop_last(), i);
    }
}

/// The maximum is never negative.
pub proof fn lemma_max_nonneg(s: Seq<u64>)
    ensures
        max_of(s) >= 0,
    decreases s.len(),
{
    if s.len() > 0 {
        lemma_max_nonneg(s.drop_last());
    }
}

/// A bound that holds of every cell holds of the maximum.
pub proof fn lemma_max_le(s: Seq<u64>, b: int)
    requires
        b >= 0,
        forall|i: int| 0 <= i < s.len() ==> s[i] <= b,
    ensures
        max_of(s) <= b,
    decreases s.len(),
{
    if s.len() > 0 {
        assert(s.last() == s[s.len() - 1]);
        lemma_max_le(s.drop_last(), b);
    }
}

/// A cell index `y * width + x` is in range when the coordinates are, and
/// under the capacity caps the whole field fits comfortably in a `usize`.
pub proof fn lemma_index_bound(x: int, y: int, w: int, h: int)
    requires
        0 <= x < w <= MAX_DIM,
        0 <= y < h <= MAX_DIM,
    ensures
        0 <= y * w + x < w * h,
        w * h <= MAX_DIM * MAX_DIM,
{
    assert(0 <= y * w + x < w * h) by (nonlinear_arith)
        requires 0 <= x < w && 0 <= y < h;
    assert(w * h <= MAX_DIM * MAX_DIM) by (nonlinear_arith)
        requires 0 < w <= MAX_DIM && 0 < h <= MAX_DIM;
}

/// The trail cell holding `(x, y)` in a `w`-cells-wide row-major field.
pub open spec fn cell_at(f: Seq<u64>, w: int, x: int, y: int) -> int {
    f[y * w + x] as int
}

/// Sum of `n` consecutive cells of row `y`, starting at column `x0`,
/// wrapping at the right edge.
pub open spec fn spec_row_sum(f: Seq<u64>, w: int, h: int, x0: int, y: int, n: int) -> int
    decreases n,
{
    if n <= 0 {
        0
    } else {
        spec_row_sum(f, w, h, x0, y, n - 1) + cell_at(f, w, (x0 + n - 1) % w, y)
    }
}

/// Sum of an `ncols` by `nrows` block of cells with top-left corner
/// `(x0, y0)`, wrapping at both edges.
pub open spec fn spec_area_sum(
    f: Seq<u64>, w: int, h: int, x0: int, y0: int, ncols: int, nrows: int,
) -> int
    decreases nrows,
{
    if nrows <= 0 {
        0
    } else {
        spec_area_sum(f, w, h, x0, y0, ncols, nrows - 1)
            + spec_row_sum(f, w, h, x0, (y0 + nrows - 1) % h, ncols)
    }
}

/// A row sum of `n` cells lies between zero and `n` maximal intensities.
pub proof fn lemma_row_sum_bounds(f: Seq<u64>, w: int, h: int, x0: int, y: int, n: int)
    requires
        n >= 0,
    ensures
        0 <= spec_row_sum(f, w, h, x0, y, n) <= n * (u64::MAX as int),
    decreases n,
{
    if n > 0 {
        lemma_row_sum_bounds(f, w, h, x0, y, n - 1);
        assert((n - 1) * (u64::MAX as int) + u64::MAX == n * (u64::MAX as int))
            by (nonlinear_arith);
    }
}

/// An area sum of `ncols * nrows` cells is bounded the same way.
pub proof fn lemma_area_sum_bounds(
    f: Seq<u64>, w: int, h: int, x0: int, y0: int, ncols: int, nrows: int,
)
    requires
        ncols >= 0,
        nrows >= 0,
    ensures
        0 <= spec_area_sum(f, w, h, x0, y0, ncols, nrows) <= (nrows * ncols) * (u64::MAX as int),
    decreases nrows,
{
    if nrows > 0 {
        lemma_area_sum_bounds(f, w, h, x0, y0, ncols, nrows - 1);
        lemma_row_sum_bounds(f, w, h, x0, (y0 + nrows - 1) % h, ncols);
        assert(((nrows - 1) * ncols) * (u64::MAX as int) + ncols * (u64::MAX as int)
            == (nrows * ncols) * (u64::MAX as int)) by (nonlinear_arith);
    }
}

/// On a well-formed field a row sum of `n` cells is at most `n` times the
/// field's maximum.
pub proof fn lemma_row_sum_le_max(f: Seq<u64>, w: int, h: int, x0: int, y: int, n: int)
    requires
        n >= 0,
        1 <= w,
        1 <= h,
        0 <= y < h,
        f.len() == w * h,
    ensures
        spec_row_sum(f, w, h, x0, y, n) <= n * max_of(f),
    decreases n,
{
    if n > 0 {
        lemma_row_sum_le_max(f, w, h, x0, y, n - 1);
        let xk = (x0 + n - 1) % w;
        vstd::arithmetic::div_mod::lemma_mod_bound(x0 + n - 1, w);
        assert(0 <= y * w + xk < w * h) by (nonlinear_arith)
            requires 0 <= xk < w && 0 <= y < h;
        lemma_elem_le_max(f, y * w + xk);
        assert((n - 1) * max_of(f) + max_of(f) == n * max_of(f)) by (nonlinear_arith);
    }
}

/// On a uniform field every cell of a row sum contributes the same value.
pub proof fn lemma_row_sum_uniform(f: Seq<u64>, w: int, h: int, x0: int, y: int, n: int, v: u64)
    requires
        n >= 0,
        1 <= w,
        1 <= h,
        0 <= y < h,
        f.len() == w * h,
        forall|i: int| 0 <= i < f.len() ==> f[i] == v,
    ensures
        spec_row_sum(f, w, h, x0, y, n) == n * v,
    decreases n,
{
    if n > 0 {
        lemma_row_sum_uniform(f, w, h, x0, y, n - 1, v);
        let xk = (x0 + n - 1) % w;
        vstd::arithmetic::div_mod::lemma_mod_bound(x0 + n - 1, w);
        assert(0 <= y * w + xk < w * h) by (nonlinear_arith)
            requires 0 <= xk < w && 0 <= y < h;
        assert((n - 1) * v + v == n * v) by (nonlinear_arith);
    } else {
        assert(n * v == 0) by (nonlinear_arith)
            requires n == 0;
    }
}

/// On a uniform field a block sum is the block size times the value.
pub proof fn lemma_area_sum_uniform(
    f: Seq<u64>, w: int, h: int, x0: int, y0: int, ncols: int, nrows: int, v: u64,
)
    requires
        ncols >= 0,
        nrows >= 0,
        1 <= w,
        1 <= h,
        f.len() == w * h,
        forall|i: int| 0 <= i < f.len() ==> f[i] == v,
    ensures
        spec_area_sum(f, w, h, x0, y0, ncols, nrows) == (nrows * ncols) * v,
    decreases nrows,
{
    if nrows > 0 {
        lemma_area_sum_uniform(f, w, h, x0, y0, ncols, nrows - 1, v);
        vstd::arithmetic::div_mod::lemma_mod_bound(y0 + nrows - 1, h);
        lemma_row_sum_uniform(f, w, h, x0, (y0 + nrows - 1) % h, ncols, v);
        assert(((nrows - 1) * ncols) * v + ncols * v == (nrows * ncols) * v)
            by (nonlinear_arith);
    } else {
        assert((nrows * ncols) * v == 0) by (nonlinear_arith)
            requires nrows == 0;
    }
}

/// The same bound for a block of cells.
pub proof fn lemma_area_sum_le_max(
    f: Seq<u64>, w: int, h: int, x0: int, y0: int, ncols: int, nrows: int,
)
    requires
        ncols >= 0,
        nrows >= 0,
        1 <= w,
        1 <= h,
        f.len() == w * h,
    ensures
        spec_area_sum(f, w, h, x0, y0, ncols, nrows) <= (nrows * ncols) * max_of(f),
    decreases nrows,
{
    if nrows > 0 {
        lemma_area_sum_le_max(f, w, h, x0, y0, ncols, nrows - 1);
        vstd::arithmetic::div_mod::lemma_mod_bound(y0 + nrows - 1, h);
        lemma_row_sum_le_max(f, w, h, x0, (y0 + nrows - 1) % h, ncols);
        assert(((nrows - 1) * ncols) * max_of(f) + ncols * max_of(f)
            == (nrows * ncols) * max_of(f)) by (nonlinear_arith);
    }
}

/// A dense row-major pheromone map.
pub struct TrailField {
    /// Field width in cells.
    pub width: u32,
    /// Field height in cells.
    pub height: u32,
    /// Row-major cell intensities; index `y * width + x`.
    pub cells: Vec<u64>,
}

impl View for TrailField {
    type V = Seq<u64>;

    open spec fn view(&self) -> Seq<u64> {
        self.cells@
    }
}

impl TrailField {
    /// Well-formedness: positive dimensions under the capacity cap, and one
    /// cell per coordinate pair.
    pub open spec fn wf(self) -> bool {
        &&& 1 <= self.width <= MAX_DIM
        &&& 1 <= self.height <= MAX_DIM
        &&& self@.len() == self.width * self.height
    }

    /// Index of the cell holding coordinates `(x, y)`.
    pub open spec fn spec_index_at(self, x: int, y: int) -> int {
        y * self.width + x
    }

    /// A fresh field with every cell at zero intensity.
    pub fn new(width: u32, height: u32) -> (r: TrailField)
        requires
            1 <= width <= MAX_DIM,
            1 <= height <= MAX_DIM,
        ensures
            r.wf(),
            r.width == width,
            r.height == height,
            forall|i: int| 0 <= i < r@.len() ==> r@[i] == 0,
    {
        proof {
            assert(width * height <= MAX_DIM * MAX_DIM) by (nonlinear_arith)
                requires 1 <= width <= MAX_DIM && 1 <= height <= MAX_DIM;
        }
        let n: usize = (width as usize) * (height as usize);
        let mut cells: Vec<u64> = Vec::new();
        let mut i: usize = 0;
        while i < n
            invariant
                i <= n,
                cells@.len() == i,
                forall|j: int| 0 <= j < i ==> cells@[j] == 0,
            decreases n - i,
        {
            cells.push(0);
            i = i + 1;
        }
        TrailField { width, height, cells }
    }

    /// Intensity of the cell at `(x, y)`.
    pub fn get(&self, x: u32, y: u32) -> (v: u64)
        requires
            self.wf(),
            x < self.width,
            y < self.height,
        ensures
            v == self@[self.spec_index_at(x as int, y as int)],
    {
        proof {
            lemma_index_bound(x as int, y as int, self.width as int, self.height as int);
        }
        let idx: usize = (y as usize) * (self.width as usize) + (x as usize);
        self.cells[idx]
    }

    /// Add `amount` to the cell at `(x, y)`.
    pub fn add_at(&mut self, x: u32, y: u32, amount: u64)
        requires
            old(self).wf(),
            x < old(self).width,
            y < old(self).height,
            old(self)@[old(self).spec_index_at(x as int, y as int)] + amount <= u64::MAX,
        ensures
            final(self).wf(),
            final(self).width == old(self).width,
            final(self).height == old(self).height,
            final(self)@ == old(self)@.update(
                old(self).spec_index_at(x as int, y as int),
                (old(self)@[old(self).spec_index_at(x as int, y as int)] + amount) as u64,
            ),
    {
        proof {
            lemma_index_bound(x as int, y as int, self.width as int, self.height as int);
        }
        let idx: usize = (y as usize) * (self.width as usize) + (x as usize);
        let v: u64 = self.cells[idx];
        self.cells.set(idx, v + amount);
    }

    /// Sum of the `n` by `n` block of cells with top-left corner
    /// `(x0, y0)`, wrapping at both edges.
    pub fn block_sum(&self, x0: u32, y0: u32, n: u32) -> (s: u128)
        requires
            self.wf(),
            x0 < self.width,
            y0 < self.height,
            1 <= n <= 8191,
        ensures
            s == spec_area_sum(self@, self.width as int, self.height as int,
                x0 as int, y0 as int, n as int, n as int),
    {
        let w: u32 = self.width;
        let h: u32 = self.height;
        let ghost fs: Seq<u64> = self@;
        let mut sum: u128 = 0;
        let mut j: u32 = 0;
        while j < n
            invariant
                self.wf(),
                self@ == fs,
                self.width == w,
                self.height == h,
                x0 < w,
                y0 < h,
                1 <= n <= 8191,
                j <= n,
                sum == spec_area_sum(fs, w as int, h as int, x0 as int, y0 as int,
                    n as int, j as int),
                0 <= sum <= ((j as int) * (n as int)) * (u64::MAX as int),
            decreases n - j,
        {
            let yj: u32 = (y0 + j) % h;
            let mut i: u32 = 0;
            let mut rowsum: u128 = 0;
            while i < n
                invariant
                    self.wf(),
                    self@ == fs,
                    self.width == w,
                    self.height == h,
                    x0 < w,
                    yj < h,
                    1 <= n <= 8191,
                    i <= n,
                    rowsum == spec_row_sum(fs, w as int, h as int, x0 as int, yj as int, i as int),
                    0 <= rowsum <= (i as int) * (u64::MAX as int),
                decreases n - i,
            {
                let xi: u32 = (x0 + i) % w;
                proof {
                    lemma_index_bound(xi as int, yj as int, w as int, h as int);
                    assert((i as int) * (u64::MAX as int) + u64::MAX
                        == ((i + 1) as int) * (u64::MAX as int)) by (nonlinear_arith);
                    assert(((i + 1) as int) * (u64::MAX as int)
                        <= 8191 * (u64::MAX as int)) by (nonlinear_arith)
                        requires (i + 1) as int <= 8191;
                }
                let idx: usize = (yj as usize) * (w as usize) + (xi as usize);
                rowsum = rowsum + (self.cells[idx] as u128);
                i = i + 1;
            }
            proof {
                assert((j as int) * (n as int) * (u64::MAX as int)
                    + (n as int) * (u64::MAX as int)
                    == ((j + 1) as int) * (n as int) * (u64::MAX as int)) by (nonlinear_arith);
                assert(((j + 1) as int) * (n as int) <= 8191 * 8191) by (nonlinear_arith)
                    requires 0 <= (j + 1) as int <= 8191 && 0 <= n as int <= 8191;
                assert(((j + 1) as int) * (n as int) * (u64::MAX as int)
                    <= (8191 * 8191) * (u64::MAX as int)) by (nonlinear_arith)
                    requires 0 <= ((j + 1) as int) * (n as int) <= 8191 * 8191;
            }
            sum = sum + rowsum;
            j = j + 1;
        }
        sum
    }

    /// Exact total intensity of the field, as a wide integer.
    pub fn total_intensity(&self) -> (t: u128)
        requires
            self.wf(),
        ensures
            t == total_of(self@),
    {
        let n: usize = self.cells.len();
        let mut acc: u128 = 0;
        let mut i: usize = 0;
        proof {
            assert(self@.take(0) =~= Seq::<u64>::empty());
            assert(self.width * self.height <= MAX_DIM * MAX_DIM) by (nonlinear_arith)
                requires 1 <= self.width <= MAX_DIM && 1 <= self.height <= MAX_DIM;
        }
        while i < n
            invariant
                i <= n,
                n == self@.len(),
                self@.len() <= MAX_DIM * MAX_DIM,
                acc == total_of(self@.take(i as int)),
                acc <= (i as int) * (u64::MAX as int),
            decreases n - i,
        {
            proof {
                assert(self@.take(i + 1).drop_last() =~= self@.take(i as int));
                assert(self@.take(i + 1).last() == self@[i as int]);
                assert((i as int) * (u64::MAX as int) + u64::MAX
                    == (i + 1) as int * (u64::MAX as int)) by (nonlinear_arith);
                assert((i + 1) as int * (u64::MAX as int)
                    <= (MAX_DIM * MAX_DIM) as int * (u64::MAX as int)) by (nonlinear_arith)
                    requires i + 1 <= (MAX_DIM * MAX_DIM) as int;
            }
            acc = acc + (self.cells[i] as u128);
            i = i + 1;
        }
        proof {
            assert(self@.take(n as int) =~= self@);
        }
        acc
    }

    /// Largest intensity anywhere in the field.
    pub fn max_intensity(&self) -> (m: u64)
        requires
            self.wf(),
        ensures
            m == max_of(self@),
    {
        let n: usize = self.cells.len();
        let mut best: u64 = 0;
        let mut i: usize = 0;
        proof {
            assert(self@.take(0) =~= Seq::<u64>::empty());
        }
        while i < n
            invariant
                i <= n,
                n == self@.len(),
                best == max_of(self@.take(i as int)),
            decreases n - i,
        {
            proof {
                assert(self@.take(i + 1).drop_last() =~= self@.take(i as int));
                assert(self@.take(i + 1).last() == self@[i as int]);
            }
            let v: u64 = self.cells[i];
            if v > best {
                best = v;
            }
            i = i + 1;
        }
        proof {
            assert(self@.take(n as int) =~= self@);
        }
        best
    }
}

} // verus!
