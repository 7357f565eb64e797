//! The trail post-process stage: diffusion blur, exponential decay, and the
//! image surface the presentation stage samples.
//!
//! Every field cell is replaced, exactly once per pass, by the average of
//! its 3-by-3 neighborhood (wrapping at the edges, the same toroidal policy
//! movement uses) scaled by the decay factor `decay_num / decay_den`. The
//! pass reads only the pre-stage snapshot and builds a fresh field and a
//! fresh image, so no invocation can observe another's write — the
//! double-buffering the stage ordering demands.

use vstd::prelude::*;
use vstd::arithmetic::div_mod::{lemma_div_is_ordered, lemma_div_multiples_vanish,
    lemma_div_multiples_vanish_fancy, lemma_div_pos_is_pos, lemma_multiply_divide_lt,
    lemma_mod_bound};
use vstd::arithmetic::mul::lemma_mul_inequality;
use crate::params::Params;
use crate::field::{TrailField, spec_area_sum, max_of, lemma_area_sum_bounds,
    lemma_area_sum_le_max, lemma_area_sum_uniform, lemma_max_nonneg, lemma_max_le,
    lemma_index_bound};

verus! {

/// Alpha channel value of an opaque texel, in milli-units.
pub const ALPHA_OPAQUE: u64 = 1000;

/// One 4-channel texel of the image surface.
#[derive(PartialEq, Eq, Structural, Clone, Copy, Debug)]
pub struct Texel {
    /// Red channel.
    pub r: u64,
    /// Green channel.
    pub g: u64,
    /// Blue channel.
    pub b: u64,
    /// Alpha channel.
    pub a: u64,
}

/// The image surface: one texel per field cell, row-major, written exactly
/// once per frame by the post-process pass and then sampled for display.
pub struct ImageSurface {
    /// Width in texels, equal to the field width.
    pub width: u32,
    /// Height in texels, equal to the field height.
    pub height: u32,
    /// Row-major texels; index `y * width + x`.
    pub texels: Vec<Texel>,
}

impl ImageSurface {
    /// One texel per cell.
    pub open spec fn wf(self) -> bool {
        self.texels@.len() == self.width * self.height
    }
}

/// The 3-by-3 neighborhood average of cell `(x, y)`, wrapping at the edges.
pub open spec fn spec_blurred(f: Seq<u64>, w: int, h: int, x: int, y: int) -> int {
    spec_area_sum(f, w, h, (x + w - 1) % w, (y + h - 1) % h, 3, 3) / 9
}

/// The post-processed intensity of cell `(x, y)`: the blurred value scaled
/// by the decay factor `num / den`.
pub open spec fn spec_post_cell(f: Seq<u64>, w: int, h: int, num: int, den: int, x: int, y: int) -> int {
    (spec_blurred(f, w, h, x, y) * num) / den
}

/// The whole field after one post-process pass.
pub open spec fn spec_post_field(f: Seq<u64>, w: int, h: int, num: int, den: int) -> Seq<u64> {
    Seq::new((w * h) as nat, |i: int| spec_post_cell(f, w, h, num, den, i % w, i / w) as u64)
}

/// Scaling by a factor strictly inside (0, 1) strictly shrinks a positive
/// value and holds zero at zero.
pub proof fn lemma_decay_strict(m: int, num: int, den: int)
    requires
        m >= 0,
        0 < num < den,
    ensures
        0 <= (m * num) / den,
        (m * num) / den <= m,
        m > 0 ==> (m * num) / den < m,
        m == 0 ==> (m * num) / den == 0,
{
    assert(m * num >= 0) by (nonlinear_arith)
        requires m >= 0 && num > 0;
    lemma_div_pos_is_pos(m * num, den);
    if m == 0 {
        assert(m * num == 0);
    } else {
        assert(m * num <= m * den - m) by (nonlinear_arith)
            requires m >= 1 && num <= den - 1;
        assert(m * den - m <= m * den - 1);
        lemma_div_is_ordered(m * num, m * den - 1, den);
        assert(den * (m - 1) + (den - 1) == m * den - 1) by (nonlinear_arith);
        lemma_div_multiples_vanish_fancy(m - 1, den - 1, den);
        assert((m * den - 1) / den == m - 1);
    }
}

/// Every post-processed cell lies between zero and the decayed field
/// maximum.
pub proof fn lemma_post_cell_bounds(f: Seq<u64>, w: int, h: int, num: int, den: int, x: int, y: int)
    requires
        1 <= w,
        1 <= h,
        f.len() == w * h,
        0 < num < den,
    ensures
        0 <= spec_post_cell(f, w, h, num, den, x, y) <= (max_of(f) * num) / den,
{
    let x0 = (x + w - 1) % w;
    let y0 = (y + h - 1) % h;
    let area = spec_area_sum(f, w, h, x0, y0, 3, 3);
    lemma_area_sum_bounds(f, w, h, x0, y0, 3, 3);
    lemma_area_sum_le_max(f, w, h, x0, y0, 3, 3);
    lemma_max_nonneg(f);
    let m = max_of(f);
    let b = spec_blurred(f, w, h, x, y);
    lemma_div_pos_is_pos(area, 9);
    lemma_div_is_ordered(area, 9 * m, 9);
    lemma_div_multiples_vanish(m, 9);
    assert(b <= m);
    assert(b * num >= 0) by (nonlinear_arith)
        requires b >= 0 && num > 0;
    lemma_div_pos_is_pos(b * num, den);
    lemma_mul_inequality(b, m, num);
    lemma_div_is_ordered(b * num, m * num, den);
}

/// Decay monotonicity. Absent deposition, one post-process pass takes every
/// cell to at most the decayed field maximum; the field maximum therefore
/// strictly decreases whenever it is positive and stays at zero once there,
/// so repeated passes drive the whole field toward zero.
pub proof fn lemma_decay_monotone(f: Seq<u64>, w: int, h: int, num: int, den: int)
    requires
        1 <= w,
        1 <= h,
        f.len() == w * h,
        0 < num < den,
    ensures
        forall|i: int| 0 <= i < w * h
            ==> #[trigger] spec_post_field(f, w, h, num, den)[i] <= (max_of(f) * num) / den,
        max_of(spec_post_field(f, w, h, num, den)) <= (max_of(f) * num) / den,
        max_of(f) > 0 ==> max_of(spec_post_field(f, w, h, num, den)) < max_of(f),
        max_of(f) == 0 ==> max_of(spec_post_field(f, w, h, num, den)) == 0,
{
    let g = spec_post_field(f, w, h, num, den);
    let m = max_of(f);
    lemma_max_nonneg(f);
    lemma_decay_strict(m, num, den);
    assert forall|i: int| 0 <= i < w * h implies #[trigger] g[i] <= (m * num) / den by {
        lemma_post_cell_bounds(f, w, h, num, den, i % w, i / w);
    }
    lemma_max_le(g, (m * num) / den);
    lemma_max_nonneg(g);
}

/// On a uniform field the blur is the identity, so there decay is strict in
/// every single cell: each one drops from `v` to `v * num / den`. (On a
/// non-uniform field a cell below its neighbors can gain from diffusion;
/// the field-wide maximum, bounded by [`lemma_decay_monotone`], is what
/// always shrinks.)
pub proof fn lemma_decay_pointwise_uniform(
    f: Seq<u64>, w: int, h: int, num: int, den: int, v: u64,
)
    requires
        1 <= w,
        1 <= h,
        f.len() == w * h,
        0 < num < den,
        forall|i: int| 0 <= i < f.len() ==> f[i] == v,
    ensures
        forall|i: int| 0 <= i < w * h
            ==> #[trigger] spec_post_field(f, w, h, num, den)[i] == ((v * num) / den) as u64,
        v > 0 ==> (((v * num) / den) as u64) < v,
        v == 0 ==> (((v * num) / den) as u64) == 0,
{
    lemma_decay_strict(v as int, num, den);
    assert forall|i: int| 0 <= i < w * h
        implies #[trigger] spec_post_field(f, w, h, num, den)[i] == ((v * num) / den) as u64 by {
        let x = i % w;
        let y = i / w;
        let x0 = (x + w - 1) % w;
        let y0 = (y + h - 1) % h;
        lemma_area_sum_uniform(f, w, h, x0, y0, 3, 3, v);
        assert(spec_area_sum(f, w, h, x0, y0, 3, 3) == 9 * v);
        lemma_div_multiples_vanish(v as int, 9);
        assert(spec_blurred(f, w, h, x, y) == v);
    }
}

/// The post-processed intensity of cell `(x, y)`, computed from the
/// pre-pass snapshot.
fn post_cell(field: &TrailField, p: &Params, x: u32, y: u32) -> (v: u64)
    requires
        p.wf(),
        field.wf(),
        field.width == p.width,
        field.height == p.height,
        x < p.width,
        y < p.height,
    ensures
        v == spec_post_cell(field@, p.width as int, p.height as int,
            p.decay_num as int, p.decay_den as int, x as int, y as int),
{
    let w: u32 = p.width;
    let h: u32 = p.height;
    let x0: u32 = (x + w - 1) % w;
    let y0: u32 = (y + h - 1) % h;
    let sum: u128 = field.block_sum(x0, y0, 3);
    proof {
        lemma_area_sum_bounds(field@, w as int, h as int, x0 as int, y0 as int, 3, 3);
        lemma_div_pos_is_pos(sum as int, 9);
        lemma_div_is_ordered(sum as int, 9 * (u64::MAX as int), 9);
        lemma_div_multiples_vanish(u64::MAX as int, 9);
    }
    let blurred: u128 = sum / 9;
    proof {
        assert(blurred * (p.decay_num as int) <= (u64::MAX as int) * 1000000)
            by (nonlinear_arith)
            requires 0 <= blurred <= u64::MAX && 0 < p.decay_num <= 1000000;
        lemma_mul_inequality(blurred as int, u64::MAX as int, p.decay_num as int);
        assert((u64::MAX as int) * (p.decay_num as int)
            <= (u64::MAX as int) * (p.decay_den as int)) by (nonlinear_arith)
            requires 0 < p.decay_num <= p.decay_den;
        lemma_div_pos_is_pos(blurred as int * p.decay_num as int, p.decay_den as int);
        lemma_div_is_ordered(blurred as int * p.decay_num as int,
            (u64::MAX as int) * (p.decay_den as int), p.decay_den as int);
        lemma_div_multiples_vanish(u64::MAX as int, p.decay_den as int);
        assert((u64::MAX as int) * (p.decay_den as int)
            == (p.decay_den as int) * (u64::MAX as int)) by (nonlinear_arith);
    }
    let scaled: u128 = blurred * (p.decay_num as u128) / (p.decay_den as u128);
    scaled as u64
}

/// The trail post-process stage. Reads the pre-pass field snapshot and
/// returns the decayed, diffused field together with the image surface for
/// this frame: each texel carries the cell's new intensity replicated over
/// the color channels, at full alpha. Every cell is computed from the old
/// snapshot alone and written exactly once.
pub fn post_process_pass(field: &TrailField, p: &Params) -> (r: (TrailField, ImageSurface))
    requires
        p.wf(),
        field.wf(),
        field.width == p.width,
        field.height == p.height,
    ensures
        r.0.wf(),
        r.0.width == p.width,
        r.0.height == p.height,
        r.0@ == spec_post_field(field@, p.width as int, p.height as int,
            p.decay_num as int, p.decay_den as int),
        r.1.wf(),
        r.1.width == p.width,
        r.1.height == p.height,
        forall|i: int| 0 <= i < r.1.texels@.len()
            ==> #[trigger] r.1.texels@[i]
                == (Texel { r: r.0@[i], g: r.0@[i], b: r.0@[i], a: ALPHA_OPAQUE }),
{
    let w: u32 = p.width;
    let h: u32 = p.height;
    let ghost fs: Seq<u64> = field@;
    let ghost target: Seq<u64> = spec_post_field(fs, w as int, h as int,
        p.decay_num as int, p.decay_den as int);
    proof {
        assert(w * h <= 4096 * 4096) by (nonlinear_arith)
            requires 1 <= w <= 4096 && 1 <= h <= 4096;
    }
    let count: u32 = w * h;
    let mut out: TrailField = TrailField::new(w, h);
    let mut texels: Vec<Texel> = Vec::new();
    let mut idx: u32 = 0;
    while idx < count
        invariant
            p.wf(),
            field.wf(),
            field@ == fs,
            field.width == w,
            field.height == h,
            w == p.width,
            h == p.height,
            count == w * h,
            target == spec_post_field(fs, w as int, h as int,
                p.decay_num as int, p.decay_den as int),
            target.len() == count,
            out.wf(),
            out.width == w,
            out.height == h,
            idx <= count,
            forall|j: int| 0 <= j < idx ==> out@[j] == target[j],
            forall|j: int| idx <= j < count ==> out@[j] == 0,
            texels@.len() == idx,
            forall|j: int| 0 <= j < idx
                ==> #[trigger] texels@[j]
                    == (Texel { r: target[j], g: target[j], b: target[j], a: ALPHA_OPAQUE }),
        decreases count - idx,
    {
        let x: u32 = idx % w;
        proof {
            lemma_multiply_divide_lt(idx as int, w as int, h as int);
            lemma_div_pos_is_pos(idx as int, w as int);
            lemma_mod_bound(idx as int, w as int);
        }
        let y: u32 = idx / w;
        let v: u64 = post_cell(field, p, x, y);
        proof {
            lemma_index_bound(x as int, y as int, w as int, h as int);
            vstd::arithmetic::div_mod::lemma_fundamental_div_mod(idx as int, w as int);
            assert(y * w + x == idx);
        }
        out.add_at(x, y, v);
        texels.push(Texel { r: v, g: v, b: v, a: ALPHA_OPAQUE });
        idx = idx + 1;
    }
    proof {
        assert(out@ =~= target);
    }
    let image = ImageSurface { width: w, height: h, texels };
    (out, image)
}

} // verus!
