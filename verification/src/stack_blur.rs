//! The stack blur of an RGB image along its rows, with a ring of the pixels
//! under the window and running sums of what enters and leaves it.
use crate::blur::{lemma_tables, lemma_seg_bounds, lemma_seg_split, lemma_tri_bounds, lemma_tri_step, sample, seg, tri, STACK_BLUR8_MUL, STACK_BLUR8_SHR};
use crate::color_rgba::Rgba8;
use crate::pixfmt_rgb::{grid3_ok, grid3_written, lemma_grid3_step, rgb_set, span3_written, win, AlphaBlendRgb};
use crate::rendering_buffer::{abs_stride, RenderBuf};
use crate::{rgba_u32, Blender, BlurCalcRgb, Color, Order};
use core::marker::PhantomData;
use vstd::prelude::*;

verus! {

/// Channel `k` of `c`: red, green, blue, then alpha.
pub open spec fn channel(c: Rgba8, k: int) -> u8 {
    if k == 0 {
        c.r
    } else if k == 1 {
        c.g
    } else if k == 2 {
        c.b
    } else {
        c.a
    }
}

/// The opaque colour of the pixel bytes `w`, its channels placed by `O`.
pub open spec fn rgb_color<O: Order>(w: Seq<u8>) -> Rgba8 {
    Rgba8 { r: w[O::spec_r() as int], g: w[O::spec_g() as int], b: w[O::spec_b() as int], a: 255 }
}

/// The number of pixels along a line: the width for a row, the height for
/// a column.
pub open spec fn line_len(rb: RenderBuf, vertical: bool) -> int {
    if vertical {
        rb.dims().1 as int
    } else {
        rb.dims().0 as int
    }
}

/// The colour of pixel `x` along line `y`, a row of the image or, when
/// `vertical`, a column: the first and last pixels of the line repeat
/// beyond its ends.
pub open spec fn row_color<O: Order>(rb: RenderBuf, vertical: bool, y: int, x: int) -> Rgba8 {
    let n = line_len(rb, vertical);
    let xc = if x < 0 {
        0
    } else if x >= n {
        n - 1
    } else {
        x
    };
    if vertical {
        rgb_color::<O>(win(rb.bytes(), rb.row_start(xc) + 3 * y))
    } else {
        rgb_color::<O>(win(rb.bytes(), rb.row_start(y) + 3 * xc))
    }
}

/// Channel `k` along line `y`.
pub open spec fn row_channel<O: Order>(rb: RenderBuf, vertical: bool, y: int, k: int) -> Seq<u8> {
    Seq::new(line_len(rb, vertical) as nat, |x: int| channel(row_color::<O>(rb, vertical, y, x), k))
}

/// The stack blur of sample `x` of `line` with radius `r`: the stack sum
/// scaled by the table's multiplier and shift while the radius is below 255
/// (the product wrapping in 32 bits), else divided by the stack's weight
/// `(r + 1)^2`.
pub open spec fn stack_value(line: Seq<u8>, x: int, r: nat) -> u8 {
    if r < 255 && STACK_BLUR8_MUL@[r as int] != 0 {
        (vstd::wrapping::u32_specs::wrapping_mul(tri(line, x, r) as u32, STACK_BLUR8_MUL@[r as int] as u32)
            >> (STACK_BLUR8_SHR@[r as int] as u32)) as u8
    } else {
        (tri(line, x, r) / ((r + 1) * (r + 1)) as int) as u8
    }
}

/// The colour that the stack blur of radius `r` gives pixel `x` along line
/// `y`, a row or, when `vertical`, a column.
pub open spec fn stack_blurred_color<O: Order>(rb: RenderBuf, v: bool, r: nat, x: int, y: int) -> Rgba8 {
    Rgba8 {
        r: stack_value(row_channel::<O>(rb, v, y, 0), x, r),
        g: stack_value(row_channel::<O>(rb, v, y, 1), x, r),
        b: stack_value(row_channel::<O>(rb, v, y, 2), x, r),
        a: stack_value(row_channel::<O>(rb, v, y, 3), x, r),
    }
}

/// `i` times the first sample, plus `i - 1` times it, and so on down to once.
pub open spec fn left_sum(s0: int, i: nat) -> int
    decreases i,
{
    if i == 0 {
        0
    } else {
        left_sum(s0, (i - 1) as nat) + s0 * i
    }
}

/// The samples `1` to `n`, sample `j` weighted by `r + 1 - j`.
pub open spec fn wsum(line: Seq<u8>, r: int, n: nat) -> int
    decreases n,
{
    if n == 0 {
        0
    } else {
        wsum(line, r, (n - 1) as nat) + sample(line, n as int) * (r + 1 - n)
    }
}

/// The sums of the samples from `1` up to `1`, `2`, ..., `m + 1`.
pub open spec fn tsum(line: Seq<u8>, m: nat) -> int
    decreases m,
{
    if m == 0 {
        0
    } else {
        tsum(line, (m - 1) as nat) + seg(line, 1, m + 1int)
    }
}

/// The samples left of the line all repeat the first.
proof fn lemma_seg_left(line: Seq<u8>, a: int)
    requires
        line.len() > 0,
        a <= 1,
    ensures
        seg(line, a, 1) == sample(line, 0) * (1 - a),
    decreases 1 - a,
{
    if a < 1 {
        lemma_seg_left(line, a + 1);
        lemma_seg_split(line, a, a + 1, 1);
        assert(seg(line, a, a) == 0);
        assert(seg(line, a, a + 1) == sample(line, a));
        let s0 = sample(line, 0);
        assert(sample(line, a) == s0);
        assert(s0 * (1 - a) == s0 + s0 * (1 - (a + 1))) by (nonlinear_arith);
    } else {
        assert(seg(line, a, 1) == 0);
        assert(sample(line, 0) * (1 - a) == 0);
    }
}

proof fn lemma_left_sum_mono(s0: int, i: nat, j: nat)
    requires
        0 <= s0,
        i <= j,
    ensures
        0 <= left_sum(s0, i) <= left_sum(s0, j),
    decreases j,
{
    if j > i {
        lemma_left_sum_mono(s0, i, (j - 1) as nat);
        assert(s0 * j >= 0) by (nonlinear_arith)
            requires
                s0 >= 0,
        ;
    } else if i > 0 {
        lemma_left_sum_mono(s0, (i - 1) as nat, (i - 1) as nat);
        assert(s0 * i >= 0) by (nonlinear_arith)
            requires
                s0 >= 0,
        ;
    }
}

proof fn lemma_wsum_mono(line: Seq<u8>, r: int, n: nat, m: nat)
    requires
        line.len() > 0,
        n <= m <= r + 1,
    ensures
        0 <= wsum(line, r, n) <= wsum(line, r, m),
    decreases m,
{
    if m > n {
        lemma_wsum_mono(line, r, n, (m - 1) as nat);
        let s = sample(line, m as int);
        assert(s * (r + 1 - m) >= 0) by (nonlinear_arith)
            requires
                s >= 0,
                r + 1 - m >= 0,
        ;
    } else if n > 0 {
        lemma_wsum_mono(line, r, (n - 1) as nat, (n - 1) as nat);
        let s = sample(line, n as int);
        assert(s * (r + 1 - n) >= 0) by (nonlinear_arith)
            requires
                s >= 0,
                r + 1 - n >= 0,
        ;
    }
}

/// One more unit of weight on each of the samples `1` to `n` adds their sum.
proof fn lemma_wsum_shift(line: Seq<u8>, r: int, n: nat)
    ensures
        wsum(line, r, n) == wsum(line, r - 1, n) + seg(line, 1, n + 1int),
    decreases n,
{
    if n == 0 {
        assert(seg(line, 1, 1) == 0);
    } else {
        lemma_wsum_shift(line, r, (n - 1) as nat);
        let s = sample(line, n as int);
        assert(s * (r + 1 - n) == s * (r - n) + s) by (nonlinear_arith);
    }
}

proof fn lemma_tsum_wsum(line: Seq<u8>, m: nat)
    ensures
        tsum(line, m) == wsum(line, m as int, m),
    decreases m,
{
    if m > 0 {
        lemma_tsum_wsum(line, (m - 1) as nat);
        lemma_wsum_shift(line, m as int, m);
        assert(sample(line, m as int) * (m - 1 + 1 - m) == 0) by (nonlinear_arith);
        assert(wsum(line, m - 1, m) == wsum(line, m - 1, (m - 1) as nat));
    }
}

/// The stack sum at the first sample, as the blur builds it: the left half
/// repeats the first sample, the right half weighs the samples by their
/// distance.
proof fn lemma_tri_first(line: Seq<u8>, m: nat)
    requires
        line.len() > 0,
    ensures
        tri(line, 0, m) == left_sum(sample(line, 0), m + 1) + wsum(line, m as int, m),
    decreases m,
{
    lemma_tri_first_tsum(line, m);
    lemma_tsum_wsum(line, m);
}

proof fn lemma_tri_first_tsum(line: Seq<u8>, m: nat)
    requires
        line.len() > 0,
    ensures
        tri(line, 0, m) == left_sum(sample(line, 0), m + 1) + tsum(line, m),
    decreases m,
{
    if m == 0 {
        assert(seg(line, 0, 0) == 0);
        assert(left_sum(sample(line, 0), 0) == 0);
    } else {
        lemma_tri_first_tsum(line, (m - 1) as nat);
        lemma_seg_split(line, -m, 1, m + 1int);
        lemma_seg_left(line, -m);
    }
}

/// The four channels of `c` as integers.
pub open spec fn col4(c: Rgba8) -> (int, int, int, int) {
    (c.r as int, c.g as int, c.b as int, c.a as int)
}

/// Four sums as integers.
pub open spec fn as4(s: (u32, u32, u32, u32)) -> (int, int, int, int) {
    (s.0 as int, s.1 as int, s.2 as int, s.3 as int)
}

pub open spec fn add4(a: (int, int, int, int), b: (int, int, int, int)) -> (int, int, int, int) {
    (a.0 + b.0, a.1 + b.1, a.2 + b.2, a.3 + b.3)
}

pub open spec fn sub4(a: (int, int, int, int), b: (int, int, int, int)) -> (int, int, int, int) {
    (a.0 - b.0, a.1 - b.1, a.2 - b.2, a.3 - b.3)
}

/// Each of four sums lies between `0` and `bound`.
pub open spec fn within4(a: (int, int, int, int), bound: int) -> bool {
    &&& 0 <= a.0 <= bound
    &&& 0 <= a.1 <= bound
    &&& 0 <= a.2 <= bound
    &&& 0 <= a.3 <= bound
}

/// The sums of the four channels of row `y` from sample `a` up to `b`.
pub open spec fn seg4<O: Order>(rb: RenderBuf, v: bool, y: int, a: int, b: int) -> (int, int, int, int) {
    (
        seg(row_channel::<O>(rb, v, y, 0), a, b),
        seg(row_channel::<O>(rb, v, y, 1), a, b),
        seg(row_channel::<O>(rb, v, y, 2), a, b),
        seg(row_channel::<O>(rb, v, y, 3), a, b),
    )
}

/// The stack sums of the four channels of row `y` at sample `x`.
pub open spec fn tri4<O: Order>(rb: RenderBuf, v: bool, y: int, x: int, m: nat) -> (int, int, int, int) {
    (
        tri(row_channel::<O>(rb, v, y, 0), x, m),
        tri(row_channel::<O>(rb, v, y, 1), x, m),
        tri(row_channel::<O>(rb, v, y, 2), x, m),
        tri(row_channel::<O>(rb, v, y, 3), x, m),
    )
}

/// The first sample of each channel, weighted as the left half of the
/// first stack.
pub open spec fn left4(c: (int, int, int, int), n: nat) -> (int, int, int, int) {
    (left_sum(c.0, n), left_sum(c.1, n), left_sum(c.2, n), left_sum(c.3, n))
}

/// The right half of the first stack of each channel, its first `n`
/// samples.
pub open spec fn wsum4<O: Order>(rb: RenderBuf, v: bool, y: int, r: int, n: nat) -> (int, int, int, int) {
    (
        wsum(row_channel::<O>(rb, v, y, 0), r, n),
        wsum(row_channel::<O>(rb, v, y, 1), r, n),
        wsum(row_channel::<O>(rb, v, y, 2), r, n),
        wsum(row_channel::<O>(rb, v, y, 3), r, n),
    )
}

proof fn lemma_sample_color<O: Order>(rb: RenderBuf, v: bool, y: int, j: int, k: int)
    requires
        line_len(rb, v) >= 1,
    ensures
        sample(row_channel::<O>(rb, v, y, k), j) == channel(row_color::<O>(rb, v, y, j), k) as int,
{
}

proof fn lemma_seg4_push<O: Order>(rb: RenderBuf, v: bool, y: int, a: int, b: int)
    requires
        line_len(rb, v) >= 1,
        a <= b,
    ensures
        seg4::<O>(rb, v, y, a, b + 1) == add4(seg4::<O>(rb, v, y, a, b), col4(row_color::<O>(rb, v, y, b))),
{
    lemma_sample_color::<O>(rb, v, y, b, 0);
    lemma_sample_color::<O>(rb, v, y, b, 1);
    lemma_sample_color::<O>(rb, v, y, b, 2);
    lemma_sample_color::<O>(rb, v, y, b, 3);
}

proof fn lemma_seg_pop_channel<O: Order>(rb: RenderBuf, v: bool, y: int, a: int, b: int, k: int)
    requires
        line_len(rb, v) >= 1,
        a < b,
    ensures
        seg(row_channel::<O>(rb, v, y, k), a, b) == channel(row_color::<O>(rb, v, y, a), k) + seg(
            row_channel::<O>(rb, v, y, k),
            a + 1,
            b,
        ),
{
    let line = row_channel::<O>(rb, v, y, k);
    lemma_seg_split(line, a, a + 1, b);
    assert(seg(line, a, a) == 0);
    lemma_sample_color::<O>(rb, v, y, a, k);
}

proof fn lemma_seg4_pop<O: Order>(rb: RenderBuf, v: bool, y: int, a: int, b: int)
    requires
        line_len(rb, v) >= 1,
        a < b,
    ensures
        seg4::<O>(rb, v, y, a, b) == add4(col4(row_color::<O>(rb, v, y, a)), seg4::<O>(rb, v, y, a + 1, b)),
{
    lemma_seg_pop_channel::<O>(rb, v, y, a, b, 0);
    lemma_seg_pop_channel::<O>(rb, v, y, a, b, 1);
    lemma_seg_pop_channel::<O>(rb, v, y, a, b, 2);
    lemma_seg_pop_channel::<O>(rb, v, y, a, b, 3);
}

/// What one step of the window along a line needs: the stack sum moves on by
/// dropping the left half of the widest window and adding the samples up to
/// `m + 1` ahead, and every partial sum stays within the stack's weight.
proof fn lemma_slide_channel(line: Seq<u8>, x: int, m: nat)
    requires
        line.len() > 0,
    ensures
        tri(line, x + 1, m) == tri(line, x, m) - seg(line, x - m, x + 1) + seg(line, x + 1, x + m + 2),
        0 <= seg(line, x - m, x + 1) <= tri(line, x, m) <= 255 * (m + 1) * (m + 1),
        0 <= tri(line, x + 1, m) <= 255 * (m + 1) * (m + 1),
        seg(line, x - m, x + 1) <= 255 * (m + 1),
        0 <= seg(line, x + 1, x + m + 2) <= 255 * (m + 1),
        0 <= seg(line, x - m + 1, x + 2) <= 255 * (m + 1),
        0 <= seg(line, x + 1, x + m + 1),
        0 <= seg(line, x - m + 1, x + 1),
        0 <= seg(line, x + 2, x + m + 2),
{
    lemma_tri_step(line, x, m);
    lemma_tri_bounds(line, x, m);
    lemma_tri_bounds(line, x + 1, m);
    lemma_seg_split(line, x - m, x + 1, x + m + 1);
    lemma_seg_bounds(line, x + 1, x + m + 1);
    lemma_seg_bounds(line, x - m, x + 1);
    lemma_seg_bounds(line, x + 1, x + m + 2);
    lemma_seg_bounds(line, x - m + 1, x + 2);
    lemma_seg_bounds(line, x - m + 1, x + 1);
    lemma_seg_bounds(line, x + 2, x + m + 2);
}

proof fn lemma_slide4<O: Order>(rb: RenderBuf, v: bool, y: int, x: int, m: nat)
    requires
        line_len(rb, v) >= 1,
    ensures
        tri4::<O>(rb, v, y, x + 1, m) == add4(
            sub4(tri4::<O>(rb, v, y, x, m), seg4::<O>(rb, v, y, x - m, x + 1)),
            seg4::<O>(rb, v, y, x + 1, x + m + 2),
        ),
        within4(tri4::<O>(rb, v, y, x, m), 255 * (m + 1) * (m + 1) as int),
        within4(tri4::<O>(rb, v, y, x + 1, m), 255 * (m + 1) * (m + 1) as int),
        within4(sub4(tri4::<O>(rb, v, y, x, m), seg4::<O>(rb, v, y, x - m, x + 1)), 255 * (m + 1) * (m + 1) as int),
        within4(seg4::<O>(rb, v, y, x - m, x + 1), 255 * (m + 1) as int),
        within4(seg4::<O>(rb, v, y, x + 1, x + m + 2), 255 * (m + 1) as int),
        within4(seg4::<O>(rb, v, y, x - m + 1, x + 2), 255 * (m + 1) as int),
        within4(seg4::<O>(rb, v, y, x + 1, x + m + 1), 255 * (m + 1) as int),
        within4(seg4::<O>(rb, v, y, x - m + 1, x + 1), 255 * (m + 1) as int),
        within4(seg4::<O>(rb, v, y, x + 2, x + m + 2), 255 * (m + 1) as int),
{
    lemma_slide_channel(row_channel::<O>(rb, v, y, 0), x, m);
    lemma_slide_channel(row_channel::<O>(rb, v, y, 1), x, m);
    lemma_slide_channel(row_channel::<O>(rb, v, y, 2), x, m);
    lemma_slide_channel(row_channel::<O>(rb, v, y, 3), x, m);
    lemma_seg4_pop::<O>(rb, v, y, x - m, x + 1);
    lemma_seg4_pop::<O>(rb, v, y, x + 1, x + m + 2);
}

/// The first stack of a line as the blur builds it, and the bounds of its
/// partial sums.
proof fn lemma_first_channel(line: Seq<u8>, m: nat, n: nat)
    requires
        line.len() > 0,
        n <= m,
    ensures
        tri(line, 0, m) == left_sum(sample(line, 0), m + 1) + wsum(line, m as int, m),
        0 <= left_sum(sample(line, 0), n + 1) <= 255 * (m + 1) * (m + 1),
        0 <= left_sum(sample(line, 0), m + 1) + wsum(line, m as int, n) <= 255 * (m + 1) * (m + 1),
        0 <= seg(line, -n, 1) <= 255 * (m + 1),
        0 <= seg(line, 1, n + 1int) <= 255 * (m + 1),
{
    let s0 = sample(line, 0);
    lemma_tri_first(line, m);
    lemma_tri_bounds(line, 0, m);
    lemma_left_sum_mono(s0, n + 1, m + 1);
    lemma_wsum_mono(line, m as int, n, m);
    lemma_wsum_mono(line, m as int, m, m);
    lemma_seg_bounds(line, -n, 1);
    lemma_seg_bounds(line, 1, n + 1int);
}

proof fn lemma_first4<O: Order>(rb: RenderBuf, v: bool, y: int, m: nat, n: nat)
    requires
        line_len(rb, v) >= 1,
        n <= m,
    ensures
        tri4::<O>(rb, v, y, 0, m) == add4(left4(col4(row_color::<O>(rb, v, y, 0)), m + 1), wsum4::<O>(rb, v, y, m as int, m)),
        within4(left4(col4(row_color::<O>(rb, v, y, 0)), n + 1), 255 * (m + 1) * (m + 1) as int),
        within4(
            add4(left4(col4(row_color::<O>(rb, v, y, 0)), m + 1), wsum4::<O>(rb, v, y, m as int, n)),
            255 * (m + 1) * (m + 1) as int,
        ),
        within4(seg4::<O>(rb, v, y, -n, 1), 255 * (m + 1) as int),
        within4(seg4::<O>(rb, v, y, 1, n + 1int), 255 * (m + 1) as int),
{
    lemma_first_channel(row_channel::<O>(rb, v, y, 0), m, n);
    lemma_first_channel(row_channel::<O>(rb, v, y, 1), m, n);
    lemma_first_channel(row_channel::<O>(rb, v, y, 2), m, n);
    lemma_first_channel(row_channel::<O>(rb, v, y, 3), m, n);
    lemma_sample_color::<O>(rb, v, y, 0, 0);
    lemma_sample_color::<O>(rb, v, y, 0, 1);
    lemma_sample_color::<O>(rb, v, y, 0, 2);
    lemma_sample_color::<O>(rb, v, y, 0, 3);
}

/// The rows of a grid not written yet keep their pixels.
proof fn lemma_row_untouched(
    old: Seq<u8>,
    new: Seq<u8>,
    y: int,
    rows: int,
    w: int,
    base: spec_fn(int, int) -> int,
    g: spec_fn(int, int, Seq<u8>) -> Seq<u8>,
    xx: int,
)
    requires
        grid3_written(old, new, y, w, base, g),
        grid3_ok(base, rows, w, old.len() as int),
        0 <= y < rows,
        0 <= xx < w,
    ensures
        win(new, base(y, xx)) == win(old, base(y, xx)),
{
    let b = base(y, xx);
    assert forall|j: int| b <= j < b + 3 implies new[j] == old[j] by {
        assert forall|r: int, k: int| 0 <= r < y && 0 <= k < w implies !(#[trigger] base(r, k) <= j < base(r, k) + 3) by {
            assert(base(y, xx) + 3 <= base(r, k) || base(r, k) + 3 <= base(y, xx));
        }
    }
    assert(win(new, b) =~= win(old, b));
}

/// A span written is the same span written when its positions and the
/// change made at each agree.
proof fn lemma_span3_congruent(
    old: Seq<u8>,
    new: Seq<u8>,
    len: int,
    b1: spec_fn(int) -> int,
    f1: spec_fn(int, Seq<u8>) -> Seq<u8>,
    b2: spec_fn(int) -> int,
    f2: spec_fn(int, Seq<u8>) -> Seq<u8>,
)
    requires
        span3_written(old, new, len, b1, f1),
        forall|k: int| 0 <= k < len ==> #[trigger] b1(k) == b2(k),
        forall|k: int| 0 <= k < len ==> #[trigger] f1(k, win(old, b1(k))) == f2(k, win(old, b2(k))),
    ensures
        span3_written(old, new, len, b2, f2),
{
    assert forall|k: int| 0 <= k < len implies #[trigger] win(new, b2(k)) == f2(k, win(old, b2(k))) by {
        assert(b1(k) == b2(k));
        assert(win(new, b1(k)) == f1(k, win(old, b1(k))));
    }
    assert forall|j: int|
        0 <= j < old.len() && (forall|k: int| 0 <= k < len ==> !(#[trigger] b2(k) <= j < b2(k) + 3)) implies new[j]
        == old[j] by {
        assert forall|k: int| 0 <= k < len implies !(#[trigger] b1(k) <= j < b1(k) + 3) by {
            assert(b1(k) == b2(k));
            assert(!(b2(k) <= j < b2(k) + 3));
        }
    }
}

/// The change the stack blur of radius `r` makes to the pixel bytes `p` of
/// pixel `x` of row `y`: its colour channels become the blurred ones.
pub open spec fn blurred_pixels<O: Order>(rb: RenderBuf, r: nat) -> spec_fn(int, int, Seq<u8>) -> Seq<u8> {
    |y: int, x: int, p: Seq<u8>| rgb_set::<O>(p, stack_blurred_color::<O>(rb, false, r, x, y))
}

/// The change the stack blur of radius `r` makes to the pixel bytes `p` of
/// pixel `k` of column `c`.
pub open spec fn blurred_col_pixels<O: Order>(rb: RenderBuf, r: nat) -> spec_fn(int, int, Seq<u8>) -> Seq<u8> {
    |c: int, k: int, p: Seq<u8>| rgb_set::<O>(p, stack_blurred_color::<O>(rb, true, r, k, c))
}

proof fn lemma_wsum4_step<O: Order>(rb: RenderBuf, v: bool, y: int, r: int, i: nat)
    requires
        line_len(rb, v) >= 1,
        i >= 1,
    ensures
        ({
            let c = col4(row_color::<O>(rb, v, y, i as int));
            let p = wsum4::<O>(rb, v, y, r, (i - 1) as nat);
            wsum4::<O>(rb, v, y, r, i) == (
                p.0 + c.0 * (r + 1 - i),
                p.1 + c.1 * (r + 1 - i),
                p.2 + c.2 * (r + 1 - i),
                p.3 + c.3 * (r + 1 - i),
            )
        }),
{
    lemma_sample_color::<O>(rb, v, y, i as int, 0);
    lemma_sample_color::<O>(rb, v, y, i as int, 1);
    lemma_sample_color::<O>(rb, v, y, i as int, 2);
    lemma_sample_color::<O>(rb, v, y, i as int, 3);
}

/// The stack blur of colour images along their rows: room for one row of
/// results and for the ring of pixels under the window, and the kind of
/// sums `T` it keeps.
pub struct StackBlur<C, T> {
    buf: Vec<C>,
    stack: Vec<C>,
    dum: PhantomData<T>,
}

impl<C, T> StackBlur<C, T> {
    /// The row of results and the ring, as last used.
    pub closed spec fn scratch(&self) -> (Seq<C>, Seq<C>) {
        (self.buf@, self.stack@)
    }

    pub fn new() -> (r: Self)
        ensures
            r.scratch() == (Seq::<C>::empty(), Seq::<C>::empty()),
    {
        StackBlur { buf: Vec::new(), stack: Vec::new(), dum: PhantomData }
    }
}

impl<T: BlurCalcRgb> StackBlur<Rgba8, T> {
    /// Blurs every row of `img` in place with the stack blur of radius
    /// `radius`: each pixel's colour channels become the weighted average of
    /// the pixels within the radius, the nearer counting more, the row's end
    /// pixels repeating beyond its ends. A radius of 0 changes nothing.
    #[verifier::rlimit(100)]
    pub fn blur_x<'a, O: Order, Blend: Blender<Rgba8, O>>(
        &mut self,
        img: &mut AlphaBlendRgb<'a, Rgba8, O, Blend>,
        radius: u32,
    )
        requires
            old(img).rows_ok(),
            radius >= 1 ==> old(img).buf().dims().0 >= 1,
            radius >= 1 ==> old(img).buf().dims().1 <= i32::MAX + 1,
            255 * (radius + 1) * (radius + 1) <= u32::MAX,
        ensures
            final(img).buf().dims() == old(img).buf().dims(),
            radius < 1 ==> final(img).bytes() == old(img).bytes(),
            radius >= 1 ==> grid3_written(
                old(img).bytes(),
                final(img).bytes(),
                old(img).buf().dims().1 as int,
                old(img).buf().dims().0 as int,
                old(img).grid_base(),
                blurred_pixels::<O>(old(img).buf(), radius as nat),
            ),
    {
        if radius < 1 {
            return;
        }
        let ghost rb0 = img.buf();
        let ghost b0 = img.bytes();
        let ghost rn = radius as nat;
        let ghost base = img.grid_base();
        let ghost g = blurred_pixels::<O>(rb0, rn);
        let w = img.width();
        let h = img.height();
        let wm = w - 1;
        proof {
            assert(radius * 2 + 1 <= (radius + 1) * (radius + 1) <= 255 * (radius + 1) * (radius + 1)
                && 255 * (radius + 1) <= 255 * (radius + 1) * (radius + 1)) by (nonlinear_arith)
                requires
                    radius >= 1,
            ;
        }
        let div = radius * 2 + 1;
        let mut sum = T::new();
        let mut sum_in = T::new();
        let mut sum_out = T::new();
        let div_sum = (radius + 1) * (radius + 1);
        let mut mul_sum: u32 = 0;
        let mut shr_sum: u32 = 0;
        let max_val = Rgba8::base_mask();
        proof {
            lemma_tables();
        }
        if max_val <= 255 && radius < 255 {
            mul_sum = STACK_BLUR8_MUL[radius as usize] as u32;
            shr_sum = STACK_BLUR8_SHR[radius as usize] as u32;
        }
        self.buf.resize(w as usize, Rgba8::new());
        self.stack.resize(div as usize, Rgba8::new());
        proof {
            img.lemma_grid_base();
        }
        let mut y: u32 = 0;
        while y < h
            invariant
                y <= h,
                h == rb0.dims().1,
                w == rb0.dims().0,
                w >= 1,
                wm == w - 1,
                h <= i32::MAX + 1,
                radius >= 1,
                rn == radius,
                div == 2 * radius + 1,
                div_sum == (radius + 1) * (radius + 1),
                div_sum >= 1,
                255 * (radius + 1) * (radius + 1) <= u32::MAX,
                255 * (radius + 1) <= u32::MAX,
                mul_sum == (if radius < 255 { STACK_BLUR8_MUL@[radius as int] as u32 } else { 0u32 }),
                radius < 255 ==> shr_sum == STACK_BLUR8_SHR@[radius as int] as u32,
                shr_sum < 32,
                rb0 == old(img).buf(),
                b0 == rb0.bytes(),
                base == old(img).grid_base(),
                g == blurred_pixels::<O>(rb0, rn),
                old(img).rows_ok(),
                img.rows_ok(),
                img.buf().dims() == rb0.dims(),
                grid3_written(b0, img.bytes(), y as int, w as int, base, g),
                grid3_ok(base, h as int, w as int, b0.len() as int),
                self.buf@.len() == w,
                self.stack@.len() == div,
            decreases h - y,
        {
            let ghost mid = img.bytes();
            let ghost yy = y as int;
            proof {
                assert forall|xx: int| 0 <= xx < w implies rgb_color::<O>(#[trigger] win(mid, img.pix_at(xx, yy)))
                    == row_color::<O>(rb0, false, yy, xx) by {
                    lemma_row_untouched(b0, mid, yy, h as int, w as int, base, g, xx);
                    assert(img.pix_at(xx, yy) == base(yy, xx));
                }
            }
            sum.clear();
            sum_in.clear();
            sum_out.clear();
            let mut pix = img.pixel(0, y as i32);
            proof {
                assert(rgb_color::<O>(win(mid, img.pix_at(0, yy))) == row_color::<O>(rb0, false, yy, 0));
            }
            let ghost c0 = pix;
            let mut i: u32 = 0;
            while i <= radius
                invariant
                    i <= radius + 1,
                    radius >= 1,
                    rn == radius,
                    yy == y,
                    w == rb0.dims().0,
                    w >= 1,
                    255 * (radius + 1) * (radius + 1) <= u32::MAX,
                    255 * (radius + 1) <= u32::MAX,
                    div == 2 * radius + 1,
                    pix == c0,
                    c0 == row_color::<O>(rb0, false, yy, 0),
                    as4(sum.sums()) == left4(col4(c0), i as nat),
                    as4(sum_out.sums()) == seg4::<O>(rb0, false, yy, 1 - i, 1),
                    as4(sum_in.sums()) == (0int, 0int, 0int, 0int),
                    self.stack@.len() == div,
                    self.buf@.len() == w,
                    forall|j: int| 0 <= j < i ==> #[trigger] self.stack@[j] == row_color::<O>(rb0, false, yy, j - radius),
                decreases radius + 1 - i,
            {
                self.stack.set(i as usize, pix);
                proof {
                    lemma_first4::<O>(rb0, false, yy, rn, i as nat);
                    lemma_seg4_pop::<O>(rb0, false, yy, -(i as int), 1);
                    assert(row_color::<O>(rb0, false, yy, -(i as int)) == c0);
                    assert(seg4::<O>(rb0, false, yy, 1 - i, 1) == seg4::<O>(rb0, false, yy, -(i as int) + 1, 1));
                    assert(within4(add4(as4(sum_out.sums()), col4(pix)), 255 * (radius + 1)));
                }
                sum.add_k(&pix, i + 1);
                sum_out.add(&pix);
                i += 1;
            }
            let mut i: u32 = 1;
            while i <= radius
                invariant
                    1 <= i <= radius + 1,
                    radius >= 1,
                    rn == radius,
                    yy == y,
                    w == rb0.dims().0,
                    w >= 1,
                    wm == w - 1,
                    y < h,
                    h == rb0.dims().1,
                    h <= i32::MAX + 1,
                    img.rows_ok(),
                    img.buf().dims() == rb0.dims(),
                    img.bytes() == mid,
                    forall|xx: int| 0 <= xx < w ==> rgb_color::<O>(#[trigger] win(mid, img.pix_at(xx, yy))) == row_color::<O>(rb0, false, yy, xx),
                    255 * (radius + 1) * (radius + 1) <= u32::MAX,
                    255 * (radius + 1) <= u32::MAX,
                    div == 2 * radius + 1,
                    c0 == row_color::<O>(rb0, false, yy, 0),
                    as4(sum.sums()) == add4(left4(col4(c0), rn + 1), wsum4::<O>(rb0, false, yy, radius as int, (i - 1) as nat)),
                    as4(sum_out.sums()) == seg4::<O>(rb0, false, yy, -radius, 1),
                    as4(sum_in.sums()) == seg4::<O>(rb0, false, yy, 1, i as int),
                    self.stack@.len() == div,
                    self.buf@.len() == w,
                    forall|j: int| 0 <= j < radius + i ==> #[trigger] self.stack@[j] == row_color::<O>(rb0, false, yy, j - radius),
                decreases radius + 1 - i,
            {
                let xp = if i > wm {
                    wm
                } else {
                    i
                };
                proof {
                    assert(3 * w <= abs_stride(rb0.dims().2));
                    assert(xp <= i32::MAX);
                    assert((xp as i32) as int == xp as int);
                    assert((y as i32) as int == y as int);
                }
                pix = img.pixel(xp as i32, y as i32);
                proof {
                    assert(pix == rgb_color::<O>(img.pixel_bytes(xp as int, yy)));
                    assert(rgb_color::<O>(win(mid, img.pix_at(xp as int, yy))) == row_color::<O>(rb0, false, yy, xp as int));
                    assert(row_color::<O>(rb0, false, yy, xp as int) == row_color::<O>(rb0, false, yy, i as int));
                    assert(pix == row_color::<O>(rb0, false, yy, i as int));
                }
                self.stack.set((i + radius) as usize, pix);
                proof {
                    lemma_first4::<O>(rb0, false, yy, rn, i as nat);
                    lemma_seg4_push::<O>(rb0, false, yy, 1, i as int);
                    lemma_wsum4_step::<O>(rb0, false, yy, radius as int, i as nat);
                }
                sum.add_k(&pix, radius + 1 - i);
                sum_in.add(&pix);
                i += 1;
            }
            proof {
                lemma_first4::<O>(rb0, false, yy, rn, rn);
            }
            let mut stack_ptr: u32 = radius;
            let ghost mut s: int = 0;
            let mut x: u32 = 0;
            while x < w
                invariant
                    x <= w,
                    radius >= 1,
                    rn == radius,
                    yy == y,
                    w == rb0.dims().0,
                    w >= 1,
                    wm == w - 1,
                    y < h,
                    h == rb0.dims().1,
                    h <= i32::MAX + 1,
                    img.rows_ok(),
                    img.buf().dims() == rb0.dims(),
                    img.bytes() == mid,
                    forall|xx: int| 0 <= xx < w ==> rgb_color::<O>(#[trigger] win(mid, img.pix_at(xx, yy))) == row_color::<O>(rb0, false, yy, xx),
                    255 * (radius + 1) * (radius + 1) <= u32::MAX,
                    255 * (radius + 1) <= u32::MAX,
                    div == 2 * radius + 1,
                    div_sum == (radius + 1) * (radius + 1),
                    div_sum >= 1,
                    mul_sum == (if radius < 255 { STACK_BLUR8_MUL@[radius as int] as u32 } else { 0u32 }),
                    radius < 255 ==> shr_sum == STACK_BLUR8_SHR@[radius as int] as u32,
                    shr_sum < 32,
                    0 <= s < div,
                    stack_ptr == (if s + radius < div { s + radius } else { s + radius - div }),
                    self.stack@.len() == div,
                    forall|i: int| 0 <= i < div ==> #[trigger] self.stack@[i] == row_color::<O>(
                        rb0,
                        false,
                        yy,
                        x - radius + (if i >= s { i - s } else { i + div - s }),
                    ),
                    as4(sum.sums()) == tri4::<O>(rb0, false, yy, x as int, rn),
                    as4(sum_out.sums()) == seg4::<O>(rb0, false, yy, x - radius, x + 1),
                    as4(sum_in.sums()) == seg4::<O>(rb0, false, yy, x + 1, x + radius + 1),
                    self.buf@.len() == w,
                    forall|j: int| 0 <= j < x ==> #[trigger] self.buf@[j] == stack_blurred_color::<O>(rb0, false, rn, j, yy),
                decreases w - x,
            {
                proof {
                    lemma_slide4::<O>(rb0, false, yy, x as int, rn);
                    sum.lemma_channels_are_sums();
                    sum_in.lemma_channels_are_sums();
                    sum_out.lemma_channels_are_sums();
                }
                if mul_sum != 0 {
                    sum.calc_pix_mul(&mut self.buf[x as usize], mul_sum, shr_sum);
                } else {
                    sum.calc_pix(&mut self.buf[x as usize], div_sum);
                }
                sum.sub(&sum_out);
                let stack_start = stack_ptr + div - radius;
                let stack_start = if stack_start >= div {
                    stack_start - div
                } else {
                    stack_start
                };
                let old_pix = self.stack[stack_start as usize];
                proof {
                    lemma_seg4_pop::<O>(rb0, false, yy, x - radius, x + 1);
                }
                sum_out.sub(&old_pix);
                let xp = x + radius + 1;
                let xp = if xp > wm {
                    wm
                } else {
                    xp
                };
                proof {
                    assert(3 * w <= abs_stride(rb0.dims().2));
                    assert(xp <= i32::MAX);
                    assert((xp as i32) as int == xp as int);
                    assert((y as i32) as int == y as int);
                }
                pix = img.pixel(xp as i32, y as i32);
                proof {
                    assert(pix == rgb_color::<O>(img.pixel_bytes(xp as int, yy)));
                    assert(rgb_color::<O>(win(mid, img.pix_at(xp as int, yy))) == row_color::<O>(rb0, false, yy, xp as int));
                    assert(row_color::<O>(rb0, false, yy, xp as int) == row_color::<O>(rb0, false, yy, x + radius + 1));
                    lemma_seg4_push::<O>(rb0, false, yy, x + 1, x + radius + 1);
                }
                self.stack.set(stack_start as usize, pix);
                sum_in.add(&pix);
                proof {
                    sum_in.lemma_channels_are_sums();
                }
                sum.add(&sum_in);
                stack_ptr += 1;
                if stack_ptr >= div {
                    stack_ptr = 0;
                }
                let next_pix = self.stack[stack_ptr as usize];
                proof {
                    lemma_seg4_push::<O>(rb0, false, yy, x - radius + 1, x + 1);
                    lemma_seg4_pop::<O>(rb0, false, yy, x + 1, x + radius + 2);
                }
                sum_out.add(&next_pix);
                sum_in.sub(&next_pix);
                proof {
                    s = if s + 1 < div {
                        s + 1
                    } else {
                        0
                    };
                }
                x += 1;
            }
            let ghost before = img.bytes();
            let ghost hb = img.hbase(0, yy);
            img.copy_color_hspan(0, y as i32, w, self.buf.as_slice());
            proof {
                lemma_span3_congruent(
                    before,
                    img.bytes(),
                    w as int,
                    hb,
                    crate::pixfmt_rgb::set_pixels::<O>(self.buf@),
                    |k: int| base(yy, k),
                    |k: int, p: Seq<u8>| g(yy, k, p),
                );
                lemma_grid3_step(b0, mid, img.bytes(), yy, h as int, w as int, base, g);
            }
            y += 1;
        }
    }

    /// Blurs every column of `img` in place with the stack blur of radius
    /// `radius`, as `blur_x` blurs the rows: the pass of `blur_x` over the
    /// image with rows and columns swapped.
    #[verifier::rlimit(100)]
    pub fn blur_y<'a, O: Order, Blend: Blender<Rgba8, O>>(
        &mut self,
        img: &mut AlphaBlendRgb<'a, Rgba8, O, Blend>,
        radius: u32,
    )
        requires
            old(img).rows_ok(),
            radius >= 1 ==> old(img).buf().dims().1 >= 1,
            radius >= 1 ==> old(img).buf().dims().1 <= i32::MAX + 1,
            255 * (radius + 1) * (radius + 1) <= u32::MAX,
        ensures
            final(img).buf().dims() == old(img).buf().dims(),
            radius < 1 ==> final(img).bytes() == old(img).bytes(),
            radius >= 1 ==> grid3_written(
                old(img).bytes(),
                final(img).bytes(),
                old(img).buf().dims().0 as int,
                old(img).buf().dims().1 as int,
                old(img).col_grid_base(),
                blurred_col_pixels::<O>(old(img).buf(), radius as nat),
            ),
    {
        if radius < 1 {
            return;
        }
        let ghost rb0 = img.buf();
        let ghost b0 = img.bytes();
        let ghost rn = radius as nat;
        let ghost base = img.col_grid_base();
        let ghost g = blurred_col_pixels::<O>(rb0, rn);
        let w = img.height();
        let h = img.width();
        let wm = w - 1;
        proof {
            assert(radius * 2 + 1 <= (radius + 1) * (radius + 1) <= 255 * (radius + 1) * (radius + 1)
                && 255 * (radius + 1) <= 255 * (radius + 1) * (radius + 1)) by (nonlinear_arith)
                requires
                    radius >= 1,
            ;
        }
        let div = radius * 2 + 1;
        let mut sum = T::new();
        let mut sum_in = T::new();
        let mut sum_out = T::new();
        let div_sum = (radius + 1) * (radius + 1);
        let mut mul_sum: u32 = 0;
        let mut shr_sum: u32 = 0;
        let max_val = Rgba8::base_mask();
        proof {
            lemma_tables();
        }
        if max_val <= 255 && radius < 255 {
            mul_sum = STACK_BLUR8_MUL[radius as usize] as u32;
            shr_sum = STACK_BLUR8_SHR[radius as usize] as u32;
        }
        self.buf.resize(w as usize, Rgba8::new());
        self.stack.resize(div as usize, Rgba8::new());
        proof {
            img.lemma_col_grid_base();
        }
        let mut y: u32 = 0;
        while y < h
            invariant
                y <= h,
                h == rb0.dims().0,
                w == rb0.dims().1,
                w >= 1,
                wm == w - 1,
                h <= i32::MAX + 1,
                w <= i32::MAX + 1,
                radius >= 1,
                rn == radius,
                div == 2 * radius + 1,
                div_sum == (radius + 1) * (radius + 1),
                div_sum >= 1,
                255 * (radius + 1) * (radius + 1) <= u32::MAX,
                255 * (radius + 1) <= u32::MAX,
                mul_sum == (if radius < 255 { STACK_BLUR8_MUL@[radius as int] as u32 } else { 0u32 }),
                radius < 255 ==> shr_sum == STACK_BLUR8_SHR@[radius as int] as u32,
                shr_sum < 32,
                rb0 == old(img).buf(),
                b0 == rb0.bytes(),
                base == old(img).col_grid_base(),
                g == blurred_col_pixels::<O>(rb0, rn),
                old(img).rows_ok(),
                img.rows_ok(),
                img.buf().dims() == rb0.dims(),
                grid3_written(b0, img.bytes(), y as int, w as int, base, g),
                grid3_ok(base, h as int, w as int, b0.len() as int),
                self.buf@.len() == w,
                self.stack@.len() == div,
            decreases h - y,
        {
            let ghost mid = img.bytes();
            let ghost yy = y as int;
            proof {
                assert forall|xx: int| 0 <= xx < w implies rgb_color::<O>(#[trigger] win(mid, img.pix_at(yy, xx)))
                    == row_color::<O>(rb0, true, yy, xx) by {
                    lemma_row_untouched(b0, mid, yy, h as int, w as int, base, g, xx);
                    assert(img.pix_at(yy, xx) == base(yy, xx));
                }
            }
            sum.clear();
            sum_in.clear();
            sum_out.clear();
            let mut pix = img.pixel(y as i32, 0);
            proof {
                assert(rgb_color::<O>(win(mid, img.pix_at(yy, 0))) == row_color::<O>(rb0, true, yy, 0));
            }
            let ghost c0 = pix;
            let mut i: u32 = 0;
            while i <= radius
                invariant
                    i <= radius + 1,
                    radius >= 1,
                    rn == radius,
                    yy == y,
                    w == rb0.dims().1,
                    w >= 1,
                    255 * (radius + 1) * (radius + 1) <= u32::MAX,
                    255 * (radius + 1) <= u32::MAX,
                    div == 2 * radius + 1,
                    pix == c0,
                    c0 == row_color::<O>(rb0, true, yy, 0),
                    as4(sum.sums()) == left4(col4(c0), i as nat),
                    as4(sum_out.sums()) == seg4::<O>(rb0, true, yy, 1 - i, 1),
                    as4(sum_in.sums()) == (0int, 0int, 0int, 0int),
                    self.stack@.len() == div,
                    self.buf@.len() == w,
                    forall|j: int| 0 <= j < i ==> #[trigger] self.stack@[j] == row_color::<O>(rb0, true, yy, j - radius),
                decreases radius + 1 - i,
            {
                self.stack.set(i as usize, pix);
                proof {
                    lemma_first4::<O>(rb0, true, yy, rn, i as nat);
                    lemma_seg4_pop::<O>(rb0, true, yy, -(i as int), 1);
                    assert(row_color::<O>(rb0, true, yy, -(i as int)) == c0);
                    assert(seg4::<O>(rb0, true, yy, 1 - i, 1) == seg4::<O>(rb0, true, yy, -(i as int) + 1, 1));
                    assert(within4(add4(as4(sum_out.sums()), col4(pix)), 255 * (radius + 1)));
                }
                sum.add_k(&pix, i + 1);
                sum_out.add(&pix);
                i += 1;
            }
            let mut i: u32 = 1;
            while i <= radius
                invariant
                    1 <= i <= radius + 1,
                    radius >= 1,
                    rn == radius,
                    yy == y,
                    w == rb0.dims().1,
                    w >= 1,
                    wm == w - 1,
                    y < h,
                    h == rb0.dims().0,
                    h <= i32::MAX + 1,
                    w <= i32::MAX + 1,
                w <= i32::MAX + 1,
                    img.rows_ok(),
                    img.buf().dims() == rb0.dims(),
                    img.bytes() == mid,
                    forall|xx: int| 0 <= xx < w ==> rgb_color::<O>(#[trigger] win(mid, img.pix_at(yy, xx))) == row_color::<O>(rb0, true, yy, xx),
                    255 * (radius + 1) * (radius + 1) <= u32::MAX,
                    255 * (radius + 1) <= u32::MAX,
                    div == 2 * radius + 1,
                    c0 == row_color::<O>(rb0, true, yy, 0),
                    as4(sum.sums()) == add4(left4(col4(c0), rn + 1), wsum4::<O>(rb0, true, yy, radius as int, (i - 1) as nat)),
                    as4(sum_out.sums()) == seg4::<O>(rb0, true, yy, -radius, 1),
                    as4(sum_in.sums()) == seg4::<O>(rb0, true, yy, 1, i as int),
                    self.stack@.len() == div,
                    self.buf@.len() == w,
                    forall|j: int| 0 <= j < radius + i ==> #[trigger] self.stack@[j] == row_color::<O>(rb0, true, yy, j - radius),
                decreases radius + 1 - i,
            {
                let xp = if i > wm {
                    wm
                } else {
                    i
                };
                proof {
                    assert(3 * h <= abs_stride(rb0.dims().2));
                    assert(xp <= i32::MAX);
                    assert((xp as i32) as int == xp as int);
                    assert((y as i32) as int == y as int);
                }
                pix = img.pixel(y as i32, xp as i32);
                proof {
                    assert(pix == rgb_color::<O>(img.pixel_bytes(yy, xp as int)));
                    assert(rgb_color::<O>(win(mid, img.pix_at(yy, xp as int))) == row_color::<O>(rb0, true, yy, xp as int));
                    assert(row_color::<O>(rb0, true, yy, xp as int) == row_color::<O>(rb0, true, yy, i as int));
                    assert(pix == row_color::<O>(rb0, true, yy, i as int));
                }
                self.stack.set((i + radius) as usize, pix);
                proof {
                    lemma_first4::<O>(rb0, true, yy, rn, i as nat);
                    lemma_seg4_push::<O>(rb0, true, yy, 1, i as int);
                    lemma_wsum4_step::<O>(rb0, true, yy, radius as int, i as nat);
                }
                sum.add_k(&pix, radius + 1 - i);
                sum_in.add(&pix);
                i += 1;
            }
            proof {
                lemma_first4::<O>(rb0, true, yy, rn, rn);
            }
            let mut stack_ptr: u32 = radius;
            let ghost mut s: int = 0;
            let mut x: u32 = 0;
            while x < w
                invariant
                    x <= w,
                    radius >= 1,
                    rn == radius,
                    yy == y,
                    w == rb0.dims().1,
                    w >= 1,
                    wm == w - 1,
                    y < h,
                    h == rb0.dims().0,
                    h <= i32::MAX + 1,
                    w <= i32::MAX + 1,
                w <= i32::MAX + 1,
                    img.rows_ok(),
                    img.buf().dims() == rb0.dims(),
                    img.bytes() == mid,
                    forall|xx: int| 0 <= xx < w ==> rgb_color::<O>(#[trigger] win(mid, img.pix_at(yy, xx))) == row_color::<O>(rb0, true, yy, xx),
                    255 * (radius + 1) * (radius + 1) <= u32::MAX,
                    255 * (radius + 1) <= u32::MAX,
                    div == 2 * radius + 1,
                    div_sum == (radius + 1) * (radius + 1),
                    div_sum >= 1,
                    mul_sum == (if radius < 255 { STACK_BLUR8_MUL@[radius as int] as u32 } else { 0u32 }),
                    radius < 255 ==> shr_sum == STACK_BLUR8_SHR@[radius as int] as u32,
                    shr_sum < 32,
                    0 <= s < div,
                    stack_ptr == (if s + radius < div { s + radius } else { s + radius - div }),
                    self.stack@.len() == div,
                    forall|i: int| 0 <= i < div ==> #[trigger] self.stack@[i] == row_color::<O>(
                        rb0,
                        true,
                        yy,
                        x - radius + (if i >= s { i - s } else { i + div - s }),
                    ),
                    as4(sum.sums()) == tri4::<O>(rb0, true, yy, x as int, rn),
                    as4(sum_out.sums()) == seg4::<O>(rb0, true, yy, x - radius, x + 1),
                    as4(sum_in.sums()) == seg4::<O>(rb0, true, yy, x + 1, x + radius + 1),
                    self.buf@.len() == w,
                    forall|j: int| 0 <= j < x ==> #[trigger] self.buf@[j] == stack_blurred_color::<O>(rb0, true, rn, j, yy),
                decreases w - x,
            {
                proof {
                    lemma_slide4::<O>(rb0, true, yy, x as int, rn);
                    sum.lemma_channels_are_sums();
                    sum_in.lemma_channels_are_sums();
                    sum_out.lemma_channels_are_sums();
                }
                if mul_sum != 0 {
                    sum.calc_pix_mul(&mut self.buf[x as usize], mul_sum, shr_sum);
                } else {
                    sum.calc_pix(&mut self.buf[x as usize], div_sum);
                }
                sum.sub(&sum_out);
                let stack_start = stack_ptr + div - radius;
                let stack_start = if stack_start >= div {
                    stack_start - div
                } else {
                    stack_start
                };
                let old_pix = self.stack[stack_start as usize];
                proof {
                    lemma_seg4_pop::<O>(rb0, true, yy, x - radius, x + 1);
                }
                sum_out.sub(&old_pix);
                let xp = x + radius + 1;
                let xp = if xp > wm {
                    wm
                } else {
                    xp
                };
                proof {
                    assert(3 * h <= abs_stride(rb0.dims().2));
                    assert(xp <= i32::MAX);
                    assert((xp as i32) as int == xp as int);
                    assert((y as i32) as int == y as int);
                }
                pix = img.pixel(y as i32, xp as i32);
                proof {
                    assert(pix == rgb_color::<O>(img.pixel_bytes(yy, xp as int)));
                    assert(rgb_color::<O>(win(mid, img.pix_at(yy, xp as int))) == row_color::<O>(rb0, true, yy, xp as int));
                    assert(row_color::<O>(rb0, true, yy, xp as int) == row_color::<O>(rb0, true, yy, x + radius + 1));
                    lemma_seg4_push::<O>(rb0, true, yy, x + 1, x + radius + 1);
                }
                self.stack.set(stack_start as usize, pix);
                sum_in.add(&pix);
                proof {
                    sum_in.lemma_channels_are_sums();
                }
                sum.add(&sum_in);
                stack_ptr += 1;
                if stack_ptr >= div {
                    stack_ptr = 0;
                }
                let next_pix = self.stack[stack_ptr as usize];
                proof {
                    lemma_seg4_push::<O>(rb0, true, yy, x - radius + 1, x + 1);
                    lemma_seg4_pop::<O>(rb0, true, yy, x + 1, x + radius + 2);
                }
                sum_out.add(&next_pix);
                sum_in.sub(&next_pix);
                proof {
                    s = if s + 1 < div {
                        s + 1
                    } else {
                        0
                    };
                }
                x += 1;
            }
            let ghost before = img.bytes();
            let ghost hb = img.vbase(yy, 0);
            proof {
                assert(3 * h <= abs_stride(rb0.dims().2));
                assert(y <= i32::MAX);
            }
            img.copy_color_vspan(y as i32, 0, w, self.buf.as_slice());
            proof {
                lemma_span3_congruent(
                    before,
                    img.bytes(),
                    w as int,
                    hb,
                    crate::pixfmt_rgb::set_pixels::<O>(self.buf@),
                    |k: int| base(yy, k),
                    |k: int, p: Seq<u8>| g(yy, k, p),
                );
                lemma_grid3_step(b0, mid, img.bytes(), yy, h as int, w as int, base, g);
            }
            y += 1;
        }
    }

    /// Blurs `img` in place with the stack blur of radius `radius`, first
    /// along its rows and then along its columns.
    pub fn blur<'a, O: Order, Blend: Blender<Rgba8, O>>(
        &mut self,
        img: &mut AlphaBlendRgb<'a, Rgba8, O, Blend>,
        radius: u32,
    )
        requires
            old(img).rows_ok(),
            radius >= 1 ==> old(img).buf().dims().0 >= 1 && old(img).buf().dims().1 >= 1,
            radius >= 1 ==> old(img).buf().dims().1 <= i32::MAX + 1,
            255 * (radius + 1) * (radius + 1) <= u32::MAX,
        ensures
            final(img).buf().dims() == old(img).buf().dims(),
            radius < 1 ==> final(img).bytes() == old(img).bytes(),
            radius >= 1 ==> exists|mid: RenderBuf|
                {
                    &&& mid.dims() == old(img).buf().dims()
                    &&& grid3_written(
                        old(img).bytes(),
                        mid.bytes(),
                        old(img).buf().dims().1 as int,
                        old(img).buf().dims().0 as int,
                        old(img).grid_base(),
                        blurred_pixels::<O>(old(img).buf(), radius as nat),
                    )
                    &&& grid3_written(
                        mid.bytes(),
                        final(img).bytes(),
                        old(img).buf().dims().0 as int,
                        old(img).buf().dims().1 as int,
                        old(img).col_grid_base(),
                        blurred_col_pixels::<O>(mid, radius as nat),
                    )
                },
    {
        self.blur_x(img, radius);
        let ghost mid = img.buf();
        proof {
            assert(img.col_grid_base() =~= old(img).col_grid_base());
        }
        self.blur_y(img, radius);
    }
}

} // verus!
