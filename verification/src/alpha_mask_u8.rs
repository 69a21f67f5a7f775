//! Alpha masks: the coverage of each pixel is read from one channel, or
//! from the luminance of three channels, of a rendering buffer.
use crate::rendering_buffer::{abs_stride, RenderBuf};
use crate::{AlphaMask, RenderBuffer};
use vstd::prelude::*;

verus! {

/// Computes a coverage from the bytes of one pixel.
pub trait MaskF: Sized {
    /// The number of bytes, from its position, that the function reads.
    spec fn reach() -> nat;

    /// The coverage computed from the bytes at `pos`.
    spec fn value(bytes: Seq<u8>, pos: int) -> u32;

    fn new() -> Self;

    fn calculate(&self, bytes: &[u8], pos: usize) -> (r: u32)
        requires
            pos + Self::reach() <= bytes@.len(),
        ensures
            r == Self::value(bytes@, pos as int),
            r <= 255,
    ;
}

/// The luminance of a colour in fixed point: `(77 r + 150 g + 29 b) / 256`.
pub open spec fn luminance(r: int, g: int, b: int) -> int {
    (r * 77 + g * 150 + b * 29) / 256
}

/// Coverage from the luminance of three channels at offsets `R`, `G`, `B`.
pub struct RgbtoGrayMaskU8<const R: u32, const G: u32, const B: u32>;

impl<const R: u32, const G: u32, const B: u32> MaskF for RgbtoGrayMaskU8<R, G, B> {
    open spec fn reach() -> nat {
        if R >= G && R >= B {
            R as nat + 1
        } else if G >= B {
            G as nat + 1
        } else {
            B as nat + 1
        }
    }

    open spec fn value(bytes: Seq<u8>, pos: int) -> u32 {
        luminance(bytes[pos + R] as int, bytes[pos + G] as int, bytes[pos + B] as int) as u32
    }

    fn new() -> Self {
        RgbtoGrayMaskU8
    }

    fn calculate(&self, bytes: &[u8], pos: usize) -> (r: u32) {
        let r = bytes[pos + R as usize] as u32;
        let g = bytes[pos + G as usize] as u32;
        let b = bytes[pos + B as usize] as u32;
        let s = r * 77 + g * 150 + b * 29;
        proof {
            vstd::bits::lemma_u32_shr_is_div(s, 8);
            vstd::arithmetic::power2::lemma2_to64();
        }
        s >> 8u32
    }
}

/// Coverage read from one byte.
pub struct OneComponentMaskU8;

impl MaskF for OneComponentMaskU8 {
    open spec fn reach() -> nat {
        1
    }

    open spec fn value(bytes: Seq<u8>, pos: int) -> u32 {
        bytes[pos] as u32
    }

    fn new() -> Self {
        OneComponentMaskU8
    }

    fn calculate(&self, bytes: &[u8], pos: usize) -> (r: u32) {
        bytes[pos] as u32
    }
}

/// A cover scaled by a mask value: `(255 + c * m) >> 8`.
pub open spec fn combine_cover(c: u8, m: u32) -> u8 {
    ((255 + c * m) / 256) as u8
}

fn combine_cover_exec(c: u8, m: u32) -> (r: u8)
    requires
        m <= 255,
    ensures
        r == combine_cover(c, m),
{
    assert(c * m <= 255 * 255) by (nonlinear_arith)
        requires
            c <= 255,
            m <= 255,
    ;
    let s = 255 + c as u32 * m;
    proof {
        vstd::bits::lemma_u32_shr_is_div(s, 8);
        vstd::arithmetic::power2::lemma2_to64();
    }
    (s >> 8u32) as u8
}

/// How a span of `num` pixels starting at coordinate `c` is clipped to
/// `0 ..= max`: whether it lies wholly outside (all its covers are
/// cleared), the number of covers before the start that are cleared, the
/// number of pixels read, the range of trailing covers cleared, and the
/// first pixel read.
pub open spec fn clip_plan(c: int, num: int, max: int) -> (bool, int, int, int, int, int) {
    let count1 = if c < 0 {
        num + c
    } else {
        num
    };
    let lead = if c < 0 {
        -c
    } else {
        0
    };
    let c0 = if c < 0 {
        0
    } else {
        c
    };
    if count1 <= 0 {
        (true, 0, 0, 0, 0, 0)
    } else if c0 + count1 > max {
        let rest = c0 + count1 - max - 1;
        let count2 = count1 - rest;
        if count2 <= 0 {
            (true, 0, 0, 0, 0, 0)
        } else {
            (false, lead, count2, count2 + lead, rest, c0)
        }
    } else {
        (false, lead, count1, 0, 0, c0)
    }
}

/// The covers after a clipped span has cleared what it clears: everything
/// up to `num` when the span lies outside, otherwise the leading covers and
/// the trailing range.
pub open spec fn span_cleared(old: Seq<u8>, num: int, plan: (bool, int, int, int, int, int)) -> Seq<u8> {
    Seq::new(
        old.len(),
        |i: int|
            if plan.0 {
                if i < num {
                    0
                } else {
                    old[i]
                }
            } else if i < plan.1 || (plan.3 <= i < plan.4) {
                0
            } else {
                old[i]
            },
    )
}

/// The covers after the pixels of a clipped span were written: the first
/// `plan.2` covers take `vals`.
pub open spec fn span_written(
    cleared: Seq<u8>,
    plan: (bool, int, int, int, int, int),
    vals: spec_fn(int) -> u8,
) -> Seq<u8> {
    Seq::new(cleared.len(), |i: int| if !plan.0 && 0 <= i < plan.2 { vals(i) } else { cleared[i] })
}

/// The first `num` covers take `vals`, the others are kept.
pub open spec fn prefix_written(old: Seq<u8>, num: int, vals: spec_fn(int) -> u8) -> Seq<u8> {
    Seq::new(old.len(), |i: int| if 0 <= i < num { vals(i) } else { old[i] })
}

proof fn lemma_clip_plan_bounds(c: int, num: int, max: int)
    requires
        max >= 0,
        num >= 0,
    ensures
        ({
            let p = clip_plan(c, num, max);
            !p.0 ==> {
                &&& 0 <= p.5
                &&& 0 < p.2
                &&& p.5 + p.2 <= max + 1
                &&& 0 <= p.1
                &&& p.1 + p.2 <= num
                &&& p.4 <= num
                &&& 0 <= p.3
                &&& c < 0 ==> p.1 == -c && c > -num
                &&& c >= 0 ==> p.1 == 0
            }
        }),
{
}

/// Clears `dst[from .. to]`.
fn zero_range(dst: &mut [u8], from: usize, to: usize)
    requires
        to <= old(dst)@.len(),
    ensures
        final(dst)@ == Seq::new(old(dst)@.len(), |i: int| if from <= i < to { 0u8 } else { old(dst)@[i] }),
{
    if from >= to {
        assert(dst@ =~= Seq::new(old(dst)@.len(), |i: int| if from <= i < to { 0u8 } else { old(dst)@[i] }));
        return;
    }
    let mut i = from;
    while i < to
        invariant
            from <= i <= to,
            to <= dst@.len(),
            dst@.len() == old(dst)@.len(),
            forall|j: int|
                0 <= j < dst@.len() ==> #[trigger] dst@[j] == (if from <= j < i {
                    0u8
                } else {
                    old(dst)@[j]
                }),
        decreases to - i,
    {
        dst[i] = 0;
        i += 1;
    }
    assert(dst@ =~= Seq::new(old(dst)@.len(), |i: int| if from <= i < to { 0u8 } else { old(dst)@[i] }));
}

/// Clears the covers that a clipped span clears.
fn clear_covers(dst: &mut [u8], num: i32, plan: (bool, i32, i32, i32, i32, i32))
    requires
        0 <= num <= old(dst)@.len(),
        !plan.0 ==> 0 <= plan.1 && 0 <= plan.2 && plan.1 + plan.2 <= num && plan.4 <= num && 0 <= plan.3,
    ensures
        final(dst)@ == span_cleared(
            old(dst)@,
            num as int,
            (plan.0, plan.1 as int, plan.2 as int, plan.3 as int, plan.4 as int, plan.5 as int),
        ),
{
    let ghost old_dst = dst@;
    if plan.0 {
        zero_range(dst, 0, num as usize);
    } else {
        zero_range(dst, 0, plan.1 as usize);
        if plan.3 < plan.4 {
            zero_range(dst, plan.3 as usize, plan.4 as usize);
        }
    }
    assert(dst@ =~= span_cleared(
        old_dst,
        num as int,
        (plan.0, plan.1 as int, plan.2 as int, plan.3 as int, plan.4 as int, plan.5 as int),
    ));
}

/// Clips a span of `num` pixels from `c` to `0 ..= max`.
fn clip_span(c: i32, num: i32, max: i32) -> (r: (bool, i32, i32, i32, i32, i32))
    requires
        max >= 0,
        num >= 0,
        c + num <= i32::MAX,
    ensures
        (r.0, r.1 as int, r.2 as int, r.3 as int, r.4 as int, r.5 as int) == clip_plan(
            c as int,
            num as int,
            max as int,
        ),
{
    let mut count = num;
    let mut lead: i32 = 0;
    let mut c0 = c;
    if c < 0 {
        count = num + c;
        if count <= 0 {
            return (true, 0, 0, 0, 0, 0);
        }
        lead = -c;
        c0 = 0;
    }
    if count <= 0 {
        return (true, 0, 0, 0, 0, 0);
    }
    if c0 + count > max {
        let rest = c0 + count - max - 1;
        let count2 = count - rest;
        if count2 <= 0 {
            return (true, 0, 0, 0, 0, 0);
        }
        return (false, lead, count2, count2 + lead, rest, c0);
    }
    (false, lead, count, 0, 0, c0)
}

/// A span that lies within `0 ..= max` is read whole and clears nothing.
pub proof fn lemma_clip_plan_inside(c: int, num: int, max: int)
    requires
        0 <= c,
        0 < num,
        c + num <= max + 1,
    ensures
        ({
            let p = clip_plan(c, num, max);
            &&& !p.0
            &&& p.1 == 0
            &&& p.2 == num
            &&& p.4 <= p.3
            &&& p.5 == c
        }),
{
}

/// Within the buffer, the clipping spans write exactly what the unclipped
/// spans write: the first `num` covers take their pixels' values, the rest
/// are kept.
pub proof fn lemma_span_inside(old: Seq<u8>, c: int, num: int, max: int, vals: spec_fn(int) -> u8)
    requires
        0 <= c,
        0 < num <= old.len(),
        c + num <= max + 1,
    ensures
        span_written(span_cleared(old, num, clip_plan(c, num, max)), clip_plan(c, num, max), vals)
            == prefix_written(old, num, vals),
{
    lemma_clip_plan_inside(c, num, max);
    assert(span_written(span_cleared(old, num, clip_plan(c, num, max)), clip_plan(c, num, max), vals)
        =~= prefix_written(old, num, vals));
}

/// A span that lies wholly outside the buffer clears its covers and keeps
/// the rest.
pub proof fn lemma_span_outside(old: Seq<u8>, num: int, vals: spec_fn(int) -> u8)
    requires
        0 <= num <= old.len(),
    ensures
        span_written(span_cleared(old, num, (true, 0, 0, 0, 0, 0)), (true, 0, 0, 0, 0, 0), vals)
            == prefix_written(old, num, |i: int| 0u8),
{
    assert(span_written(span_cleared(old, num, (true, 0, 0, 0, 0, 0)), (true, 0, 0, 0, 0, 0), vals)
        =~= prefix_written(old, num, |i: int| 0u8));
}

//==========================================================AlphaMaskU8
/// An alpha mask over a rendering buffer whose pixels are `STEP` bytes
/// apart, the mask's channel at `OFFSET` within each; reads outside the
/// buffer give no coverage.
pub struct AlphaMaskU8<const STEP: u32, const OFFSET: u32, M: MaskF> {
    pub rbuf: RenderBuf,
    pub mask_function: M,
}

pub type AlphaMaskGray8 = AlphaMaskU8<1, 0, OneComponentMaskU8>;

pub type AlphaMaskRgb24R = AlphaMaskU8<3, 0, OneComponentMaskU8>;

pub type AlphaMaskRgb24G = AlphaMaskU8<3, 1, OneComponentMaskU8>;

pub type AlphaMaskRgb24B = AlphaMaskU8<3, 2, OneComponentMaskU8>;

pub type AlphaMaskBgr24R = AlphaMaskU8<3, 2, OneComponentMaskU8>;

pub type AlphaMaskBgr24G = AlphaMaskU8<3, 1, OneComponentMaskU8>;

pub type AlphaMaskBgr24B = AlphaMaskU8<3, 0, OneComponentMaskU8>;

pub type AlphaMaskRgb24Gray = AlphaMaskU8<3, 0, RgbtoGrayMaskU8<0, 1, 2>>;

pub type AlphaMaskBgr24Gray = AlphaMaskU8<3, 0, RgbtoGrayMaskU8<2, 1, 0>>;

pub type AlphaMaskRgba32Gray = AlphaMaskU8<4, 0, RgbtoGrayMaskU8<0, 1, 2>>;

pub type AlphaMaskArgb32Gray = AlphaMaskU8<4, 1, RgbtoGrayMaskU8<0, 1, 2>>;

pub type AlphaMaskBgra32Gray = AlphaMaskU8<4, 0, RgbtoGrayMaskU8<2, 1, 0>>;

pub type AlphaMaskAbgr32Gray = AlphaMaskU8<4, 1, RgbtoGrayMaskU8<2, 1, 0>>;

/// Every pixel of the buffer can be read: the buffer holds its rows, the
/// last pixel of a row and the bytes its mask function reads stay within
/// the row, and the sizes fit in `i32`.
pub open spec fn mask_reads_ok<M: MaskF>(rbuf: RenderBuf, step: u32, offset: u32) -> bool {
    &&& rbuf.wf()
    &&& M::reach() >= 1
    &&& rbuf.dims().0 <= i32::MAX
    &&& rbuf.dims().1 <= i32::MAX
    &&& (rbuf.dims().0 == 0 || (rbuf.dims().0 - 1) * step + offset + M::reach() <= abs_stride(
        rbuf.dims().2,
    ))
}

/// The position of the mask byte of pixel `(x, y)`.
pub open spec fn mask_pos(rbuf: RenderBuf, step: u32, offset: u32, x: int, y: int) -> int {
    rbuf.row_start(y) + x * step + offset
}

/// The coverage of pixel `(x, y)`.
pub open spec fn mask_value<M: MaskF>(rbuf: RenderBuf, step: u32, offset: u32, x: int, y: int) -> u32 {
    M::value(rbuf.bytes(), mask_pos(rbuf, step, offset, x, y))
}

/// The pixel lies within the buffer.
pub open spec fn mask_inside(rbuf: RenderBuf, x: int, y: int) -> bool {
    0 <= x < rbuf.dims().0 && 0 <= y < rbuf.dims().1
}

/// The position of the mask byte of pixel `(x, y)`.
fn pixel_pos<M: MaskF>(rbuf: &RenderBuf, step: u32, offset: u32, x: u32, y: u32) -> (r: usize)
    requires
        mask_reads_ok::<M>(*rbuf, step, offset),
        x < rbuf.dims().0,
        y < rbuf.dims().1,
    ensures
        r == mask_pos(*rbuf, step, offset, x as int, y as int),
        r + M::reach() <= rbuf.bytes().len(),
{
    let row = rbuf.row_offset(y);
    let w = rbuf.width();
    assert(x * step <= (w - 1) * step) by (nonlinear_arith)
        requires
            x <= w - 1,
    ;
    let n = rbuf.as_bytes().len();
    assert(row + x * step + offset + M::reach() <= n);
    let xs = (x as usize) * (step as usize);
    row + xs + (offset as usize)
}

impl<const STEP: u32, const OFFSET: u32, M: MaskF> AlphaMaskU8<STEP, OFFSET, M> {
    pub fn new(rb: RenderBuf) -> (r: Self)
        ensures
            r.rbuf == rb,
    {
        AlphaMaskU8 { rbuf: rb, mask_function: M::new() }
    }

    pub fn attach(&mut self, rbuf: RenderBuf)
        ensures
            final(self).rbuf == rbuf,
            final(self).mask_function == old(self).mask_function,
    {
        self.rbuf = rbuf;
    }

    pub fn rbuf_mut(&mut self) -> (r: &mut RenderBuf)
        ensures
            *r == old(self).rbuf,
            final(self).rbuf == *final(r),
            final(self).mask_function == old(self).mask_function,
    {
        &mut self.rbuf
    }

    pub fn mask_function(&mut self) -> (r: &mut M)
        ensures
            *r == old(self).mask_function,
            final(self).mask_function == *final(r),
            final(self).rbuf == old(self).rbuf,
    {
        &mut self.mask_function
    }

    /// The clipping of a row span: wholly cleared when the row lies
    /// outside the buffer.
    pub open spec fn hplan(&self, x: i32, y: i32, num: i32) -> (bool, int, int, int, int, int) {
        if y < 0 || y >= self.rbuf.dims().1 {
            (true, 0, 0, 0, 0, 0)
        } else {
            clip_plan(x as int, num as int, self.rbuf.dims().0 - 1)
        }
    }

    /// The clipping of a column span: wholly cleared when the column lies
    /// outside the buffer.
    pub open spec fn vplan(&self, x: i32, y: i32, num: i32) -> (bool, int, int, int, int, int) {
        if x < 0 || x >= self.rbuf.dims().0 {
            (true, 0, 0, 0, 0, 0)
        } else {
            clip_plan(y as int, num as int, self.rbuf.dims().1 - 1)
        }
    }

    pub open spec fn at(&self, x: int, y: int) -> u32 {
        mask_value::<M>(self.rbuf, STEP, OFFSET, x, y)
    }
}

impl<const STEP: u32, const OFFSET: u32, M: MaskF> AlphaMask for AlphaMaskU8<STEP, OFFSET, M> {
    type CoverType = u8;

    open spec fn pixel_ok(&self, x: i32, y: i32) -> bool {
        mask_reads_ok::<M>(self.rbuf, STEP, OFFSET)
    }

    open spec fn hspan_ok(&self, x: i32, y: i32, dst_len: nat, num_pix: i32) -> bool {
        &&& mask_reads_ok::<M>(self.rbuf, STEP, OFFSET)
        &&& self.rbuf.dims().0 > 0
        &&& self.rbuf.dims().1 > 0
        &&& 0 <= num_pix <= dst_len
        &&& x + num_pix <= i32::MAX
    }

    open spec fn vspan_ok(&self, x: i32, y: i32, dst_len: nat, num_pix: i32) -> bool {
        &&& mask_reads_ok::<M>(self.rbuf, STEP, OFFSET)
        &&& self.rbuf.dims().0 > 0
        &&& self.rbuf.dims().1 > 0
        &&& 0 <= num_pix <= dst_len
        &&& y + num_pix <= i32::MAX
    }

    open spec fn pixel_spec(&self, x: i32, y: i32) -> u8 {
        if mask_inside(self.rbuf, x as int, y as int) {
            self.at(x as int, y as int) as u8
        } else {
            0
        }
    }

    open spec fn combine_pixel_spec(&self, x: i32, y: i32, val: u8) -> u8 {
        if mask_inside(self.rbuf, x as int, y as int) {
            combine_cover(val, self.at(x as int, y as int))
        } else {
            0
        }
    }

    open spec fn fill_hspan_spec(&self, x: i32, y: i32, dst: Seq<u8>, num_pix: i32) -> Seq<u8> {
        span_written(
            span_cleared(dst, num_pix as int, self.hplan(x, y, num_pix)),
            self.hplan(x, y, num_pix),
            |i: int| self.at(self.hplan(x, y, num_pix).5 + i, y as int) as u8,
        )
    }

    open spec fn combine_hspan_spec(&self, x: i32, y: i32, dst: Seq<u8>, num_pix: i32) -> Seq<u8> {
        span_written(
            span_cleared(dst, num_pix as int, self.hplan(x, y, num_pix)),
            self.hplan(x, y, num_pix),
            |i: int|
                combine_cover(
                    span_cleared(dst, num_pix as int, self.hplan(x, y, num_pix))[i],
                    self.at(self.hplan(x, y, num_pix).5 + i, y as int),
                ),
        )
    }

    open spec fn fill_vspan_spec(&self, x: i32, y: i32, dst: Seq<u8>, num_pix: i32) -> Seq<u8> {
        span_written(
            span_cleared(dst, num_pix as int, self.vplan(x, y, num_pix)),
            self.vplan(x, y, num_pix),
            |i: int| self.at(x as int, self.vplan(x, y, num_pix).5 + i) as u8,
        )
    }

    open spec fn combine_vspan_spec(&self, x: i32, y: i32, dst: Seq<u8>, num_pix: i32) -> Seq<u8> {
        span_written(
            span_cleared(dst, num_pix as int, self.vplan(x, y, num_pix)),
            self.vplan(x, y, num_pix),
            |i: int|
                combine_cover(
                    span_cleared(dst, num_pix as int, self.vplan(x, y, num_pix))[i],
                    self.at(x as int, self.vplan(x, y, num_pix).5 + i),
                ),
        )
    }

    fn cover_full() -> (r: u32)
        ensures
            r == 255,
    {
        255
    }

    /// The coverage of pixel `(x, y)`, none outside the buffer.
    fn pixel(&self, x: i32, y: i32) -> (r: u8)
        ensures
            r == (if mask_inside(self.rbuf, x as int, y as int) {
                self.at(x as int, y as int) as u8
            } else {
                0
            }),
    {
        if x >= 0 && y >= 0 && x < self.rbuf.width() as i32 && y < self.rbuf.height() as i32 {
            let p = pixel_pos::<M>(&self.rbuf, STEP, OFFSET, x as u32, y as u32);
            return self.mask_function.calculate(self.rbuf.as_bytes(), p) as u8;
        }
        0
    }

    /// `val` scaled by the coverage of pixel `(x, y)`, none outside the
    /// buffer.
    fn combine_pixel(&self, x: i32, y: i32, val: u8) -> (r: u8)
        ensures
            r == (if mask_inside(self.rbuf, x as int, y as int) {
                combine_cover(val, self.at(x as int, y as int))
            } else {
                0
            }),
    {
        if x >= 0 && y >= 0 && x < self.rbuf.width() as i32 && y < self.rbuf.height() as i32 {
            let p = pixel_pos::<M>(&self.rbuf, STEP, OFFSET, x as u32, y as u32);
            let m = self.mask_function.calculate(self.rbuf.as_bytes(), p);
            return combine_cover_exec(val, m);
        }
        0
    }

    /// Writes the coverage of a row of pixels into `dst`, clipped to the
    /// buffer; covers of pixels left of the buffer and of a trailing range
    /// are cleared.
    fn fill_hspan(&self, x: i32, y: i32, dst: &mut [u8], num_pix: i32)
        ensures
            final(dst)@ == span_written(
                span_cleared(old(dst)@, num_pix as int, self.hplan(x, y, num_pix)),
                self.hplan(x, y, num_pix),
                |i: int| self.at(self.hplan(x, y, num_pix).5 + i, y as int) as u8,
            ),
    {
        let xmax = (self.rbuf.width() - 1) as i32;
        let ymax = (self.rbuf.height() - 1) as i32;
        let plan = if y < 0 || y > ymax {
            (true, 0i32, 0i32, 0i32, 0i32, 0i32)
        } else {
            clip_span(x, num_pix, xmax)
        };
        proof {
            lemma_clip_plan_bounds(x as int, num_pix as int, xmax as int);
        }
        clear_covers(dst, num_pix, plan);
        let ghost cleared = dst@;
        let ghost gplan = self.hplan(x, y, num_pix);
        if !plan.0 {
            let mut i: i32 = 0;
            while i < plan.2
                invariant
                    0 <= i <= plan.2,
                    !plan.0,
                    (plan.0, plan.1 as int, plan.2 as int, plan.3 as int, plan.4 as int, plan.5 as int)
                        == gplan,
                    0 <= plan.5,
                    plan.5 + plan.2 <= self.rbuf.dims().0,
                    0 <= y < self.rbuf.dims().1,
                    plan.2 <= dst@.len(),
                    mask_reads_ok::<M>(self.rbuf, STEP, OFFSET),
                    dst@ == span_written(
                        cleared,
                        (plan.0, plan.1 as int, i as int, plan.3 as int, plan.4 as int, plan.5 as int),
                        |j: int| self.at(gplan.5 + j, y as int) as u8,
                    ),
                decreases plan.2 - i,
            {
                let p = pixel_pos::<M>(&self.rbuf, STEP, OFFSET, (plan.5 + i) as u32, y as u32);
                let v = self.mask_function.calculate(self.rbuf.as_bytes(), p) as u8;
                let ghost before = dst@;
                dst[i as usize] = v;
                assert(dst@ =~= span_written(
                    cleared,
                    (plan.0, plan.1 as int, (i + 1) as int, plan.3 as int, plan.4 as int, plan.5 as int),
                    |j: int| self.at(gplan.5 + j, y as int) as u8,
                ));
                i += 1;
            }
        }
        assert(dst@ =~= span_written(cleared, gplan, |i: int| self.at(gplan.5 + i, y as int) as u8));
    }

    /// Scales the covers of a row of pixels by their coverage, clipped to
    /// the buffer as `fill_hspan` clips.
    fn combine_hspan(&self, x: i32, y: i32, dst: &mut [u8], num_pix: i32)
        ensures
            final(dst)@ == span_written(
                span_cleared(old(dst)@, num_pix as int, self.hplan(x, y, num_pix)),
                self.hplan(x, y, num_pix),
                |i: int|
                    combine_cover(
                        span_cleared(old(dst)@, num_pix as int, self.hplan(x, y, num_pix))[i],
                        self.at(self.hplan(x, y, num_pix).5 + i, y as int),
                    ),
            ),
    {
        let xmax = (self.rbuf.width() - 1) as i32;
        let ymax = (self.rbuf.height() - 1) as i32;
        let plan = if y < 0 || y > ymax {
            (true, 0i32, 0i32, 0i32, 0i32, 0i32)
        } else {
            clip_span(x, num_pix, xmax)
        };
        proof {
            lemma_clip_plan_bounds(x as int, num_pix as int, xmax as int);
        }
        clear_covers(dst, num_pix, plan);
        let ghost cleared = dst@;
        let ghost gplan = self.hplan(x, y, num_pix);
        if !plan.0 {
            let mut i: i32 = 0;
            while i < plan.2
                invariant
                    0 <= i <= plan.2,
                    !plan.0,
                    (plan.0, plan.1 as int, plan.2 as int, plan.3 as int, plan.4 as int, plan.5 as int)
                        == gplan,
                    0 <= plan.5,
                    plan.5 + plan.2 <= self.rbuf.dims().0,
                    0 <= y < self.rbuf.dims().1,
                    plan.2 <= dst@.len(),
                    cleared.len() == dst@.len(),
                    mask_reads_ok::<M>(self.rbuf, STEP, OFFSET),
                    dst@ == span_written(
                        cleared,
                        (plan.0, plan.1 as int, i as int, plan.3 as int, plan.4 as int, plan.5 as int),
                        |j: int| combine_cover(cleared[j], self.at(gplan.5 + j, y as int)),
                    ),
                decreases plan.2 - i,
            {
                let p = pixel_pos::<M>(&self.rbuf, STEP, OFFSET, (plan.5 + i) as u32, y as u32);
                let m = self.mask_function.calculate(self.rbuf.as_bytes(), p);
                let c = dst[i as usize];
                dst[i as usize] = combine_cover_exec(c, m);
                assert(dst@ =~= span_written(
                    cleared,
                    (plan.0, plan.1 as int, (i + 1) as int, plan.3 as int, plan.4 as int, plan.5 as int),
                    |j: int| combine_cover(cleared[j], self.at(gplan.5 + j, y as int)),
                ));
                i += 1;
            }
        }
        assert(dst@ =~= span_written(
            cleared,
            gplan,
            |i: int| combine_cover(cleared[i], self.at(gplan.5 + i, y as int)),
        ));
    }

    /// Writes the coverage of a column of pixels into `dst`, clipped to the
    /// buffer as `fill_hspan` clips a row.
    fn fill_vspan(&self, x: i32, y: i32, dst: &mut [u8], num_pix: i32)
        ensures
            final(dst)@ == span_written(
                span_cleared(old(dst)@, num_pix as int, self.vplan(x, y, num_pix)),
                self.vplan(x, y, num_pix),
                |i: int| self.at(x as int, self.vplan(x, y, num_pix).5 + i) as u8,
            ),
    {
        let xmax = (self.rbuf.width() - 1) as i32;
        let ymax = (self.rbuf.height() - 1) as i32;
        let plan = if x < 0 || x > xmax {
            (true, 0i32, 0i32, 0i32, 0i32, 0i32)
        } else {
            clip_span(y, num_pix, ymax)
        };
        proof {
            lemma_clip_plan_bounds(y as int, num_pix as int, ymax as int);
        }
        clear_covers(dst, num_pix, plan);
        let ghost cleared = dst@;
        let ghost gplan = self.vplan(x, y, num_pix);
        if !plan.0 {
            let mut i: i32 = 0;
            while i < plan.2
                invariant
                    0 <= i <= plan.2,
                    !plan.0,
                    (plan.0, plan.1 as int, plan.2 as int, plan.3 as int, plan.4 as int, plan.5 as int)
                        == gplan,
                    0 <= plan.5,
                    plan.5 + plan.2 <= self.rbuf.dims().1,
                    0 <= x < self.rbuf.dims().0,
                    plan.2 <= dst@.len(),
                    mask_reads_ok::<M>(self.rbuf, STEP, OFFSET),
                    dst@ == span_written(
                        cleared,
                        (plan.0, plan.1 as int, i as int, plan.3 as int, plan.4 as int, plan.5 as int),
                        |j: int| self.at(x as int, gplan.5 + j) as u8,
                    ),
                decreases plan.2 - i,
            {
                let p = pixel_pos::<M>(&self.rbuf, STEP, OFFSET, x as u32, (plan.5 + i) as u32);
                let v = self.mask_function.calculate(self.rbuf.as_bytes(), p) as u8;
                dst[i as usize] = v;
                assert(dst@ =~= span_written(
                    cleared,
                    (plan.0, plan.1 as int, (i + 1) as int, plan.3 as int, plan.4 as int, plan.5 as int),
                    |j: int| self.at(x as int, gplan.5 + j) as u8,
                ));
                i += 1;
            }
        }
        assert(dst@ =~= span_written(cleared, gplan, |i: int| self.at(x as int, gplan.5 + i) as u8));
    }

    /// Scales the covers of a column of pixels by their coverage, clipped
    /// to the buffer as `fill_vspan` clips.
    fn combine_vspan(&self, x: i32, y: i32, dst: &mut [u8], num_pix: i32)
        ensures
            final(dst)@ == span_written(
                span_cleared(old(dst)@, num_pix as int, self.vplan(x, y, num_pix)),
                self.vplan(x, y, num_pix),
                |i: int|
                    combine_cover(
                        span_cleared(old(dst)@, num_pix as int, self.vplan(x, y, num_pix))[i],
                        self.at(x as int, self.vplan(x, y, num_pix).5 + i),
                    ),
            ),
    {
        let xmax = (self.rbuf.width() - 1) as i32;
        let ymax = (self.rbuf.height() - 1) as i32;
        let plan = if x < 0 || x > xmax {
            (true, 0i32, 0i32, 0i32, 0i32, 0i32)
        } else {
            clip_span(y, num_pix, ymax)
        };
        proof {
            lemma_clip_plan_bounds(y as int, num_pix as int, ymax as int);
        }
        clear_covers(dst, num_pix, plan);
        let ghost cleared = dst@;
        let ghost gplan = self.vplan(x, y, num_pix);
        if !plan.0 {
            let mut i: i32 = 0;
            while i < plan.2
                invariant
                    0 <= i <= plan.2,
                    !plan.0,
                    (plan.0, plan.1 as int, plan.2 as int, plan.3 as int, plan.4 as int, plan.5 as int)
                        == gplan,
                    0 <= plan.5,
                    plan.5 + plan.2 <= self.rbuf.dims().1,
                    0 <= x < self.rbuf.dims().0,
                    plan.2 <= dst@.len(),
                    cleared.len() == dst@.len(),
                    mask_reads_ok::<M>(self.rbuf, STEP, OFFSET),
                    dst@ == span_written(
                        cleared,
                        (plan.0, plan.1 as int, i as int, plan.3 as int, plan.4 as int, plan.5 as int),
                        |j: int| combine_cover(cleared[j], self.at(x as int, gplan.5 + j)),
                    ),
                decreases plan.2 - i,
            {
                let p = pixel_pos::<M>(&self.rbuf, STEP, OFFSET, x as u32, (plan.5 + i) as u32);
                let m = self.mask_function.calculate(self.rbuf.as_bytes(), p);
                let c = dst[i as usize];
                dst[i as usize] = combine_cover_exec(c, m);
                assert(dst@ =~= span_written(
                    cleared,
                    (plan.0, plan.1 as int, (i + 1) as int, plan.3 as int, plan.4 as int, plan.5 as int),
                    |j: int| combine_cover(cleared[j], self.at(x as int, gplan.5 + j)),
                ));
                i += 1;
            }
        }
        assert(dst@ =~= span_written(
            cleared,
            gplan,
            |i: int| combine_cover(cleared[i], self.at(x as int, gplan.5 + i)),
        ));
    }
}

//==========================================================AmaskNoClipU8
/// An alpha mask over a rendering buffer that does not clip: every pixel
/// read must lie within the buffer.
pub struct AmaskNoClipU8<const STEP: u32, const OFFSET: u32, M: MaskF> {
    pub rbuf: RenderBuf,
    pub mask_function: M,
}

pub type AmaskNoClipGray8 = AmaskNoClipU8<1, 0, OneComponentMaskU8>;

pub type AmaskNoClipRgb24R = AmaskNoClipU8<3, 0, OneComponentMaskU8>;

pub type AmaskNoClipRgb24G = AmaskNoClipU8<3, 1, OneComponentMaskU8>;

pub type AmaskNoClipRgb24B = AmaskNoClipU8<3, 2, OneComponentMaskU8>;

pub type AmaskNoClipBgr24R = AmaskNoClipU8<3, 2, OneComponentMaskU8>;

pub type AmaskNoClipBgr24G = AmaskNoClipU8<3, 1, OneComponentMaskU8>;

pub type AmaskNoClipBgr24B = AmaskNoClipU8<3, 0, OneComponentMaskU8>;

pub type AmaskNoClipRgb24Gray = AmaskNoClipU8<3, 0, RgbtoGrayMaskU8<0, 1, 2>>;

pub type AmaskNoClipBgr24Gray = AmaskNoClipU8<3, 0, RgbtoGrayMaskU8<2, 1, 0>>;

pub type AmaskNoClipRgba32Gray = AmaskNoClipU8<4, 0, RgbtoGrayMaskU8<0, 1, 2>>;

pub type AmaskNoClipArgb32Gray = AmaskNoClipU8<4, 1, RgbtoGrayMaskU8<0, 1, 2>>;

pub type AmaskNoClipBgra32Gray = AmaskNoClipU8<4, 0, RgbtoGrayMaskU8<2, 1, 0>>;

pub type AmaskNoClipAbgr32Gray = AmaskNoClipU8<4, 1, RgbtoGrayMaskU8<2, 1, 0>>;

impl<const STEP: u32, const OFFSET: u32, M: MaskF> AmaskNoClipU8<STEP, OFFSET, M> {
    pub fn new(rb: RenderBuf) -> (r: Self)
        ensures
            r.rbuf == rb,
    {
        AmaskNoClipU8 { rbuf: rb, mask_function: M::new() }
    }

    pub fn attach(&mut self, rbuf: RenderBuf)
        ensures
            final(self).rbuf == rbuf,
            final(self).mask_function == old(self).mask_function,
    {
        self.rbuf = rbuf;
    }

    pub fn rbuf_mut(&mut self) -> (r: &mut RenderBuf)
        ensures
            *r == old(self).rbuf,
            final(self).rbuf == *final(r),
            final(self).mask_function == old(self).mask_function,
    {
        &mut self.rbuf
    }

    pub fn mask_function_mut(&mut self) -> (r: &mut M)
        ensures
            *r == old(self).mask_function,
            final(self).mask_function == *final(r),
            final(self).rbuf == old(self).rbuf,
    {
        &mut self.mask_function
    }

    pub open spec fn at(&self, x: int, y: int) -> u32 {
        mask_value::<M>(self.rbuf, STEP, OFFSET, x, y)
    }
}

impl<const STEP: u32, const OFFSET: u32, M: MaskF> AlphaMask for AmaskNoClipU8<STEP, OFFSET, M> {
    type CoverType = u8;

    open spec fn pixel_ok(&self, x: i32, y: i32) -> bool {
        &&& mask_reads_ok::<M>(self.rbuf, STEP, OFFSET)
        &&& mask_inside(self.rbuf, x as int, y as int)
    }

    /// The row lies within the buffer, and so do the bytes that
    /// `combine_hspan` reads one after the other from its first pixel.
    open spec fn hspan_ok(&self, x: i32, y: i32, dst_len: nat, num_pix: i32) -> bool {
        &&& mask_reads_ok::<M>(self.rbuf, STEP, OFFSET)
        &&& 0 <= y < self.rbuf.dims().1
        &&& 0 <= x
        &&& 0 <= num_pix <= dst_len
        &&& x + num_pix <= self.rbuf.dims().0
        &&& num_pix > 0 ==> mask_pos(self.rbuf, STEP, OFFSET, x as int, y as int) + num_pix - 1
            + M::reach() <= self.rbuf.bytes().len()
    }

    open spec fn vspan_ok(&self, x: i32, y: i32, dst_len: nat, num_pix: i32) -> bool {
        &&& mask_reads_ok::<M>(self.rbuf, STEP, OFFSET)
        &&& 0 <= x < self.rbuf.dims().0
        &&& 0 <= y
        &&& 0 <= num_pix <= dst_len
        &&& y + num_pix <= self.rbuf.dims().1
    }

    open spec fn pixel_spec(&self, x: i32, y: i32) -> u8 {
        self.at(x as int, y as int) as u8
    }

    open spec fn combine_pixel_spec(&self, x: i32, y: i32, val: u8) -> u8 {
        combine_cover(val, self.at(x as int, y as int))
    }

    open spec fn fill_hspan_spec(&self, x: i32, y: i32, dst: Seq<u8>, num_pix: i32) -> Seq<u8> {
        prefix_written(dst, num_pix as int, |i: int| self.at(x + i, y as int) as u8)
    }

    open spec fn combine_hspan_spec(&self, x: i32, y: i32, dst: Seq<u8>, num_pix: i32) -> Seq<u8> {
        prefix_written(
            dst,
            num_pix as int,
            |i: int|
                combine_cover(
                    dst[i],
                    M::value(self.rbuf.bytes(), mask_pos(self.rbuf, STEP, OFFSET, x as int, y as int) + i),
                ),
        )
    }

    open spec fn fill_vspan_spec(&self, x: i32, y: i32, dst: Seq<u8>, num_pix: i32) -> Seq<u8> {
        prefix_written(dst, num_pix as int, |i: int| self.at(x as int, y + i) as u8)
    }

    open spec fn combine_vspan_spec(&self, x: i32, y: i32, dst: Seq<u8>, num_pix: i32) -> Seq<u8> {
        prefix_written(dst, num_pix as int, |i: int| combine_cover(dst[i], self.at(x as int, y + i)))
    }

    fn cover_full() -> (r: u32)
        ensures
            r == 255,
    {
        255
    }

    fn pixel(&self, x: i32, y: i32) -> (r: u8)
        ensures
            r == self.at(x as int, y as int) as u8,
    {
        let p = pixel_pos::<M>(&self.rbuf, STEP, OFFSET, x as u32, y as u32);
        self.mask_function.calculate(self.rbuf.as_bytes(), p) as u8
    }

    fn combine_pixel(&self, x: i32, y: i32, val: u8) -> (r: u8)
        ensures
            r == combine_cover(val, self.at(x as int, y as int)),
    {
        let p = pixel_pos::<M>(&self.rbuf, STEP, OFFSET, x as u32, y as u32);
        let m = self.mask_function.calculate(self.rbuf.as_bytes(), p);
        combine_cover_exec(val, m)
    }

    fn fill_hspan(&self, x: i32, y: i32, dst: &mut [u8], num_pix: i32)
        ensures
            final(dst)@ == prefix_written(
                old(dst)@,
                num_pix as int,
                |i: int| self.at(x + i, y as int) as u8,
            ),
    {
        let mut i: i32 = 0;
        while i < num_pix
            invariant
                0 <= i <= num_pix,
                self.hspan_ok(x, y, old(dst)@.len(), num_pix),
                dst@ == prefix_written(old(dst)@, i as int, |j: int| self.at(x + j, y as int) as u8),
            decreases num_pix - i,
        {
            let p = pixel_pos::<M>(&self.rbuf, STEP, OFFSET, (x + i) as u32, y as u32);
            dst[i as usize] = self.mask_function.calculate(self.rbuf.as_bytes(), p) as u8;
            assert(dst@ =~= prefix_written(
                old(dst)@,
                (i + 1) as int,
                |j: int| self.at(x + j, y as int) as u8,
            ));
            i += 1;
        }
    }

    /// Scales the covers by the mask, reading the mask bytes one after the
    /// other from the first pixel, with no step between pixels.
    fn combine_hspan(&self, x: i32, y: i32, dst: &mut [u8], num_pix: i32)
        ensures
            final(dst)@ == prefix_written(
                old(dst)@,
                num_pix as int,
                |i: int|
                    combine_cover(
                        old(dst)@[i],
                        M::value(
                            self.rbuf.bytes(),
                            mask_pos(self.rbuf, STEP, OFFSET, x as int, y as int) + i,
                        ),
                    ),
            ),
    {
        if num_pix <= 0 {
            assert(dst@ =~= prefix_written(
                old(dst)@,
                num_pix as int,
                |i: int|
                    combine_cover(
                        old(dst)@[i],
                        M::value(self.rbuf.bytes(), mask_pos(self.rbuf, STEP, OFFSET, x as int, y as int) + i),
                    ),
            ));
            return;
        }
        let base = pixel_pos::<M>(&self.rbuf, STEP, OFFSET, x as u32, y as u32);
        let n = self.rbuf.as_bytes().len();
        let ghost old_dst = old(dst)@;
        let mut i: i32 = 0;
        while i < num_pix
            invariant
                0 <= i <= num_pix,
                self.hspan_ok(x, y, old_dst.len(), num_pix),
                base == mask_pos(self.rbuf, STEP, OFFSET, x as int, y as int),
                n == self.rbuf.bytes().len(),
                dst@.len() == old_dst.len(),
                dst@ == prefix_written(
                    old_dst,
                    i as int,
                    |j: int| combine_cover(old_dst[j], M::value(self.rbuf.bytes(), base + j)),
                ),
            decreases num_pix - i,
        {
            let m = self.mask_function.calculate(self.rbuf.as_bytes(), base + i as usize);
            let c = dst[i as usize];
            assert(c == old_dst[i as int]);
            dst[i as usize] = combine_cover_exec(c, m);
            assert(dst@ =~= prefix_written(
                old_dst,
                (i + 1) as int,
                |j: int| combine_cover(old_dst[j], M::value(self.rbuf.bytes(), base + j)),
            ));
            i += 1;
        }
    }

    fn fill_vspan(&self, x: i32, y: i32, dst: &mut [u8], num_pix: i32)
        ensures
            final(dst)@ == prefix_written(
                old(dst)@,
                num_pix as int,
                |i: int| self.at(x as int, y + i) as u8,
            ),
    {
        let mut i: i32 = 0;
        while i < num_pix
            invariant
                0 <= i <= num_pix,
                self.vspan_ok(x, y, old(dst)@.len(), num_pix),
                dst@ == prefix_written(old(dst)@, i as int, |j: int| self.at(x as int, y + j) as u8),
            decreases num_pix - i,
        {
            let p = pixel_pos::<M>(&self.rbuf, STEP, OFFSET, x as u32, (y + i) as u32);
            dst[i as usize] = self.mask_function.calculate(self.rbuf.as_bytes(), p) as u8;
            assert(dst@ =~= prefix_written(
                old(dst)@,
                (i + 1) as int,
                |j: int| self.at(x as int, y + j) as u8,
            ));
            i += 1;
        }
    }

    fn combine_vspan(&self, x: i32, y: i32, dst: &mut [u8], num_pix: i32)
        ensures
            final(dst)@ == prefix_written(
                old(dst)@,
                num_pix as int,
                |i: int| combine_cover(old(dst)@[i], self.at(x as int, y + i)),
            ),
    {
        let ghost old_dst = old(dst)@;
        let mut i: i32 = 0;
        while i < num_pix
            invariant
                0 <= i <= num_pix,
                self.vspan_ok(x, y, old_dst.len(), num_pix),
                dst@.len() == old_dst.len(),
                dst@ == prefix_written(
                    old_dst,
                    i as int,
                    |j: int| combine_cover(old_dst[j], self.at(x as int, y + j)),
                ),
            decreases num_pix - i,
        {
            let p = pixel_pos::<M>(&self.rbuf, STEP, OFFSET, x as u32, (y + i) as u32);
            let m = self.mask_function.calculate(self.rbuf.as_bytes(), p);
            let c = dst[i as usize];
            assert(c == old_dst[i as int]);
            dst[i as usize] = combine_cover_exec(c, m);
            assert(dst@ =~= prefix_written(
                old_dst,
                (i + 1) as int,
                |j: int| combine_cover(old_dst[j], self.at(x as int, y + j)),
            ));
            i += 1;
        }
    }
}

} // verus!
