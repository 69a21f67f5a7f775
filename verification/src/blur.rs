//! The accumulators of the stack blur, and the reciprocal tables that turn
//! its division by the stack's weight into a multiplication and a shift.
use crate::rendering_buffer::{abs_stride, lemma_row_fits, lemma_rows_disjoint, row_offset, RenderBuf};
use crate::{AggInteger, Args, BlurCalcGray, BlurCalcRgb, GrayArgs, Order, RenderBuffer, RgbArgs};
use vstd::prelude::*;

verus! {

/// For each radius below 255, the multiplier that, with the shift of
/// `STACK_BLUR8_SHR`, divides by `(radius + 1)^2`.
pub const STACK_BLUR8_MUL: [u16; 255] = [
        512, 512, 456, 512, 328, 456, 335, 512, 405, 328, 271, 456, 388, 335, 292, 512, 454, 405,
        364, 328, 298, 271, 496, 456, 420, 388, 360, 335, 312, 292, 273, 512, 482, 454, 428, 405,
        383, 364, 345, 328, 312, 298, 284, 271, 259, 496, 475, 456, 437, 420, 404, 388, 374, 360,
        347, 335, 323, 312, 302, 292, 282, 273, 265, 512, 497, 482, 468, 454, 441, 428, 417, 405,
        394, 383, 373, 364, 354, 345, 337, 328, 320, 312, 305, 298, 291, 284, 278, 271, 265, 259,
        507, 496, 485, 475, 465, 456, 446, 437, 428, 420, 412, 404, 396, 388, 381, 374, 367, 360,
        354, 347, 341, 335, 329, 323, 318, 312, 307, 302, 297, 292, 287, 282, 278, 273, 269, 265,
        261, 512, 505, 497, 489, 482, 475, 468, 461, 454, 447, 441, 435, 428, 422, 417, 411, 405,
        399, 394, 389, 383, 378, 373, 368, 364, 359, 354, 350, 345, 341, 337, 332, 328, 324, 320,
        316, 312, 309, 305, 301, 298, 294, 291, 287, 284, 281, 278, 274, 271, 268, 265, 262, 259,
        257, 507, 501, 496, 491, 485, 480, 475, 470, 465, 460, 456, 451, 446, 442, 437, 433, 428,
        424, 420, 416, 412, 408, 404, 400, 396, 392, 388, 385, 381, 377, 374, 370, 367, 363, 360,
        357, 354, 350, 347, 344, 341, 338, 335, 332, 329, 326, 323, 320, 318, 315, 312, 310, 307,
        304, 302, 299, 297, 294, 292, 289, 287, 285, 282, 280, 278, 275, 273, 271, 269, 267, 265,
        263, 261, 259,
];

/// For each radius below 255, the shift that goes with `STACK_BLUR8_MUL`.
pub const STACK_BLUR8_SHR: [u8; 255] = [
        9, 11, 12, 13, 13, 14, 14, 15, 15, 15, 15, 16, 16, 16, 16, 17, 17, 17,
        17, 17, 17, 17, 18, 18, 18, 18, 18, 18, 18, 18, 18, 19, 19, 19, 19, 19,
        19, 19, 19, 19, 19, 19, 19, 19, 19, 20, 20, 20, 20, 20, 20, 20, 20, 20,
        20, 20, 20, 20, 20, 20, 20, 20, 20, 21, 21, 21, 21, 21, 21, 21, 21, 21,
        21, 21, 21, 21, 21, 21, 21, 21, 21, 21, 21, 21, 21, 21, 21, 21, 21, 21,
        22, 22, 22, 22, 22, 22, 22, 22, 22, 22, 22, 22, 22, 22, 22, 22, 22, 22,
        22, 22, 22, 22, 22, 22, 22, 22, 22, 22, 22, 22, 22, 22, 22, 22, 22, 22,
        22, 23, 23, 23, 23, 23, 23, 23, 23, 23, 23, 23, 23, 23, 23, 23, 23, 23,
        23, 23, 23, 23, 23, 23, 23, 23, 23, 23, 23, 23, 23, 23, 23, 23, 23, 23,
        23, 23, 23, 23, 23, 23, 23, 23, 23, 23, 23, 23, 23, 23, 23, 23, 23, 23,
        23, 24, 24, 24, 24, 24, 24, 24, 24, 24, 24, 24, 24, 24, 24, 24, 24, 24,
        24, 24, 24, 24, 24, 24, 24, 24, 24, 24, 24, 24, 24, 24, 24, 24, 24, 24,
        24, 24, 24, 24, 24, 24, 24, 24, 24, 24, 24, 24, 24, 24, 24, 24, 24, 24,
        24, 24, 24, 24, 24, 24, 24, 24, 24, 24, 24, 24, 24, 24, 24, 24, 24, 24,
        24, 24, 24,
];

/// The reciprocal tables of the stack blur for 8-bit channels.
pub struct StackBlurTables {
    pub g_stack_blur8_mul: [u16; 255],
    pub g_stack_blur8_shr: [u8; 255],
}

impl StackBlurTables {
    pub fn new() -> (r: Self)
        ensures
            r.g_stack_blur8_mul@ == STACK_BLUR8_MUL@,
            r.g_stack_blur8_shr@ == STACK_BLUR8_SHR@,
    {
        StackBlurTables { g_stack_blur8_mul: STACK_BLUR8_MUL, g_stack_blur8_shr: STACK_BLUR8_SHR }
    }

    /// The multiplier for `radius`.
    pub fn mul(&self, radius: u32) -> (r: u32)
        requires
            radius < 255,
        ensures
            r == self.g_stack_blur8_mul@[radius as int],
    {
        self.g_stack_blur8_mul[radius as usize] as u32
    }

    /// The shift for `radius`.
    pub fn shr(&self, radius: u32) -> (r: u32)
        requires
            radius < 255,
        ensures
            r == self.g_stack_blur8_shr@[radius as int],
    {
        self.g_stack_blur8_shr[radius as usize] as u32
    }
}

/// Sums of red, green, blue and alpha.
pub struct StackBlurCalcRgba<T> {
    r: T,
    g: T,
    b: T,
    a: T,
}

pub type StackBlurCalcRgb<T> = StackBlurCalcRgba<T>;

impl Args for StackBlurCalcRgba<u32> {
    type ValueType = u32;

    closed spec fn spec_a(&self) -> u32 {
        self.a
    }

    fn a(&self) -> (r: u32) {
        self.a
    }

    fn a_mut(&mut self) -> (r: &mut u32) {
        &mut self.a
    }
}

impl RgbArgs for StackBlurCalcRgba<u32> {
    closed spec fn spec_rgb(&self) -> (u32, u32, u32) {
        (self.r, self.g, self.b)
    }

    fn new_init(r_: u32, g_: u32, b_: u32, a_: u32) -> (res: Self) {
        Self { r: r_, g: g_, b: b_, a: a_ }
    }

    fn r(&self) -> (res: u32) {
        self.r
    }

    fn g(&self) -> (res: u32) {
        self.g
    }

    fn b(&self) -> (res: u32) {
        self.b
    }

    fn r_mut(&mut self) -> (res: &mut u32) {
        &mut self.r
    }

    fn g_mut(&mut self) -> (res: &mut u32) {
        &mut self.g
    }

    fn b_mut(&mut self) -> (res: &mut u32) {
        &mut self.b
    }
}

impl BlurCalcRgb for StackBlurCalcRgba<u32> {
    closed spec fn sums(&self) -> (u32, u32, u32, u32) {
        (self.r, self.g, self.b, self.a)
    }

    proof fn lemma_channels_are_sums(&self) {
    }

    fn new() -> (r: Self) {
        Self { r: 0, g: 0, b: 0, a: 0 }
    }

    fn clear(&mut self) {
        self.r = 0;
        self.g = 0;
        self.b = 0;
        self.a = 0;
    }

    fn add<A: RgbArgs>(&mut self, v: &A) {
        self.r += v.r().into_u32();
        self.g += v.g().into_u32();
        self.b += v.b().into_u32();
        self.a += v.a().into_u32();
    }

    fn add_k<A: RgbArgs>(&mut self, v: &A, k: u32) {
        proof {
            let c = rgba_u32_of(v);
            assert(c.0 * k <= u32::MAX && c.1 * k <= u32::MAX && c.2 * k <= u32::MAX && c.3 * k <= u32::MAX) by (nonlinear_arith)
                requires
                    self.r + c.0 * k <= u32::MAX,
                    self.g + c.1 * k <= u32::MAX,
                    self.b + c.2 * k <= u32::MAX,
                    self.a + c.3 * k <= u32::MAX,
            ;
        }
        self.r += v.r().into_u32() * k;
        self.g += v.g().into_u32() * k;
        self.b += v.b().into_u32() * k;
        self.a += v.a().into_u32() * k;
    }

    fn sub<A: RgbArgs>(&mut self, v: &A) {
        self.r -= v.r().into_u32();
        self.g -= v.g().into_u32();
        self.b -= v.b().into_u32();
        self.a -= v.a().into_u32();
    }

    fn calc_pix<A: RgbArgs>(&mut self, v: &mut A, div: u32) {
        *v.a_mut() = A::ValueType::from_u32(self.a / div);
        *v.r_mut() = A::ValueType::from_u32(self.r / div);
        *v.g_mut() = A::ValueType::from_u32(self.g / div);
        *v.b_mut() = A::ValueType::from_u32(self.b / div);
    }

    fn calc_pix_mul<A: RgbArgs>(&mut self, v: &mut A, mul: u32, shr: u32) {
        *v.a_mut() = A::ValueType::from_u32(self.a.wrapping_mul(mul) >> shr);
        *v.r_mut() = A::ValueType::from_u32(self.r.wrapping_mul(mul) >> shr);
        *v.g_mut() = A::ValueType::from_u32(self.g.wrapping_mul(mul) >> shr);
        *v.b_mut() = A::ValueType::from_u32(self.b.wrapping_mul(mul) >> shr);
    }
}

/// The channels of `v` as the sums read them.
pub open spec fn rgba_u32_of<A: RgbArgs>(v: &A) -> (u32, u32, u32, u32) {
    crate::rgba_u32(v)
}

/// Sums of luminance and alpha.
pub struct StackBlurCalcGray<T> {
    pub v: T,
    pub a: T,
}

impl Args for StackBlurCalcGray<u32> {
    type ValueType = u32;

    open spec fn spec_a(&self) -> u32 {
        self.a
    }

    fn a(&self) -> (r: u32) {
        self.a
    }

    fn a_mut(&mut self) -> (r: &mut u32) {
        &mut self.a
    }
}

impl GrayArgs for StackBlurCalcGray<u32> {
    open spec fn spec_v(&self) -> u32 {
        self.v
    }

    fn new_init(v: u32, a: u32) -> (res: Self) {
        Self { v: v, a: a }
    }

    fn v(&self) -> (res: u32) {
        self.v
    }

    fn v_mut(&mut self) -> (res: &mut u32) {
        &mut self.v
    }
}

impl BlurCalcGray for StackBlurCalcGray<u32> {
    open spec fn sums(&self) -> (u32, u32) {
        (self.v, self.a)
    }

    fn new() -> (r: Self) {
        Self { v: 0, a: 0 }
    }

    fn clear(&mut self) {
        self.v = 0;
        self.a = 0;
    }

    fn add<A: GrayArgs>(&mut self, g: &A) {
        self.a += g.a().into_u32();
        self.v += g.v().into_u32();
    }

    fn add_k<A: GrayArgs>(&mut self, g: &A, k: u32) {
        proof {
            let c = crate::va_u32(g);
            assert(c.0 * k <= u32::MAX && c.1 * k <= u32::MAX) by (nonlinear_arith)
                requires
                    self.v + c.0 * k <= u32::MAX,
                    self.a + c.1 * k <= u32::MAX,
            ;
        }
        self.v += g.v().into_u32() * k;
        self.a += g.a().into_u32() * k;
    }

    fn sub<A: GrayArgs>(&mut self, g: &A) {
        self.v -= g.v().into_u32();
        self.a -= g.a().into_u32();
    }

    fn calc_pix<A: GrayArgs>(&mut self, g: &mut A, div: u32) {
        *g.a_mut() = A::ValueType::from_u32(self.a / div);
        *g.v_mut() = A::ValueType::from_u32(self.v / div);
    }

    fn calc_pix_mul<A: GrayArgs>(&mut self, g: &mut A, mul: u32, shr: u32) {
        *g.a_mut() = A::ValueType::from_u32(self.a.wrapping_mul(mul) >> shr);
        *g.v_mut() = A::ValueType::from_u32(self.v.wrapping_mul(mul) >> shr);
    }
}

/// Taking away what was added restores the sums: the stack blur adds each
/// pixel as it enters the window and subtracts it as it leaves.
pub proof fn lemma_add_then_sub(sums: (u32, u32, u32, u32), c: (u32, u32, u32, u32))
    requires
        sums.0 + c.0 <= u32::MAX,
        sums.1 + c.1 <= u32::MAX,
        sums.2 + c.2 <= u32::MAX,
        sums.3 + c.3 <= u32::MAX,
    ensures
        ({
            let after = (
                (sums.0 + c.0) as u32,
                (sums.1 + c.1) as u32,
                (sums.2 + c.2) as u32,
                (sums.3 + c.3) as u32,
            );
            &&& after.0 >= c.0 && after.1 >= c.1 && after.2 >= c.2 && after.3 >= c.3
            &&& ((after.0 - c.0) as u32, (after.1 - c.1) as u32, (after.2 - c.2) as u32, (after.3 - c.3) as u32) == sums
        }),
{
}

/// The sample of `line` nearest to `j`: the edge samples repeat beyond the
/// ends.
pub open spec fn sample(line: Seq<u8>, j: int) -> int {
    if j < 0 {
        line[0] as int
    } else if j >= line.len() {
        line[line.len() - 1] as int
    } else {
        line[j] as int
    }
}

/// The sum of the samples from `a` up to but not including `b`.
pub open spec fn seg(line: Seq<u8>, a: int, b: int) -> int
    decreases b - a,
{
    if b <= a {
        0
    } else {
        seg(line, a, b - 1) + sample(line, b - 1)
    }
}

/// The stack of nested windows around `k`: the windows of half-widths `0`
/// to `m` summed, so that the sample at distance `d` counts `m + 1 - |d|`
/// times.
pub open spec fn tri(line: Seq<u8>, k: int, m: nat) -> int
    decreases m,
{
    if m == 0 {
        seg(line, k, k + 1)
    } else {
        tri(line, k, (m - 1) as nat) + seg(line, k - m, k + m + 1)
    }
}

/// The blurred value of sample `k` with radius `r`: the stack sum scaled by
/// `mul` and shifted right by `shr`, which approximates a division by
/// `(r + 1)^2`; the product wraps in 32 bits.
pub open spec fn blur_value(line: Seq<u8>, k: int, r: nat, mul: u32, shr: u32) -> u8 {
    (vstd::wrapping::u32_specs::wrapping_mul(tri(line, k, r) as u32, mul) >> shr) as u8
}

/// The position of sample `k` of a line that starts at `base` and steps by
/// `step`.
pub open spec fn line_pos(base: int, step: int, k: int) -> int {
    base + k * step
}

/// Byte `i` is one of the first `n` samples of the line.
pub open spec fn on_line(base: int, step: int, n: int, i: int) -> bool {
    exists|k: int| 0 <= k < n && #[trigger] line_pos(base, step, k) == i
}

pub(crate) proof fn lemma_seg_split(line: Seq<u8>, a: int, b: int, c: int)
    requires
        a <= b <= c,
    ensures
        seg(line, a, c) == seg(line, a, b) + seg(line, b, c),
    decreases c - b,
{
    if c > b {
        lemma_seg_split(line, a, b, c - 1);
    }
}

pub(crate) proof fn lemma_seg_one(line: Seq<u8>, a: int)
    ensures
        seg(line, a, a + 1) == sample(line, a),
{
    assert(seg(line, a, a) == 0);
}

/// The position of sample `k` of a line.
fn line_index(base: usize, step: i64, k: u32) -> (p: usize)
    requires
        0 <= line_pos(base as int, step as int, k as int) <= usize::MAX,
    ensures
        p == line_pos(base as int, step as int, k as int),
{
    assert(-0x8000_0000_0000_0000_0000_0000int <= (k as int) * (step as int) <= 0x8000_0000_0000_0000_0000_0000int)
        by (nonlinear_arith)
        requires
            0 <= k <= u32::MAX,
            i64::MIN <= step <= i64::MAX,
    ;
    (base as i128 + (k as i128) * (step as i128)) as usize
}

pub(crate) proof fn lemma_sample_bounds(line: Seq<u8>, j: int)
    requires
        line.len() > 0,
    ensures
        0 <= sample(line, j) <= 255,
{
}

pub(crate) proof fn lemma_seg_bounds(line: Seq<u8>, a: int, b: int)
    requires
        line.len() > 0,
        a <= b,
    ensures
        0 <= seg(line, a, b) <= 255 * (b - a),
    decreases b - a,
{
    if b > a {
        lemma_seg_bounds(line, a, b - 1);
        lemma_sample_bounds(line, b - 1);
    }
}

/// The stack sum is at least its widest window and at most
/// `255 (m + 1)^2`.
pub(crate) proof fn lemma_tri_bounds(line: Seq<u8>, k: int, m: nat)
    requires
        line.len() > 0,
    ensures
        seg(line, k - m, k + m + 1) <= tri(line, k, m) <= 255 * (m + 1) * (m + 1),
        0 <= tri(line, k, m),
    decreases m,
{
    lemma_seg_bounds(line, k - m, k + m + 1);
    if m > 0 {
        lemma_tri_bounds(line, k, (m - 1) as nat);
        assert(255 * (m - 1 + 1) * (m - 1 + 1) + 255 * (2 * m + 1) == 255 * (m + 1) * (m + 1))
            by (nonlinear_arith);
    }
}

/// Moving the stack one sample on drops the left half of the widest window
/// and adds the samples up to `m + 1` ahead.
pub(crate) proof fn lemma_tri_step(line: Seq<u8>, k: int, m: nat)
    ensures
        tri(line, k + 1, m) == tri(line, k, m) - seg(line, k - m, k + 1) + seg(line, k + 1, k + m + 2),
    decreases m,
{
    if m == 0 {
        lemma_seg_split(line, k, k + 1, k + 2);
    } else {
        lemma_tri_step(line, k, (m - 1) as nat);
        lemma_seg_split(line, k - m, k - m + 1, k + 1);
        lemma_seg_split(line, k + 1, k + m + 1, k + m + 2);
        lemma_seg_split(line, k + 1 - m, k + 1, k + m + 2);
        lemma_seg_split(line, k - m, k + 1, k + m + 1);
        lemma_seg_split(line, k - m + 1, k + 1, k + m + 1);
        lemma_seg_split(line, k - m, k - m + 1, k + m + 1);
        lemma_seg_split(line, k + 1 - m, k + m + 1, k + m + 2);
    }
}

/// Distinct samples of a line with a nonzero step lie at distinct
/// positions.
proof fn lemma_line_pos_injective(base: int, step: int, j: int, k: int)
    requires
        step != 0,
        j != k,
    ensures
        line_pos(base, step, j) != line_pos(base, step, k),
{
    assert((j - k) * step != 0) by (nonlinear_arith)
        requires
            step != 0,
            j != k,
    ;
    assert(j * step - k * step == (j - k) * step) by (nonlinear_arith);
}

/// Blurs the `n` samples of a line of `img` in place with the stack blur of
/// radius `r`, keeping every other byte.
fn stack_blur_line(img: &mut RenderBuf, base: usize, step: i64, n: u32, r: u32, mul: u32, shr: u32)
    requires
        1 <= n,
        1 <= r <= 254,
        shr < 32,
        step != 0,
        forall|k: int|
            0 <= k < n ==> 0 <= #[trigger] line_pos(base as int, step as int, k) < old(img).bytes().len(),
    ensures
        final(img).dims() == old(img).dims(),
        final(img).bytes().len() == old(img).bytes().len(),
        forall|k: int|
            0 <= k < n ==> final(img).bytes()[#[trigger] line_pos(base as int, step as int, k)]
                == blur_value(
                Seq::new(n as nat, |j: int| old(img).bytes()[line_pos(base as int, step as int, j)]),
                k,
                r as nat,
                mul,
                shr,
            ),
        forall|i: int|
            0 <= i < old(img).bytes().len() && !on_line(base as int, step as int, n as int, i)
                ==> #[trigger] final(img).bytes()[i] == old(img).bytes()[i],
{
    let ghost old_bytes = img.bytes();
    let ghost old_line = Seq::new(n as nat, |j: int| old_bytes[line_pos(base as int, step as int, j)]);
    let blen = img.as_bytes().len();
    let mut line: Vec<u8> = Vec::new();
    let mut k: u32 = 0;
    while k < n
        invariant
            k <= n,
            img.bytes() == old_bytes,
            blen == old_bytes.len(),
            old_line == Seq::new(n as nat, |j: int| old_bytes[line_pos(base as int, step as int, j)]),
            line@.len() == k,
            forall|j: int| 0 <= j < k ==> #[trigger] line@[j] == old_line[j],
            forall|j: int|
                0 <= j < n ==> 0 <= #[trigger] line_pos(base as int, step as int, j) < old_bytes.len(),
        decreases n - k,
    {
        let p = line_index(base, step, k);
        line.push(img.byte_at(p));
        k += 1;
    }
    assert(line@ =~= old_line);
    let ghost rn = r as nat;
    let last = (n - 1) as i64;
    // The widest window at sample 0, and the stack sum built from it.
    let mut cur: u32 = line[0] as u32;
    let mut sum: u32 = cur;
    let mut t: u32 = 1;
    proof {
        lemma_seg_one(old_line, 0);
        lemma_tri_bounds(old_line, 0, 0);
    }
    while t <= r
        invariant
            1 <= t <= r + 1,
            r <= 254,
            line@ == old_line,
            old_line.len() == n,
            n >= 1,
            last == n - 1,
            cur == seg(old_line, -(t - 1), t as int),
            sum == tri(old_line, 0, (t - 1) as nat),
        decreases r + 1 - t,
    {
        let lo = line[0] as u32;
        let hi = if (t as i64) > last {
            line[last as usize] as u32
        } else {
            line[t as usize] as u32
        };
        proof {
            lemma_seg_one(old_line, -(t as int));
            lemma_seg_one(old_line, t as int);
            lemma_seg_split(old_line, -(t as int), -(t - 1), t as int);
            lemma_seg_split(old_line, -(t as int), t as int, t + 1);
            lemma_seg_bounds(old_line, -(t as int), t + 1);
            lemma_tri_bounds(old_line, 0, t as nat);
            assert(255 * (t + 1) * (t + 1) <= 255 * 256 * 256) by (nonlinear_arith)
                requires
                    t <= 254,
            ;
        }
        cur = cur + lo + hi;
        sum = sum + cur;
        t += 1;
    }
    // The left half with the centre, and the right half.
    let mut sum_out: u32 = 0;
    let mut sum_in: u32 = 0;
    let mut d: u32 = 0;
    while d <= r
        invariant
            d <= r + 1,
            r <= 254,
            line@ == old_line,
            old_line.len() == n,
            n >= 1,
            last == n - 1,
            sum_out == seg(old_line, -(d as int) + 1, 1),
        decreases r + 1 - d,
    {
        proof {
            lemma_seg_one(old_line, -(d as int));
            lemma_seg_split(old_line, -(d as int), -(d as int) + 1, 1);
            lemma_seg_bounds(old_line, -(d as int), 1);
        }
        sum_out = sum_out + line[0] as u32;
        d += 1;
    }
    let mut d: u32 = 1;
    while d <= r
        invariant
            1 <= d <= r + 1,
            r <= 254,
            line@ == old_line,
            old_line.len() == n,
            n >= 1,
            last == n - 1,
            sum_in == seg(old_line, 1, d as int),
        decreases r + 1 - d,
    {
        let v = if (d as i64) > last {
            line[last as usize] as u32
        } else {
            line[d as usize] as u32
        };
        proof {
            lemma_seg_split(old_line, 1, d as int, d + 1);
            lemma_seg_bounds(old_line, 1, d + 1);
        }
        sum_in = sum_in + v;
        d += 1;
    }
    let mut k: u32 = 0;
    while k < n
        invariant
            k <= n,
            1 <= r <= 254,
            rn == r,
            shr < 32,
            line@ == old_line,
            old_line.len() == n,
            n >= 1,
            last == n - 1,
            step != 0,
            img.dims() == old(img).dims(),
            img.bytes().len() == old_bytes.len(),
            blen == old_bytes.len(),
            sum == tri(old_line, k as int, rn),
            sum_out == seg(old_line, k - r, k + 1),
            sum_in == seg(old_line, k + 1, k + r + 1),
            forall|j: int|
                0 <= j < n ==> 0 <= #[trigger] line_pos(base as int, step as int, j) < old_bytes.len(),
            forall|j: int|
                0 <= j < k ==> img.bytes()[#[trigger] line_pos(base as int, step as int, j)]
                    == blur_value(old_line, j, rn, mul, shr),
            forall|i: int|
                0 <= i < old_bytes.len() && !on_line(base as int, step as int, k as int, i)
                    ==> #[trigger] img.bytes()[i] == old_bytes[i],
        decreases n - k,
    {
        let p = line_index(base, step, k);
        let v = (sum.wrapping_mul(mul) >> shr) as u8;
        proof {
            lemma_tri_bounds(old_line, k as int, rn);
            assert(255 * (r + 1) * (r + 1) <= 255 * 256 * 256) by (nonlinear_arith)
                requires
                    r <= 254,
            ;
        }
        img.set_byte(p, v);
        proof {
            assert forall|j: int|
                0 <= j < k + 1 implies img.bytes()[#[trigger] line_pos(base as int, step as int, j)]
                == blur_value(old_line, j, rn, mul, shr) by {
                if j != k {
                    lemma_line_pos_injective(base as int, step as int, j, k as int);
                }
            }
            assert forall|i: int|
                0 <= i < old_bytes.len() && !on_line(base as int, step as int, k + 1, i)
                    implies #[trigger] img.bytes()[i] == old_bytes[i] by {
                if i == p {
                    assert(line_pos(base as int, step as int, k as int) == i);
                }
                if on_line(base as int, step as int, k as int, i) {
                    let w = choose|w: int| 0 <= w < k && #[trigger] line_pos(base as int, step as int, w) == i;
                    assert(line_pos(base as int, step as int, w) == i);
                }
            }
        }
        // Slide the window one sample on.
        let kk = k as i64;
        let ri = r as i64;
        let left = if kk - ri < 0 {
            line[0] as u32
        } else {
            line[(kk - ri) as usize] as u32
        };
        let ahead = if kk + ri + 1 > last {
            line[last as usize] as u32
        } else {
            line[(kk + ri + 1) as usize] as u32
        };
        let next = if kk + 1 > last {
            line[last as usize] as u32
        } else {
            line[(kk + 1) as usize] as u32
        };
        proof {
            let ki = k as int;
            lemma_seg_one(old_line, ki - r);
            lemma_seg_one(old_line, ki + 1);
            lemma_seg_one(old_line, ki + r + 1);
            lemma_seg_split(old_line, ki - r, ki + 1, ki + r + 1);
            lemma_seg_bounds(old_line, ki + 1, ki + r + 1);
            lemma_seg_bounds(old_line, ki - r + 1, ki + 1);
            lemma_tri_bounds(old_line, ki, rn);
            lemma_tri_step(old_line, ki, rn);
            lemma_tri_bounds(old_line, ki + 1, rn);
            lemma_seg_split(old_line, ki - r, ki - r + 1, ki + 1);
            lemma_seg_split(old_line, ki - r + 1, ki + 1, ki + 2);
            lemma_seg_split(old_line, ki + 1, ki + r + 1, ki + r + 2);
            lemma_seg_split(old_line, ki + 1, ki + 2, ki + r + 2);
            lemma_seg_bounds(old_line, ki - r, ki + 1);
            lemma_seg_bounds(old_line, ki + 1, ki + r + 2);
            lemma_seg_bounds(old_line, ki + 2, ki + r + 2);
            lemma_seg_bounds(old_line, ki - r + 1, ki + 2);
            assert(255 * (r + 1) * (r + 1) <= 255 * 256 * 256) by (nonlinear_arith)
                requires
                    r <= 254,
            ;
        }
        sum = sum - sum_out;
        sum_out = sum_out - left;
        sum_in = sum_in + ahead;
        sum = sum + sum_in;
        sum_out = sum_out + next;
        sum_in = sum_in - next;
        k += 1;
    }
}

/// The position of the channel at `offset` of pixel `(x, y)`, pixels being
/// `step` bytes apart.
pub open spec fn plane_pos(d: (u32, u32, i32), step: u32, offset: u32, x: int, y: int) -> int {
    row_offset(d.1, d.2, y) + x * step + offset
}

/// The channel can be blurred in place: the buffer holds its rows, the
/// image has at least one pixel, pixels are at least a byte apart and the
/// channel byte of every pixel lies within its row.
pub open spec fn plane_ok(rb: RenderBuf, step: u32, offset: u32) -> bool {
    &&& rb.wf()
    &&& rb.dims().0 >= 1
    &&& rb.dims().1 >= 1
    &&& step >= 1
    &&& (rb.dims().0 - 1) * step + offset + 1 <= abs_stride(rb.dims().2)
}

/// Byte `i` is the channel byte of a pixel of the image.
pub open spec fn in_plane(d: (u32, u32, i32), step: u32, offset: u32, i: int) -> bool {
    exists|x: int, y: int| 0 <= x < d.0 && 0 <= y < d.1 && #[trigger] plane_pos(d, step, offset, x, y) == i
}

/// The radius a blur uses: at most 254.
pub open spec fn blur_radius(r: u32) -> u32 {
    if r > 254 {
        254
    } else {
        r
    }
}

/// The channel values of row `y`.
pub open spec fn row_samples(d: (u32, u32, i32), bytes: Seq<u8>, step: u32, offset: u32, y: int) -> Seq<u8> {
    Seq::new(d.0 as nat, |x: int| bytes[plane_pos(d, step, offset, x, y)])
}

/// The channel of pixel `(x, y)` after the horizontal pass of radius `rx`.
pub open spec fn hpass(d: (u32, u32, i32), bytes: Seq<u8>, step: u32, offset: u32, rx: u32, x: int, y: int) -> u8 {
    if rx == 0 {
        bytes[plane_pos(d, step, offset, x, y)]
    } else {
        blur_value(
            row_samples(d, bytes, step, offset, y),
            x,
            blur_radius(rx) as nat,
            STACK_BLUR8_MUL@[blur_radius(rx) as int] as u32,
            STACK_BLUR8_SHR@[blur_radius(rx) as int] as u32,
        )
    }
}

/// The channel values of column `x` after the horizontal pass.
pub open spec fn col_samples(d: (u32, u32, i32), bytes: Seq<u8>, step: u32, offset: u32, rx: u32, x: int) -> Seq<u8> {
    Seq::new(d.1 as nat, |y: int| hpass(d, bytes, step, offset, rx, x, y))
}

/// The channel of pixel `(x, y)` after both passes: horizontal with radius
/// `rx`, then vertical with radius `ry`; a radius of zero skips its pass.
pub open spec fn stack_blurred(
    d: (u32, u32, i32),
    bytes: Seq<u8>,
    step: u32,
    offset: u32,
    rx: u32,
    ry: u32,
    x: int,
    y: int,
) -> u8 {
    if ry == 0 {
        hpass(d, bytes, step, offset, rx, x, y)
    } else {
        blur_value(
            col_samples(d, bytes, step, offset, rx, x),
            y,
            blur_radius(ry) as nat,
            STACK_BLUR8_MUL@[blur_radius(ry) as int] as u32,
            STACK_BLUR8_SHR@[blur_radius(ry) as int] as u32,
        )
    }
}

pub(crate) proof fn lemma_tables()
    ensures
        STACK_BLUR8_MUL@.len() == 255,
        STACK_BLUR8_SHR@.len() == 255,
        forall|i: int| 0 <= i < 255 ==> #[trigger] STACK_BLUR8_SHR@[i] < 32,
{
}

/// The channel byte of a pixel lies within its row.
proof fn lemma_plane_pos_in_row(rb: RenderBuf, step: u32, offset: u32, x: int, y: int)
    requires
        plane_ok(rb, step, offset),
        0 <= x < rb.dims().0,
    ensures
        rb.row_start(y) <= plane_pos(rb.dims(), step, offset, x, y) < rb.row_start(y) + abs_stride(rb.dims().2),
{
    assert(x * step <= (rb.dims().0 - 1) * step) by (nonlinear_arith)
        requires
            x <= rb.dims().0 - 1,
    ;
}

/// Distinct pixels have distinct channel bytes, and channels at distinct
/// offsets below the step never share a byte.
proof fn lemma_plane_pos_injective(
    rb: RenderBuf,
    step: u32,
    o1: u32,
    o2: u32,
    x1: int,
    y1: int,
    x2: int,
    y2: int,
)
    requires
        plane_ok(rb, step, o1),
        plane_ok(rb, step, o2),
        o1 < step,
        o2 < step,
        0 <= x1 < rb.dims().0,
        0 <= y1 < rb.dims().1,
        0 <= x2 < rb.dims().0,
        0 <= y2 < rb.dims().1,
        plane_pos(rb.dims(), step, o1, x1, y1) == plane_pos(rb.dims(), step, o2, x2, y2),
    ensures
        x1 == x2,
        y1 == y2,
        o1 == o2,
{
    lemma_plane_pos_in_row(rb, step, o1, x1, y1);
    lemma_plane_pos_in_row(rb, step, o2, x2, y2);
    if y1 < y2 {
        lemma_rows_disjoint(rb.dims().1, rb.dims().2, y1, y2);
    } else if y2 < y1 {
        lemma_rows_disjoint(rb.dims().1, rb.dims().2, y2, y1);
    }
    assert(y1 == y2);
    assert(x1 * step + o1 == x2 * step + o2);
    assert(x1 == x2 && o1 == o2) by (nonlinear_arith)
        requires
            x1 * step + o1 == x2 * step + o2,
            0 <= o1 < step,
            0 <= o2 < step,
            0 <= x1,
            0 <= x2,
    ;
}

/// Row `y` starts `y` strides after row 0, whatever the sign of the stride.
proof fn lemma_row_start_linear(rb: RenderBuf, y: int)
    requires
        rb.wf(),
    ensures
        rb.row_start(y) == rb.row_start(0) + y * rb.dims().2,
{
    let s = rb.dims().2;
    let h = rb.dims().1;
    if s < 0 {
        assert((h - 1 - y) * (-s) == (h - 1) * (-s) + y * s) by (nonlinear_arith);
    }
}

/// Two byte sequences that agree on the channel bytes blur to the same
/// values.
proof fn lemma_blur_congruent(
    d: (u32, u32, i32),
    b1: Seq<u8>,
    b2: Seq<u8>,
    step: u32,
    offset: u32,
    rx: u32,
    ry: u32,
)
    requires
        forall|x: int, y: int|
            0 <= x < d.0 && 0 <= y < d.1 ==> #[trigger] b1[plane_pos(d, step, offset, x, y)]
                == b2[plane_pos(d, step, offset, x, y)],
    ensures
        forall|x: int, y: int|
            0 <= x < d.0 && 0 <= y < d.1 ==> #[trigger] stack_blurred(d,
                b1,
                step,
                offset,
                rx,
                ry,
                x,
                y,
            ) == stack_blurred(d, b2, step, offset, rx, ry, x, y),
{
    assert forall|y: int| 0 <= y < d.1 implies #[trigger] row_samples(d, b1, step, offset, y)
        == row_samples(d, b2, step, offset, y) by {
        assert(row_samples(d, b1, step, offset, y) =~= row_samples(d, b2, step, offset, y));
    }
    assert forall|x: int, y: int|
        0 <= x < d.0 && 0 <= y < d.1 implies #[trigger] hpass(d, b1, step, offset, rx, x, y)
        == hpass(d, b2, step, offset, rx, x, y) by {
        assert(row_samples(d, b1, step, offset, y) == row_samples(d, b2, step, offset, y));
    }
    assert forall|x: int| 0 <= x < d.0 implies #[trigger] col_samples(d, b1, step, offset, rx, x)
        == col_samples(d, b2, step, offset, rx, x) by {
        assert(col_samples(d, b1, step, offset, rx, x) =~= col_samples(d, b2, step, offset, rx, x));
    }
}

/// One row of the horizontal pass: the row takes its blurred values, every
/// other byte is kept.
proof fn lemma_row_pass(
    rb0: RenderBuf,
    step: u32,
    offset: u32,
    rx: u32,
    old_bytes: Seq<u8>,
    before: Seq<u8>,
    after: Seq<u8>,
    y: int,
    base: int,
    lstep: int,
    r: u32,
    mul: u32,
    shr: u32,
)
    requires
        plane_ok(rb0, step, offset),
        offset < step,
        rx > 0,
        r == blur_radius(rx),
        mul == STACK_BLUR8_MUL@[r as int] as u32,
        shr == STACK_BLUR8_SHR@[r as int] as u32,
        lstep == step,
        old_bytes == rb0.bytes(),
        before.len() == old_bytes.len(),
        after.len() == old_bytes.len(),
        0 <= y < rb0.dims().1,
        base == rb0.row_start(y) + offset,
        forall|x: int, yy: int|
            0 <= x < rb0.dims().0 && 0 <= yy < rb0.dims().1 ==> before[#[trigger] plane_pos(rb0.dims(),
                step,
                offset,
                x,
                yy,
            )] == (if yy < y {
                hpass(rb0.dims(), old_bytes, step, offset, rx, x, yy)
            } else {
                old_bytes[plane_pos(rb0.dims(), step, offset, x, yy)]
            }),
        forall|i: int|
            0 <= i < old_bytes.len() && !in_plane(rb0.dims(), step, offset, i) ==> #[trigger] before[i]
                == old_bytes[i],
        forall|k: int|
            0 <= k < rb0.dims().0 ==> after[#[trigger] line_pos(base, lstep, k)] == blur_value(
                Seq::new(rb0.dims().0 as nat, |j: int| before[line_pos(base, lstep, j)]),
                k,
                r as nat,
                mul,
                shr,
            ),
        forall|i: int|
            0 <= i < before.len() && !on_line(base, lstep, rb0.dims().0 as int, i) ==> #[trigger] after[i]
                == before[i],
    ensures
        forall|x: int, yy: int|
            0 <= x < rb0.dims().0 && 0 <= yy < rb0.dims().1 ==> after[#[trigger] plane_pos(rb0.dims(),
                step,
                offset,
                x,
                yy,
            )] == (if yy < y + 1 {
                hpass(rb0.dims(), old_bytes, step, offset, rx, x, yy)
            } else {
                old_bytes[plane_pos(rb0.dims(), step, offset, x, yy)]
            }),
        forall|i: int|
            0 <= i < old_bytes.len() && !in_plane(rb0.dims(), step, offset, i) ==> #[trigger] after[i]
                == old_bytes[i],
{
    let w = rb0.dims().0;
    let h = rb0.dims().1;
    let line = Seq::new(w as nat, |j: int| before[line_pos(base, lstep, j)]);
    assert(line =~= row_samples(rb0.dims(), old_bytes, step, offset, y)) by {
        assert forall|j: int| 0 <= j < w implies #[trigger] line[j] == row_samples(rb0.dims(),
            old_bytes,
            step,
            offset,
            y,
        )[j] by {
            assert(line_pos(base, lstep, j) == plane_pos(rb0.dims(), step, offset, j, y));
        }
    }
    assert forall|x: int, yy: int|
        0 <= x < w && 0 <= yy < h implies after[#[trigger] plane_pos(rb0.dims(), step, offset, x, yy)] == (if yy
        < y + 1 {
        hpass(rb0.dims(), old_bytes, step, offset, rx, x, yy)
    } else {
        old_bytes[plane_pos(rb0.dims(), step, offset, x, yy)]
    }) by {
        let pp = plane_pos(rb0.dims(), step, offset, x, yy);
        lemma_plane_pos_in_row(rb0, step, offset, x, yy);
        lemma_row_fits(rb0, yy);
        if yy == y {
            assert(line_pos(base, lstep, x) == pp);
        } else {
            if on_line(base, lstep, w as int, pp) {
                let k = choose|k: int| 0 <= k < w && #[trigger] line_pos(base, lstep, k) == pp;
                assert(line_pos(base, lstep, k) == plane_pos(rb0.dims(), step, offset, k, y));
                lemma_plane_pos_injective(rb0, step, offset, offset, k, y, x, yy);
            }
        }
    }
    assert forall|i: int|
        0 <= i < old_bytes.len() && !in_plane(rb0.dims(), step, offset, i) implies #[trigger] after[i]
        == old_bytes[i] by {
        if on_line(base, lstep, w as int, i) {
            let k = choose|k: int| 0 <= k < w && #[trigger] line_pos(base, lstep, k) == i;
            assert(line_pos(base, lstep, k) == plane_pos(rb0.dims(), step, offset, k, y));
            assert(in_plane(rb0.dims(), step, offset, i));
        }
    }
}

/// One column of the vertical pass: the column takes its blurred values,
/// every other byte is kept.
proof fn lemma_column_pass(
    rb0: RenderBuf,
    step: u32,
    offset: u32,
    rx: u32,
    ry: u32,
    old_bytes: Seq<u8>,
    mid: Seq<u8>,
    before: Seq<u8>,
    after: Seq<u8>,
    x: int,
    base: int,
    lstep: int,
    r: u32,
    mul: u32,
    shr: u32,
)
    requires
        plane_ok(rb0, step, offset),
        offset < step,
        ry > 0,
        r == blur_radius(ry),
        mul == STACK_BLUR8_MUL@[r as int] as u32,
        shr == STACK_BLUR8_SHR@[r as int] as u32,
        lstep == rb0.dims().2,
        old_bytes == rb0.bytes(),
        before.len() == old_bytes.len(),
        after.len() == old_bytes.len(),
        0 <= x < rb0.dims().0,
        base == rb0.row_start(0) + x * step + offset,
        forall|xx: int, yy: int|
            0 <= xx < rb0.dims().0 && 0 <= yy < rb0.dims().1 ==> mid[#[trigger] plane_pos(rb0.dims(),
                step,
                offset,
                xx,
                yy,
            )] == hpass(rb0.dims(), old_bytes, step, offset, rx, xx, yy),
        forall|xx: int, yy: int|
            0 <= xx < rb0.dims().0 && 0 <= yy < rb0.dims().1 ==> before[#[trigger] plane_pos(rb0.dims(),
                step,
                offset,
                xx,
                yy,
            )] == (if xx < x {
                stack_blurred(rb0.dims(), old_bytes, step, offset, rx, ry, xx, yy)
            } else {
                mid[plane_pos(rb0.dims(), step, offset, xx, yy)]
            }),
        forall|i: int|
            0 <= i < old_bytes.len() && !in_plane(rb0.dims(), step, offset, i) ==> #[trigger] before[i]
                == old_bytes[i],
        forall|k: int|
            0 <= k < rb0.dims().1 ==> after[#[trigger] line_pos(base, lstep, k)] == blur_value(
                Seq::new(rb0.dims().1 as nat, |j: int| before[line_pos(base, lstep, j)]),
                k,
                r as nat,
                mul,
                shr,
            ),
        forall|i: int|
            0 <= i < before.len() && !on_line(base, lstep, rb0.dims().1 as int, i) ==> #[trigger] after[i]
                == before[i],
    ensures
        forall|xx: int, yy: int|
            0 <= xx < rb0.dims().0 && 0 <= yy < rb0.dims().1 ==> after[#[trigger] plane_pos(rb0.dims(),
                step,
                offset,
                xx,
                yy,
            )] == (if xx < x + 1 {
                stack_blurred(rb0.dims(), old_bytes, step, offset, rx, ry, xx, yy)
            } else {
                mid[plane_pos(rb0.dims(), step, offset, xx, yy)]
            }),
        forall|i: int|
            0 <= i < old_bytes.len() && !in_plane(rb0.dims(), step, offset, i) ==> #[trigger] after[i]
                == old_bytes[i],
{
    let w = rb0.dims().0;
    let h = rb0.dims().1;
    let line = Seq::new(h as nat, |j: int| before[line_pos(base, lstep, j)]);
    assert forall|j: int| #![trigger line_pos(base, lstep, j)] true implies line_pos(base, lstep, j)
        == plane_pos(rb0.dims(), step, offset, x, j) by {
        lemma_row_start_linear(rb0, j);
    }
    assert(line =~= col_samples(rb0.dims(), old_bytes, step, offset, rx, x)) by {
        assert forall|j: int| 0 <= j < h implies #[trigger] line[j] == col_samples(rb0.dims(),
            old_bytes,
            step,
            offset,
            rx,
            x,
        )[j] by {
            assert(line_pos(base, lstep, j) == plane_pos(rb0.dims(), step, offset, x, j));
        }
    }
    assert forall|xx: int, yy: int|
        0 <= xx < w && 0 <= yy < h implies after[#[trigger] plane_pos(rb0.dims(), step, offset, xx, yy)] == (if xx
        < x + 1 {
        stack_blurred(rb0.dims(), old_bytes, step, offset, rx, ry, xx, yy)
    } else {
        mid[plane_pos(rb0.dims(), step, offset, xx, yy)]
    }) by {
        let pp = plane_pos(rb0.dims(), step, offset, xx, yy);
        lemma_plane_pos_in_row(rb0, step, offset, xx, yy);
        lemma_row_fits(rb0, yy);
        if xx == x {
            assert(line_pos(base, lstep, yy) == pp);
        } else {
            if on_line(base, lstep, h as int, pp) {
                let k = choose|k: int| 0 <= k < h && #[trigger] line_pos(base, lstep, k) == pp;
                assert(line_pos(base, lstep, k) == plane_pos(rb0.dims(), step, offset, x, k));
                lemma_plane_pos_injective(rb0, step, offset, offset, x, k, xx, yy);
            }
        }
    }
    assert forall|i: int|
        0 <= i < old_bytes.len() && !in_plane(rb0.dims(), step, offset, i) implies #[trigger] after[i]
        == old_bytes[i] by {
        if on_line(base, lstep, h as int, i) {
            let k = choose|k: int| 0 <= k < h && #[trigger] line_pos(base, lstep, k) == i;
            assert(line_pos(base, lstep, k) == plane_pos(rb0.dims(), step, offset, x, k));
            assert(in_plane(rb0.dims(), step, offset, i));
        }
    }
}

/// Blurs the channel at `offset` of every pixel in place: first along the
/// rows with radius `rx`, then along the columns with radius `ry`; every
/// other byte is kept.
#[verifier::rlimit(60)]
fn blur_plane(img: &mut RenderBuf, step: u32, offset: u32, rx: u32, ry: u32)
    requires
        plane_ok(*old(img), step, offset),
        offset < step,
    ensures
        final(img).dims() == old(img).dims(),
        final(img).bytes().len() == old(img).bytes().len(),
        forall|x: int, y: int|
            0 <= x < old(img).dims().0 && 0 <= y < old(img).dims().1 ==> final(img).bytes()[#[trigger] plane_pos(old(img).dims(),
                step,
                offset,
                x,
                y,
            )] == stack_blurred(old(img).dims(), old(img).bytes(), step, offset, rx, ry, x, y),
        forall|i: int|
            0 <= i < old(img).bytes().len() && !in_plane(old(img).dims(), step, offset, i)
                ==> #[trigger] final(img).bytes()[i] == old(img).bytes()[i],
{
    let ghost rb0 = *img;
    let ghost old_bytes = img.bytes();
    let blen = img.as_bytes().len();
    let w = img.width();
    let h = img.height();
    proof {
        lemma_tables();
    }
    if rx > 0 {
        let r: u32 = if rx > 254 {
            254
        } else {
            rx
        };
        let mul = STACK_BLUR8_MUL[r as usize] as u32;
        let shr = STACK_BLUR8_SHR[r as usize] as u32;
        let mut y: u32 = 0;
        while y < h
            invariant
                y <= h,
                h == rb0.dims().1,
                w == rb0.dims().0,
                r == blur_radius(rx),
                rx > 0,
                mul == STACK_BLUR8_MUL@[r as int] as u32,
                shr == STACK_BLUR8_SHR@[r as int] as u32,
                shr < 32,
                offset < step,
                blen == old_bytes.len(),
                plane_ok(rb0, step, offset),
                img.dims() == rb0.dims(),
                img.bytes().len() == old_bytes.len(),
                old_bytes == rb0.bytes(),
                forall|x: int, yy: int|
                    0 <= x < w && 0 <= yy < h ==> img.bytes()[#[trigger] plane_pos(rb0.dims(), step, offset, x, yy)]
                        == (if yy < y {
                        hpass(rb0.dims(), old_bytes, step, offset, rx, x, yy)
                    } else {
                        old_bytes[plane_pos(rb0.dims(), step, offset, x, yy)]
                    }),
                forall|i: int|
                    0 <= i < old_bytes.len() && !in_plane(rb0.dims(), step, offset, i) ==> #[trigger] img.bytes()[i]
                        == old_bytes[i],
            decreases h - y,
        {
            let row = img.row_offset(y);
            proof {
                lemma_plane_pos_in_row(rb0, step, offset, 0, y as int);
            }
            let base = row + offset as usize;
            let ghost before = img.bytes();
            proof {
                assert forall|k: int| 0 <= k < w implies 0 <= #[trigger] line_pos(base as int, step as int, k)
                    < before.len() by {
                    lemma_plane_pos_in_row(rb0, step, offset, k, y as int);
                    assert(line_pos(base as int, step as int, k) == plane_pos(rb0.dims(), step, offset, k, y as int));
                }
            }
            stack_blur_line(img, base, step as i64, w, r, mul, shr);
            proof {
                lemma_row_pass(
                    rb0,
                    step,
                    offset,
                    rx,
                    old_bytes,
                    before,
                    img.bytes(),
                    y as int,
                    base as int,
                    (step as i64) as int,
                    r,
                    mul,
                    shr,
                );
            }
            y += 1;
        }
    }
    let ghost mid = img.bytes();
    assert forall|x: int, yy: int|
        0 <= x < w && 0 <= yy < h implies mid[#[trigger] plane_pos(rb0.dims(), step, offset, x, yy)] == hpass(rb0.dims(),
        old_bytes,
        step,
        offset,
        rx,
        x,
        yy,
    ) by {}
    if ry > 0 {
        let r: u32 = if ry > 254 {
            254
        } else {
            ry
        };
        let mul = STACK_BLUR8_MUL[r as usize] as u32;
        let shr = STACK_BLUR8_SHR[r as usize] as u32;
        let stride = img.stride();
        let row0 = img.row_offset(0);
        let mut x: u32 = 0;
        while x < w
            invariant
                x <= w,
                h == rb0.dims().1,
                w == rb0.dims().0,
                r == blur_radius(ry),
                ry > 0,
                mul == STACK_BLUR8_MUL@[r as int] as u32,
                shr == STACK_BLUR8_SHR@[r as int] as u32,
                shr < 32,
                stride == rb0.dims().2,
                row0 == rb0.row_start(0),
                row0 + abs_stride(rb0.dims().2) <= old_bytes.len(),
                offset < step,
                blen == old_bytes.len(),
                plane_ok(rb0, step, offset),
                img.dims() == rb0.dims(),
                img.bytes().len() == old_bytes.len(),
                old_bytes == rb0.bytes(),
                mid.len() == old_bytes.len(),
                forall|xx: int, yy: int|
                    0 <= xx < w && 0 <= yy < h ==> mid[#[trigger] plane_pos(rb0.dims(), step, offset, xx, yy)] == hpass(rb0.dims(),
                        old_bytes,
                        step,
                        offset,
                        rx,
                        xx,
                        yy,
                    ),
                forall|xx: int, yy: int|
                    0 <= xx < w && 0 <= yy < h ==> img.bytes()[#[trigger] plane_pos(rb0.dims(), step, offset, xx, yy)]
                        == (if xx < x {
                        stack_blurred(rb0.dims(), old_bytes, step, offset, rx, ry, xx, yy)
                    } else {
                        mid[plane_pos(rb0.dims(), step, offset, xx, yy)]
                    }),
                forall|i: int|
                    0 <= i < old_bytes.len() && !in_plane(rb0.dims(), step, offset, i) ==> #[trigger] img.bytes()[i]
                        == old_bytes[i],
            decreases w - x,
        {
            proof {
                lemma_plane_pos_in_row(rb0, step, offset, x as int, 0);
                assert(x * step <= (w - 1) * step) by (nonlinear_arith)
                    requires
                        x <= w - 1,
                ;
            }
            let base = row0 + (x as usize) * (step as usize) + offset as usize;
            let ghost before = img.bytes();
            proof {
                assert forall|k: int| 0 <= k < h implies 0 <= #[trigger] line_pos(base as int, stride as int, k)
                    < before.len() by {
                    lemma_row_start_linear(rb0, k);
                    lemma_plane_pos_in_row(rb0, step, offset, x as int, k);
                    assert(line_pos(base as int, stride as int, k) == plane_pos(rb0.dims(), step, offset, x as int, k));
                    assert(rb0.row_start(k) + abs_stride(rb0.dims().2) <= rb0.bytes().len()) by {
                        assert(k * abs_stride(stride) + abs_stride(stride) <= h * abs_stride(stride))
                            by (nonlinear_arith)
                            requires
                                k < h,
                        ;
                        assert((h - 1 - k) * abs_stride(stride) + abs_stride(stride) <= h * abs_stride(stride))
                            by (nonlinear_arith)
                            requires
                                0 <= k,
                        ;
                    }
                }
            }
            stack_blur_line(img, base, stride as i64, h, r, mul, shr);
            proof {
                lemma_column_pass(
                    rb0,
                    step,
                    offset,
                    rx,
                    ry,
                    old_bytes,
                    mid,
                    before,
                    img.bytes(),
                    x as int,
                    base as int,
                    (stride as i64) as int,
                    r,
                    mul,
                    shr,
                );
            }
            x += 1;
        }
    }
}

/// Channels at distinct offsets never share a byte.
proof fn lemma_planes_apart(rb: RenderBuf, step: u32, o1: u32, o2: u32, x: int, y: int)
    requires
        plane_ok(rb, step, o1),
        plane_ok(rb, step, o2),
        o1 < step,
        o2 < step,
        o1 != o2,
        0 <= x < rb.dims().0,
        0 <= y < rb.dims().1,
    ensures
        !in_plane(rb.dims(), step, o2, plane_pos(rb.dims(), step, o1, x, y)),
{
    if in_plane(rb.dims(), step, o2, plane_pos(rb.dims(), step, o1, x, y)) {
        let (x2, y2) = choose|x2: int, y2: int|
            0 <= x2 < rb.dims().0 && 0 <= y2 < rb.dims().1 && #[trigger] plane_pos(rb.dims(), step, o2, x2, y2)
                == plane_pos(rb.dims(), step, o1, x, y);
        lemma_plane_pos_injective(rb, step, o1, o2, x, y, x2, y2);
    }
}

/// The stack blur of a gray image in place: the gray value of each pixel,
/// `STEP` bytes apart at `OFFSET`, is blurred along the rows with radius
/// `rx` and then along the columns with radius `ry` (each at most 254, zero
/// skipping its pass); every other byte is kept.
pub fn stack_blur_gray8<const STEP: u32, const OFFSET: u32>(img: &mut RenderBuf, rx: u32, ry: u32)
    requires
        plane_ok(*old(img), STEP, OFFSET),
        OFFSET < STEP,
    ensures
        final(img).dims() == old(img).dims(),
        final(img).bytes().len() == old(img).bytes().len(),
        forall|x: int, y: int|
            0 <= x < old(img).dims().0 && 0 <= y < old(img).dims().1 ==> final(img).bytes()[#[trigger] plane_pos(old(img).dims(),
                STEP,
                OFFSET,
                x,
                y,
            )] == stack_blurred(old(img).dims(), old(img).bytes(), STEP, OFFSET, rx, ry, x, y),
        forall|i: int|
            0 <= i < old(img).bytes().len() && !in_plane(old(img).dims(), STEP, OFFSET, i)
                ==> #[trigger] final(img).bytes()[i] == old(img).bytes()[i],
{
    blur_plane(img, STEP, OFFSET, rx, ry);
}

/// The three channels of an RGB image at the offsets of order `O`, pixels
/// `O`'s pixel width apart, can be blurred in place.
pub open spec fn rgb_planes_ok<O: Order>(rb: RenderBuf) -> bool {
    let step = O::spec_tag() as u32;
    &&& O::spec_tag() <= u32::MAX
    &&& O::spec_r() < O::spec_tag()
    &&& O::spec_g() < O::spec_tag()
    &&& O::spec_b() < O::spec_tag()
    &&& O::spec_r() != O::spec_g()
    &&& O::spec_r() != O::spec_b()
    &&& O::spec_g() != O::spec_b()
    &&& plane_ok(rb, step, O::spec_r() as u32)
    &&& plane_ok(rb, step, O::spec_g() as u32)
    &&& plane_ok(rb, step, O::spec_b() as u32)
}

/// Blurs the three channels in turn; each keeps the bytes of the others.
fn blur_rgb_planes(img: &mut RenderBuf, step: u32, r: u32, g: u32, b: u32, rx: u32, ry: u32)
    requires
        r < step && g < step && b < step,
        r != g && r != b && g != b,
        plane_ok(*old(img), step, r),
        plane_ok(*old(img), step, g),
        plane_ok(*old(img), step, b),
    ensures
        final(img).dims() == old(img).dims(),
        final(img).bytes().len() == old(img).bytes().len(),
        forall|c: u32, x: int, y: int|
            (c == r || c == g || c == b) && 0 <= x < old(img).dims().0 && 0 <= y < old(img).dims().1
                ==> final(img).bytes()[#[trigger] plane_pos(old(img).dims(), step, c, x, y)] == stack_blurred(old(img).dims(),
                old(img).bytes(),
                step,
                c,
                rx,
                ry,
                x,
                y,
            ),
        forall|i: int|
            0 <= i < old(img).bytes().len() && !in_plane(old(img).dims(), step, r, i) && !in_plane(old(img).dims(), step, g, i)
                && !in_plane(old(img).dims(), step, b, i) ==> #[trigger] final(img).bytes()[i] == old(img).bytes()[i],
{
    let ghost rb0 = *img;
    let ghost b0 = img.bytes();
    blur_plane(img, step, r, rx, ry);
    let ghost b1 = img.bytes();
    proof {
        assert forall|x: int, y: int| 0 <= x < rb0.dims().0 && 0 <= y < rb0.dims().1 implies #[trigger] b1[plane_pos(rb0.dims(), step, g, x, y)]
            == b0[plane_pos(rb0.dims(), step, g, x, y)] by {
            lemma_planes_apart(rb0, step, g, r, x, y);
            lemma_plane_pos_in_row(rb0, step, g, x, y);
            lemma_row_fits(rb0, y);
        }
        lemma_blur_congruent(rb0.dims(), b1, b0, step, g, rx, ry);
    }
    blur_plane(img, step, g, rx, ry);
    let ghost b2 = img.bytes();
    proof {
        assert forall|x: int, y: int| 0 <= x < rb0.dims().0 && 0 <= y < rb0.dims().1 implies #[trigger] b2[plane_pos(rb0.dims(), step, b, x, y)]
            == b0[plane_pos(rb0.dims(), step, b, x, y)] by {
            lemma_planes_apart(rb0, step, b, r, x, y);
            lemma_planes_apart(rb0, step, b, g, x, y);
            lemma_plane_pos_in_row(rb0, step, b, x, y);
            lemma_row_fits(rb0, y);
        }
        lemma_blur_congruent(rb0.dims(), b2, b0, step, b, rx, ry);
    }
    blur_plane(img, step, b, rx, ry);
    proof {
        assert forall|c: u32, x: int, y: int|
            (c == r || c == g || c == b) && 0 <= x < rb0.dims().0 && 0 <= y < rb0.dims().1 implies img.bytes()[#[trigger] plane_pos(rb0.dims(),
            step,
            c,
            x,
            y,
        )] == stack_blurred(rb0.dims(), b0, step, c, rx, ry, x, y) by {
            lemma_plane_pos_in_row(rb0, step, c, x, y);
            lemma_row_fits(rb0, y);
            if c == r {
                lemma_planes_apart(rb0, step, r, g, x, y);
                lemma_planes_apart(rb0, step, r, b, x, y);
            } else if c == g {
                lemma_planes_apart(rb0, step, g, b, x, y);
            }
        }
    }
}

/// The stack blur of an RGB image in place: each of its three channels is
/// blurred as `stack_blur_gray8` blurs a gray value; every other byte is
/// kept.
pub fn stack_blur_rgb24<O: Order>(img: &mut RenderBuf, rx: u32, ry: u32)
    requires
        rgb_planes_ok::<O>(*old(img)),
    ensures
        final(img).dims() == old(img).dims(),
        final(img).bytes().len() == old(img).bytes().len(),
        forall|c: u32, x: int, y: int|
            (c == O::spec_r() || c == O::spec_g() || c == O::spec_b()) && 0 <= x < old(img).dims().0 && 0 <= y
                < old(img).dims().1 ==> final(img).bytes()[#[trigger] plane_pos(old(img).dims(),
                O::spec_tag() as u32,
                c,
                x,
                y,
            )] == stack_blurred(old(img).dims(), old(img).bytes(), O::spec_tag() as u32, c, rx, ry, x, y),
        forall|i: int|
            0 <= i < old(img).bytes().len() && !in_plane(old(img).dims(), O::spec_tag() as u32, O::spec_r() as u32, i)
                && !in_plane(old(img).dims(), O::spec_tag() as u32, O::spec_g() as u32, i) && !in_plane(old(img).dims(),
                O::spec_tag() as u32,
                O::spec_b() as u32,
                i,
            ) ==> #[trigger] final(img).bytes()[i] == old(img).bytes()[i],
{
    let step = O::tag() as u32;
    blur_rgb_planes(img, step, O::r() as u32, O::g() as u32, O::b() as u32, rx, ry);
}

/// The four channels of an RGBA image at the offsets of order `O`, pixels
/// `O`'s pixel width apart, can be blurred in place.
pub open spec fn rgba_planes_ok<O: Order>(rb: RenderBuf) -> bool {
    let step = O::spec_tag() as u32;
    &&& rgb_planes_ok::<O>(rb)
    &&& O::spec_a() < O::spec_tag()
    &&& O::spec_a() != O::spec_r()
    &&& O::spec_a() != O::spec_g()
    &&& O::spec_a() != O::spec_b()
    &&& plane_ok(rb, step, O::spec_a() as u32)
}

/// The stack blur of an RGBA image in place: each of its four channels is
/// blurred as `stack_blur_gray8` blurs a gray value; every other byte is
/// kept.
pub fn stack_blur_rgb32<O: Order>(img: &mut RenderBuf, rx: u32, ry: u32)
    requires
        rgba_planes_ok::<O>(*old(img)),
    ensures
        final(img).dims() == old(img).dims(),
        final(img).bytes().len() == old(img).bytes().len(),
        forall|c: u32, x: int, y: int|
            (c == O::spec_r() || c == O::spec_g() || c == O::spec_b() || c == O::spec_a()) && 0 <= x
                < old(img).dims().0 && 0 <= y < old(img).dims().1 ==> final(img).bytes()[#[trigger] plane_pos(old(img).dims(),
                O::spec_tag() as u32,
                c,
                x,
                y,
            )] == stack_blurred(old(img).dims(), old(img).bytes(), O::spec_tag() as u32, c, rx, ry, x, y),
        forall|i: int|
            0 <= i < old(img).bytes().len() && !in_plane(old(img).dims(), O::spec_tag() as u32, O::spec_r() as u32, i)
                && !in_plane(old(img).dims(), O::spec_tag() as u32, O::spec_g() as u32, i) && !in_plane(old(img).dims(),
                O::spec_tag() as u32,
                O::spec_b() as u32,
                i,
            ) && !in_plane(old(img).dims(), O::spec_tag() as u32, O::spec_a() as u32, i)
                ==> #[trigger] final(img).bytes()[i] == old(img).bytes()[i],
{
    let ghost rb0 = *img;
    let ghost b0 = img.bytes();
    let step = O::tag() as u32;
    let a = O::a() as u32;
    blur_rgb_planes(img, step, O::r() as u32, O::g() as u32, O::b() as u32, rx, ry);
    let ghost b1 = img.bytes();
    proof {
        assert forall|x: int, y: int| 0 <= x < rb0.dims().0 && 0 <= y < rb0.dims().1 implies #[trigger] b1[plane_pos(rb0.dims(), step, a, x, y)]
            == b0[plane_pos(rb0.dims(), step, a, x, y)] by {
            lemma_planes_apart(rb0, step, a, O::spec_r() as u32, x, y);
            lemma_planes_apart(rb0, step, a, O::spec_g() as u32, x, y);
            lemma_planes_apart(rb0, step, a, O::spec_b() as u32, x, y);
            lemma_plane_pos_in_row(rb0, step, a, x, y);
            lemma_row_fits(rb0, y);
        }
        lemma_blur_congruent(rb0.dims(), b1, b0, step, a, rx, ry);
    }
    blur_plane(img, step, a, rx, ry);
    proof {
        assert forall|c: u32, x: int, y: int|
            (c == O::spec_r() || c == O::spec_g() || c == O::spec_b() || c == O::spec_a()) && 0 <= x < rb0.dims().0 && 0 <= y
                < rb0.dims().1 implies img.bytes()[#[trigger] plane_pos(rb0.dims(), step, c, x, y)] == stack_blurred(rb0.dims(),
            b0,
            step,
            c,
            rx,
            ry,
            x,
            y,
        ) by {
            lemma_plane_pos_in_row(rb0, step, c, x, y);
            lemma_row_fits(rb0, y);
            if c != a {
                lemma_planes_apart(rb0, step, c, a, x, y);
            }
        }
    }
}

} // verus!
