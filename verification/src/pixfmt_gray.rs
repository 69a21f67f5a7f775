//! Blenders for gray pixels: plain and premultiplied, for 8-bit and 16-bit
//! channels.
use crate::color_gray::{Gray16, Gray8};
use crate::rendering_buffer::{abs_stride, lemma_row_fits, RenderBuf};
use crate::{BlenderG, Color, Equiv, Gamma, RenderBuffer};
use core::marker::PhantomData;
use vstd::prelude::*;

verus! {

/// Moves pixel value `p` towards `cv` by `alpha` in fixed point with `shift`
/// fraction bits, in wrapping 32-bit arithmetic.
pub open spec fn gray_blend(p: u32, cv: u32, alpha: u32, shift: u32) -> u32 {
    vstd::wrapping::u32_specs::wrapping_add(
        vstd::wrapping::u32_specs::wrapping_mul(vstd::wrapping::u32_specs::wrapping_sub(cv, p), alpha),
        p << shift,
    ) >> shift
}

/// Premultiplied blend with a coverage: the pixel scaled by the remaining
/// alpha plus the colour scaled by the coverage, in wrapping 32-bit
/// arithmetic.
pub open spec fn gray_blend_pre_cover(p: u32, cv: u32, alpha: u32, cover: u32, shift: u32) -> u32 {
    let mask = ((1u32 << shift) - 1) as u32;
    let alpha = vstd::wrapping::u32_specs::wrapping_sub(mask, alpha);
    let cover = vstd::wrapping::u32_specs::wrapping_add(cover, 1) << ((shift - 8) as u32);
    vstd::wrapping::u32_specs::wrapping_add(
        vstd::wrapping::u32_specs::wrapping_mul(p, alpha),
        vstd::wrapping::u32_specs::wrapping_mul(cv, cover),
    ) >> shift
}

/// Premultiplied blend: the pixel scaled by the remaining alpha, plus the
/// colour.
pub open spec fn gray_blend_pre(p: u32, cv: u32, alpha: u32, shift: u32, mask: u32) -> int {
    ((p * (mask - alpha)) as u32 >> shift) + cv
}

/// Blends a colour value into a gray pixel by its alpha.
pub struct BlenderGray<C> {
    pub color_type: PhantomData<C>,
}

/// Blends a premultiplied colour value into a gray pixel.
pub struct BlenderGrayPre<C> {
    pub color_type: PhantomData<C>,
}

pub type BlenderGray8 = BlenderGray<Gray8>;

pub type BlenderGray8Pre = BlenderGrayPre<Gray8>;

pub type BlenderGray16 = BlenderGray<Gray16>;

pub type BlenderGray16Pre = BlenderGrayPre<Gray16>;

impl BlenderG<Gray8> for BlenderGray<Gray8> {
    open spec fn blend_ok(&self, p: u8, v: u32, alpha: u32) -> bool {
        true
    }

    open spec fn blended(&self, p: u8, cv: u32, alpha: u32) -> u8 {
        gray_blend(p as u32, cv, alpha, 8) as u8
    }

    open spec fn blended_cover(&self, p: u8, cv: u32, alpha: u32, cover: u32) -> u8 {
        gray_blend(p as u32, cv, alpha, 8) as u8
    }

    fn new() -> Self {
        BlenderGray { color_type: PhantomData }
    }

    fn blend_pix_with_cover(&self, p: &mut u8, cv: u32, alpha: u32, cover: u32)
        ensures
            *final(p) == gray_blend(*old(p) as u32, cv, alpha, 8) as u8,
    {
        let pv = *p as u32;
        *p = (cv.wrapping_sub(pv).wrapping_mul(alpha).wrapping_add(pv << 8u32) >> 8u32) as u8;
    }

    fn blend_pix(&self, p: &mut u8, cv: u32, alpha: u32)
        ensures
            *final(p) == gray_blend(*old(p) as u32, cv, alpha, 8) as u8,
    {
        self.blend_pix_with_cover(p, cv, alpha, 0);
    }
}

impl BlenderG<Gray16> for BlenderGray<Gray16> {
    open spec fn blend_ok(&self, p: u16, v: u32, alpha: u32) -> bool {
        true
    }

    open spec fn blended(&self, p: u16, cv: u32, alpha: u32) -> u16 {
        gray_blend(p as u32, cv, alpha, 16) as u16
    }

    open spec fn blended_cover(&self, p: u16, cv: u32, alpha: u32, cover: u32) -> u16 {
        gray_blend(p as u32, cv, alpha, 16) as u16
    }

    fn new() -> Self {
        BlenderGray { color_type: PhantomData }
    }

    fn blend_pix_with_cover(&self, p: &mut u16, cv: u32, alpha: u32, cover: u32)
        ensures
            *final(p) == gray_blend(*old(p) as u32, cv, alpha, 16) as u16,
    {
        let pv = *p as u32;
        *p = (cv.wrapping_sub(pv).wrapping_mul(alpha).wrapping_add(pv << 16u32) >> 16u32) as u16;
    }

    fn blend_pix(&self, p: &mut u16, cv: u32, alpha: u32)
        ensures
            *final(p) == gray_blend(*old(p) as u32, cv, alpha, 16) as u16,
    {
        self.blend_pix_with_cover(p, cv, alpha, 0);
    }
}

impl BlenderG<Gray8> for BlenderGrayPre<Gray8> {
    open spec fn blend_ok(&self, p: u8, v: u32, alpha: u32) -> bool {
        alpha <= 255 && gray_blend_pre(p as u32, v, alpha, 8, 255) <= u32::MAX
    }

    open spec fn blended(&self, p: u8, cv: u32, alpha: u32) -> u8 {
        gray_blend_pre(p as u32, cv, alpha, 8, 255) as u8
    }

    open spec fn blended_cover(&self, p: u8, cv: u32, alpha: u32, cover: u32) -> u8 {
        gray_blend_pre_cover(p as u32, cv, alpha, cover, 8) as u8
    }

    fn new() -> Self {
        BlenderGrayPre { color_type: PhantomData }
    }

    fn blend_pix_with_cover(&self, p: &mut u8, cv: u32, alpha: u32, cover: u32)
        ensures
            *final(p) == gray_blend_pre_cover(*old(p) as u32, cv, alpha, cover, 8) as u8,
    {
        assert(((1u32 << 8u32) - 1) as u32 == 255u32) by (bit_vector);
        let alpha = 255u32.wrapping_sub(alpha);
        let cover = cover.wrapping_add(1) << 0u32;
        *p = ((*p as u32).wrapping_mul(alpha).wrapping_add(cv.wrapping_mul(cover)) >> 8u32) as u8;
    }

    fn blend_pix(&self, p: &mut u8, cv: u32, alpha: u32)
        ensures
            *final(p) == gray_blend_pre(*old(p) as u32, cv, alpha, 8, 255) as u8,
    {
        let pv = *p as u32;
        assert(pv * (255 - alpha) <= 255 * 255) by (nonlinear_arith)
            requires
                pv <= 255,
                alpha <= 255,
        ;
        *p = (((pv * (255 - alpha)) >> 8u32) + cv) as u8;
    }
}

impl BlenderG<Gray16> for BlenderGrayPre<Gray16> {
    open spec fn blend_ok(&self, p: u16, v: u32, alpha: u32) -> bool {
        alpha <= 65535 && gray_blend_pre(p as u32, v, alpha, 16, 65535) <= u32::MAX
    }

    open spec fn blended(&self, p: u16, cv: u32, alpha: u32) -> u16 {
        gray_blend_pre(p as u32, cv, alpha, 16, 65535) as u16
    }

    open spec fn blended_cover(&self, p: u16, cv: u32, alpha: u32, cover: u32) -> u16 {
        gray_blend_pre_cover(p as u32, cv, alpha, cover, 16) as u16
    }

    fn new() -> Self {
        BlenderGrayPre { color_type: PhantomData }
    }

    fn blend_pix_with_cover(&self, p: &mut u16, cv: u32, alpha: u32, cover: u32)
        ensures
            *final(p) == gray_blend_pre_cover(*old(p) as u32, cv, alpha, cover, 16) as u16,
    {
        assert(((1u32 << 16u32) - 1) as u32 == 65535u32) by (bit_vector);
        let alpha = 65535u32.wrapping_sub(alpha);
        let cover = cover.wrapping_add(1) << 8u32;
        *p = ((*p as u32).wrapping_mul(alpha).wrapping_add(cv.wrapping_mul(cover)) >> 16u32) as u16;
    }

    fn blend_pix(&self, p: &mut u16, cv: u32, alpha: u32)
        ensures
            *final(p) == gray_blend_pre(*old(p) as u32, cv, alpha, 16, 65535) as u16,
    {
        let pv = *p as u32;
        assert(pv * (65535 - alpha) <= 65535 * 65535) by (nonlinear_arith)
            requires
                pv <= 65535,
                alpha <= 65535,
        ;
        *p = (((pv * (65535 - alpha)) >> 16u32) + cv) as u16;
    }
}

/// Blending with zero alpha leaves the pixel as it was, at either width.
pub proof fn lemma_gray_blend_transparent(p8: u8, p16: u16, cv: u32)
    ensures
        gray_blend(p8 as u32, cv, 0, 8) as u8 == p8,
        gray_blend(p16 as u32, cv, 0, 16) as u16 == p16,
{
    let a = vstd::wrapping::u32_specs::wrapping_sub(cv, p8 as u32);
    let b = vstd::wrapping::u32_specs::wrapping_sub(cv, p16 as u32);
    assert(vstd::wrapping::u32_specs::wrapping_mul(a, 0) == 0);
    assert(vstd::wrapping::u32_specs::wrapping_mul(b, 0) == 0);
    let x = (p8 as u32) << 8u32;
    let y = (p16 as u32) << 16u32;
    assert(vstd::wrapping::u32_specs::wrapping_add(0, x) == x);
    assert(vstd::wrapping::u32_specs::wrapping_add(0, y) == y);
    assert(((p8 as u32) << 8u32) >> 8u32 == p8 as u32) by (bit_vector);
    assert(((p16 as u32) << 16u32) >> 16u32 == p16 as u32) by (bit_vector);
}

/// With zero alpha the premultiplied blend adds the colour to the pixel.
pub proof fn lemma_gray_blend_pre_transparent(p8: u8, p16: u16, cv: u32)
    ensures
        gray_blend_pre(p8 as u32, cv, 0, 8, 255) == p8 as int * 255 / 256 + cv,
        gray_blend_pre(p16 as u32, cv, 0, 16, 65535) == p16 as int * 65535 / 65536 + cv,
{
    let x = (p8 as u32 * 255) as u32;
    let y = (p16 as u32 * 65535) as u32;
    vstd::bits::lemma_u32_shr_is_div(x, 8);
    vstd::bits::lemma_u32_shr_is_div(y, 16);
    vstd::arithmetic::power2::lemma2_to64();
}

/// The share `q` of a pixel `p` that a premultiplied blend keeps when the
/// colour's alpha is `alpha` out of `mask`, with `scale = mask + 1`: the
/// largest `q` with `q * scale <= p * (mask - alpha)`, no larger than what
/// the remaining alpha allows, and no larger for a more opaque colour.
proof fn lemma_pre_share(p: int, alpha: int, alpha2: int, mask: int, q: int, q2: int)
    requires
        mask > 0,
        0 <= p <= mask,
        0 <= alpha <= alpha2 <= mask,
        q == p * (mask - alpha) / (mask + 1),
        q2 == p * (mask - alpha2) / (mask + 1),
    ensures
        q * (mask + 1) <= p * (mask - alpha) < (q + 1) * (mask + 1),
        0 <= q <= mask - alpha,
        0 <= q2 <= q,
{
    let d = mask + 1;
    vstd::arithmetic::div_mod::lemma_fundamental_div_mod(p * (mask - alpha), d);
    vstd::arithmetic::div_mod::lemma_mod_bound(p * (mask - alpha), d);
    assert(0 <= p * (mask - alpha) <= mask * (mask - alpha)) by (nonlinear_arith)
        requires
            0 <= p <= mask,
            0 <= alpha <= mask,
    ;
    assert(p * (mask - alpha2) <= p * (mask - alpha)) by (nonlinear_arith)
        requires
            0 <= p,
            alpha <= alpha2,
    ;
    assert(0 <= p * (mask - alpha2)) by (nonlinear_arith)
        requires
            0 <= p,
            alpha2 <= mask,
    ;
    vstd::arithmetic::div_mod::lemma_div_is_ordered(p * (mask - alpha2), p * (mask - alpha), d);
    vstd::arithmetic::div_mod::lemma_div_is_ordered(p * (mask - alpha), mask * (mask - alpha), d);
    vstd::arithmetic::div_mod::lemma_div_pos_is_pos(p * (mask - alpha2), d);
    assert(mask * (mask - alpha) / d <= mask - alpha) by {
        assert(mask * (mask - alpha) <= d * (mask - alpha)) by (nonlinear_arith)
            requires
                d == mask + 1,
                alpha <= mask,
        ;
        vstd::arithmetic::div_mod::lemma_div_is_ordered(mask * (mask - alpha), d * (mask - alpha), d);
        assert(d * (mask - alpha) / d == mask - alpha) by {
            vstd::arithmetic::div_mod::lemma_div_multiples_vanish(mask - alpha, d);
        }
    }
    assert(q * d + (p * (mask - alpha)) % d == p * (mask - alpha)) by (nonlinear_arith)
        requires
            p * (mask - alpha) == d * (p * (mask - alpha) / d) + (p * (mask - alpha)) % d,
            q == p * (mask - alpha) / d,
    ;
    assert((q + 1) * d == q * d + d) by (nonlinear_arith);
}

/// The premultiplied blend of a gray 8-bit pixel keeps the share of the
/// pixel that the colour's alpha leaves, rounded down, and adds the colour
/// value: `r - cv` is the largest value with `(r - cv) * 256 <=
/// p * (255 - alpha)`. An opaque colour replaces the pixel, and a more
/// opaque colour keeps no more of it.
pub proof fn lemma_gray8_pre_blend(b: BlenderGrayPre<Gray8>, p: u8, cv: u32, alpha: u32, alpha2: u32)
    requires
        cv <= alpha <= alpha2 <= 255,
    ensures
        ({
            let r = b.blended(p, cv, alpha) as int;
            let r2 = b.blended(p, cv, alpha2) as int;
            &&& (r - cv) * 256 <= p * (255 - alpha) < (r - cv + 1) * 256
            &&& alpha == 255 ==> r == cv
            &&& cv <= r2 && r2 - cv <= r - cv
        }),
{
    let x = (p as u32 * (255 - alpha)) as u32;
    let x2 = (p as u32 * (255 - alpha2)) as u32;
    assert(p * (255 - alpha) <= 255 * 255 && p * (255 - alpha2) <= 255 * 255) by (nonlinear_arith)
        requires
            p <= 255,
            alpha <= alpha2 <= 255,
    ;
    vstd::bits::lemma_u32_shr_is_div(x, 8);
    vstd::bits::lemma_u32_shr_is_div(x2, 8);
    vstd::arithmetic::power2::lemma2_to64();
    lemma_pre_share(p as int, alpha as int, alpha2 as int, 255, (x / 256) as int, (x2 / 256) as int);
}

/// The premultiplied blend of a gray 16-bit pixel keeps the share of the
/// pixel that the colour's alpha leaves, rounded down, and adds the colour
/// value: `r - cv` is the largest value with `(r - cv) * 65536 <=
/// p * (65535 - alpha)`. An opaque colour replaces the pixel, and a more
/// opaque colour keeps no more of it.
pub proof fn lemma_gray16_pre_blend(b: BlenderGrayPre<Gray16>, p: u16, cv: u32, alpha: u32, alpha2: u32)
    requires
        cv <= alpha <= alpha2 <= 65535,
    ensures
        ({
            let r = b.blended(p, cv, alpha) as int;
            let r2 = b.blended(p, cv, alpha2) as int;
            &&& (r - cv) * 65536 <= p * (65535 - alpha) < (r - cv + 1) * 65536
            &&& alpha == 65535 ==> r == cv
            &&& cv <= r2 && r2 - cv <= r - cv
        }),
{
    let x = (p as u32 * (65535 - alpha)) as u32;
    let x2 = (p as u32 * (65535 - alpha2)) as u32;
    assert(p * (65535 - alpha) <= 65535 * 65535 && p * (65535 - alpha2) <= 65535 * 65535)
        by (nonlinear_arith)
        requires
            p <= 65535,
            alpha <= alpha2 <= 65535,
    ;
    vstd::bits::lemma_u32_shr_is_div(x, 16);
    vstd::bits::lemma_u32_shr_is_div(x2, 16);
    vstd::arithmetic::power2::lemma2_to64();
    lemma_pre_share(p as int, alpha as int, alpha2 as int, 65535, (x / 65536) as int, (x2 / 65536) as int);
}

//=====================================================apply_gamma_dir_gray
/// Applies the direct gamma correction to gray pixel values.
pub struct ApplyGammaDirGray<'a, C: Color, G: Gamma<C::ValueType, C::ValueType>> {
    pub gamma: &'a G,
    pub phantom_color: PhantomData<C>,
}

impl<'a, C: Color, G: Gamma<C::ValueType, C::ValueType>> ApplyGammaDirGray<'a, C, G> {
    pub fn new(gamma: &'a G) -> (r: Self)
        ensures
            *r.gamma == *gamma,
    {
        ApplyGammaDirGray { gamma: gamma, phantom_color: PhantomData }
    }

    /// Corrects the pixel value `p`.
    pub fn apply(&self, p: &mut C::ValueType)
        requires
            self.gamma.gamma_wf(),
        ensures
            *final(p) == self.gamma.dir_spec(*old(p)),
    {
        *p = self.gamma.dir(*p);
    }
}

//=====================================================apply_gamma_inv_gray
/// Undoes a gamma correction on gray pixel values.
pub struct ApplyGammaInvGray<'a, C: Color, G: Gamma<C::ValueType, C::ValueType>> {
    pub gamma: &'a G,
    pub phantom_color: PhantomData<C>,
}

impl<'a, C: Color, G: Gamma<C::ValueType, C::ValueType>> ApplyGammaInvGray<'a, C, G> {
    pub fn new(gamma: &'a G) -> (r: Self)
        ensures
            *r.gamma == *gamma,
    {
        ApplyGammaInvGray { gamma: gamma, phantom_color: PhantomData }
    }

    /// Undoes the correction of the pixel value `p`.
    pub fn apply(&self, p: &mut C::ValueType)
        requires
            self.gamma.gamma_wf(),
        ensures
            *final(p) == self.gamma.inv_spec(*old(p)),
    {
        *p = self.gamma.inv(*p);
    }
}

/// The bytes `new` are `old` with the byte at `pos(k)` replaced by
/// `f(k, old[pos(k)])` for each `k < len`, and every other byte kept.
pub open spec fn span_written(
    old: Seq<u8>,
    new: Seq<u8>,
    len: int,
    pos: spec_fn(int) -> int,
    f: spec_fn(int, u8) -> u8,
) -> bool {
    &&& new.len() == old.len()
    &&& forall|k: int| 0 <= k < len ==> #[trigger] new[pos(k)] == f(k, old[pos(k)])
    &&& forall|j: int|
        0 <= j < old.len() && (forall|k: int| 0 <= k < len ==> j != #[trigger] pos(k)) ==> new[j]
            == old[j]
}

/// The positions `pos(k)`, `k < len`, are distinct bytes of a buffer of
/// length `n`.
pub open spec fn span_positions_ok(pos: spec_fn(int) -> int, len: int, n: int) -> bool {
    &&& forall|k: int| 0 <= k < len ==> 0 <= #[trigger] pos(k) < n
    &&& forall|k1: int, k2: int| 0 <= k1 < len && 0 <= k2 < len && k1 != k2 ==> #[trigger] pos(k1)
        != #[trigger] pos(k2)
}

/// One more byte of a span written.
proof fn lemma_span_step(
    old: Seq<u8>,
    cur: Seq<u8>,
    i: int,
    len: int,
    pos: spec_fn(int) -> int,
    f: spec_fn(int, u8) -> u8,
)
    requires
        span_written(old, cur, i, pos, f),
        span_positions_ok(pos, len, old.len() as int),
        0 <= i < len,
    ensures
        cur[pos(i)] == old[pos(i)],
        span_written(old, cur.update(pos(i), f(i, old[pos(i)])), i + 1, pos, f),
{
    assert(0 <= pos(i) < old.len());
    assert forall|k: int| 0 <= k < i implies pos(i) != #[trigger] pos(k) by {}
    let nw = cur.update(pos(i), f(i, old[pos(i)]));
    assert forall|k: int| 0 <= k < i + 1 implies #[trigger] nw[pos(k)] == f(k, old[pos(k)]) by {
        if k < i {
            assert(pos(k) != pos(i));
        }
    }
    assert forall|j: int|
        0 <= j < old.len() && (forall|k: int| 0 <= k < i + 1 ==> j != #[trigger] pos(k)) implies nw[j]
        == old[j] by {
        assert(j != pos(i));
        assert forall|k: int| 0 <= k < i implies j != #[trigger] pos(k) by {
            assert(0 <= k < i + 1);
        }
    }
}

/// The bytes `new` are `old` with the byte at `pos(r, k)` replaced by
/// `g(old[pos(r, k)])` for each row `r < rows` and pixel `k < w`, and every
/// other byte kept.
pub open spec fn grid_written(
    old: Seq<u8>,
    new: Seq<u8>,
    rows: int,
    w: int,
    pos: spec_fn(int, int) -> int,
    g: spec_fn(u8) -> u8,
) -> bool {
    &&& new.len() == old.len()
    &&& forall|r: int, k: int|
        0 <= r < rows && 0 <= k < w ==> #[trigger] new[pos(r, k)] == g(old[pos(r, k)])
    &&& forall|j: int|
        0 <= j < old.len() && (forall|r: int, k: int|
            0 <= r < rows && 0 <= k < w ==> j != #[trigger] pos(r, k)) ==> new[j] == old[j]
}

/// The positions `pos(r, k)`, `r < rows`, `k < w`, are distinct bytes of a
/// buffer of length `n`.
pub open spec fn grid_positions_ok(pos: spec_fn(int, int) -> int, rows: int, w: int, n: int) -> bool {
    &&& forall|r: int, k: int| 0 <= r < rows && 0 <= k < w ==> 0 <= #[trigger] pos(r, k) < n
    &&& forall|r1: int, k1: int, r2: int, k2: int|
        0 <= r1 < rows && 0 <= k1 < w && 0 <= r2 < rows && 0 <= k2 < w && (r1 != r2 || k1 != k2)
            ==> #[trigger] pos(r1, k1) != #[trigger] pos(r2, k2)
}

/// One more row of a grid written.
proof fn lemma_grid_step(
    old: Seq<u8>,
    mid: Seq<u8>,
    new: Seq<u8>,
    y: int,
    rows: int,
    w: int,
    pos: spec_fn(int, int) -> int,
    g: spec_fn(u8) -> u8,
)
    requires
        grid_written(old, mid, y, w, pos, g),
        grid_positions_ok(pos, rows, w, old.len() as int),
        0 <= y < rows,
        span_written(mid, new, w, |k: int| pos(y, k), |k: int, b: u8| g(b)),
    ensures
        grid_written(old, new, y + 1, w, pos, g),
{
    let rowp = |k: int| pos(y, k);
    assert forall|r: int, k: int| 0 <= r < y + 1 && 0 <= k < w implies #[trigger] new[pos(r, k)]
        == g(old[pos(r, k)]) by {
        if r < y {
            assert forall|k2: int| 0 <= k2 < w implies pos(r, k) != #[trigger] rowp(k2) by {
                assert(pos(r, k) != pos(y, k2));
            }
            assert(0 <= pos(r, k) < old.len());
        } else {
            assert(rowp(k) == pos(y, k));
            assert forall|r2: int, k2: int| 0 <= r2 < y && 0 <= k2 < w implies pos(y, k)
                != #[trigger] pos(r2, k2) by {}
            assert(0 <= pos(y, k) < old.len());
        }
    }
    assert forall|j: int|
        0 <= j < old.len() && (forall|r: int, k: int|
            0 <= r < y + 1 && 0 <= k < w ==> j != #[trigger] pos(r, k)) implies new[j] == old[j] by {
        assert forall|k2: int| 0 <= k2 < w implies j != #[trigger] rowp(k2) by {
            assert(j != pos(y, k2));
        }
        assert forall|r2: int, k2: int| 0 <= r2 < y && 0 <= k2 < w implies j != #[trigger] pos(
            r2,
            k2,
        ) by {}
    }
}

/// The gamma correction of a pixel value: direct, or undone.
pub open spec fn gamma_map<G: Gamma<u8, u8>>(g: G, dir: bool) -> spec_fn(u8) -> u8 {
    |b: u8|
        if dir {
            g.dir_spec(b)
        } else {
            g.inv_spec(b)
        }
}

/// A colour with a coverage, as the gray pixel formats apply it: nothing for
/// a transparent colour, a copy when the combined alpha is full, else a
/// blend.
pub open spec fn gray_cover_blend<B: BlenderG<Gray8>>(b: B, p: u8, c: Gray8, cover: u32) -> u8 {
    if c.a == 0 {
        p
    } else {
        let alpha = ((c.a * (cover + 1)) as u32) >> 8u32;
        if alpha == 255 {
            c.v
        } else {
            b.blended_cover(p, c.v as u32, alpha, cover)
        }
    }
}

/// A colour without coverage: nothing when transparent, a copy when opaque,
/// else a blend by its alpha.
pub open spec fn gray_copy_or_blend<B: BlenderG<Gray8>>(b: B, p: u8, c: Gray8) -> u8 {
    if c.a == 0 {
        p
    } else if c.a == 255 {
        c.v
    } else {
        b.blended(p, c.v as u32, c.a as u32)
    }
}

/// Blending `c` into `p` without coverage runs without overflow.
pub open spec fn gray_copy_or_blend_ok<B: BlenderG<Gray8>>(b: B, p: u8, c: Gray8) -> bool {
    c.a != 0 && c.a != 255 ==> b.blend_ok(p, c.v as u32, c.a as u32)
}


/// A transparent colour leaves a pixel as it was, and an opaque colour at
/// full coverage replaces it, whatever the blender.
pub proof fn lemma_gray_cover_blend_extremes<B: BlenderG<Gray8>>(b: B, p: u8, c: Gray8, cover: u32)
    ensures
        gray_cover_blend(b, p, Gray8 { a: 0, ..c }, cover) == p,
        gray_cover_blend(b, p, Gray8 { a: 255, ..c }, 255) == c.v,
        gray_copy_or_blend(b, p, Gray8 { a: 0, ..c }) == p,
        gray_copy_or_blend(b, p, Gray8 { a: 255, ..c }) == c.v,
{
    vstd::bits::lemma_u32_shr_is_div(65280u32, 8u32);
    vstd::arithmetic::power2::lemma2_to64();
}

fn copy_or_blend_pix_cover<B: BlenderG<Gray8>>(p: u8, c: &Gray8, cover: u32, blender: &B) -> (r:
    u8)
    requires
        cover < 256,
    ensures
        r == gray_cover_blend(*blender, p, *c, cover),
{
    if c.a != 0 {
        assert(c.a * (cover + 1) <= 255 * 256) by (nonlinear_arith)
            requires
                c.a <= 255,
                cover < 256,
        ;
        let alpha = (c.a as u32 * (cover + 1)) >> 8u32;
        if alpha == 255 {
            c.v
        } else {
            let mut q = p;
            blender.blend_pix_with_cover(&mut q, c.v as u32, alpha, cover);
            q
        }
    } else {
        p
    }
}

fn copy_or_blend_pix<B: BlenderG<Gray8>>(p: u8, c: &Gray8, blender: &B) -> (r: u8)
    requires
        gray_copy_or_blend_ok(*blender, p, *c),
    ensures
        r == gray_copy_or_blend(*blender, p, *c),
{
    if c.a != 0 {
        if c.a == 255 {
            c.v
        } else {
            let mut q = p;
            blender.blend_pix(&mut q, c.v as u32, c.a as u32);
            q
        }
    } else {
        p
    }
}


/// Every byte of a span takes the value `v`.
pub open spec fn const_byte(v: u8) -> spec_fn(int, u8) -> u8 {
    |k: int, p: u8| v
}

/// Every byte of a span gets `c` blended in with coverage `cover`.
pub open spec fn cover_byte<B: BlenderG<Gray8>>(b: B, c: Gray8, cover: u32) -> spec_fn(int, u8) -> u8 {
    |k: int, p: u8| gray_cover_blend(b, p, c, cover)
}

/// Byte `k` of a span gets `c` blended in with coverage `covers[k]`.
pub open spec fn covers_byte<B: BlenderG<Gray8>>(b: B, c: Gray8, covers: Seq<u8>) -> spec_fn(
    int,
    u8,
) -> u8 {
    |k: int, p: u8| gray_cover_blend(b, p, c, covers[k] as u32)
}

/// Byte `k` of a span takes the value of `colors[k]`.
pub open spec fn color_values(colors: Seq<Gray8>) -> spec_fn(int, u8) -> u8 {
    |k: int, p: u8| colors[k].v
}

/// Byte `k` of a span gets `colors[k]` blended in: with coverage
/// `covers[k]` when there are coverages, else without coverage when `cover`
/// is full, else with coverage `cover`.
pub open spec fn color_span_byte<B: BlenderG<Gray8>>(
    b: B,
    colors: Seq<Gray8>,
    covers: Seq<u8>,
    cover: u8,
) -> spec_fn(int, u8) -> u8 {
    |k: int, p: u8|
        if covers.len() > 0 {
            gray_cover_blend(b, p, colors[k], covers[k] as u32)
        } else if cover == 255 {
            gray_copy_or_blend(b, p, colors[k])
        } else {
            gray_cover_blend(b, p, colors[k], cover as u32)
        }
}

///=================================================AlphaBlendGray
/// A gray pixel format over a rendering buffer: each pixel is one byte, the
/// pixels of a row `STEP` bytes apart starting at byte `OFFSET`.
pub struct AlphaBlendGray<'a, C, Blend, const STEP: u32, const OFFSET: u32> {
    pub rbuf: Equiv<'a, RenderBuf>,
    pub color: PhantomData<C>,
    pub blender: Blend,
}

/// The first `len` bytes of row `y` of `rb`.
pub open spec fn row_bytes(rb: RenderBuf, y: int, len: int) -> Seq<u8> {
    Seq::new(len as nat, |k: int| rb.bytes()[rb.row_start(y) + k])
}

/// The coverages that the source bytes `src` give, each scaled by `cover`
/// and rounded up into a byte.
pub open spec fn scaled_covers(src: Seq<u8>, cover: u32) -> Seq<u8> {
    Seq::new(src.len(), |k: int| (((src[k] * cover + 255) as u32) >> 8u32) as u8)
}

pub type PixGray8<'a> = AlphaBlendGray<'a, Gray8, BlenderGray8, 1, 0>;

pub type PixGray8Pre<'a> = AlphaBlendGray<'a, Gray8, BlenderGray8Pre, 1, 0>;

impl<'a, Blend: BlenderG<Gray8>, const STEP: u32, const OFFSET: u32> AlphaBlendGray<
    'a,
    Gray8,
    Blend,
    STEP,
    OFFSET,
> {
    /// The buffer the pixels live in.
    pub open spec fn buf(&self) -> RenderBuf {
        self.rbuf.target()
    }

    pub open spec fn bytes(&self) -> Seq<u8> {
        self.buf().bytes()
    }

    /// The byte of pixel `(x, y)`.
    pub open spec fn pix_at(&self, x: int, y: int) -> int {
        self.buf().row_start(y) + x * STEP + OFFSET
    }

    /// The byte of the `k`-th pixel rightwards from `(x, y)`.
    pub open spec fn hpos(&self, x: int, y: int) -> spec_fn(int) -> int {
        |k: int| self.pix_at(x, y) + k * STEP
    }

    /// The byte of the `k`-th pixel downwards from `(x, y)`.
    pub open spec fn vpos(&self, x: int, y: int) -> spec_fn(int) -> int {
        |k: int| self.pix_at(x, y + k)
    }

    /// The bytes from pixel `(x, y)` on, `len` of them.
    pub open spec fn bpos(&self, x: int, y: int) -> spec_fn(int) -> int {
        |k: int| self.pix_at(x, y) + k
    }

    /// Pixel `(x, y)` lies inside the buffer, its byte inside its row.
    pub open spec fn pix_ok(&self, x: int, y: int) -> bool {
        &&& self.buf().wf()
        &&& 0 <= x
        &&& 0 <= y < self.buf().dims().1
        &&& x * STEP + OFFSET < abs_stride(self.buf().dims().2)
    }

    /// `len` pixels rightwards from `(x, y)` lie inside row `y`.
    pub open spec fn hrun_ok(&self, x: int, y: int, len: int) -> bool {
        &&& self.pix_ok(x, y)
        &&& STEP >= 1
        &&& len == 0 || x * STEP + OFFSET + (len - 1) * STEP < abs_stride(self.buf().dims().2)
    }

    /// `len` consecutive bytes from pixel `(x, y)` lie inside row `y`.
    pub open spec fn bline_ok(&self, x: int, y: int, len: int) -> bool {
        &&& self.pix_ok(x, y)
        &&& x * STEP + OFFSET + len <= abs_stride(self.buf().dims().2)
    }

    /// `len` pixels downwards from `(x, y)` lie inside the buffer, their rows
    /// numbered within `i32`.
    pub open spec fn vrun_ok(&self, x: int, y: int, len: int) -> bool {
        &&& self.buf().wf()
        &&& 0 <= x
        &&& 0 <= y
        &&& y + len <= self.buf().dims().1
        &&& y + len - 1 <= i32::MAX
        &&& x * STEP + OFFSET < abs_stride(self.buf().dims().2)
    }

    pub fn new_borrowed(rbuf: &'a mut RenderBuf) -> (r: Self)
        ensures
            r.buf() == *old(rbuf),
    {
        AlphaBlendGray { rbuf: Equiv::Brw(rbuf), color: PhantomData, blender: Blend::new() }
    }

    pub fn new_owned(rbuf: RenderBuf) -> (r: Self)
        ensures
            r.buf() == rbuf,
    {
        AlphaBlendGray { rbuf: Equiv::Own(rbuf), color: PhantomData, blender: Blend::new() }
    }

    pub fn attach_borrowed(&mut self, rb: &'a mut RenderBuf)
        ensures
            final(self).buf() == *old(rb),
            final(self).blender == old(self).blender,
    {
        self.rbuf = Equiv::Brw(rb);
    }

    pub fn attach_owned(&mut self, rb: RenderBuf)
        ensures
            final(self).buf() == rb,
            final(self).blender == old(self).blender,
    {
        self.rbuf = Equiv::Own(rb);
    }

    pub fn rbuf_mut(&mut self) -> (r: &mut RenderBuf)
        ensures
            *r == old(self).buf(),
            final(self).buf() == *final(r),
    {
        self.rbuf.get_mut()
    }

    pub fn blender_mut(&mut self) -> (r: &mut Blend)
        ensures
            *r == old(self).blender,
            *final(self) == (AlphaBlendGray { blender: *final(r), ..*old(self) }),
    {
        &mut self.blender
    }

    pub fn width(&self) -> (r: u32)
        ensures
            r == self.buf().dims().0,
    {
        self.rbuf.get().width()
    }

    pub fn height(&self) -> (r: u32)
        ensures
            r == self.buf().dims().1,
    {
        self.rbuf.get().height()
    }

    pub fn stride(&self) -> (r: i32)
        ensures
            r == self.buf().dims().2,
    {
        self.rbuf.get().stride()
    }

    /// The byte position of pixel `(x, y)`.
    fn pos(&self, x: i32, y: i32) -> (r: usize)
        requires
            self.pix_ok(x as int, y as int),
        ensures
            r == self.pix_at(x as int, y as int),
            r < self.bytes().len(),
            self.buf().row_start(y as int) + abs_stride(self.buf().dims().2) <= self.bytes().len(),
    {
        let rb = self.rbuf.get();
        let row = rb.row_offset(y as u32);
        assert(x * STEP <= x * STEP + OFFSET);
        let px = (x as usize) * (STEP as usize) + OFFSET as usize;
        row + px
    }

    /// The number of bytes of the buffer.
    fn byte_count(&self) -> (r: usize)
        ensures
            r == self.bytes().len(),
    {
        self.rbuf.get().as_bytes().len()
    }

    /// Writes byte `v` at `pos`.
    fn put(&mut self, pos: usize, v: u8)
        requires
            pos < old(self).bytes().len(),
        ensures
            final(self).bytes() == old(self).bytes().update(pos as int, v),
            final(self).buf().dims() == old(self).buf().dims(),
            final(self).blender == old(self).blender,
    {
        self.rbuf.get_mut().set_byte(pos, v);
    }

    /// The byte at `pos`.
    fn get(&self, pos: usize) -> (r: u8)
        requires
            pos < self.bytes().len(),
        ensures
            r == self.bytes()[pos as int],
    {
        self.rbuf.get().byte_at(pos)
    }

    /// Rightward pixel positions are distinct bytes of the buffer.
    proof fn lemma_hpos(&self, x: int, y: int, len: int)
        requires
            self.hrun_ok(x, y, len),
        ensures
            span_positions_ok(self.hpos(x, y), len, self.bytes().len() as int),
            forall|k: int| 0 <= k < len ==> #[trigger] self.hpos(x, y)(k) == self.pix_at(x, y) + k * STEP,
    {
        let s = abs_stride(self.buf().dims().2);
        let r0 = self.buf().row_start(y);
        assert(r0 + s <= self.bytes().len()) by {
            lemma_row_fits(self.buf(), y);
        }
        let p = self.hpos(x, y);
        assert forall|k: int| 0 <= k < len implies 0 <= #[trigger] p(k) < self.bytes().len() by {
            assert(k * STEP <= (len - 1) * STEP) by (nonlinear_arith)
                requires
                    0 <= k <= len - 1,
            ;
            assert(0 <= k * STEP) by (nonlinear_arith)
                requires
                    0 <= k,
            ;
            assert(0 <= r0) by {
                lemma_row_fits(self.buf(), y);
            }
        }
        assert forall|k1: int, k2: int|
            0 <= k1 < len && 0 <= k2 < len && k1 != k2 implies #[trigger] p(k1) != #[trigger] p(k2) by {
            assert(k1 * STEP != k2 * STEP) by (nonlinear_arith)
                requires
                    k1 != k2,
                    STEP >= 1,
            ;
        }
    }

    /// Consecutive bytes from a pixel are distinct bytes of the buffer.
    proof fn lemma_bpos(&self, x: int, y: int, len: int)
        requires
            self.bline_ok(x, y, len),
        ensures
            span_positions_ok(self.bpos(x, y), len, self.bytes().len() as int),
    {
        lemma_row_fits(self.buf(), y);
        assert(0 <= x * STEP) by (nonlinear_arith)
            requires
                0 <= x,
        ;
    }

    /// Downward pixel positions are distinct bytes of the buffer.
    proof fn lemma_vpos(&self, x: int, y: int, len: int)
        requires
            self.vrun_ok(x, y, len),
        ensures
            span_positions_ok(self.vpos(x, y), len, self.bytes().len() as int),
            forall|k: int| 0 <= k < len ==> #[trigger] self.pix_ok(x, y + k),
    {
        let s = abs_stride(self.buf().dims().2);
        let p = self.vpos(x, y);
        let xo = x * STEP + OFFSET;
        assert(0 <= x * STEP) by (nonlinear_arith)
            requires
                0 <= x,
        ;
        assert forall|k: int| 0 <= k < len implies 0 <= #[trigger] p(k) < self.bytes().len() by {
            lemma_row_fits(self.buf(), y + k);
        }
        assert forall|k1: int, k2: int|
            0 <= k1 < len && 0 <= k2 < len && k1 != k2 implies #[trigger] p(k1) != #[trigger] p(k2) by {
            let (d, e) = if k1 < k2 {
                (y + k1, y + k2)
            } else {
                (y + k2, y + k1)
            };
            crate::rendering_buffer::lemma_rows_disjoint(
                self.buf().dims().1,
                self.buf().dims().2,
                d,
                e,
            );
        }
    }

    /// The value of pixel `(x, y)`, opaque.
    pub fn pixel(&self, x: i32, y: i32) -> (r: Gray8)
        requires
            self.pix_ok(x as int, y as int),
        ensures
            r == (Gray8 { v: self.bytes()[self.pix_at(x as int, y as int)], a: 255 }),
    {
        let p = self.pos(x, y);
        Gray8 { v: self.get(p), a: 255 }
    }

    /// Writes the value of `c` into the first byte of `p`.
    pub fn make_pix(&self, p: &mut [u8], c: &Gray8)
        requires
            old(p)@.len() >= 1,
        ensures
            final(p)@ == old(p)@.update(0, c.v),
    {
        p[0] = c.v;
    }

    /// Sets pixel `(x, y)` to the value of `c`.
    pub fn copy_pixel(&mut self, x: i32, y: i32, c: &Gray8)
        requires
            old(self).pix_ok(x as int, y as int),
        ensures
            final(self).bytes() == old(self).bytes().update(old(self).pix_at(x as int, y as int), c.v),
            final(self).buf().dims() == old(self).buf().dims(),
    {
        let p = self.pos(x, y);
        self.put(p, c.v);
    }

    /// Blends `c` with coverage `cover` into pixel `(x, y)`.
    pub fn blend_pixel(&mut self, x: i32, y: i32, c: &Gray8, cover: u8)
        requires
            old(self).pix_ok(x as int, y as int),
        ensures
            ({
                let q = old(self).pix_at(x as int, y as int);
                final(self).bytes() == old(self).bytes().update(
                    q,
                    gray_cover_blend(old(self).blender, old(self).bytes()[q], *c, cover as u32),
                )
            }),
            final(self).buf().dims() == old(self).buf().dims(),
    {
        let p = self.pos(x, y);
        let v = copy_or_blend_pix_cover(self.get(p), c, cover as u32, &self.blender);
        self.put(p, v);
    }


    /// Sets `len` bytes from pixel `(x, y)` on to the value of `c`; the bytes
    /// are consecutive whatever the pixel step.
    pub fn copy_hline(&mut self, x: i32, y: i32, len: u32, c: &Gray8)
        requires
            old(self).bline_ok(x as int, y as int, len as int),
        ensures
            span_written(
                old(self).bytes(),
                final(self).bytes(),
                len as int,
                old(self).bpos(x as int, y as int),
                const_byte(c.v),
            ),
            final(self).buf().dims() == old(self).buf().dims(),
    {
        let ghost b0 = self.bytes();
        let ghost pos = self.bpos(x as int, y as int);
        let ghost f = const_byte(c.v);
        proof {
            self.lemma_bpos(x as int, y as int, len as int);
        }
        let _n: usize = self.byte_count();
        let p = self.pos(x, y);
        let mut i: u32 = 0;
        while i < len
            invariant
                i <= len,
                span_written(b0, self.bytes(), i as int, pos, f),
                f == const_byte(c.v),
                span_positions_ok(pos, len as int, b0.len() as int),
                b0.len() <= usize::MAX,
                self.buf().dims() == old(self).buf().dims(),
                self.blender == old(self).blender,
                p == pos(0), forall|k: int| #[trigger] pos(k) == p + k,
            decreases len - i,
        {
            proof {
                lemma_span_step(b0, self.bytes(), i as int, len as int, pos, f);
            }
            let q = p + i as usize;
            let v = c.v;
            self.put(q, v);
            i = i + 1;
        }
    }

    /// Sets `len` pixels downwards from `(x, y)` to the value of `c`.
    pub fn copy_vline(&mut self, x: i32, y: i32, len: u32, c: &Gray8)
        requires
            old(self).vrun_ok(x as int, y as int, len as int),
        ensures
            span_written(
                old(self).bytes(),
                final(self).bytes(),
                len as int,
                old(self).vpos(x as int, y as int),
                const_byte(c.v),
            ),
            final(self).buf().dims() == old(self).buf().dims(),
    {
        let ghost b0 = self.bytes();
        let ghost pos = self.vpos(x as int, y as int);
        let ghost f = const_byte(c.v);
        proof {
            self.lemma_vpos(x as int, y as int, len as int);
        }
        let _n: usize = self.byte_count();
        let mut i: u32 = 0;
        while i < len
            invariant
                i <= len,
                span_written(b0, self.bytes(), i as int, pos, f),
                f == const_byte(c.v),
                span_positions_ok(pos, len as int, b0.len() as int),
                b0.len() <= usize::MAX,
                self.buf().dims() == old(self).buf().dims(),
                self.blender == old(self).blender,
                old(self).vrun_ok(x as int, y as int, len as int),
                forall|k: int| 0 <= k < len ==> #[trigger] old(self).pix_ok(x as int, y + k),
                forall|k: int| #[trigger] pos(k) == old(self).pix_at(x as int, y + k),
                self.buf().wf(), y + len - 1 <= i32::MAX,
            decreases len - i,
        {
            proof {
                lemma_span_step(b0, self.bytes(), i as int, len as int, pos, f);
            }
            proof {
                assert(old(self).pix_ok(x as int, y + i));
            }
            let q = self.pos(x, y + i as i32);
            let v = c.v;
            self.put(q, v);
            i = i + 1;
        }
    }

    /// Blends `c` with coverage `cover` into `len` pixels rightwards from
    /// `(x, y)`.
    pub fn blend_hline(&mut self, x: i32, y: i32, len: u32, c: &Gray8, cover: u8)
        requires
            old(self).hrun_ok(x as int, y as int, len as int),
        ensures
            span_written(
                old(self).bytes(),
                final(self).bytes(),
                len as int,
                old(self).hpos(x as int, y as int),
                cover_byte(old(self).blender, *c, cover as u32),
            ),
            final(self).buf().dims() == old(self).buf().dims(),
    {
        let ghost b0 = self.bytes();
        let ghost pos = self.hpos(x as int, y as int);
        let ghost f = cover_byte(self.blender, *c, cover as u32);
        proof {
            self.lemma_hpos(x as int, y as int, len as int);
        }
        let _n: usize = self.byte_count();
        let p = self.pos(x, y);
        let mut i: u32 = 0;
        while i < len
            invariant
                i <= len,
                span_written(b0, self.bytes(), i as int, pos, f),
                f == cover_byte(self.blender, *c, cover as u32),
                span_positions_ok(pos, len as int, b0.len() as int),
                b0.len() <= usize::MAX,
                self.buf().dims() == old(self).buf().dims(),
                self.blender == old(self).blender,
                p == pos(0), forall|k: int| 0 <= k < len ==> #[trigger] pos(k) == p + k * STEP,
            decreases len - i,
        {
            proof {
                lemma_span_step(b0, self.bytes(), i as int, len as int, pos, f);
            }
            let q = p + (i as usize) * (STEP as usize);
            let v = copy_or_blend_pix_cover(self.get(q), c, cover as u32, &self.blender);
            self.put(q, v);
            i = i + 1;
        }
    }

    /// Blends `c` with coverage `cover` into `len` pixels downwards from
    /// `(x, y)`.
    pub fn blend_vline(&mut self, x: i32, y: i32, len: u32, c: &Gray8, cover: u8)
        requires
            old(self).vrun_ok(x as int, y as int, len as int),
        ensures
            span_written(
                old(self).bytes(),
                final(self).bytes(),
                len as int,
                old(self).vpos(x as int, y as int),
                cover_byte(old(self).blender, *c, cover as u32),
            ),
            final(self).buf().dims() == old(self).buf().dims(),
    {
        let ghost b0 = self.bytes();
        let ghost pos = self.vpos(x as int, y as int);
        let ghost f = cover_byte(self.blender, *c, cover as u32);
        proof {
            self.lemma_vpos(x as int, y as int, len as int);
        }
        let _n: usize = self.byte_count();
        let mut i: u32 = 0;
        while i < len
            invariant
                i <= len,
                span_written(b0, self.bytes(), i as int, pos, f),
                f == cover_byte(self.blender, *c, cover as u32),
                span_positions_ok(pos, len as int, b0.len() as int),
                b0.len() <= usize::MAX,
                self.buf().dims() == old(self).buf().dims(),
                self.blender == old(self).blender,
                old(self).vrun_ok(x as int, y as int, len as int),
                forall|k: int| 0 <= k < len ==> #[trigger] old(self).pix_ok(x as int, y + k),
                forall|k: int| #[trigger] pos(k) == old(self).pix_at(x as int, y + k),
                self.buf().wf(), y + len - 1 <= i32::MAX,
            decreases len - i,
        {
            proof {
                lemma_span_step(b0, self.bytes(), i as int, len as int, pos, f);
            }
            proof {
                assert(old(self).pix_ok(x as int, y + i));
            }
            let q = self.pos(x, y + i as i32);
            let v = copy_or_blend_pix_cover(self.get(q), c, cover as u32, &self.blender);
            self.put(q, v);
            i = i + 1;
        }
    }

    /// Blends `c` into `len` pixels rightwards from `(x, y)`, pixel `k` with
    /// coverage `covers[k]`.
    pub fn blend_solid_hspan(&mut self, x: i32, y: i32, len: u32, c: &Gray8, covers: &[u8])
        requires
            old(self).hrun_ok(x as int, y as int, len as int),
            len <= covers@.len(),
        ensures
            span_written(
                old(self).bytes(),
                final(self).bytes(),
                len as int,
                old(self).hpos(x as int, y as int),
                covers_byte(old(self).blender, *c, covers@),
            ),
            final(self).buf().dims() == old(self).buf().dims(),
    {
        let ghost b0 = self.bytes();
        let ghost pos = self.hpos(x as int, y as int);
        let ghost f = covers_byte(self.blender, *c, covers@);
        proof {
            self.lemma_hpos(x as int, y as int, len as int);
        }
        let _n: usize = self.byte_count();
        let p = self.pos(x, y);
        let mut i: u32 = 0;
        while i < len
            invariant
                i <= len,
                span_written(b0, self.bytes(), i as int, pos, f),
                f == covers_byte(self.blender, *c, covers@),
                span_positions_ok(pos, len as int, b0.len() as int),
                b0.len() <= usize::MAX,
                self.buf().dims() == old(self).buf().dims(),
                self.blender == old(self).blender,
                p == pos(0), forall|k: int| 0 <= k < len ==> #[trigger] pos(k) == p + k * STEP,
                len <= covers@.len(),
            decreases len - i,
        {
            proof {
                lemma_span_step(b0, self.bytes(), i as int, len as int, pos, f);
            }
            let q = p + (i as usize) * (STEP as usize);
            let v = copy_or_blend_pix_cover(self.get(q), c, covers[i as usize] as u32, &self.blender);
            self.put(q, v);
            i = i + 1;
        }
    }

    /// Blends `c` into `len` pixels downwards from `(x, y)`, pixel `k` with
    /// coverage `covers[k]`.
    pub fn blend_solid_vspan(&mut self, x: i32, y: i32, len: u32, c: &Gray8, covers: &[u8])
        requires
            old(self).vrun_ok(x as int, y as int, len as int),
            len <= covers@.len(),
        ensures
            span_written(
                old(self).bytes(),
                final(self).bytes(),
                len as int,
                old(self).vpos(x as int, y as int),
                covers_byte(old(self).blender, *c, covers@),
            ),
            final(self).buf().dims() == old(self).buf().dims(),
    {
        let ghost b0 = self.bytes();
        let ghost pos = self.vpos(x as int, y as int);
        let ghost f = covers_byte(self.blender, *c, covers@);
        proof {
            self.lemma_vpos(x as int, y as int, len as int);
        }
        let _n: usize = self.byte_count();
        let mut i: u32 = 0;
        while i < len
            invariant
                i <= len,
                span_written(b0, self.bytes(), i as int, pos, f),
                f == covers_byte(self.blender, *c, covers@),
                span_positions_ok(pos, len as int, b0.len() as int),
                b0.len() <= usize::MAX,
                self.buf().dims() == old(self).buf().dims(),
                self.blender == old(self).blender,
                old(self).vrun_ok(x as int, y as int, len as int),
                forall|k: int| 0 <= k < len ==> #[trigger] old(self).pix_ok(x as int, y + k),
                forall|k: int| #[trigger] pos(k) == old(self).pix_at(x as int, y + k),
                self.buf().wf(), y + len - 1 <= i32::MAX,
                len <= covers@.len(),
            decreases len - i,
        {
            proof {
                lemma_span_step(b0, self.bytes(), i as int, len as int, pos, f);
            }
            proof {
                assert(old(self).pix_ok(x as int, y + i));
            }
            let q = self.pos(x, y + i as i32);
            let v = copy_or_blend_pix_cover(self.get(q), c, covers[i as usize] as u32, &self.blender);
            self.put(q, v);
            i = i + 1;
        }
    }

    /// Sets `len` pixels rightwards from `(x, y)` to the values of `colors`.
    pub fn copy_color_hspan(&mut self, x: i32, y: i32, len: u32, colors: &[Gray8])
        requires
            old(self).hrun_ok(x as int, y as int, len as int),
            len <= colors@.len(),
        ensures
            span_written(
                old(self).bytes(),
                final(self).bytes(),
                len as int,
                old(self).hpos(x as int, y as int),
                color_values(colors@),
            ),
            final(self).buf().dims() == old(self).buf().dims(),
    {
        let ghost b0 = self.bytes();
        let ghost pos = self.hpos(x as int, y as int);
        let ghost f = color_values(colors@);
        proof {
            self.lemma_hpos(x as int, y as int, len as int);
        }
        let _n: usize = self.byte_count();
        let p = self.pos(x, y);
        let mut i: u32 = 0;
        while i < len
            invariant
                i <= len,
                span_written(b0, self.bytes(), i as int, pos, f),
                f == color_values(colors@),
                span_positions_ok(pos, len as int, b0.len() as int),
                b0.len() <= usize::MAX,
                self.buf().dims() == old(self).buf().dims(),
                self.blender == old(self).blender,
                p == pos(0), forall|k: int| 0 <= k < len ==> #[trigger] pos(k) == p + k * STEP,
                len <= colors@.len(),
            decreases len - i,
        {
            proof {
                lemma_span_step(b0, self.bytes(), i as int, len as int, pos, f);
            }
            let q = p + (i as usize) * (STEP as usize);
            let v = colors[i as usize].v;
            self.put(q, v);
            i = i + 1;
        }
    }

    /// Sets `len` pixels downwards from `(x, y)` to the values of `colors`.
    pub fn copy_color_vspan(&mut self, x: i32, y: i32, len: u32, colors: &[Gray8])
        requires
            old(self).vrun_ok(x as int, y as int, len as int),
            len <= colors@.len(),
        ensures
            span_written(
                old(self).bytes(),
                final(self).bytes(),
                len as int,
                old(self).vpos(x as int, y as int),
                color_values(colors@),
            ),
            final(self).buf().dims() == old(self).buf().dims(),
    {
        let ghost b0 = self.bytes();
        let ghost pos = self.vpos(x as int, y as int);
        let ghost f = color_values(colors@);
        proof {
            self.lemma_vpos(x as int, y as int, len as int);
        }
        let _n: usize = self.byte_count();
        let mut i: u32 = 0;
        while i < len
            invariant
                i <= len,
                span_written(b0, self.bytes(), i as int, pos, f),
                f == color_values(colors@),
                span_positions_ok(pos, len as int, b0.len() as int),
                b0.len() <= usize::MAX,
                self.buf().dims() == old(self).buf().dims(),
                self.blender == old(self).blender,
                old(self).vrun_ok(x as int, y as int, len as int),
                forall|k: int| 0 <= k < len ==> #[trigger] old(self).pix_ok(x as int, y + k),
                forall|k: int| #[trigger] pos(k) == old(self).pix_at(x as int, y + k),
                self.buf().wf(), y + len - 1 <= i32::MAX,
                len <= colors@.len(),
            decreases len - i,
        {
            proof {
                lemma_span_step(b0, self.bytes(), i as int, len as int, pos, f);
            }
            proof {
                assert(old(self).pix_ok(x as int, y + i));
            }
            let q = self.pos(x, y + i as i32);
            let v = colors[i as usize].v;
            self.put(q, v);
            i = i + 1;
        }
    }

    /// Blends `colors` into `len` pixels rightwards from `(x, y)`: with the
    /// coverages `covers` when there are any, else all with coverage `cover`
    /// (copying opaque colours when it is full).
    pub fn blend_color_hspan(&mut self, x: i32, y: i32, len: u32, colors: &[Gray8], covers: &[u8], cover: u8)
        requires
            old(self).hrun_ok(x as int, y as int, len as int),
            len <= colors@.len(),
            covers@.len() > 0 ==> len <= covers@.len(),
            covers@.len() == 0 && cover == 255 ==> forall|k: int|
                0 <= k < len ==> gray_copy_or_blend_ok(
                    old(self).blender,
                    #[trigger] old(self).bytes()[old(self).hpos(x as int, y as int)(k)],
                    colors@[k],
                ),
        ensures
            span_written(
                old(self).bytes(),
                final(self).bytes(),
                len as int,
                old(self).hpos(x as int, y as int),
                color_span_byte(old(self).blender, colors@, covers@, cover),
            ),
            final(self).buf().dims() == old(self).buf().dims(),
    {
        let ghost b0 = self.bytes();
        let ghost pos = self.hpos(x as int, y as int);
        let ghost f = color_span_byte(self.blender, colors@, covers@, cover);
        proof {
            self.lemma_hpos(x as int, y as int, len as int);
        }
        let _n: usize = self.byte_count();
        let p = self.pos(x, y);
        let mut i: u32 = 0;
        while i < len
            invariant
                i <= len,
                span_written(b0, self.bytes(), i as int, pos, f),
                f == color_span_byte(self.blender, colors@, covers@, cover),
                span_positions_ok(pos, len as int, b0.len() as int),
                b0.len() <= usize::MAX,
                self.buf().dims() == old(self).buf().dims(),
                self.blender == old(self).blender,
                p == pos(0), forall|k: int| 0 <= k < len ==> #[trigger] pos(k) == p + k * STEP,
                len <= colors@.len(),
                covers@.len() > 0 ==> len <= covers@.len(),
                covers@.len() == 0 && cover == 255 ==> forall|k: int|
                    0 <= k < len ==> gray_copy_or_blend_ok(self.blender, #[trigger] b0[pos(k)], colors@[k]),
            decreases len - i,
        {
            proof {
                lemma_span_step(b0, self.bytes(), i as int, len as int, pos, f);
            }
            let q = p + (i as usize) * (STEP as usize);
            let old_v = self.get(q);
            let v = if covers.len() > 0 {
                copy_or_blend_pix_cover(old_v, &colors[i as usize], covers[i as usize] as u32, &self.blender)
            } else if cover == 255 {
                if colors[i as usize].a == 255 {
                    colors[i as usize].v
                } else {
                    copy_or_blend_pix(old_v, &colors[i as usize], &self.blender)
                }
            } else {
                copy_or_blend_pix_cover(old_v, &colors[i as usize], cover as u32, &self.blender)
            };
            self.put(q, v);
            i = i + 1;
        }
    }

    /// Blends `colors` into `len` pixels downwards from `(x, y)`, as
    /// `blend_color_hspan` does along a row.
    pub fn blend_color_vspan(&mut self, x: i32, y: i32, len: u32, colors: &[Gray8], covers: &[u8], cover: u8)
        requires
            old(self).vrun_ok(x as int, y as int, len as int),
            len <= colors@.len(),
            covers@.len() > 0 ==> len <= covers@.len(),
            covers@.len() == 0 && cover == 255 ==> forall|k: int|
                0 <= k < len ==> gray_copy_or_blend_ok(
                    old(self).blender,
                    #[trigger] old(self).bytes()[old(self).vpos(x as int, y as int)(k)],
                    colors@[k],
                ),
        ensures
            span_written(
                old(self).bytes(),
                final(self).bytes(),
                len as int,
                old(self).vpos(x as int, y as int),
                color_span_byte(old(self).blender, colors@, covers@, cover),
            ),
            final(self).buf().dims() == old(self).buf().dims(),
    {
        let ghost b0 = self.bytes();
        let ghost pos = self.vpos(x as int, y as int);
        let ghost f = color_span_byte(self.blender, colors@, covers@, cover);
        proof {
            self.lemma_vpos(x as int, y as int, len as int);
        }
        let _n: usize = self.byte_count();
        let mut i: u32 = 0;
        while i < len
            invariant
                i <= len,
                span_written(b0, self.bytes(), i as int, pos, f),
                f == color_span_byte(self.blender, colors@, covers@, cover),
                span_positions_ok(pos, len as int, b0.len() as int),
                b0.len() <= usize::MAX,
                self.buf().dims() == old(self).buf().dims(),
                self.blender == old(self).blender,
                old(self).vrun_ok(x as int, y as int, len as int),
                forall|k: int| 0 <= k < len ==> #[trigger] old(self).pix_ok(x as int, y + k),
                forall|k: int| #[trigger] pos(k) == old(self).pix_at(x as int, y + k),
                self.buf().wf(), y + len - 1 <= i32::MAX,
                len <= colors@.len(),
                covers@.len() > 0 ==> len <= covers@.len(),
                covers@.len() == 0 && cover == 255 ==> forall|k: int|
                    0 <= k < len ==> gray_copy_or_blend_ok(self.blender, #[trigger] b0[pos(k)], colors@[k]),
            decreases len - i,
        {
            proof {
                lemma_span_step(b0, self.bytes(), i as int, len as int, pos, f);
            }
            proof {
                assert(old(self).pix_ok(x as int, y + i));
            }
            let q = self.pos(x, y + i as i32);
            let old_v = self.get(q);
            let v = if covers.len() > 0 {
                copy_or_blend_pix_cover(old_v, &colors[i as usize], covers[i as usize] as u32, &self.blender)
            } else if cover == 255 {
                if colors[i as usize].a == 255 {
                    colors[i as usize].v
                } else {
                    copy_or_blend_pix(old_v, &colors[i as usize], &self.blender)
                }
            } else {
                copy_or_blend_pix_cover(old_v, &colors[i as usize], cover as u32, &self.blender)
            };
            self.put(q, v);
            i = i + 1;
        }
    }

    /// The byte of pixel `k` of row `r`.
    pub open spec fn grid_pos(&self) -> spec_fn(int, int) -> int {
        |r: int, k: int| self.pix_at(k, r)
    }

    /// Every row holds its `width` pixels.
    pub open spec fn rows_ok(&self) -> bool {
        &&& self.buf().wf()
        &&& STEP >= 1
        &&& self.buf().dims().0 == 0 || (self.buf().dims().0 - 1) * STEP + OFFSET < abs_stride(
            self.buf().dims().2,
        )
    }

    /// The pixels of all rows are distinct bytes of the buffer.
    proof fn lemma_grid_pos(&self)
        requires
            self.rows_ok(),
        ensures
            grid_positions_ok(
                self.grid_pos(),
                self.buf().dims().1 as int,
                self.buf().dims().0 as int,
                self.bytes().len() as int,
            ),
    {
        let w = self.buf().dims().0 as int;
        let h = self.buf().dims().1 as int;
        let s = abs_stride(self.buf().dims().2);
        let p = self.grid_pos();
        assert forall|r: int, k: int| 0 <= r < h && 0 <= k < w implies 0 <= #[trigger] p(r, k)
            < self.bytes().len() && k * STEP + OFFSET < s by {
            lemma_row_fits(self.buf(), r);
            assert(0 <= k * STEP <= (w - 1) * STEP) by (nonlinear_arith)
                requires
                    0 <= k <= w - 1,
            ;
        }
        assert forall|r1: int, k1: int, r2: int, k2: int|
            0 <= r1 < h && 0 <= k1 < w && 0 <= r2 < h && 0 <= k2 < w && (r1 != r2 || k1 != k2)
                implies #[trigger] p(r1, k1) != #[trigger] p(r2, k2) by {
            assert(0 <= k1 * STEP <= (w - 1) * STEP && 0 <= k2 * STEP <= (w - 1) * STEP)
                by (nonlinear_arith)
                requires
                    0 <= k1 <= w - 1,
                    0 <= k2 <= w - 1,
            ;
            if r1 == r2 {
                assert(k1 * STEP != k2 * STEP) by (nonlinear_arith)
                    requires
                        k1 != k2,
                        STEP >= 1,
                ;
            } else {
                let (d, e) = if r1 < r2 {
                    (r1, r2)
                } else {
                    (r2, r1)
                };
                crate::rendering_buffer::lemma_rows_disjoint(h as u32, self.buf().dims().2, d, e);
            }
        }
    }

    /// Replaces every pixel `p` of the image by `g(p)`, row by row; an image
    /// of more than `i32::MAX` rows is left as it is.
    fn for_each_pixel<G: Gamma<u8, u8>>(&mut self, gamma: &G, dir: bool)
        requires
            old(self).rows_ok(),
            gamma.gamma_wf(),
        ensures
            old(self).buf().dims().1 <= i32::MAX ==> grid_written(
                old(self).bytes(),
                final(self).bytes(),
                old(self).buf().dims().1 as int,
                old(self).buf().dims().0 as int,
                old(self).grid_pos(),
                gamma_map(*gamma, dir),
            ),
            old(self).buf().dims().1 > i32::MAX ==> final(self).bytes() == old(self).bytes(),
            final(self).buf().dims() == old(self).buf().dims(),
    {
        let h = self.height();
        let w = self.width();
        if h > i32::MAX as u32 || w == 0 {
            return;
        }
        let ghost b0 = self.bytes();
        let ghost pos = self.grid_pos();
        let ghost g = gamma_map(*gamma, dir);
        proof {
            self.lemma_grid_pos();
        }
        let _n: usize = self.byte_count();
        let mut y: u32 = 0;
        while y < h
            invariant
                y <= h,
                h == old(self).buf().dims().1,
                w == old(self).buf().dims().0,
                h <= i32::MAX,
                w >= 1,
                old(self).rows_ok(),
                gamma.gamma_wf(),
                pos == old(self).grid_pos(),
                g == gamma_map(*gamma, dir),
                grid_written(b0, self.bytes(), y as int, w as int, pos, g),
                grid_positions_ok(pos, h as int, w as int, b0.len() as int),
                b0.len() <= usize::MAX,
                self.buf().wf(),
                self.buf().dims() == old(self).buf().dims(),
            decreases h - y,
        {
            let ghost mid = self.bytes();
            let ghost rowp = |k: int| pos(y as int, k);
            let ghost f = |k: int, b: u8| g(b);
            proof {
                assert(old(self).pix_ok(0, y as int)) by {
                    lemma_row_fits(old(self).buf(), y as int);
                    assert(0 <= (w - 1) * STEP) by (nonlinear_arith)
                        requires
                            w >= 1,
                    ;
                }
                assert forall|k: int| 0 <= k < w implies 0 <= #[trigger] rowp(k) < b0.len() by {
                    assert(0 <= pos(y as int, k) < b0.len());
                }
                assert forall|k1: int, k2: int| 0 <= k1 < w && 0 <= k2 < w && k1 != k2 implies #[trigger] rowp(k1)
                    != #[trigger] rowp(k2) by {
                    assert(pos(y as int, k1) != pos(y as int, k2));
                }
            }
            let p = self.pos(0, y as i32);
            let mut k: u32 = 0;
            while k < w
                invariant
                    k <= w,
                    y < h,
                    h == old(self).buf().dims().1,
                    w == old(self).buf().dims().0,
                    gamma.gamma_wf(),
                    g == gamma_map(*gamma, dir),
                    f == (|k: int, b: u8| g(b)),
                    rowp == (|k: int| pos(y as int, k)),
                    pos == old(self).grid_pos(),
                    p == pos(y as int, 0),
                    forall|k2: int| 0 <= k2 < w ==> #[trigger] rowp(k2) == p + k2 * STEP,
                    span_written(mid, self.bytes(), k as int, rowp, f),
                    span_positions_ok(rowp, w as int, mid.len() as int),
                    mid.len() == b0.len(),
                    b0.len() <= usize::MAX,
                    self.buf().wf(),
                    self.buf().dims() == old(self).buf().dims(),
                decreases w - k,
            {
                proof {
                    lemma_span_step(mid, self.bytes(), k as int, w as int, rowp, f);
                }
                let q = p + (k as usize) * (STEP as usize);
                let b = self.get(q);
                let v = if dir {
                    gamma.dir(b)
                } else {
                    gamma.inv(b)
                };
                self.put(q, v);
                k = k + 1;
            }
            proof {
                lemma_grid_step(b0, mid, self.bytes(), y as int, h as int, w as int, pos, g);
            }
            y = y + 1;
        }
    }

    /// Applies the direct gamma correction to every pixel.
    pub fn apply_gamma_dir<G: Gamma<u8, u8>>(&mut self, g: &G)
        requires
            old(self).rows_ok(),
            g.gamma_wf(),
        ensures
            old(self).buf().dims().1 <= i32::MAX ==> grid_written(
                old(self).bytes(),
                final(self).bytes(),
                old(self).buf().dims().1 as int,
                old(self).buf().dims().0 as int,
                old(self).grid_pos(),
                gamma_map(*g, true),
            ),
            old(self).buf().dims().1 > i32::MAX ==> final(self).bytes() == old(self).bytes(),
            final(self).buf().dims() == old(self).buf().dims(),
    {
        self.for_each_pixel(g, true);
    }

    /// Undoes a gamma correction on every pixel.
    pub fn apply_gamma_inv<G: Gamma<u8, u8>>(&mut self, g: &G)
        requires
            old(self).rows_ok(),
            g.gamma_wf(),
        ensures
            old(self).buf().dims().1 <= i32::MAX ==> grid_written(
                old(self).bytes(),
                final(self).bytes(),
                old(self).buf().dims().1 as int,
                old(self).buf().dims().0 as int,
                old(self).grid_pos(),
                gamma_map(*g, false),
            ),
            old(self).buf().dims().1 > i32::MAX ==> final(self).bytes() == old(self).bytes(),
            final(self).buf().dims() == old(self).buf().dims(),
    {
        self.for_each_pixel(g, false);
    }

    /// Reading a pixel after `copy_pixel` gives the copied value, and every
    /// other pixel keeps its value.
    pub proof fn lemma_pixel_after_copy(&self, x: int, y: int, x2: int, y2: int, c: Gray8)
        requires
            self.pix_ok(x, y),
            self.pix_ok(x2, y2),
            STEP >= 1,
        ensures
            ({
                let nb = self.bytes().update(self.pix_at(x, y), c.v);
                &&& nb[self.pix_at(x, y)] == c.v
                &&& (x != x2 || y != y2) ==> nb[self.pix_at(x2, y2)] == self.bytes()[self.pix_at(
                    x2,
                    y2,
                )]
            }),
    {
        lemma_row_fits(self.buf(), y);
        lemma_row_fits(self.buf(), y2);
        assert(0 <= x * STEP && 0 <= x2 * STEP) by (nonlinear_arith)
            requires
                0 <= x,
                0 <= x2,
        ;
        if y == y2 && x != x2 {
            assert(x * STEP != x2 * STEP) by (nonlinear_arith)
                requires
                    x != x2,
                    STEP >= 1,
            ;
        } else if y != y2 {
            let (d, e) = if y < y2 {
                (y, y2)
            } else {
                (y2, y)
            };
            crate::rendering_buffer::lemma_rows_disjoint(
                self.buf().dims().1,
                self.buf().dims().2,
                d,
                e,
            );
        }
    }
}

/// Byte `k` of a span takes byte `k` of `src`.
pub open spec fn copied_bytes(src: Seq<u8>) -> spec_fn(int, u8) -> u8 {
    |k: int, p: u8| src[k]
}

/// Byte `k` of a span gets `c` with the coverage `covers[k]`.
pub open spec fn scaled_cover_byte<B: BlenderG<Gray8>>(b: B, c: Gray8, covers: Seq<u8>) -> spec_fn(int, u8) -> u8 {
    |k: int, p: u8| gray_cover_blend(b, p, c, covers[k] as u32)
}

/// Byte `k` of a span gets the colour that the table `lut` holds for
/// `src[k]`, with coverage `cover`.
pub open spec fn lut_byte<B: BlenderG<Gray8>>(b: B, lut: Seq<Gray8>, src: Seq<u8>, cover: u32) -> spec_fn(
    int,
    u8,
) -> u8 {
    |k: int, p: u8| gray_cover_blend(b, p, lut[src[k] as int], cover)
}

impl<'a, Blend: BlenderG<Gray8>, const STEP: u32, const OFFSET: u32> AlphaBlendGray<'a, Gray8, Blend, STEP, OFFSET> {
    /// The byte `k` places after byte `x` of row `y`: the transfers from
    /// another image count their pixels one byte each from the start of the
    /// row, whatever the step and offset.
    pub open spec fn row_pos(&self, x: int, y: int) -> spec_fn(int) -> int {
        |k: int| self.buf().row_start(y) + x + k
    }

    /// `len` bytes from byte `x` of row `y` lie inside the row.
    pub open spec fn row_run_ok(&self, x: int, y: int, len: int) -> bool {
        &&& self.buf().wf()
        &&& 0 <= x
        &&& 0 <= y < self.buf().dims().1
        &&& x + len <= abs_stride(self.buf().dims().2)
    }

    proof fn lemma_row_pos(&self, x: int, y: int, len: int)
        requires
            self.row_run_ok(x, y, len),
        ensures
            span_positions_ok(self.row_pos(x, y), len, self.bytes().len() as int),
            forall|k: int| #[trigger] self.row_pos(x, y)(k) == self.buf().row_start(y) + x + k,
    {
        lemma_row_fits(self.buf(), y);
    }

    /// Copies `len` bytes of row `ysrc` of `from`, from byte `xsrc` on, over
    /// the bytes from byte `xdst` of row `ydst` on.
    pub fn copy_from(&mut self, from: &RenderBuf, xdst: i32, ydst: i32, xsrc: i32, ysrc: i32, len: u32)
        requires
            old(self).row_run_ok(xdst as int, ydst as int, len as int),
            from.wf(),
            0 <= xsrc,
            0 <= ysrc < from.dims().1,
            xsrc + len <= abs_stride(from.dims().2),
        ensures
            span_written(
                old(self).bytes(),
                final(self).bytes(),
                len as int,
                old(self).row_pos(xdst as int, ydst as int),
                copied_bytes(Seq::new(len as nat, |k: int| from.bytes()[from.row_start(ysrc as int) + xsrc + k])),
            ),
            final(self).buf().dims() == old(self).buf().dims(),
    {
        let ghost b0 = self.bytes();
        let ghost pos = self.row_pos(xdst as int, ydst as int);
        let ghost src = Seq::new(len as nat, |k: int| from.bytes()[from.row_start(ysrc as int) + xsrc + k]);
        let ghost f = copied_bytes(src);
        proof {
            self.lemma_row_pos(xdst as int, ydst as int, len as int);
            lemma_row_fits(*from, ysrc as int);
        }
        let _n: usize = self.byte_count();
        let p = self.rbuf.get().row_offset(ydst as u32) + xdst as usize;
        let s0 = from.row_offset(ysrc as u32) + xsrc as usize;
        let mut i: u32 = 0;
        while i < len
            invariant
                i <= len,
                span_written(b0, self.bytes(), i as int, pos, f),
                f == copied_bytes(src),
                src == Seq::new(len as nat, |k: int| from.bytes()[from.row_start(ysrc as int) + xsrc + k]),
                span_positions_ok(pos, len as int, b0.len() as int),
                b0.len() <= usize::MAX,
                self.buf().dims() == old(self).buf().dims(),
                self.blender == old(self).blender,
                forall|k: int| #[trigger] pos(k) == p + k,
                s0 == from.row_start(ysrc as int) + xsrc,
                s0 + len <= from.bytes().len(),
                from.bytes().len() <= usize::MAX,
            decreases len - i,
        {
            proof {
                lemma_span_step(b0, self.bytes(), i as int, len as int, pos, f);
            }
            let v = from.byte_at(s0 + i as usize);
            assert(v == src[i as int]);
            self.put(p + i as usize, v);
            i = i + 1;
        }
    }

    /// Blends `color` into the `len` bytes from byte `xdst` of row `ydst`
    /// on, each with the coverage of the byte at the same place from the
    /// start of row `ysrc` of the gray image `from`, scaled by `cover`. The
    /// source is read from the start of its row whatever `xsrc` is.
    pub fn blend_from_color<'b, BG: BlenderG<Gray8>, const S2: u32, const O2: u32>(
        &mut self,
        from: &AlphaBlendGray<'b, Gray8, BG, S2, O2>,
        color: &Gray8,
        xdst: i32,
        ydst: i32,
        xsrc: i32,
        ysrc: i32,
        len: u32,
        cover: u32,
    )
        requires
            old(self).row_run_ok(xdst as int, ydst as int, len as int),
            from.buf().wf(),
            0 <= ysrc < from.buf().dims().1,
            len <= abs_stride(from.buf().dims().2),
            cover <= 255,
        ensures
            span_written(
                old(self).bytes(),
                final(self).bytes(),
                len as int,
                old(self).row_pos(xdst as int, ydst as int),
                scaled_cover_byte(
                    old(self).blender,
                    *color,
                    scaled_covers(row_bytes(from.buf(), ysrc as int, len as int), cover),
                ),
            ),
            final(self).buf().dims() == old(self).buf().dims(),
    {
        let ghost b0 = self.bytes();
        let ghost pos = self.row_pos(xdst as int, ydst as int);
        let ghost src = row_bytes(from.buf(), ysrc as int, len as int);
        let ghost f = scaled_cover_byte(self.blender, *color, scaled_covers(src, cover));
        proof {
            self.lemma_row_pos(xdst as int, ydst as int, len as int);
        }
        let rb = from.rbuf.get();
        let row = rb.row_offset(ysrc as u32);
        let _n: usize = self.byte_count();
        let p = self.rbuf.get().row_offset(ydst as u32) + xdst as usize;
        let mut i: u32 = 0;
        while i < len
            invariant
                i <= len,
                span_written(b0, self.bytes(), i as int, pos, f),
                f == scaled_cover_byte(self.blender, *color, scaled_covers(src, cover)),
                src == row_bytes(from.buf(), ysrc as int, len as int),
                span_positions_ok(pos, len as int, b0.len() as int),
                b0.len() <= usize::MAX,
                self.buf().dims() == old(self).buf().dims(),
                self.blender == old(self).blender,
                forall|k: int| #[trigger] pos(k) == p + k,
                *rb == from.buf(),
                row == rb.row_start(ysrc as int),
                row + len <= rb.bytes().len(),
                rb.bytes().len() <= usize::MAX,
                cover <= 255,
            decreases len - i,
        {
            proof {
                lemma_span_step(b0, self.bytes(), i as int, len as int, pos, f);
            }
            let v = rb.byte_at(row + i as usize) as u32;
            assert(v * cover + 255 <= 255 * 255 + 255) by (nonlinear_arith)
                requires
                    v <= 255,
                    cover <= 255,
            ;
            let t = v * cover + 255;
            let c = t >> 8;
            assert(c < 256) by (bit_vector)
                requires
                    c == t >> 8u32,
                    t <= 65280u32,
            ;
            assert(c == scaled_covers(src, cover)[i as int] as u32);
            let q = p + i as usize;
            let r = copy_or_blend_pix_cover(self.get(q), color, c, &self.blender);
            self.put(q, r);
            i = i + 1;
        }
    }

    /// Applies to the `len` bytes from byte `xdst` of row `ydst` on the
    /// colours that the table `color_lut` holds for the bytes at the same
    /// places from the start of row `ysrc` of the gray image `from`, each
    /// with coverage `cover`. The source is read from the start of its row
    /// whatever `xsrc` is.
    pub fn blend_from_lut<'b, BG: BlenderG<Gray8>, const S2: u32, const O2: u32>(
        &mut self,
        from: &AlphaBlendGray<'b, Gray8, BG, S2, O2>,
        color_lut: &[Gray8],
        xdst: i32,
        ydst: i32,
        xsrc: i32,
        ysrc: i32,
        len: u32,
        cover: u32,
    )
        requires
            old(self).row_run_ok(xdst as int, ydst as int, len as int),
            from.buf().wf(),
            0 <= ysrc < from.buf().dims().1,
            len <= abs_stride(from.buf().dims().2),
            cover <= 255,
            forall|k: int|
                0 <= k < len ==> (#[trigger] row_bytes(from.buf(), ysrc as int, len as int)[k]) < color_lut@.len(),
        ensures
            span_written(
                old(self).bytes(),
                final(self).bytes(),
                len as int,
                old(self).row_pos(xdst as int, ydst as int),
                lut_byte(old(self).blender, color_lut@, row_bytes(from.buf(), ysrc as int, len as int), cover),
            ),
            final(self).buf().dims() == old(self).buf().dims(),
    {
        let ghost b0 = self.bytes();
        let ghost pos = self.row_pos(xdst as int, ydst as int);
        let ghost src = row_bytes(from.buf(), ysrc as int, len as int);
        let ghost f = lut_byte(self.blender, color_lut@, src, cover);
        proof {
            self.lemma_row_pos(xdst as int, ydst as int, len as int);
        }
        let rb = from.rbuf.get();
        let row = rb.row_offset(ysrc as u32);
        let _n: usize = self.byte_count();
        let p = self.rbuf.get().row_offset(ydst as u32) + xdst as usize;
        let mut i: u32 = 0;
        while i < len
            invariant
                i <= len,
                span_written(b0, self.bytes(), i as int, pos, f),
                f == lut_byte(self.blender, color_lut@, src, cover),
                src == row_bytes(from.buf(), ysrc as int, len as int),
                span_positions_ok(pos, len as int, b0.len() as int),
                b0.len() <= usize::MAX,
                self.buf().dims() == old(self).buf().dims(),
                self.blender == old(self).blender,
                forall|k: int| #[trigger] pos(k) == p + k,
                *rb == from.buf(),
                row == rb.row_start(ysrc as int),
                row + len <= rb.bytes().len(),
                rb.bytes().len() <= usize::MAX,
                cover <= 255,
                forall|k: int| 0 <= k < len ==> (#[trigger] src[k]) < color_lut@.len(),
            decreases len - i,
        {
            proof {
                lemma_span_step(b0, self.bytes(), i as int, len as int, pos, f);
            }
            let v = rb.byte_at(row + i as usize);
            assert(v == src[i as int]);
            let q = p + i as usize;
            let r = copy_or_blend_pix_cover(self.get(q), &color_lut[v as usize], cover, &self.blender);
            self.put(q, r);
            i = i + 1;
        }
    }
}

} // verus!
