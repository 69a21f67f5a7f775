//! Blenders for pixels of three channels in a given order (RGB or BGR), 8 or
//! 16 bits per channel: plain, premultiplied, and through a gamma table; and
//! the gamma corrections applied to such pixels in place.
use crate::color_rgba::{OrderBgr, OrderRgb, Rgba16, Rgba8};
use crate::pixfmt_rgb_packed::{wadd, wadd_spec, wmul, wmul_spec, wsub, wsub_spec};
use crate::rendering_buffer::{abs_stride, lemma_row_fits, RenderBuf};
use crate::color_gray::Gray8;
use crate::pixfmt_gray::{row_bytes, scaled_covers, AlphaBlendGray};
use crate::{Blender, BlenderG, Equiv, Gamma, Order, RenderBuffer};
use core::marker::PhantomData;
use vstd::prelude::*;

verus! {

/// The channel indices of the order lie inside the pixel `p`.
pub open spec fn rgb_in_pixel<O: Order, T>(p: Seq<T>) -> bool {
    O::spec_r() < p.len() && O::spec_g() < p.len() && O::spec_b() < p.len()
}

/// The pixel after its red, green and blue channels were replaced in turn by
/// `f` of the value each holds at that moment and the colour's channel.
pub open spec fn rgb_update<O: Order, T>(
    p: Seq<T>,
    f: spec_fn(T, u32) -> T,
    cr: u32,
    cg: u32,
    cb: u32,
) -> Seq<T> {
    let p1 = p.update(O::spec_r() as int, f(p[O::spec_r() as int], cr));
    let p2 = p1.update(O::spec_g() as int, f(p1[O::spec_g() as int], cg));
    p2.update(O::spec_b() as int, f(p2[O::spec_b() as int], cb))
}

/// The pixel after its red, green and blue channels were replaced by `f` of
/// the values they held before.
pub open spec fn rgb_map<O: Order, T>(p: Seq<T>, f: spec_fn(T) -> T) -> Seq<T> {
    let (vr, vg, vb) = (p[O::spec_r() as int], p[O::spec_g() as int], p[O::spec_b() as int]);
    p.update(O::spec_r() as int, f(vr)).update(O::spec_g() as int, f(vg)).update(
        O::spec_b() as int,
        f(vb),
    )
}

/// The pixel after its red, green and blue channels were replaced by `f` of
/// the values they held before and the colour's channels.
pub open spec fn rgb_gamma_update<O: Order, T>(
    p: Seq<T>,
    f: spec_fn(T, u32) -> T,
    cr: u32,
    cg: u32,
    cb: u32,
) -> Seq<T> {
    let (vr, vg, vb) = (p[O::spec_r() as int], p[O::spec_g() as int], p[O::spec_b() as int]);
    p.update(O::spec_r() as int, f(vr, cr)).update(O::spec_g() as int, f(vg, cg)).update(
        O::spec_b() as int,
        f(vb, cb),
    )
}

/// Each of the three updates of `rgb_update` satisfies `ok`.
pub open spec fn rgb_update_ok<O: Order, T>(
    p: Seq<T>,
    f: spec_fn(T, u32) -> T,
    ok: spec_fn(T, u32) -> bool,
    cr: u32,
    cg: u32,
    cb: u32,
) -> bool {
    let p1 = p.update(O::spec_r() as int, f(p[O::spec_r() as int], cr));
    let p2 = p1.update(O::spec_g() as int, f(p1[O::spec_g() as int], cg));
    &&& ok(p[O::spec_r() as int], cr)
    &&& ok(p1[O::spec_g() as int], cg)
    &&& ok(p2[O::spec_b() as int], cb)
}

/// Shifting right by 8 or 16 bits divides by 256 or 65536.
proof fn lemma_shr_div(s: u32)
    ensures
        s >> 8u32 == s / 256,
        s >> 16u32 == s / 65536,
{
    vstd::bits::lemma_u32_shr_is_div(s, 8);
    vstd::bits::lemma_u32_shr_is_div(s, 16);
    vstd::arithmetic::power2::lemma2_to64();
}

//=====================================================ApplyGammaDirRgb
/// Applies the direct gamma correction to the colour channels of pixels.
pub struct ApplyGammaDirRgb<'a, C, O, G> {
    pub gamma: &'a G,
    pub phantom_color: PhantomData<C>,
    pub phantom_order: PhantomData<O>,
}

//=====================================================ApplyGammaInvRgb
/// Undoes a gamma correction on the colour channels of pixels.
pub struct ApplyGammaInvRgb<'a, C, O, G> {
    pub gamma: &'a G,
    pub phantom_color: PhantomData<C>,
    pub phantom_order: PhantomData<O>,
}

//=========================================================BlenderRgb
/// Blends a colour into a pixel by its alpha, in wrapping arithmetic.
pub struct BlenderRgb<C, O> {
    pub phantom_color: PhantomData<C>,
    pub phantom_order: PhantomData<O>,
}

//======================================================BlenderRgbPre
/// Blends a premultiplied colour into a pixel.
pub struct BlenderRgbPre<C, O> {
    pub phantom_color: PhantomData<C>,
    pub phantom_order: PhantomData<O>,
}

//===================================================BlenderRgbGamma
/// Blends a colour into a pixel through a gamma table.
pub struct BlenderRgbGamma<'a, C, O, GL> {
    pub gamma: Equiv<'a, GL>,
    pub phantom_color: PhantomData<C>,
    pub phantom_order: PhantomData<O>,
}

impl<'a, C, O, GL> BlenderRgbGamma<'a, C, O, GL> {
    pub fn new_owned(gamma: GL) -> (r: Self)
        ensures
            r.gamma == Equiv::<'a, GL>::Own(gamma),
    {
        BlenderRgbGamma {
            gamma: Equiv::Own(gamma),
            phantom_color: PhantomData,
            phantom_order: PhantomData,
        }
    }

    pub fn new_borrowed(gamma: &'a mut GL) -> (r: Self)
        ensures
            r.gamma.target() == *old(gamma),
    {
        BlenderRgbGamma {
            gamma: Equiv::Brw(gamma),
            phantom_color: PhantomData,
            phantom_order: PhantomData,
        }
    }

    pub fn set_gamma_borrowed(&mut self, g: &'a mut GL)
        ensures
            final(self).gamma.target() == *old(g),
    {
        self.gamma = Equiv::Brw(g);
    }

    pub fn set_gamma_owned(&mut self, g: GL)
        ensures
            final(self).gamma == Equiv::<'a, GL>::Own(g),
    {
        self.gamma = Equiv::Own(g);
    }

    pub fn gamma_mut(&mut self) -> (r: &mut GL)
        ensures
            *r == old(self).gamma.target(),
            final(self).gamma.target() == *final(r),
    {
        self.gamma.get_mut()
    }

    pub fn gamma(&self) -> (r: &GL)
        ensures
            *r == self.gamma.target(),
    {
        self.gamma.get()
    }
}

impl<'a, O: Order, G: Gamma<u8, u8>> ApplyGammaDirRgb<'a, Rgba8, O, G> {
    pub fn new(gamma: &'a G) -> (r: Self)
        ensures
            *r.gamma == *gamma,
    {
        ApplyGammaDirRgb { gamma: gamma, phantom_color: PhantomData, phantom_order: PhantomData }
    }

    /// Corrects the red, green and blue channels of the pixel `p`.
    pub fn apply(&self, p: &mut [u8])
        requires
            rgb_in_pixel::<O, u8>(old(p)@),
            self.gamma.gamma_wf(),
        ensures
            final(p)@ == rgb_map::<O, u8>(old(p)@, |v: u8| self.gamma.dir_spec(v)),
    {
        let (ir, ig, ib) = (O::r(), O::g(), O::b());
        let (vr, vg, vb) = (p[ir], p[ig], p[ib]);
        p[ir] = self.gamma.dir(vr);
        p[ig] = self.gamma.dir(vg);
        p[ib] = self.gamma.dir(vb);
    }
}

impl<'a, O: Order, G: Gamma<u8, u8>> ApplyGammaInvRgb<'a, Rgba8, O, G> {
    pub fn new(gamma: &'a G) -> (r: Self)
        ensures
            *r.gamma == *gamma,
    {
        ApplyGammaInvRgb { gamma: gamma, phantom_color: PhantomData, phantom_order: PhantomData }
    }

    /// Undoes the correction of the red, green and blue channels of `p`.
    pub fn apply(&self, p: &mut [u8])
        requires
            rgb_in_pixel::<O, u8>(old(p)@),
            self.gamma.gamma_wf(),
        ensures
            final(p)@ == rgb_map::<O, u8>(old(p)@, |v: u8| self.gamma.inv_spec(v)),
    {
        let (ir, ig, ib) = (O::r(), O::g(), O::b());
        let (vr, vg, vb) = (p[ir], p[ig], p[ib]);
        p[ir] = self.gamma.inv(vr);
        p[ig] = self.gamma.inv(vg);
        p[ib] = self.gamma.inv(vb);
    }
}

/// One channel of a plain blend: the pixel moves by `(c - p) * alpha` out of
/// `2^SHIFT`, in wrapping arithmetic.
pub open spec fn rgb_blend_8(p: u8, c: u32, alpha: u32) -> u8 {
    vstd::wrapping::u8_specs::wrapping_add(
        p,
        (wmul_spec(wsub_spec(c, p as u32), alpha) >> 8u32) as u8,
    )
}

/// One channel of a premultiplied blend with a coverage, as an integer.
pub open spec fn rgb_pre_cover_8(p: u8, c: u32, alpha: u32, cover: u32) -> int {
    (p * (255 - alpha) + c * (((cover + 1) as u32) << 0u32)) / 256 as int
}

/// One channel of a premultiplied blend, as an integer.
pub open spec fn rgb_pre_8(p: u8, c: u32, alpha: u32) -> int {
    (p * (255 - alpha)) / 256 as int + c
}

/// The premultiplied blend of one channel runs without overflow.
pub open spec fn rgb_pre_cover_ok_8(p: u8, c: u32, alpha: u32, cover: u32) -> bool {
    p * (255 - alpha) + c * (((cover + 1) as u32) << 0u32) <= u32::MAX
}

/// A colour of alpha 0 leaves the pixel as it was.
pub proof fn lemma_rgb_blend_transparent_8(p: u8, c: u32)
    ensures
        rgb_blend_8(p, c, 0) == p,
{
    assert(vstd::wrapping::u32_specs::wrapping_mul(wsub_spec(c, p as u32), 0) == 0);
    lemma_shr_div(0);
}

fn blend_channel_8(p: u8, c: u32, alpha: u32) -> (r: u8)
    ensures
        r == rgb_blend_8(p, c, alpha),
{
    p.wrapping_add((wmul(wsub(c, p as u32), alpha) >> 8u32) as u8)
}

fn pre_cover_channel_8(p: u8, c: u32, alpha: u32, cover: u32) -> (r: u8)
    requires
        alpha <= 255,
        cover < u32::MAX,
        rgb_pre_cover_ok_8(p, c, alpha, cover),
    ensures
        r == rgb_pre_cover_8(p, c, alpha, cover) as u8,
{
    let a = 255 - alpha;
    let cv = (cover + 1) << 0u32;
    assert(p * a <= 255 * 255) by (nonlinear_arith)
        requires
            p <= 255,
            a <= 255,
    ;
    let s = p as u32 * a + c * cv;
    proof {
        vstd::arithmetic::div_mod::lemma_div_is_ordered(0, s as int, 256);
        lemma_shr_div(s);
    }
    (s >> 8u32) as u8
}

fn pre_channel_8(p: u8, c: u32, alpha: u32) -> (r: u8)
    requires
        alpha <= 255,
        rgb_pre_8(p, c, alpha) <= u32::MAX,
    ensures
        r == rgb_pre_8(p, c, alpha) as u8,
{
    let a = 255 - alpha;
    assert(p * a <= 255 * 255) by (nonlinear_arith)
        requires
            p <= 255,
            a <= 255,
    ;
    let s = p as u32 * a;
    proof {
        lemma_shr_div(s);
    }
    ((s >> 8u32) + c) as u8
}

impl<O: Order> Blender<Rgba8, O> for BlenderRgb<Rgba8, O> {
    open spec fn blend_ok(&self, p: Seq<u8>, cr: u32, cg: u32, cb: u32, alpha: u32) -> bool {
        rgb_in_pixel::<O, u8>(p)
    }

    open spec fn blend_cover_ok(
        &self,
        p: Seq<u8>,
        cr: u32,
        cg: u32,
        cb: u32,
        alpha: u32,
        cover: u32,
    ) -> bool {
        rgb_in_pixel::<O, u8>(p)
    }

    open spec fn blended(&self, p: Seq<u8>, cr: u32, cg: u32, cb: u32, alpha: u32) -> Seq<u8> {
        rgb_update::<O, u8>(p, |v: u8, c: u32| rgb_blend_8(v, c, alpha), cr, cg, cb)
    }

    open spec fn blended_cover(
        &self,
        p: Seq<u8>,
        cr: u32,
        cg: u32,
        cb: u32,
        alpha: u32,
        cover: u32,
    ) -> Seq<u8> {
        rgb_update::<O, u8>(p, |v: u8, c: u32| rgb_blend_8(v, c, alpha), cr, cg, cb)
    }

    fn new() -> Self {
        BlenderRgb { phantom_color: PhantomData, phantom_order: PhantomData }
    }

    /// The coverage is not used: the colour's alpha alone decides.
    fn blend_pix_with_cover(
        &self,
        p: &mut [u8],
        cr: u32,
        cg: u32,
        cb: u32,
        alpha: u32,
        cover: u32,
    )
        ensures
            final(p)@ == rgb_update::<O, u8>(
                old(p)@,
                |v: u8, c: u32| rgb_blend_8(v, c, alpha),
                cr,
                cg,
                cb,
            ),
    {
        self.blend_pix(p, cr, cg, cb, alpha);
    }

    fn blend_pix(&self, p: &mut [u8], cr: u32, cg: u32, cb: u32, alpha: u32)
        ensures
            final(p)@ == rgb_update::<O, u8>(
                old(p)@,
                |v: u8, c: u32| rgb_blend_8(v, c, alpha),
                cr,
                cg,
                cb,
            ),
    {
        let ir = O::r();
        p[ir] = blend_channel_8(p[ir], cr, alpha);
        let ig = O::g();
        p[ig] = blend_channel_8(p[ig], cg, alpha);
        let ib = O::b();
        p[ib] = blend_channel_8(p[ib], cb, alpha);
    }
}

impl<O: Order> Blender<Rgba8, O> for BlenderRgbPre<Rgba8, O> {
    open spec fn blend_ok(&self, p: Seq<u8>, cr: u32, cg: u32, cb: u32, alpha: u32) -> bool {
        &&& rgb_in_pixel::<O, u8>(p)
        &&& alpha <= 255
        &&& rgb_update_ok::<O, u8>(
            p,
            |v: u8, c: u32| rgb_pre_8(v, c, alpha) as u8,
            |v: u8, c: u32| rgb_pre_8(v, c, alpha) <= u32::MAX,
            cr,
            cg,
            cb,
        )
    }

    open spec fn blend_cover_ok(
        &self,
        p: Seq<u8>,
        cr: u32,
        cg: u32,
        cb: u32,
        alpha: u32,
        cover: u32,
    ) -> bool {
        &&& rgb_in_pixel::<O, u8>(p)
        &&& alpha <= 255
        &&& cover < u32::MAX
        &&& rgb_update_ok::<O, u8>(
            p,
            |v: u8, c: u32| rgb_pre_cover_8(v, c, alpha, cover) as u8,
            |v: u8, c: u32| rgb_pre_cover_ok_8(v, c, alpha, cover),
            cr,
            cg,
            cb,
        )
    }

    open spec fn blended(&self, p: Seq<u8>, cr: u32, cg: u32, cb: u32, alpha: u32) -> Seq<u8> {
        rgb_update::<O, u8>(p, |v: u8, c: u32| rgb_pre_8(v, c, alpha) as u8, cr, cg, cb)
    }

    open spec fn blended_cover(
        &self,
        p: Seq<u8>,
        cr: u32,
        cg: u32,
        cb: u32,
        alpha: u32,
        cover: u32,
    ) -> Seq<u8> {
        rgb_update::<O, u8>(p, |v: u8, c: u32| rgb_pre_cover_8(v, c, alpha, cover) as u8, cr, cg, cb)
    }

    fn new() -> Self {
        BlenderRgbPre { phantom_color: PhantomData, phantom_order: PhantomData }
    }

    fn blend_pix_with_cover(
        &self,
        p: &mut [u8],
        cr: u32,
        cg: u32,
        cb: u32,
        alpha: u32,
        cover: u32,
    )
        ensures
            final(p)@ == rgb_update::<O, u8>(
                old(p)@,
                |v: u8, c: u32| rgb_pre_cover_8(v, c, alpha, cover) as u8,
                cr,
                cg,
                cb,
            ),
    {
        let ir = O::r();
        p[ir] = pre_cover_channel_8(p[ir], cr, alpha, cover);
        let ig = O::g();
        p[ig] = pre_cover_channel_8(p[ig], cg, alpha, cover);
        let ib = O::b();
        p[ib] = pre_cover_channel_8(p[ib], cb, alpha, cover);
    }

    fn blend_pix(&self, p: &mut [u8], cr: u32, cg: u32, cb: u32, alpha: u32)
        ensures
            final(p)@ == rgb_update::<O, u8>(
                old(p)@,
                |v: u8, c: u32| rgb_pre_8(v, c, alpha) as u8,
                cr,
                cg,
                cb,
            ),
    {
        let ir = O::r();
        p[ir] = pre_channel_8(p[ir], cr, alpha);
        let ig = O::g();
        p[ig] = pre_channel_8(p[ig], cg, alpha);
        let ib = O::b();
        p[ib] = pre_channel_8(p[ib], cb, alpha);
    }
}

/// One channel blended through a gamma table: the colour's and the pixel's
/// corrected values are mixed by `alpha` out of `2^SHIFT` in wrapping
/// arithmetic, then the correction is undone.
pub open spec fn rgb_gamma_8<G: Gamma<u8, u8>>(g: G, p: u8, c: u32, alpha: u32) -> u8 {
    let x = g.dir_spec(p) as u32;
    g.inv_spec(
        wadd_spec(wmul_spec(wsub_spec(g.dir_spec(c as u8) as u32, x), alpha) >> 8u32, x) as u8,
    )
}

fn gamma_channel_8<G: Gamma<u8, u8>>(g: &G, x: u32, c: u32, alpha: u32) -> (r: u8)
    requires
        g.gamma_wf(),
    ensures
        r == g.inv_spec(
            wadd_spec(wmul_spec(wsub_spec(g.dir_spec(c as u8) as u32, x), alpha) >> 8u32, x) as u8,
        ),
{
    let d = g.dir(c as u8) as u32;
    g.inv(wadd(wmul(wsub(d, x), alpha) >> 8u32, x) as u8)
}

impl<'a, O: Order, GL: Gamma<u8, u8>> Blender<Rgba8, O> for BlenderRgbGamma<'a, Rgba8, O, GL> {
    open spec fn blend_ok(&self, p: Seq<u8>, cr: u32, cg: u32, cb: u32, alpha: u32) -> bool {
        rgb_in_pixel::<O, u8>(p) && self.gamma.target().gamma_wf()
    }

    open spec fn blend_cover_ok(
        &self,
        p: Seq<u8>,
        cr: u32,
        cg: u32,
        cb: u32,
        alpha: u32,
        cover: u32,
    ) -> bool {
        rgb_in_pixel::<O, u8>(p) && self.gamma.target().gamma_wf()
    }

    open spec fn blended(&self, p: Seq<u8>, cr: u32, cg: u32, cb: u32, alpha: u32) -> Seq<u8> {
        rgb_gamma_update::<O, u8>(
            p,
            |v: u8, c: u32| rgb_gamma_8(self.gamma.target(), v, c, alpha),
            cr,
            cg,
            cb,
        )
    }

    open spec fn blended_cover(
        &self,
        p: Seq<u8>,
        cr: u32,
        cg: u32,
        cb: u32,
        alpha: u32,
        cover: u32,
    ) -> Seq<u8> {
        rgb_gamma_update::<O, u8>(
            p,
            |v: u8, c: u32| rgb_gamma_8(self.gamma.target(), v, c, alpha),
            cr,
            cg,
            cb,
        )
    }

    fn new() -> Self {
        BlenderRgbGamma {
            gamma: Equiv::Own(GL::new()),
            phantom_color: PhantomData,
            phantom_order: PhantomData,
        }
    }

    /// The coverage is not used: the colour's alpha alone decides.
    fn blend_pix_with_cover(
        &self,
        p: &mut [u8],
        cr: u32,
        cg: u32,
        cb: u32,
        alpha: u32,
        cover: u32,
    )
        ensures
            final(p)@ == rgb_gamma_update::<O, u8>(
                old(p)@,
                |v: u8, c: u32| rgb_gamma_8(self.gamma.target(), v, c, alpha),
                cr,
                cg,
                cb,
            ),
    {
        self.blend_pix(p, cr, cg, cb, alpha);
    }

    /// The three channels are read before any is written.
    fn blend_pix(&self, p: &mut [u8], cr: u32, cg: u32, cb: u32, alpha: u32)
        ensures
            final(p)@ == rgb_gamma_update::<O, u8>(
                old(p)@,
                |v: u8, c: u32| rgb_gamma_8(self.gamma.target(), v, c, alpha),
                cr,
                cg,
                cb,
            ),
    {
        let g = self.gamma.get();
        let (ir, ig, ib) = (O::r(), O::g(), O::b());
        let r = g.dir(p[ir]) as u32;
        let gg = g.dir(p[ig]) as u32;
        let b = g.dir(p[ib]) as u32;
        p[ir] = gamma_channel_8(g, r, cr, alpha);
        p[ig] = gamma_channel_8(g, gg, cg, alpha);
        p[ib] = gamma_channel_8(g, b, cb, alpha);
    }
}

impl<'a, O: Order, G: Gamma<u16, u16>> ApplyGammaDirRgb<'a, Rgba16, O, G> {
    pub fn new(gamma: &'a G) -> (r: Self)
        ensures
            *r.gamma == *gamma,
    {
        ApplyGammaDirRgb { gamma: gamma, phantom_color: PhantomData, phantom_order: PhantomData }
    }

    /// Corrects the red, green and blue channels of the pixel `p`.
    pub fn apply(&self, p: &mut [u16])
        requires
            rgb_in_pixel::<O, u16>(old(p)@),
            self.gamma.gamma_wf(),
        ensures
            final(p)@ == rgb_map::<O, u16>(old(p)@, |v: u16| self.gamma.dir_spec(v)),
    {
        let (ir, ig, ib) = (O::r(), O::g(), O::b());
        let (vr, vg, vb) = (p[ir], p[ig], p[ib]);
        p[ir] = self.gamma.dir(vr);
        p[ig] = self.gamma.dir(vg);
        p[ib] = self.gamma.dir(vb);
    }
}

impl<'a, O: Order, G: Gamma<u16, u16>> ApplyGammaInvRgb<'a, Rgba16, O, G> {
    pub fn new(gamma: &'a G) -> (r: Self)
        ensures
            *r.gamma == *gamma,
    {
        ApplyGammaInvRgb { gamma: gamma, phantom_color: PhantomData, phantom_order: PhantomData }
    }

    /// Undoes the correction of the red, green and blue channels of `p`.
    pub fn apply(&self, p: &mut [u16])
        requires
            rgb_in_pixel::<O, u16>(old(p)@),
            self.gamma.gamma_wf(),
        ensures
            final(p)@ == rgb_map::<O, u16>(old(p)@, |v: u16| self.gamma.inv_spec(v)),
    {
        let (ir, ig, ib) = (O::r(), O::g(), O::b());
        let (vr, vg, vb) = (p[ir], p[ig], p[ib]);
        p[ir] = self.gamma.inv(vr);
        p[ig] = self.gamma.inv(vg);
        p[ib] = self.gamma.inv(vb);
    }
}

/// One channel of a plain blend: the pixel moves by `(c - p) * alpha` out of
/// `2^SHIFT`, in wrapping arithmetic.
pub open spec fn rgb_blend_16(p: u16, c: u32, alpha: u32) -> u16 {
    vstd::wrapping::u16_specs::wrapping_add(
        p,
        (wmul_spec(wsub_spec(c, p as u32), alpha) >> 16u32) as u16,
    )
}

/// One channel of a premultiplied blend with a coverage, as an integer.
pub open spec fn rgb_pre_cover_16(p: u16, c: u32, alpha: u32, cover: u32) -> int {
    (p * (65535 - alpha) + c * (((cover + 1) as u32) << 8u32)) / 65536 as int
}

/// One channel of a premultiplied blend, as an integer.
pub open spec fn rgb_pre_16(p: u16, c: u32, alpha: u32) -> int {
    (p * (65535 - alpha)) / 65536 as int + c
}

/// The premultiplied blend of one channel runs without overflow.
pub open spec fn rgb_pre_cover_ok_16(p: u16, c: u32, alpha: u32, cover: u32) -> bool {
    p * (65535 - alpha) + c * (((cover + 1) as u32) << 8u32) <= u32::MAX
}

/// A colour of alpha 0 leaves the pixel as it was.
pub proof fn lemma_rgb_blend_transparent_16(p: u16, c: u32)
    ensures
        rgb_blend_16(p, c, 0) == p,
{
    assert(vstd::wrapping::u32_specs::wrapping_mul(wsub_spec(c, p as u32), 0) == 0);
    lemma_shr_div(0);
}

fn blend_channel_16(p: u16, c: u32, alpha: u32) -> (r: u16)
    ensures
        r == rgb_blend_16(p, c, alpha),
{
    p.wrapping_add((wmul(wsub(c, p as u32), alpha) >> 16u32) as u16)
}

fn pre_cover_channel_16(p: u16, c: u32, alpha: u32, cover: u32) -> (r: u16)
    requires
        alpha <= 65535,
        cover < u32::MAX,
        rgb_pre_cover_ok_16(p, c, alpha, cover),
    ensures
        r == rgb_pre_cover_16(p, c, alpha, cover) as u16,
{
    let a = 65535 - alpha;
    let cv = (cover + 1) << 8u32;
    assert(p * a <= 65535 * 65535) by (nonlinear_arith)
        requires
            p <= 65535,
            a <= 65535,
    ;
    let s = p as u32 * a + c * cv;
    proof {
        vstd::arithmetic::div_mod::lemma_div_is_ordered(0, s as int, 65536);
        lemma_shr_div(s);
    }
    (s >> 16u32) as u16
}

fn pre_channel_16(p: u16, c: u32, alpha: u32) -> (r: u16)
    requires
        alpha <= 65535,
        rgb_pre_16(p, c, alpha) <= u32::MAX,
    ensures
        r == rgb_pre_16(p, c, alpha) as u16,
{
    let a = 65535 - alpha;
    assert(p * a <= 65535 * 65535) by (nonlinear_arith)
        requires
            p <= 65535,
            a <= 65535,
    ;
    let s = p as u32 * a;
    proof {
        lemma_shr_div(s);
    }
    ((s >> 16u32) + c) as u16
}

impl<O: Order> Blender<Rgba16, O> for BlenderRgb<Rgba16, O> {
    open spec fn blend_ok(&self, p: Seq<u16>, cr: u32, cg: u32, cb: u32, alpha: u32) -> bool {
        rgb_in_pixel::<O, u16>(p)
    }

    open spec fn blend_cover_ok(
        &self,
        p: Seq<u16>,
        cr: u32,
        cg: u32,
        cb: u32,
        alpha: u32,
        cover: u32,
    ) -> bool {
        rgb_in_pixel::<O, u16>(p)
    }

    open spec fn blended(&self, p: Seq<u16>, cr: u32, cg: u32, cb: u32, alpha: u32) -> Seq<u16> {
        rgb_update::<O, u16>(p, |v: u16, c: u32| rgb_blend_16(v, c, alpha), cr, cg, cb)
    }

    open spec fn blended_cover(
        &self,
        p: Seq<u16>,
        cr: u32,
        cg: u32,
        cb: u32,
        alpha: u32,
        cover: u32,
    ) -> Seq<u16> {
        rgb_update::<O, u16>(p, |v: u16, c: u32| rgb_blend_16(v, c, alpha), cr, cg, cb)
    }

    fn new() -> Self {
        BlenderRgb { phantom_color: PhantomData, phantom_order: PhantomData }
    }

    /// The coverage is not used: the colour's alpha alone decides.
    fn blend_pix_with_cover(
        &self,
        p: &mut [u16],
        cr: u32,
        cg: u32,
        cb: u32,
        alpha: u32,
        cover: u32,
    )
        ensures
            final(p)@ == rgb_update::<O, u16>(
                old(p)@,
                |v: u16, c: u32| rgb_blend_16(v, c, alpha),
                cr,
                cg,
                cb,
            ),
    {
        self.blend_pix(p, cr, cg, cb, alpha);
    }

    fn blend_pix(&self, p: &mut [u16], cr: u32, cg: u32, cb: u32, alpha: u32)
        ensures
            final(p)@ == rgb_update::<O, u16>(
                old(p)@,
                |v: u16, c: u32| rgb_blend_16(v, c, alpha),
                cr,
                cg,
                cb,
            ),
    {
        let ir = O::r();
        p[ir] = blend_channel_16(p[ir], cr, alpha);
        let ig = O::g();
        p[ig] = blend_channel_16(p[ig], cg, alpha);
        let ib = O::b();
        p[ib] = blend_channel_16(p[ib], cb, alpha);
    }
}

impl<O: Order> Blender<Rgba16, O> for BlenderRgbPre<Rgba16, O> {
    open spec fn blend_ok(&self, p: Seq<u16>, cr: u32, cg: u32, cb: u32, alpha: u32) -> bool {
        &&& rgb_in_pixel::<O, u16>(p)
        &&& alpha <= 65535
        &&& rgb_update_ok::<O, u16>(
            p,
            |v: u16, c: u32| rgb_pre_16(v, c, alpha) as u16,
            |v: u16, c: u32| rgb_pre_16(v, c, alpha) <= u32::MAX,
            cr,
            cg,
            cb,
        )
    }

    open spec fn blend_cover_ok(
        &self,
        p: Seq<u16>,
        cr: u32,
        cg: u32,
        cb: u32,
        alpha: u32,
        cover: u32,
    ) -> bool {
        &&& rgb_in_pixel::<O, u16>(p)
        &&& alpha <= 65535
        &&& cover < u32::MAX
        &&& rgb_update_ok::<O, u16>(
            p,
            |v: u16, c: u32| rgb_pre_cover_16(v, c, alpha, cover) as u16,
            |v: u16, c: u32| rgb_pre_cover_ok_16(v, c, alpha, cover),
            cr,
            cg,
            cb,
        )
    }

    open spec fn blended(&self, p: Seq<u16>, cr: u32, cg: u32, cb: u32, alpha: u32) -> Seq<u16> {
        rgb_update::<O, u16>(p, |v: u16, c: u32| rgb_pre_16(v, c, alpha) as u16, cr, cg, cb)
    }

    open spec fn blended_cover(
        &self,
        p: Seq<u16>,
        cr: u32,
        cg: u32,
        cb: u32,
        alpha: u32,
        cover: u32,
    ) -> Seq<u16> {
        rgb_update::<O, u16>(p, |v: u16, c: u32| rgb_pre_cover_16(v, c, alpha, cover) as u16, cr, cg, cb)
    }

    fn new() -> Self {
        BlenderRgbPre { phantom_color: PhantomData, phantom_order: PhantomData }
    }

    fn blend_pix_with_cover(
        &self,
        p: &mut [u16],
        cr: u32,
        cg: u32,
        cb: u32,
        alpha: u32,
        cover: u32,
    )
        ensures
            final(p)@ == rgb_update::<O, u16>(
                old(p)@,
                |v: u16, c: u32| rgb_pre_cover_16(v, c, alpha, cover) as u16,
                cr,
                cg,
                cb,
            ),
    {
        let ir = O::r();
        p[ir] = pre_cover_channel_16(p[ir], cr, alpha, cover);
        let ig = O::g();
        p[ig] = pre_cover_channel_16(p[ig], cg, alpha, cover);
        let ib = O::b();
        p[ib] = pre_cover_channel_16(p[ib], cb, alpha, cover);
    }

    fn blend_pix(&self, p: &mut [u16], cr: u32, cg: u32, cb: u32, alpha: u32)
        ensures
            final(p)@ == rgb_update::<O, u16>(
                old(p)@,
                |v: u16, c: u32| rgb_pre_16(v, c, alpha) as u16,
                cr,
                cg,
                cb,
            ),
    {
        let ir = O::r();
        p[ir] = pre_channel_16(p[ir], cr, alpha);
        let ig = O::g();
        p[ig] = pre_channel_16(p[ig], cg, alpha);
        let ib = O::b();
        p[ib] = pre_channel_16(p[ib], cb, alpha);
    }
}

/// One channel blended through a gamma table: the colour's and the pixel's
/// corrected values are mixed by `alpha` out of `2^SHIFT` in wrapping
/// arithmetic, then the correction is undone.
pub open spec fn rgb_gamma_16<G: Gamma<u16, u16>>(g: G, p: u16, c: u32, alpha: u32) -> u16 {
    let x = g.dir_spec(p) as u32;
    g.inv_spec(
        wadd_spec(wmul_spec(wsub_spec(g.dir_spec(c as u16) as u32, x), alpha) >> 16u32, x) as u16,
    )
}

fn gamma_channel_16<G: Gamma<u16, u16>>(g: &G, x: u32, c: u32, alpha: u32) -> (r: u16)
    requires
        g.gamma_wf(),
    ensures
        r == g.inv_spec(
            wadd_spec(wmul_spec(wsub_spec(g.dir_spec(c as u16) as u32, x), alpha) >> 16u32, x) as u16,
        ),
{
    let d = g.dir(c as u16) as u32;
    g.inv(wadd(wmul(wsub(d, x), alpha) >> 16u32, x) as u16)
}

impl<'a, O: Order, GL: Gamma<u16, u16>> Blender<Rgba16, O> for BlenderRgbGamma<'a, Rgba16, O, GL> {
    open spec fn blend_ok(&self, p: Seq<u16>, cr: u32, cg: u32, cb: u32, alpha: u32) -> bool {
        rgb_in_pixel::<O, u16>(p) && self.gamma.target().gamma_wf()
    }

    open spec fn blend_cover_ok(
        &self,
        p: Seq<u16>,
        cr: u32,
        cg: u32,
        cb: u32,
        alpha: u32,
        cover: u32,
    ) -> bool {
        rgb_in_pixel::<O, u16>(p) && self.gamma.target().gamma_wf()
    }

    open spec fn blended(&self, p: Seq<u16>, cr: u32, cg: u32, cb: u32, alpha: u32) -> Seq<u16> {
        rgb_gamma_update::<O, u16>(
            p,
            |v: u16, c: u32| rgb_gamma_16(self.gamma.target(), v, c, alpha),
            cr,
            cg,
            cb,
        )
    }

    open spec fn blended_cover(
        &self,
        p: Seq<u16>,
        cr: u32,
        cg: u32,
        cb: u32,
        alpha: u32,
        cover: u32,
    ) -> Seq<u16> {
        rgb_gamma_update::<O, u16>(
            p,
            |v: u16, c: u32| rgb_gamma_16(self.gamma.target(), v, c, alpha),
            cr,
            cg,
            cb,
        )
    }

    fn new() -> Self {
        BlenderRgbGamma {
            gamma: Equiv::Own(GL::new()),
            phantom_color: PhantomData,
            phantom_order: PhantomData,
        }
    }

    /// The coverage is not used: the colour's alpha alone decides.
    fn blend_pix_with_cover(
        &self,
        p: &mut [u16],
        cr: u32,
        cg: u32,
        cb: u32,
        alpha: u32,
        cover: u32,
    )
        ensures
            final(p)@ == rgb_gamma_update::<O, u16>(
                old(p)@,
                |v: u16, c: u32| rgb_gamma_16(self.gamma.target(), v, c, alpha),
                cr,
                cg,
                cb,
            ),
    {
        self.blend_pix(p, cr, cg, cb, alpha);
    }

    /// The three channels are read before any is written.
    fn blend_pix(&self, p: &mut [u16], cr: u32, cg: u32, cb: u32, alpha: u32)
        ensures
            final(p)@ == rgb_gamma_update::<O, u16>(
                old(p)@,
                |v: u16, c: u32| rgb_gamma_16(self.gamma.target(), v, c, alpha),
                cr,
                cg,
                cb,
            ),
    {
        let g = self.gamma.get();
        let (ir, ig, ib) = (O::r(), O::g(), O::b());
        let r = g.dir(p[ir]) as u32;
        let gg = g.dir(p[ig]) as u32;
        let b = g.dir(p[ib]) as u32;
        p[ir] = gamma_channel_16(g, r, cr, alpha);
        p[ig] = gamma_channel_16(g, gg, cg, alpha);
        p[ib] = gamma_channel_16(g, b, cb, alpha);
    }
}

/// The three bytes of the pixel at byte `b`.
pub open spec fn win(s: Seq<u8>, b: int) -> Seq<u8> {
    s.subrange(b, b + 3)
}

/// `s` with the three bytes at `b` replaced by those of `w`.
pub open spec fn put_win(s: Seq<u8>, b: int, w: Seq<u8>) -> Seq<u8> {
    s.update(b, w[0]).update(b + 1, w[1]).update(b + 2, w[2])
}

/// The bytes `new` are `old` with the pixel at `base(k)` replaced by
/// `f(k, pixel)` for each `k < len`, and every other byte kept.
pub open spec fn span3_written(
    old: Seq<u8>,
    new: Seq<u8>,
    len: int,
    base: spec_fn(int) -> int,
    f: spec_fn(int, Seq<u8>) -> Seq<u8>,
) -> bool {
    &&& new.len() == old.len()
    &&& forall|k: int| 0 <= k < len ==> #[trigger] win(new, base(k)) == f(k, win(old, base(k)))
    &&& forall|j: int|
        0 <= j < old.len() && (forall|k: int| 0 <= k < len ==> !(#[trigger] base(k) <= j < base(k) + 3))
            ==> new[j] == old[j]
}

/// The pixels at `base(k)`, `k < len`, lie inside a buffer of length `n`
/// without overlapping.
pub open spec fn windows_ok(base: spec_fn(int) -> int, len: int, n: int) -> bool {
    &&& forall|k: int| 0 <= k < len ==> 0 <= #[trigger] base(k) && base(k) + 3 <= n
    &&& forall|k1: int, k2: int|
        0 <= k1 < len && 0 <= k2 < len && k1 != k2 ==> #[trigger] base(k1) + 3 <= #[trigger] base(k2)
            || base(k2) + 3 <= base(k1)
}

/// One more pixel of a span written.
proof fn lemma_span3_step(
    old: Seq<u8>,
    cur: Seq<u8>,
    i: int,
    len: int,
    base: spec_fn(int) -> int,
    f: spec_fn(int, Seq<u8>) -> Seq<u8>,
    w: Seq<u8>,
)
    requires
        span3_written(old, cur, i, base, f),
        windows_ok(base, len, old.len() as int),
        0 <= i < len,
    ensures
        win(cur, base(i)) == win(old, base(i)),
        w == f(i, win(old, base(i))) && w.len() == 3 ==> span3_written(
            old,
            put_win(cur, base(i), w),
            i + 1,
            base,
            f,
        ),
{
    let b = base(i);
    assert(0 <= b && b + 3 <= old.len());
    assert forall|j: int| b <= j < b + 3 implies cur[j] == old[j] by {
        assert forall|k: int| 0 <= k < i implies !(#[trigger] base(k) <= j < base(k) + 3) by {
            assert(base(k) + 3 <= base(i) || base(i) + 3 <= base(k));
        }
    }
    assert(win(cur, b) =~= win(old, b));
    if w == f(i, win(old, b)) && w.len() == 3 {
        let nw = put_win(cur, b, w);
        assert forall|k: int| 0 <= k < i + 1 implies #[trigger] win(nw, base(k)) == f(
            k,
            win(old, base(k)),
        ) by {
            if k < i {
                assert(base(k) + 3 <= b || b + 3 <= base(k));
                assert(win(nw, base(k)) =~= win(cur, base(k)));
            } else {
                assert(win(nw, b) =~= w);
            }
        }
        assert forall|j: int|
            0 <= j < old.len() && (forall|k: int|
                0 <= k < i + 1 ==> !(#[trigger] base(k) <= j < base(k) + 3)) implies nw[j] == old[j] by {
            assert(!(base(i) <= j < base(i) + 3));
            assert forall|k: int| 0 <= k < i implies !(#[trigger] base(k) <= j < base(k) + 3) by {
                assert(0 <= k < i + 1);
            }
        }
    }
}

/// The channel positions of the order lie inside a pixel of three bytes.
pub open spec fn order_ok<O: Order>() -> bool {
    O::spec_r() < 3 && O::spec_g() < 3 && O::spec_b() < 3
}

/// The pixel `w` with its channels set to those of `c`.
pub open spec fn rgb_set<O: Order>(w: Seq<u8>, c: Rgba8) -> Seq<u8> {
    w.update(O::spec_r() as int, c.r).update(O::spec_g() as int, c.g).update(O::spec_b() as int, c.b)
}

/// The alpha of `c` scaled by a coverage.
pub open spec fn cover_alpha(c: Rgba8, cover: u32) -> u32 {
    ((c.a * (cover + 1)) as u32) >> 8u32
}

/// A colour with a coverage, as the RGB pixel formats apply it: nothing for
/// a transparent colour, a copy when the combined alpha is full, else a
/// blend.
pub open spec fn rgb_cover_blend<O: Order, B: Blender<Rgba8, O>>(
    b: B,
    w: Seq<u8>,
    c: Rgba8,
    cover: u32,
) -> Seq<u8> {
    if c.a == 0 {
        w
    } else if cover_alpha(c, cover) == 255 {
        rgb_set::<O>(w, c)
    } else {
        b.blended_cover(w, c.r as u32, c.g as u32, c.b as u32, cover_alpha(c, cover), cover)
    }
}

/// Applying `c` with a coverage to the pixel `w` runs without overflow.
pub open spec fn rgb_cover_ok<O: Order, B: Blender<Rgba8, O>>(
    b: B,
    w: Seq<u8>,
    c: Rgba8,
    cover: u32,
) -> bool {
    c.a != 0 && cover_alpha(c, cover) != 255 ==> b.blend_cover_ok(
        w,
        c.r as u32,
        c.g as u32,
        c.b as u32,
        cover_alpha(c, cover),
        cover,
    )
}

/// A colour without coverage: nothing when transparent, a copy when opaque,
/// else a blend by its alpha.
pub open spec fn rgb_copy_or_blend<O: Order, B: Blender<Rgba8, O>>(b: B, w: Seq<u8>, c: Rgba8) -> Seq<u8> {
    if c.a == 0 {
        w
    } else if c.a == 255 {
        rgb_set::<O>(w, c)
    } else {
        b.blended(w, c.r as u32, c.g as u32, c.b as u32, c.a as u32)
    }
}

/// Applying `c` without coverage to the pixel `w` runs without overflow.
pub open spec fn rgb_copy_or_blend_ok<O: Order, B: Blender<Rgba8, O>>(b: B, w: Seq<u8>, c: Rgba8) -> bool {
    c.a != 0 && c.a != 255 ==> b.blend_ok(w, c.r as u32, c.g as u32, c.b as u32, c.a as u32)
}

/// Every pixel of a span is set to `c`.
pub open spec fn set_pix<O: Order>(c: Rgba8) -> spec_fn(int, Seq<u8>) -> Seq<u8> {
    |k: int, w: Seq<u8>| rgb_set::<O>(w, c)
}

/// Pixel `k` of a span is set to `colors[k]`.
pub open spec fn set_pixels<O: Order>(colors: Seq<Rgba8>) -> spec_fn(int, Seq<u8>) -> Seq<u8> {
    |k: int, w: Seq<u8>| rgb_set::<O>(w, colors[k])
}

/// Every pixel of a span gets `c` with coverage `cover`.
pub open spec fn cover_pix<O: Order, B: Blender<Rgba8, O>>(b: B, c: Rgba8, cover: u32) -> spec_fn(
    int,
    Seq<u8>,
) -> Seq<u8> {
    |k: int, w: Seq<u8>| rgb_cover_blend::<O, B>(b, w, c, cover)
}

/// Pixel `k` of a span gets `c` with coverage `covers[k]`.
pub open spec fn covers_pix<O: Order, B: Blender<Rgba8, O>>(b: B, c: Rgba8, covers: Seq<u8>) -> spec_fn(
    int,
    Seq<u8>,
) -> Seq<u8> {
    |k: int, w: Seq<u8>| rgb_cover_blend::<O, B>(b, w, c, covers[k] as u32)
}

/// Pixel `k` of a span gets `colors[k]`: with coverage `covers[k]` when
/// there are coverages, else without coverage when `cover` is full, else
/// with coverage `cover`.
pub open spec fn color_span_pix<O: Order, B: Blender<Rgba8, O>>(
    b: B,
    colors: Seq<Rgba8>,
    covers: Seq<u8>,
    cover: u8,
) -> spec_fn(int, Seq<u8>) -> Seq<u8> {
    |k: int, w: Seq<u8>|
        if covers.len() > 0 {
            rgb_cover_blend::<O, B>(b, w, colors[k], covers[k] as u32)
        } else if cover == 255 {
            rgb_copy_or_blend::<O, B>(b, w, colors[k])
        } else {
            rgb_cover_blend::<O, B>(b, w, colors[k], cover as u32)
        }
}

/// A colour span draws each of its pixels as the one-pixel operations draw
/// a pixel: with per-pixel covers, pixel `k` gets what `blend_pixel` gives
/// it for `colors[k]` and `covers[k]`; without covers and with a full
/// cover, what `copy_or_blend` of `colors[k]` gives (copied when opaque,
/// blended by its alpha otherwise); without covers and with a partial
/// cover, what `blend_pixel` gives it for `colors[k]` and that cover. No
/// pixel of the span is skipped but for a transparent colour.
pub proof fn lemma_color_span_is_per_pixel<O: Order, B: Blender<Rgba8, O>>(
    b: B,
    colors: Seq<Rgba8>,
    covers: Seq<u8>,
    cover: u8,
    k: int,
    w: Seq<u8>,
)
    ensures
        covers.len() > 0 ==> color_span_pix::<O, B>(b, colors, covers, cover)(k, w) == rgb_cover_blend::<O, B>(
            b,
            w,
            colors[k],
            covers[k] as u32,
        ),
        covers.len() == 0 && cover == 255 ==> color_span_pix::<O, B>(b, colors, covers, cover)(k, w)
            == rgb_copy_or_blend::<O, B>(b, w, colors[k]),
        covers.len() == 0 && cover < 255 ==> color_span_pix::<O, B>(b, colors, covers, cover)(k, w)
            == rgb_cover_blend::<O, B>(b, w, colors[k], cover as u32),
{
}

fn set_channels<O: Order>(w: &mut Vec<u8>, c: &Rgba8)
    requires
        old(w).len() == 3,
        order_ok::<O>(),
    ensures
        final(w)@ == rgb_set::<O>(old(w)@, *c),
        final(w).len() == 3,
{
    w.set(O::r(), c.r);
    w.set(O::g(), c.g);
    w.set(O::b(), c.b);
}

fn copy_or_blend_pix_cover<O: Order, B: Blender<Rgba8, O>>(
    w: &mut Vec<u8>,
    c: &Rgba8,
    cover: u32,
    blender: &B,
)
    requires
        old(w).len() == 3,
        order_ok::<O>(),
        cover < 256,
        rgb_cover_ok::<O, B>(*blender, old(w)@, *c, cover),
    ensures
        final(w)@ == rgb_cover_blend::<O, B>(*blender, old(w)@, *c, cover),
        final(w).len() == 3,
{
    if c.a != 0 {
        assert(c.a * (cover + 1) <= 255 * 256) by (nonlinear_arith)
            requires
                c.a <= 255,
                cover < 256,
        ;
        let alpha = (c.a as u32 * (cover + 1)) >> 8u32;
        if alpha == 255 {
            set_channels::<O>(w, c);
        } else {
            blender.blend_pix_with_cover(w.as_mut_slice(), c.r as u32, c.g as u32, c.b as u32, alpha, cover);
        }
    }
}

fn copy_or_blend_pix<O: Order, B: Blender<Rgba8, O>>(w: &mut Vec<u8>, c: &Rgba8, blender: &B)
    requires
        old(w).len() == 3,
        order_ok::<O>(),
        rgb_copy_or_blend_ok::<O, B>(*blender, old(w)@, *c),
    ensures
        final(w)@ == rgb_copy_or_blend::<O, B>(*blender, old(w)@, *c),
        final(w).len() == 3,
{
    if c.a != 0 {
        if c.a == 255 {
            set_channels::<O>(w, c);
        } else {
            blender.blend_pix(w.as_mut_slice(), c.r as u32, c.g as u32, c.b as u32, c.a as u32);
        }
    }
}

//=====================================================AlphaBlendRgb
/// An RGB pixel format over a rendering buffer: each pixel is three bytes,
/// the channels placed by the order `O`.
pub struct AlphaBlendRgb<'a, C, O, Blend> {
    pub rbuf: Equiv<'a, RenderBuf>,
    pub color: PhantomData<C>,
    pub order: PhantomData<O>,
    pub blender: Blend,
}

pub type PixRgb24<'a> = AlphaBlendRgb<'a, Rgba8, OrderRgb, BlenderRgb<Rgba8, OrderRgb>>;

pub type PixBgr24<'a> = AlphaBlendRgb<'a, Rgba8, OrderBgr, BlenderRgb<Rgba8, OrderBgr>>;

pub type PixRgb24Pre<'a> = AlphaBlendRgb<'a, Rgba8, OrderRgb, BlenderRgbPre<Rgba8, OrderRgb>>;

pub type PixBgr24Pre<'a> = AlphaBlendRgb<'a, Rgba8, OrderBgr, BlenderRgbPre<Rgba8, OrderBgr>>;

impl<'a, O: Order, Blend: Blender<Rgba8, O>> AlphaBlendRgb<'a, Rgba8, O, Blend> {
    /// The buffer the pixels live in.
    pub open spec fn buf(&self) -> RenderBuf {
        self.rbuf.target()
    }

    pub open spec fn bytes(&self) -> Seq<u8> {
        self.buf().bytes()
    }

    /// The first byte of pixel `(x, y)`.
    pub open spec fn pix_at(&self, x: int, y: int) -> int {
        self.buf().row_start(y) + 3 * x
    }

    /// The first byte of the `k`-th pixel rightwards from `(x, y)`.
    pub open spec fn hbase(&self, x: int, y: int) -> spec_fn(int) -> int {
        |k: int| self.pix_at(x + k, y)
    }

    /// The first byte of the `k`-th pixel downwards from `(x, y)`.
    pub open spec fn vbase(&self, x: int, y: int) -> spec_fn(int) -> int {
        |k: int| self.pix_at(x, y + k)
    }

    /// The pixel `(x, y)`.
    pub open spec fn pixel_bytes(&self, x: int, y: int) -> Seq<u8> {
        win(self.bytes(), self.pix_at(x, y))
    }

    /// `len` pixels rightwards from `(x, y)` lie inside row `y`.
    pub open spec fn hrun_ok(&self, x: int, y: int, len: int) -> bool {
        &&& self.buf().wf()
        &&& order_ok::<O>()
        &&& 0 <= x
        &&& 0 <= y < self.buf().dims().1
        &&& len >= 0
        &&& 3 * x + 3 * len <= abs_stride(self.buf().dims().2)
    }

    /// `len` pixels downwards from `(x, y)` lie inside the buffer, their rows
    /// numbered within `i32`.
    pub open spec fn vrun_ok(&self, x: int, y: int, len: int) -> bool {
        &&& self.buf().wf()
        &&& order_ok::<O>()
        &&& 0 <= x
        &&& 3 * x + 3 <= abs_stride(self.buf().dims().2)
        &&& 0 <= y
        &&& len >= 0
        &&& y + len <= self.buf().dims().1
        &&& y + len - 1 <= i32::MAX
    }

    pub fn new_borrowed(rb: &'a mut RenderBuf) -> (r: Self)
        ensures
            r.buf() == *old(rb),
    {
        AlphaBlendRgb { rbuf: Equiv::Brw(rb), color: PhantomData, order: PhantomData, blender: Blend::new() }
    }

    pub fn new_owned(rb: RenderBuf) -> (r: Self)
        ensures
            r.buf() == rb,
    {
        AlphaBlendRgb { rbuf: Equiv::Own(rb), color: PhantomData, order: PhantomData, blender: Blend::new() }
    }

    pub fn attach_borrowed(&mut self, rb: &'a mut RenderBuf)
        ensures
            final(self).buf() == *old(rb),
            final(self).blender == old(self).blender,
    {
        self.rbuf = Equiv::Brw(rb);
    }

    pub fn attach_owned(&mut self, rb: RenderBuf)
        ensures
            final(self).buf() == rb,
            final(self).blender == old(self).blender,
    {
        self.rbuf = Equiv::Own(rb);
    }

    pub fn rbuf_mut(&mut self) -> (r: &mut RenderBuf)
        ensures
            *r == old(self).buf(),
            final(self).buf() == *final(r),
    {
        self.rbuf.get_mut()
    }

    pub fn blender_mut(&mut self) -> (r: &mut Blend)
        ensures
            *r == old(self).blender,
            *final(self) == (AlphaBlendRgb { blender: *final(r), ..*old(self) }),
    {
        &mut self.blender
    }

    pub fn width(&self) -> (r: u32)
        ensures
            r == self.buf().dims().0,
    {
        self.rbuf.get().width()
    }

    pub fn height(&self) -> (r: u32)
        ensures
            r == self.buf().dims().1,
    {
        self.rbuf.get().height()
    }

    pub fn stride(&self) -> (r: i32)
        ensures
            r == self.buf().dims().2,
    {
        self.rbuf.get().stride()
    }

    /// The number of bytes of the buffer.
    fn byte_count(&self) -> (r: usize)
        ensures
            r == self.bytes().len(),
    {
        self.rbuf.get().as_bytes().len()
    }

    /// The first byte of pixel `(x, y)`.
    fn base(&self, x: i32, y: i32) -> (r: usize)
        requires
            self.buf().wf(),
            0 <= x,
            0 <= y < self.buf().dims().1,
            3 * x + 3 <= abs_stride(self.buf().dims().2),
        ensures
            r == self.pix_at(x as int, y as int),
            r + 3 <= self.bytes().len(),
    {
        let row = self.rbuf.get().row_offset(y as u32);
        row + 3 * (x as usize)
    }

    /// The three bytes at `b`.
    fn read_win(&self, b: usize) -> (r: Vec<u8>)
        requires
            b + 3 <= self.bytes().len(),
        ensures
            r@ == win(self.bytes(), b as int),
            r.len() == 3,
    {
        let _n: usize = self.byte_count();
        let rb = self.rbuf.get();
        let v = vec![rb.byte_at(b), rb.byte_at(b + 1), rb.byte_at(b + 2)];
        assert(v@ =~= win(self.bytes(), b as int));
        v
    }

    /// Writes the three bytes of `w` at `b`.
    fn write_win(&mut self, b: usize, w: &Vec<u8>)
        requires
            b + 3 <= old(self).bytes().len(),
            w.len() == 3,
        ensures
            final(self).bytes() == put_win(old(self).bytes(), b as int, w@),
            final(self).buf().dims() == old(self).buf().dims(),
            final(self).blender == old(self).blender,
    {
        let _n: usize = self.byte_count();
        let rb = self.rbuf.get_mut();
        rb.set_byte(b, w[0]);
        rb.set_byte(b + 1, w[1]);
        rb.set_byte(b + 2, w[2]);
    }

    /// Rightward pixels do not overlap and lie inside the buffer.
    proof fn lemma_hbase(&self, x: int, y: int, len: int)
        requires
            self.hrun_ok(x, y, len),
        ensures
            windows_ok(self.hbase(x, y), len, self.bytes().len() as int),
            forall|k: int| #[trigger] self.hbase(x, y)(k) == self.pix_at(x, y) + 3 * k,
    {
        lemma_row_fits(self.buf(), y);
    }

    /// Downward pixels do not overlap and lie inside the buffer.
    proof fn lemma_vbase(&self, x: int, y: int, len: int)
        requires
            self.vrun_ok(x, y, len),
        ensures
            windows_ok(self.vbase(x, y), len, self.bytes().len() as int),
    {
        let b = self.vbase(x, y);
        assert forall|k: int| 0 <= k < len implies 0 <= #[trigger] b(k) && b(k) + 3 <= self.bytes().len() by {
            lemma_row_fits(self.buf(), y + k);
        }
        assert forall|k1: int, k2: int| 0 <= k1 < len && 0 <= k2 < len && k1 != k2 implies #[trigger] b(k1) + 3
            <= #[trigger] b(k2) || b(k2) + 3 <= b(k1) by {
            let (d, e) = if k1 < k2 {
                (y + k1, y + k2)
            } else {
                (y + k2, y + k1)
            };
            crate::rendering_buffer::lemma_rows_disjoint(self.buf().dims().1, self.buf().dims().2, d, e);
        }
    }

    /// The colour of pixel `(x, y)`, opaque.
    pub fn pixel(&self, x: i32, y: i32) -> (r: Rgba8)
        requires
            self.hrun_ok(x as int, y as int, 1),
        ensures
            ({
                let w = self.pixel_bytes(x as int, y as int);
                r == (Rgba8 {
                    r: w[O::spec_r() as int],
                    g: w[O::spec_g() as int],
                    b: w[O::spec_b() as int],
                    a: 255,
                })
            }),
    {
        let b = self.base(x, y);
        let w = self.read_win(b);
        Rgba8 { r: w[O::r()], g: w[O::g()], b: w[O::b()], a: 255 }
    }

    /// Writes the channels of `c` into the first three bytes of `p`.
    pub fn make_pix(&self, p: &mut [u8], c: &Rgba8)
        requires
            old(p)@.len() >= 3,
            order_ok::<O>(),
        ensures
            final(p)@ == rgb_set::<O>(old(p)@, *c),
    {
        p[O::r()] = c.r;
        p[O::g()] = c.g;
        p[O::b()] = c.b;
    }

    /// Sets pixel `(x, y)` to `c`.
    pub fn copy_pixel(&mut self, x: i32, y: i32, c: &Rgba8)
        requires
            old(self).hrun_ok(x as int, y as int, 1),
        ensures
            ({
                let b = old(self).pix_at(x as int, y as int);
                final(self).bytes() == put_win(old(self).bytes(), b, rgb_set::<O>(win(old(self).bytes(), b), *c))
            }),
            final(self).buf().dims() == old(self).buf().dims(),
    {
        let b = self.base(x, y);
        let mut w = self.read_win(b);
        set_channels::<O>(&mut w, c);
        self.write_win(b, &w);
    }

    /// Blends `c` with coverage `cover` into pixel `(x, y)`.
    pub fn blend_pixel(&mut self, x: i32, y: i32, c: &Rgba8, cover: u8)
        requires
            old(self).hrun_ok(x as int, y as int, 1),
            rgb_cover_ok::<O, Blend>(old(self).blender, old(self).pixel_bytes(x as int, y as int), *c, cover as u32),
        ensures
            ({
                let b = old(self).pix_at(x as int, y as int);
                final(self).bytes() == put_win(
                    old(self).bytes(),
                    b,
                    rgb_cover_blend::<O, Blend>(old(self).blender, win(old(self).bytes(), b), *c, cover as u32),
                )
            }),
            final(self).buf().dims() == old(self).buf().dims(),
    {
        let b = self.base(x, y);
        let mut w = self.read_win(b);
        copy_or_blend_pix_cover::<O, Blend>(&mut w, c, cover as u32, &self.blender);
        self.write_win(b, &w);
    }

    /// The first byte of pixel `(x, y)`, for a run of `len` pixels that may
    /// be empty.
    fn base_or_zero(&self, x: i32, y: i32, len: u32) -> (r: usize)
        requires
            self.hrun_ok(x as int, y as int, len as int),
        ensures
            r == self.pix_at(x as int, y as int),
            r + 3 * len <= self.bytes().len(),
    {
        proof {
            lemma_row_fits(self.buf(), y as int);
        }
        let row = self.rbuf.get().row_offset(y as u32);
        row + 3 * (x as usize)
    }

    /// Sets `len` pixels rightwards from `(x, y)` to `c`.
    pub fn copy_hline(&mut self, x: i32, y: i32, len: u32, c: &Rgba8)
        requires
            old(self).hrun_ok(x as int, y as int, len as int),
        ensures
            span3_written(
                old(self).bytes(),
                final(self).bytes(),
                len as int,
                old(self).hbase(x as int, y as int),
                set_pix::<O>(*c),
            ),
            final(self).buf().dims() == old(self).buf().dims(),
    {
        let ghost b0 = self.bytes();
        let ghost base = self.hbase(x as int, y as int);
        let ghost f = set_pix::<O>(*c);
        proof {
            self.lemma_hbase(x as int, y as int, len as int);
        }
        let _n: usize = self.byte_count();
        let p = self.base_or_zero(x, y, len);
        let mut i: u32 = 0;
        while i < len
            invariant
                i <= len,
                old(self).hrun_ok(x as int, y as int, len as int),
                span3_written(b0, self.bytes(), i as int, base, f),
                f == set_pix::<O>(*c),
                base == old(self).hbase(x as int, y as int),
                windows_ok(base, len as int, b0.len() as int),
                b0.len() <= usize::MAX,
                self.buf().wf(),
                self.buf().dims() == old(self).buf().dims(),
                self.blender == old(self).blender,
                forall|k: int| #[trigger] base(k) == p + 3 * k,
            decreases len - i,
        {
            proof {
                lemma_span3_step(b0, self.bytes(), i as int, len as int, base, f, f(i as int, win(b0, base(i as int))));
            }
            let q = p + 3 * (i as usize);
            let mut w = self.read_win(q);
            set_channels::<O>(&mut w, c);
            self.write_win(q, &w);
            i = i + 1;
        }
    }

    /// Blends `c` with coverage `cover` into `len` pixels rightwards from
    /// `(x, y)`.
    pub fn blend_hline(&mut self, x: i32, y: i32, len: u32, c: &Rgba8, cover: u8)
        requires
            old(self).hrun_ok(x as int, y as int, len as int),
            forall|k: int|
                0 <= k < len ==> rgb_cover_ok::<O, Blend>(
                    old(self).blender,
                    #[trigger] win(old(self).bytes(), old(self).hbase(x as int, y as int)(k)),
                    *c,
                    cover as u32,
                ),
        ensures
            span3_written(
                old(self).bytes(),
                final(self).bytes(),
                len as int,
                old(self).hbase(x as int, y as int),
                cover_pix::<O, Blend>(old(self).blender, *c, cover as u32),
            ),
            final(self).buf().dims() == old(self).buf().dims(),
    {
        let ghost b0 = self.bytes();
        let ghost base = self.hbase(x as int, y as int);
        let ghost f = cover_pix::<O, Blend>(self.blender, *c, cover as u32);
        proof {
            self.lemma_hbase(x as int, y as int, len as int);
        }
        let _n: usize = self.byte_count();
        let p = self.base_or_zero(x, y, len);
        let mut i: u32 = 0;
        while i < len
            invariant
                i <= len,
                old(self).hrun_ok(x as int, y as int, len as int),
                span3_written(b0, self.bytes(), i as int, base, f),
                f == cover_pix::<O, Blend>(self.blender, *c, cover as u32),
                base == old(self).hbase(x as int, y as int),
                windows_ok(base, len as int, b0.len() as int),
                b0.len() <= usize::MAX,
                self.buf().wf(),
                self.buf().dims() == old(self).buf().dims(),
                self.blender == old(self).blender,
                forall|k: int| #[trigger] base(k) == p + 3 * k,
                forall|k: int|
                    0 <= k < len ==> rgb_cover_ok::<O, Blend>(self.blender, #[trigger] win(b0, base(k)), *c, cover as u32),
            decreases len - i,
        {
            proof {
                lemma_span3_step(b0, self.bytes(), i as int, len as int, base, f, f(i as int, win(b0, base(i as int))));
            }
            let q = p + 3 * (i as usize);
            let mut w = self.read_win(q);
            copy_or_blend_pix_cover::<O, Blend>(&mut w, c, cover as u32, &self.blender);
            self.write_win(q, &w);
            i = i + 1;
        }
    }

    /// Sets `len` pixels downwards from `(x, y)` to `c`.
    pub fn copy_vline(&mut self, x: i32, y: i32, len: u32, c: &Rgba8)
        requires
            old(self).vrun_ok(x as int, y as int, len as int),
        ensures
            span3_written(
                old(self).bytes(),
                final(self).bytes(),
                len as int,
                old(self).vbase(x as int, y as int),
                set_pix::<O>(*c),
            ),
            final(self).buf().dims() == old(self).buf().dims(),
    {
        let ghost b0 = self.bytes();
        let ghost base = self.vbase(x as int, y as int);
        let ghost f = set_pix::<O>(*c);
        proof {
            self.lemma_vbase(x as int, y as int, len as int);
        }
        let _n: usize = self.byte_count();
        let mut i: u32 = 0;
        while i < len
            invariant
                i <= len,
                old(self).vrun_ok(x as int, y as int, len as int),
                span3_written(b0, self.bytes(), i as int, base, f),
                f == set_pix::<O>(*c),
                base == old(self).vbase(x as int, y as int),
                windows_ok(base, len as int, b0.len() as int),
                b0.len() <= usize::MAX,
                self.buf().wf(),
                self.buf().dims() == old(self).buf().dims(),
                self.blender == old(self).blender,
            decreases len - i,
        {
            proof {
                lemma_span3_step(b0, self.bytes(), i as int, len as int, base, f, f(i as int, win(b0, base(i as int))));
            }
            let q = self.base(x, y + i as i32);
            let mut w = self.read_win(q);
            set_channels::<O>(&mut w, c);
            self.write_win(q, &w);
            i = i + 1;
        }
    }

    /// Blends `c` with coverage `cover` into `len` pixels downwards from
    /// `(x, y)`.
    pub fn blend_vline(&mut self, x: i32, y: i32, len: u32, c: &Rgba8, cover: u8)
        requires
            old(self).vrun_ok(x as int, y as int, len as int),
            forall|k: int|
                0 <= k < len ==> rgb_cover_ok::<O, Blend>(
                    old(self).blender,
                    #[trigger] win(old(self).bytes(), old(self).vbase(x as int, y as int)(k)),
                    *c,
                    cover as u32,
                ),
        ensures
            span3_written(
                old(self).bytes(),
                final(self).bytes(),
                len as int,
                old(self).vbase(x as int, y as int),
                cover_pix::<O, Blend>(old(self).blender, *c, cover as u32),
            ),
            final(self).buf().dims() == old(self).buf().dims(),
    {
        let ghost b0 = self.bytes();
        let ghost base = self.vbase(x as int, y as int);
        let ghost f = cover_pix::<O, Blend>(self.blender, *c, cover as u32);
        proof {
            self.lemma_vbase(x as int, y as int, len as int);
        }
        let _n: usize = self.byte_count();
        let mut i: u32 = 0;
        while i < len
            invariant
                i <= len,
                old(self).vrun_ok(x as int, y as int, len as int),
                span3_written(b0, self.bytes(), i as int, base, f),
                f == cover_pix::<O, Blend>(self.blender, *c, cover as u32),
                base == old(self).vbase(x as int, y as int),
                windows_ok(base, len as int, b0.len() as int),
                b0.len() <= usize::MAX,
                self.buf().wf(),
                self.buf().dims() == old(self).buf().dims(),
                self.blender == old(self).blender,
                forall|k: int|
                    0 <= k < len ==> rgb_cover_ok::<O, Blend>(self.blender, #[trigger] win(b0, base(k)), *c, cover as u32),
            decreases len - i,
        {
            proof {
                lemma_span3_step(b0, self.bytes(), i as int, len as int, base, f, f(i as int, win(b0, base(i as int))));
            }
            let q = self.base(x, y + i as i32);
            let mut w = self.read_win(q);
            copy_or_blend_pix_cover::<O, Blend>(&mut w, c, cover as u32, &self.blender);
            self.write_win(q, &w);
            i = i + 1;
        }
    }

    /// Blends `c` into `len` pixels rightwards from `(x, y)`, pixel `k` with
    /// coverage `covers[k]`.
    pub fn blend_solid_hspan(&mut self, x: i32, y: i32, len: u32, c: &Rgba8, covers: &[u8])
        requires
            old(self).hrun_ok(x as int, y as int, len as int),
            len <= covers@.len(),
            forall|k: int|
                0 <= k < len ==> rgb_cover_ok::<O, Blend>(
                    old(self).blender,
                    #[trigger] win(old(self).bytes(), old(self).hbase(x as int, y as int)(k)),
                    *c,
                    covers@[k] as u32,
                ),
        ensures
            span3_written(
                old(self).bytes(),
                final(self).bytes(),
                len as int,
                old(self).hbase(x as int, y as int),
                covers_pix::<O, Blend>(old(self).blender, *c, covers@),
            ),
            final(self).buf().dims() == old(self).buf().dims(),
    {
        let ghost b0 = self.bytes();
        let ghost base = self.hbase(x as int, y as int);
        let ghost f = covers_pix::<O, Blend>(self.blender, *c, covers@);
        proof {
            self.lemma_hbase(x as int, y as int, len as int);
        }
        let _n: usize = self.byte_count();
        let p = self.base_or_zero(x, y, len);
        let mut i: u32 = 0;
        while i < len
            invariant
                i <= len,
                old(self).hrun_ok(x as int, y as int, len as int),
                span3_written(b0, self.bytes(), i as int, base, f),
                f == covers_pix::<O, Blend>(self.blender, *c, covers@),
                base == old(self).hbase(x as int, y as int),
                windows_ok(base, len as int, b0.len() as int),
                b0.len() <= usize::MAX,
                self.buf().wf(),
                self.buf().dims() == old(self).buf().dims(),
                self.blender == old(self).blender,
                forall|k: int| #[trigger] base(k) == p + 3 * k,
                len <= covers@.len(),
                forall|k: int|
                    0 <= k < len ==> rgb_cover_ok::<O, Blend>(self.blender, #[trigger] win(b0, base(k)), *c, covers@[k] as u32),
            decreases len - i,
        {
            proof {
                lemma_span3_step(b0, self.bytes(), i as int, len as int, base, f, f(i as int, win(b0, base(i as int))));
            }
            let q = p + 3 * (i as usize);
            let mut w = self.read_win(q);
            copy_or_blend_pix_cover::<O, Blend>(&mut w, c, covers[i as usize] as u32, &self.blender);
            self.write_win(q, &w);
            i = i + 1;
        }
    }

    /// Sets `len` pixels rightwards from `(x, y)` to `colors`.
    pub fn copy_color_hspan(&mut self, x: i32, y: i32, len: u32, colors: &[Rgba8])
        requires
            old(self).hrun_ok(x as int, y as int, len as int),
            len <= colors@.len(),
        ensures
            span3_written(
                old(self).bytes(),
                final(self).bytes(),
                len as int,
                old(self).hbase(x as int, y as int),
                set_pixels::<O>(colors@),
            ),
            final(self).buf().dims() == old(self).buf().dims(),
    {
        let ghost b0 = self.bytes();
        let ghost base = self.hbase(x as int, y as int);
        let ghost f = set_pixels::<O>(colors@);
        proof {
            self.lemma_hbase(x as int, y as int, len as int);
        }
        let _n: usize = self.byte_count();
        let p = self.base_or_zero(x, y, len);
        let mut i: u32 = 0;
        while i < len
            invariant
                i <= len,
                old(self).hrun_ok(x as int, y as int, len as int),
                span3_written(b0, self.bytes(), i as int, base, f),
                f == set_pixels::<O>(colors@),
                base == old(self).hbase(x as int, y as int),
                windows_ok(base, len as int, b0.len() as int),
                b0.len() <= usize::MAX,
                self.buf().wf(),
                self.buf().dims() == old(self).buf().dims(),
                self.blender == old(self).blender,
                forall|k: int| #[trigger] base(k) == p + 3 * k,
                len <= colors@.len(),
            decreases len - i,
        {
            proof {
                lemma_span3_step(b0, self.bytes(), i as int, len as int, base, f, f(i as int, win(b0, base(i as int))));
            }
            let q = p + 3 * (i as usize);
            let mut w = self.read_win(q);
            set_channels::<O>(&mut w, &colors[i as usize]);
            self.write_win(q, &w);
            i = i + 1;
        }
    }

    /// Blends `colors` into `len` pixels rightwards from `(x, y)`: with the
    /// coverages `covers` when there are any, else all with coverage `cover`.
    pub fn blend_color_hspan(&mut self, x: i32, y: i32, len: u32, colors: &[Rgba8], covers: &[u8], cover: u8)
        requires
            old(self).hrun_ok(x as int, y as int, len as int),
            len <= colors@.len(),
            covers@.len() > 0 ==> len <= covers@.len(),
            forall|k: int|
                0 <= k < len ==> ({
                    let w = #[trigger] win(old(self).bytes(), old(self).hbase(x as int, y as int)(k));
                    if covers@.len() > 0 {
                        rgb_cover_ok::<O, Blend>(old(self).blender, w, colors@[k], covers@[k] as u32)
                    } else if cover == 255 {
                        rgb_copy_or_blend_ok::<O, Blend>(old(self).blender, w, colors@[k])
                    } else {
                        rgb_cover_ok::<O, Blend>(old(self).blender, w, colors@[k], cover as u32)
                    }
                }),
        ensures
            span3_written(
                old(self).bytes(),
                final(self).bytes(),
                len as int,
                old(self).hbase(x as int, y as int),
                color_span_pix::<O, Blend>(old(self).blender, colors@, covers@, cover),
            ),
            final(self).buf().dims() == old(self).buf().dims(),
    {
        let ghost b0 = self.bytes();
        let ghost base = self.hbase(x as int, y as int);
        let ghost f = color_span_pix::<O, Blend>(self.blender, colors@, covers@, cover);
        proof {
            self.lemma_hbase(x as int, y as int, len as int);
        }
        let _n: usize = self.byte_count();
        let p = self.base_or_zero(x, y, len);
        let mut i: u32 = 0;
        while i < len
            invariant
                i <= len,
                old(self).hrun_ok(x as int, y as int, len as int),
                span3_written(b0, self.bytes(), i as int, base, f),
                f == color_span_pix::<O, Blend>(self.blender, colors@, covers@, cover),
                base == old(self).hbase(x as int, y as int),
                windows_ok(base, len as int, b0.len() as int),
                b0.len() <= usize::MAX,
                self.buf().wf(),
                self.buf().dims() == old(self).buf().dims(),
                self.blender == old(self).blender,
                forall|k: int| #[trigger] base(k) == p + 3 * k,
                len <= colors@.len(),
                covers@.len() > 0 ==> len <= covers@.len(),
                forall|k: int|
                    0 <= k < len ==> ({
                        let w = #[trigger] win(b0, base(k));
                        if covers@.len() > 0 {
                            rgb_cover_ok::<O, Blend>(self.blender, w, colors@[k], covers@[k] as u32)
                        } else if cover == 255 {
                            rgb_copy_or_blend_ok::<O, Blend>(self.blender, w, colors@[k])
                        } else {
                            rgb_cover_ok::<O, Blend>(self.blender, w, colors@[k], cover as u32)
                        }
                    }),
            decreases len - i,
        {
            proof {
                lemma_span3_step(b0, self.bytes(), i as int, len as int, base, f, f(i as int, win(b0, base(i as int))));
            }
            let q = p + 3 * (i as usize);
            let mut w = self.read_win(q);
            if covers.len() > 0 {
                copy_or_blend_pix_cover::<O, Blend>(&mut w, &colors[i as usize], covers[i as usize] as u32, &self.blender);
            } else if cover == 255 {
                copy_or_blend_pix::<O, Blend>(&mut w, &colors[i as usize], &self.blender);
            } else {
                copy_or_blend_pix_cover::<O, Blend>(&mut w, &colors[i as usize], cover as u32, &self.blender);
            }
            self.write_win(q, &w);
            i = i + 1;
        }
    }

    /// Blends `c` into `len` pixels downwards from `(x, y)`, pixel `k` with
    /// coverage `covers[k]`.
    pub fn blend_solid_vspan(&mut self, x: i32, y: i32, len: u32, c: &Rgba8, covers: &[u8])
        requires
            old(self).vrun_ok(x as int, y as int, len as int),
            len <= covers@.len(),
            forall|k: int|
                0 <= k < len ==> rgb_cover_ok::<O, Blend>(
                    old(self).blender,
                    #[trigger] win(old(self).bytes(), old(self).vbase(x as int, y as int)(k)),
                    *c,
                    covers@[k] as u32,
                ),
        ensures
            span3_written(
                old(self).bytes(),
                final(self).bytes(),
                len as int,
                old(self).vbase(x as int, y as int),
                covers_pix::<O, Blend>(old(self).blender, *c, covers@),
            ),
            final(self).buf().dims() == old(self).buf().dims(),
    {
        let ghost b0 = self.bytes();
        let ghost base = self.vbase(x as int, y as int);
        let ghost f = covers_pix::<O, Blend>(self.blender, *c, covers@);
        proof {
            self.lemma_vbase(x as int, y as int, len as int);
        }
        let _n: usize = self.byte_count();
        let mut i: u32 = 0;
        while i < len
            invariant
                i <= len,
                old(self).vrun_ok(x as int, y as int, len as int),
                span3_written(b0, self.bytes(), i as int, base, f),
                f == covers_pix::<O, Blend>(self.blender, *c, covers@),
                base == old(self).vbase(x as int, y as int),
                windows_ok(base, len as int, b0.len() as int),
                b0.len() <= usize::MAX,
                self.buf().wf(),
                self.buf().dims() == old(self).buf().dims(),
                self.blender == old(self).blender,
                len <= covers@.len(),
                forall|k: int|
                    0 <= k < len ==> rgb_cover_ok::<O, Blend>(self.blender, #[trigger] win(b0, base(k)), *c, covers@[k] as u32),
            decreases len - i,
        {
            proof {
                lemma_span3_step(b0, self.bytes(), i as int, len as int, base, f, f(i as int, win(b0, base(i as int))));
            }
            let q = self.base(x, y + i as i32);
            let mut w = self.read_win(q);
            copy_or_blend_pix_cover::<O, Blend>(&mut w, c, covers[i as usize] as u32, &self.blender);
            self.write_win(q, &w);
            i = i + 1;
        }
    }

    /// Sets `len` pixels downwards from `(x, y)` to `colors`.
    pub fn copy_color_vspan(&mut self, x: i32, y: i32, len: u32, colors: &[Rgba8])
        requires
            old(self).vrun_ok(x as int, y as int, len as int),
            len <= colors@.len(),
        ensures
            span3_written(
                old(self).bytes(),
                final(self).bytes(),
                len as int,
                old(self).vbase(x as int, y as int),
                set_pixels::<O>(colors@),
            ),
            final(self).buf().dims() == old(self).buf().dims(),
    {
        let ghost b0 = self.bytes();
        let ghost base = self.vbase(x as int, y as int);
        let ghost f = set_pixels::<O>(colors@);
        proof {
            self.lemma_vbase(x as int, y as int, len as int);
        }
        let _n: usize = self.byte_count();
        let mut i: u32 = 0;
        while i < len
            invariant
                i <= len,
                old(self).vrun_ok(x as int, y as int, len as int),
                span3_written(b0, self.bytes(), i as int, base, f),
                f == set_pixels::<O>(colors@),
                base == old(self).vbase(x as int, y as int),
                windows_ok(base, len as int, b0.len() as int),
                b0.len() <= usize::MAX,
                self.buf().wf(),
                self.buf().dims() == old(self).buf().dims(),
                self.blender == old(self).blender,
                len <= colors@.len(),
            decreases len - i,
        {
            proof {
                lemma_span3_step(b0, self.bytes(), i as int, len as int, base, f, f(i as int, win(b0, base(i as int))));
            }
            let q = self.base(x, y + i as i32);
            let mut w = self.read_win(q);
            set_channels::<O>(&mut w, &colors[i as usize]);
            self.write_win(q, &w);
            i = i + 1;
        }
    }

    /// Blends `colors` into `len` pixels downwards from `(x, y)`: with the
    /// coverages `covers` when there are any, else all with coverage `cover`.
    pub fn blend_color_vspan(&mut self, x: i32, y: i32, len: u32, colors: &[Rgba8], covers: &[u8], cover: u8)
        requires
            old(self).vrun_ok(x as int, y as int, len as int),
            len <= colors@.len(),
            covers@.len() > 0 ==> len <= covers@.len(),
            forall|k: int|
                0 <= k < len ==> ({
                    let w = #[trigger] win(old(self).bytes(), old(self).vbase(x as int, y as int)(k));
                    if covers@.len() > 0 {
                        rgb_cover_ok::<O, Blend>(old(self).blender, w, colors@[k], covers@[k] as u32)
                    } else if cover == 255 {
                        rgb_copy_or_blend_ok::<O, Blend>(old(self).blender, w, colors@[k])
                    } else {
                        rgb_cover_ok::<O, Blend>(old(self).blender, w, colors@[k], cover as u32)
                    }
                }),
        ensures
            span3_written(
                old(self).bytes(),
                final(self).bytes(),
                len as int,
                old(self).vbase(x as int, y as int),
                color_span_pix::<O, Blend>(old(self).blender, colors@, covers@, cover),
            ),
            final(self).buf().dims() == old(self).buf().dims(),
    {
        let ghost b0 = self.bytes();
        let ghost base = self.vbase(x as int, y as int);
        let ghost f = color_span_pix::<O, Blend>(self.blender, colors@, covers@, cover);
        proof {
            self.lemma_vbase(x as int, y as int, len as int);
        }
        let _n: usize = self.byte_count();
        let mut i: u32 = 0;
        while i < len
            invariant
                i <= len,
                old(self).vrun_ok(x as int, y as int, len as int),
                span3_written(b0, self.bytes(), i as int, base, f),
                f == color_span_pix::<O, Blend>(self.blender, colors@, covers@, cover),
                base == old(self).vbase(x as int, y as int),
                windows_ok(base, len as int, b0.len() as int),
                b0.len() <= usize::MAX,
                self.buf().wf(),
                self.buf().dims() == old(self).buf().dims(),
                self.blender == old(self).blender,
                len <= colors@.len(),
                covers@.len() > 0 ==> len <= covers@.len(),
                forall|k: int|
                    0 <= k < len ==> ({
                        let w = #[trigger] win(b0, base(k));
                        if covers@.len() > 0 {
                            rgb_cover_ok::<O, Blend>(self.blender, w, colors@[k], covers@[k] as u32)
                        } else if cover == 255 {
                            rgb_copy_or_blend_ok::<O, Blend>(self.blender, w, colors@[k])
                        } else {
                            rgb_cover_ok::<O, Blend>(self.blender, w, colors@[k], cover as u32)
                        }
                    }),
            decreases len - i,
        {
            proof {
                lemma_span3_step(b0, self.bytes(), i as int, len as int, base, f, f(i as int, win(b0, base(i as int))));
            }
            let q = self.base(x, y + i as i32);
            let mut w = self.read_win(q);
            if covers.len() > 0 {
                copy_or_blend_pix_cover::<O, Blend>(&mut w, &colors[i as usize], covers[i as usize] as u32, &self.blender);
            } else if cover == 255 {
                copy_or_blend_pix::<O, Blend>(&mut w, &colors[i as usize], &self.blender);
            } else {
                copy_or_blend_pix_cover::<O, Blend>(&mut w, &colors[i as usize], cover as u32, &self.blender);
            }
            self.write_win(q, &w);
            i = i + 1;
        }
    }
}

/// The bytes `new` are `old` with the pixel at `base(r, k)` replaced by
/// `g(r, k, pixel)` for each row `r < rows` and pixel `k < w`, and every
/// other byte kept.
pub open spec fn grid3_written(
    old: Seq<u8>,
    new: Seq<u8>,
    rows: int,
    w: int,
    base: spec_fn(int, int) -> int,
    g: spec_fn(int, int, Seq<u8>) -> Seq<u8>,
) -> bool {
    &&& new.len() == old.len()
    &&& forall|r: int, k: int|
        0 <= r < rows && 0 <= k < w ==> #[trigger] win(new, base(r, k)) == g(r, k, win(old, base(r, k)))
    &&& forall|j: int|
        0 <= j < old.len() && (forall|r: int, k: int|
            0 <= r < rows && 0 <= k < w ==> !(#[trigger] base(r, k) <= j < base(r, k) + 3)) ==> new[j]
            == old[j]
}

/// The pixels at `base(r, k)` lie inside a buffer of length `n` without
/// overlapping.
pub open spec fn grid3_ok(base: spec_fn(int, int) -> int, rows: int, w: int, n: int) -> bool {
    &&& forall|r: int, k: int| 0 <= r < rows && 0 <= k < w ==> 0 <= #[trigger] base(r, k) && base(r, k) + 3 <= n
    &&& forall|r1: int, k1: int, r2: int, k2: int|
        0 <= r1 < rows && 0 <= k1 < w && 0 <= r2 < rows && 0 <= k2 < w && (r1 != r2 || k1 != k2)
            ==> #[trigger] base(r1, k1) + 3 <= #[trigger] base(r2, k2) || base(r2, k2) + 3 <= base(r1, k1)
}

/// One more row of a grid written.
pub(crate) proof fn lemma_grid3_step(
    old: Seq<u8>,
    mid: Seq<u8>,
    new: Seq<u8>,
    y: int,
    rows: int,
    w: int,
    base: spec_fn(int, int) -> int,
    g: spec_fn(int, int, Seq<u8>) -> Seq<u8>,
)
    requires
        grid3_written(old, mid, y, w, base, g),
        grid3_ok(base, rows, w, old.len() as int),
        0 <= y < rows,
        span3_written(mid, new, w, |k: int| base(y, k), |k: int, p: Seq<u8>| g(y, k, p)),
    ensures
        grid3_written(old, new, y + 1, w, base, g),
{
    let rowb = |k: int| base(y, k);
    assert forall|r: int, k: int| 0 <= r < y + 1 && 0 <= k < w implies #[trigger] win(new, base(r, k))
        == g(r, k, win(old, base(r, k))) by {
        let b = base(r, k);
        if r < y {
            assert forall|j: int| b <= j < b + 3 implies new[j] == mid[j] by {
                assert forall|k2: int| 0 <= k2 < w implies !(#[trigger] rowb(k2) <= j < rowb(k2) + 3) by {
                    assert(base(r, k) + 3 <= base(y, k2) || base(y, k2) + 3 <= base(r, k));
                }
            }
            assert(win(new, b) =~= win(mid, b));
        } else {
            assert(rowb(k) == base(y, k));
            assert forall|j: int| b <= j < b + 3 implies mid[j] == old[j] by {
                assert forall|r2: int, k2: int| 0 <= r2 < y && 0 <= k2 < w implies !(#[trigger] base(r2, k2) <= j
                    < base(r2, k2) + 3) by {
                    assert(base(y, k) + 3 <= base(r2, k2) || base(r2, k2) + 3 <= base(y, k));
                }
            }
            assert(win(mid, b) =~= win(old, b));
        }
    }
    assert forall|j: int|
        0 <= j < old.len() && (forall|r: int, k: int|
            0 <= r < y + 1 && 0 <= k < w ==> !(#[trigger] base(r, k) <= j < base(r, k) + 3)) implies new[j]
        == old[j] by {
        assert forall|k2: int| 0 <= k2 < w implies !(#[trigger] rowb(k2) <= j < rowb(k2) + 3) by {
            assert(!(base(y, k2) <= j < base(y, k2) + 3));
        }
        assert forall|r2: int, k2: int| 0 <= r2 < y && 0 <= k2 < w implies !(#[trigger] base(r2, k2) <= j
            < base(r2, k2) + 3) by {}
    }
}

/// The gamma correction of the colour channels of a pixel, wherever it is.
pub open spec fn gamma_rgb<O: Order, G: Gamma<u8, u8>>(g: G, dir: bool) -> spec_fn(int, int, Seq<u8>) -> Seq<u8> {
    |r: int, k: int, w: Seq<u8>|
        if dir {
            rgb_map::<O, u8>(w, |v: u8| g.dir_spec(v))
        } else {
            rgb_map::<O, u8>(w, |v: u8| g.inv_spec(v))
        }
}

impl<'a, O: Order, Blend: Blender<Rgba8, O>> AlphaBlendRgb<'a, Rgba8, O, Blend> {
    /// The first byte of pixel `k` of row `r`.
    pub open spec fn grid_base(&self) -> spec_fn(int, int) -> int {
        |r: int, k: int| self.pix_at(k, r)
    }

    /// Every row holds its `width` pixels.
    pub open spec fn rows_ok(&self) -> bool {
        &&& self.buf().wf()
        &&& order_ok::<O>()
        &&& 3 * self.buf().dims().0 <= abs_stride(self.buf().dims().2)
    }

    /// The first byte of pixel `k` of column `c`.
    pub open spec fn col_grid_base(&self) -> spec_fn(int, int) -> int {
        |c: int, k: int| self.pix_at(c, k)
    }

    pub(crate) proof fn lemma_col_grid_base(&self)
        requires
            self.rows_ok(),
        ensures
            grid3_ok(
                self.col_grid_base(),
                self.buf().dims().0 as int,
                self.buf().dims().1 as int,
                self.bytes().len() as int,
            ),
    {
        self.lemma_grid_base();
        let w = self.buf().dims().0 as int;
        let h = self.buf().dims().1 as int;
        let b = self.grid_base();
        let cb = self.col_grid_base();
        assert forall|c: int, k: int| 0 <= c < w && 0 <= k < h implies 0 <= #[trigger] cb(c, k) && cb(c, k) + 3
            <= self.bytes().len() by {
            assert(cb(c, k) == b(k, c));
        }
        assert forall|c1: int, k1: int, c2: int, k2: int|
            0 <= c1 < w && 0 <= k1 < h && 0 <= c2 < w && 0 <= k2 < h && (c1 != c2 || k1 != k2)
                implies #[trigger] cb(c1, k1) + 3 <= #[trigger] cb(c2, k2) || cb(c2, k2) + 3 <= cb(c1, k1) by {
            assert(cb(c1, k1) == b(k1, c1));
            assert(cb(c2, k2) == b(k2, c2));
        }
    }

    pub(crate) proof fn lemma_grid_base(&self)
        requires
            self.rows_ok(),
        ensures
            grid3_ok(
                self.grid_base(),
                self.buf().dims().1 as int,
                self.buf().dims().0 as int,
                self.bytes().len() as int,
            ),
    {
        let w = self.buf().dims().0 as int;
        let h = self.buf().dims().1 as int;
        let b = self.grid_base();
        assert forall|r: int, k: int| 0 <= r < h && 0 <= k < w implies 0 <= #[trigger] b(r, k) && b(r, k) + 3
            <= self.bytes().len() by {
            lemma_row_fits(self.buf(), r);
        }
        assert forall|r1: int, k1: int, r2: int, k2: int|
            0 <= r1 < h && 0 <= k1 < w && 0 <= r2 < h && 0 <= k2 < w && (r1 != r2 || k1 != k2)
                implies #[trigger] b(r1, k1) + 3 <= #[trigger] b(r2, k2) || b(r2, k2) + 3 <= b(r1, k1) by {
            if r1 != r2 {
                let (d, e) = if r1 < r2 {
                    (r1, r2)
                } else {
                    (r2, r1)
                };
                crate::rendering_buffer::lemma_rows_disjoint(h as u32, self.buf().dims().2, d, e);
            }
        }
    }

    /// Applies the gamma correction, direct or undone, to the colour
    /// channels of every pixel, row by row; an image of more than `i32::MAX`
    /// rows is left as it is.
    fn for_each_pixel<G: Gamma<u8, u8>>(&mut self, gamma: &G, dir: bool)
        requires
            old(self).rows_ok(),
            gamma.gamma_wf(),
        ensures
            old(self).buf().dims().1 <= i32::MAX ==> grid3_written(
                old(self).bytes(),
                final(self).bytes(),
                old(self).buf().dims().1 as int,
                old(self).buf().dims().0 as int,
                old(self).grid_base(),
                gamma_rgb::<O, G>(*gamma, dir),
            ),
            old(self).buf().dims().1 > i32::MAX ==> final(self).bytes() == old(self).bytes(),
            final(self).buf().dims() == old(self).buf().dims(),
    {
        let h = self.height();
        let w = self.width();
        if h > i32::MAX as u32 {
            return;
        }
        let ghost b0 = self.bytes();
        let ghost base = self.grid_base();
        let ghost g = gamma_rgb::<O, G>(*gamma, dir);
        proof {
            self.lemma_grid_base();
        }
        let _n: usize = self.byte_count();
        let mut y: u32 = 0;
        while y < h
            invariant
                y <= h,
                h == old(self).buf().dims().1,
                w == old(self).buf().dims().0,
                h <= i32::MAX,
                old(self).rows_ok(),
                gamma.gamma_wf(),
                base == old(self).grid_base(),
                g == gamma_rgb::<O, G>(*gamma, dir),
                grid3_written(b0, self.bytes(), y as int, w as int, base, g),
                grid3_ok(base, h as int, w as int, b0.len() as int),
                b0.len() <= usize::MAX,
                self.buf().wf(),
                self.buf().dims() == old(self).buf().dims(),
            decreases h - y,
        {
            let ghost mid = self.bytes();
            let ghost rowb = |k: int| base(y as int, k);
            let ghost f = |k: int, p: Seq<u8>| g(y as int, k, p);
            proof {
                lemma_row_fits(old(self).buf(), y as int);
                assert forall|k: int| 0 <= k < w implies 0 <= #[trigger] rowb(k) && rowb(k) + 3 <= b0.len() by {
                    assert(0 <= base(y as int, k) && base(y as int, k) + 3 <= b0.len());
                }
                assert forall|k1: int, k2: int| 0 <= k1 < w && 0 <= k2 < w && k1 != k2 implies #[trigger] rowb(k1)
                    + 3 <= #[trigger] rowb(k2) || rowb(k2) + 3 <= rowb(k1) by {
                    assert(base(y as int, k1) + 3 <= base(y as int, k2) || base(y as int, k2) + 3 <= base(
                        y as int,
                        k1,
                    ));
                }
            }
            let p = self.base_or_zero(0, y as i32, w);
            let mut k: u32 = 0;
            while k < w
                invariant
                    k <= w,
                    y < h,
                    h == old(self).buf().dims().1,
                    w == old(self).buf().dims().0,
                    old(self).rows_ok(),
                    gamma.gamma_wf(),
                    g == gamma_rgb::<O, G>(*gamma, dir),
                    f == (|k: int, p: Seq<u8>| g(y as int, k, p)),
                    rowb == (|k: int| base(y as int, k)),
                    base == old(self).grid_base(),
                    forall|k2: int| #[trigger] rowb(k2) == p + 3 * k2,
                    span3_written(mid, self.bytes(), k as int, rowb, f),
                    windows_ok(rowb, w as int, mid.len() as int),
                    mid.len() == b0.len(),
                    b0.len() <= usize::MAX,
                    self.buf().wf(),
                    self.buf().dims() == old(self).buf().dims(),
                decreases w - k,
            {
                proof {
                    lemma_span3_step(mid, self.bytes(), k as int, w as int, rowb, f, f(k as int, win(mid, rowb(k as int))));
                }
                let q = p + 3 * (k as usize);
                let mut px = self.read_win(q);
                let (ir, ig, ib) = (O::r(), O::g(), O::b());
                let (vr, vg, vb) = (px[ir], px[ig], px[ib]);
                if dir {
                    px.set(ir, gamma.dir(vr));
                    px.set(ig, gamma.dir(vg));
                    px.set(ib, gamma.dir(vb));
                } else {
                    px.set(ir, gamma.inv(vr));
                    px.set(ig, gamma.inv(vg));
                    px.set(ib, gamma.inv(vb));
                }
                self.write_win(q, &px);
                k = k + 1;
            }
            proof {
                lemma_grid3_step(b0, mid, self.bytes(), y as int, h as int, w as int, base, g);
            }
            y = y + 1;
        }
    }

    /// Applies the direct gamma correction to every pixel.
    pub fn apply_gamma_dir<G: Gamma<u8, u8>>(&mut self, g: &G)
        requires
            old(self).rows_ok(),
            g.gamma_wf(),
        ensures
            old(self).buf().dims().1 <= i32::MAX ==> grid3_written(
                old(self).bytes(),
                final(self).bytes(),
                old(self).buf().dims().1 as int,
                old(self).buf().dims().0 as int,
                old(self).grid_base(),
                gamma_rgb::<O, G>(*g, true),
            ),
            old(self).buf().dims().1 > i32::MAX ==> final(self).bytes() == old(self).bytes(),
            final(self).buf().dims() == old(self).buf().dims(),
    {
        self.for_each_pixel(g, true);
    }

    /// Undoes a gamma correction on every pixel.
    pub fn apply_gamma_inv<G: Gamma<u8, u8>>(&mut self, g: &G)
        requires
            old(self).rows_ok(),
            g.gamma_wf(),
        ensures
            old(self).buf().dims().1 <= i32::MAX ==> grid3_written(
                old(self).bytes(),
                final(self).bytes(),
                old(self).buf().dims().1 as int,
                old(self).buf().dims().0 as int,
                old(self).grid_base(),
                gamma_rgb::<O, G>(*g, false),
            ),
            old(self).buf().dims().1 > i32::MAX ==> final(self).bytes() == old(self).bytes(),
            final(self).buf().dims() == old(self).buf().dims(),
    {
        self.for_each_pixel(g, false);
    }
}

impl<'a, O: Order, Blend: Blender<Rgba8, O>> AlphaBlendRgb<'a, Rgba8, O, Blend> {
    /// Reading a pixel after `copy_pixel` gives the copied colour, opaque,
    /// when the order places the channels at distinct bytes.
    pub proof fn lemma_pixel_after_copy(&self, x: int, y: int, c: Rgba8)
        requires
            self.hrun_ok(x, y, 1),
            O::spec_r() != O::spec_g() && O::spec_g() != O::spec_b() && O::spec_r() != O::spec_b(),
        ensures
            ({
                let b = self.pix_at(x, y);
                let w = win(put_win(self.bytes(), b, rgb_set::<O>(win(self.bytes(), b), c)), b);
                &&& w[O::spec_r() as int] == c.r
                &&& w[O::spec_g() as int] == c.g
                &&& w[O::spec_b() as int] == c.b
            }),
    {
        let b = self.pix_at(x, y);
        lemma_row_fits(self.buf(), y);
        let s = rgb_set::<O>(win(self.bytes(), b), c);
        assert(win(put_win(self.bytes(), b, s), b) =~= s);
    }
}

/// Pixel `k` of a span gets the colour that the table `lut` holds for the
/// source byte `src[k]`: blended by its alpha when `cover` is full, else
/// applied with coverage `cover`.
pub open spec fn lut_pix<O: Order, B: Blender<Rgba8, O>>(
    b: B,
    lut: Seq<Rgba8>,
    src: Seq<u8>,
    cover: u32,
) -> spec_fn(int, Seq<u8>) -> Seq<u8> {
    |k: int, w: Seq<u8>|
        {
            let c = lut[src[k] as int];
            if cover == 255 {
                b.blended(w, c.r as u32, c.g as u32, c.b as u32, c.a as u32)
            } else {
                rgb_cover_blend::<O, B>(b, w, c, cover)
            }
        }
}

/// Applying the colour of the table to pixel bytes `w` runs without
/// overflow.
pub open spec fn lut_pix_ok<O: Order, B: Blender<Rgba8, O>>(b: B, w: Seq<u8>, c: Rgba8, cover: u32) -> bool {
    if cover == 255 {
        b.blend_ok(w, c.r as u32, c.g as u32, c.b as u32, c.a as u32)
    } else {
        rgb_cover_ok::<O, B>(b, w, c, cover)
    }
}

impl<'a, O: Order, Blend: Blender<Rgba8, O>> AlphaBlendRgb<'a, Rgba8, O, Blend> {
    /// Copies the bytes of `len` pixels of row `ysrc` of `from`, from pixel
    /// `xsrc` on, over the pixels rightwards from `(xdst, ydst)`.
    pub fn copy_from(&mut self, from: &RenderBuf, xdst: i32, ydst: i32, xsrc: i32, ysrc: i32, len: u32)
        requires
            old(self).hrun_ok(xdst as int, ydst as int, len as int),
            from.wf(),
            0 <= xsrc,
            0 <= ysrc < from.dims().1,
            3 * xsrc + 3 * len <= abs_stride(from.dims().2),
        ensures
            final(self).buf().dims() == old(self).buf().dims(),
            final(self).bytes().len() == old(self).bytes().len(),
            forall|k: int|
                0 <= k < 3 * len ==> final(self).bytes()[old(self).pix_at(xdst as int, ydst as int) + k]
                    == #[trigger] from.bytes()[from.row_start(ysrc as int) + 3 * xsrc + k],
            forall|j: int|
                0 <= j < old(self).bytes().len() && !(old(self).pix_at(xdst as int, ydst as int) <= j
                    < old(self).pix_at(xdst as int, ydst as int) + 3 * len) ==> #[trigger] final(self).bytes()[j]
                    == old(self).bytes()[j],
    {
        let ghost b0 = self.bytes();
        let ghost d0 = self.pix_at(xdst as int, ydst as int);
        let _m: usize = self.byte_count();
        let dst0 = self.base_or_zero(xdst, ydst, len);
        let src0 = from.row_offset(ysrc as u32) + 3 * (xsrc as usize);
        let n = 3 * (len as usize);
        let rb = self.rbuf_mut();
        let mut k: usize = 0;
        while k < n
            invariant
                k <= n,
                n == 3 * len,
                dst0 == d0,
                dst0 + n <= b0.len(),
                src0 == from.row_start(ysrc as int) + 3 * xsrc,
                src0 + n <= from.bytes().len(),
                from.bytes().len() <= usize::MAX,
                b0.len() <= usize::MAX,
                rb.dims() == old(self).buf().dims(),
                rb.bytes().len() == b0.len(),
                forall|i: int| 0 <= i < k ==> rb.bytes()[dst0 + i] == #[trigger] from.bytes()[src0 + i],
                forall|j: int| 0 <= j < b0.len() && !(dst0 <= j < dst0 + k) ==> #[trigger] rb.bytes()[j] == b0[j],
            decreases n - k,
        {
            let v = from.byte_at(src0 + k);
            rb.set_byte(dst0 + k, v);
            k = k + 1;
        }
    }

    /// Blends `color` into the `len` pixels rightwards from `(xdst, ydst)`,
    /// each with the coverage of the byte at the same place from the start
    /// of row `ysrc` of the gray image `from`, scaled by `cover`. The source
    /// is read from the start of its row whatever `xsrc` is.
    pub fn blend_from_color<'b, BG: BlenderG<Gray8>, const STEP: u32, const OFFSET: u32>(
        &mut self,
        from: &AlphaBlendGray<'b, Gray8, BG, STEP, OFFSET>,
        color: &Rgba8,
        xdst: i32,
        ydst: i32,
        xsrc: i32,
        ysrc: i32,
        len: u32,
        cover: u32,
    )
        requires
            old(self).hrun_ok(xdst as int, ydst as int, len as int),
            from.buf().wf(),
            0 <= ysrc < from.buf().dims().1,
            len <= abs_stride(from.buf().dims().2),
            cover <= 255,
            forall|k: int|
                0 <= k < len ==> rgb_cover_ok::<O, Blend>(
                    old(self).blender,
                    #[trigger] win(old(self).bytes(), old(self).hbase(xdst as int, ydst as int)(k)),
                    *color,
                    scaled_covers(row_bytes(from.buf(), ysrc as int, len as int), cover)[k] as u32,
                ),
        ensures
            span3_written(
                old(self).bytes(),
                final(self).bytes(),
                len as int,
                old(self).hbase(xdst as int, ydst as int),
                covers_pix::<O, Blend>(
                    old(self).blender,
                    *color,
                    scaled_covers(row_bytes(from.buf(), ysrc as int, len as int), cover),
                ),
            ),
            final(self).buf().dims() == old(self).buf().dims(),
    {
        let ghost src = row_bytes(from.buf(), ysrc as int, len as int);
        let rb = from.rbuf.get();
        let row = rb.row_offset(ysrc as u32);
        let mut covers: Vec<u8> = Vec::new();
        let mut i: u32 = 0;
        while i < len
            invariant
                i <= len,
                *rb == from.buf(),
                row == rb.row_start(ysrc as int),
                row + len <= rb.bytes().len(),
                rb.bytes().len() <= usize::MAX,
                cover <= 255,
                src == row_bytes(from.buf(), ysrc as int, len as int),
                covers@ == scaled_covers(src.subrange(0, i as int), cover),
            decreases len - i,
        {
            let v = rb.byte_at(row + i as usize) as u32;
            assert(v * cover + 255 <= 255 * 255 + 255) by (nonlinear_arith)
                requires
                    v <= 255,
                    cover <= 255,
            ;
            covers.push(((v * cover + 255) >> 8) as u8);
            i = i + 1;
            assert(covers@ =~= scaled_covers(src.subrange(0, i as int), cover));
        }
        assert(src.subrange(0, len as int) =~= src);
        self.blend_solid_hspan(xdst, ydst, len, color, covers.as_slice());
    }

    /// Applies to the `len` pixels rightwards from `(xdst, ydst)` the
    /// colours that the table `color_lut` holds for the bytes at the same
    /// places from the start of row `ysrc` of the gray image `from`: each
    /// blended by its alpha when `cover` is full, else applied with
    /// coverage `cover`. The source is read from the start of its row
    /// whatever `xsrc` is.
    pub fn blend_from_lut<'b, BG: BlenderG<Gray8>, const STEP: u32, const OFFSET: u32>(
        &mut self,
        from: &AlphaBlendGray<'b, Gray8, BG, STEP, OFFSET>,
        color_lut: &[Rgba8],
        xdst: i32,
        ydst: i32,
        xsrc: i32,
        ysrc: i32,
        len: u32,
        cover: u32,
    )
        requires
            old(self).hrun_ok(xdst as int, ydst as int, len as int),
            from.buf().wf(),
            0 <= ysrc < from.buf().dims().1,
            len <= abs_stride(from.buf().dims().2),
            cover <= 255,
            forall|k: int|
                0 <= k < len ==> (#[trigger] row_bytes(from.buf(), ysrc as int, len as int)[k]) < color_lut@.len(),
            forall|k: int|
                0 <= k < len ==> lut_pix_ok::<O, Blend>(
                    old(self).blender,
                    #[trigger] win(old(self).bytes(), old(self).hbase(xdst as int, ydst as int)(k)),
                    color_lut@[row_bytes(from.buf(), ysrc as int, len as int)[k] as int],
                    cover,
                ),
        ensures
            span3_written(
                old(self).bytes(),
                final(self).bytes(),
                len as int,
                old(self).hbase(xdst as int, ydst as int),
                lut_pix::<O, Blend>(old(self).blender, color_lut@, row_bytes(from.buf(), ysrc as int, len as int), cover),
            ),
            final(self).buf().dims() == old(self).buf().dims(),
    {
        let ghost src = row_bytes(from.buf(), ysrc as int, len as int);
        let ghost b0 = self.bytes();
        let ghost base = self.hbase(xdst as int, ydst as int);
        let ghost f = lut_pix::<O, Blend>(self.blender, color_lut@, src, cover);
        proof {
            self.lemma_hbase(xdst as int, ydst as int, len as int);
        }
        let rb = from.rbuf.get();
        let row = rb.row_offset(ysrc as u32);
        let _n: usize = self.byte_count();
        let p = self.base_or_zero(xdst, ydst, len);
        let mut i: u32 = 0;
        while i < len
            invariant
                i <= len,
                old(self).hrun_ok(xdst as int, ydst as int, len as int),
                span3_written(b0, self.bytes(), i as int, base, f),
                f == lut_pix::<O, Blend>(self.blender, color_lut@, src, cover),
                base == old(self).hbase(xdst as int, ydst as int),
                windows_ok(base, len as int, b0.len() as int),
                b0.len() <= usize::MAX,
                self.buf().wf(),
                self.buf().dims() == old(self).buf().dims(),
                self.blender == old(self).blender,
                forall|k: int| #[trigger] base(k) == p + 3 * k,
                *rb == from.buf(),
                row == rb.row_start(ysrc as int),
                row + len <= rb.bytes().len(),
                rb.bytes().len() <= usize::MAX,
                cover <= 255,
                src == row_bytes(from.buf(), ysrc as int, len as int),
                forall|k: int| 0 <= k < len ==> (#[trigger] src[k]) < color_lut@.len(),
                forall|k: int|
                    0 <= k < len ==> lut_pix_ok::<O, Blend>(
                        self.blender,
                        #[trigger] win(b0, base(k)),
                        color_lut@[src[k] as int],
                        cover,
                    ),
            decreases len - i,
        {
            proof {
                lemma_span3_step(b0, self.bytes(), i as int, len as int, base, f, f(i as int, win(b0, base(i as int))));
            }
            let v = rb.byte_at(row + i as usize);
            assert(v == src[i as int]);
            let c = color_lut[v as usize];
            let q = p + 3 * (i as usize);
            let mut w = self.read_win(q);
            if cover == 255 {
                self.blender.blend_pix(w.as_mut_slice(), c.r as u32, c.g as u32, c.b as u32, c.a as u32);
            } else {
                copy_or_blend_pix_cover::<O, Blend>(&mut w, &c, cover, &self.blender);
            }
            self.write_win(q, &w);
            i = i + 1;
        }
    }
}

pub type BlenderBgr24 = BlenderRgb<Rgba8, OrderBgr>;

pub type BlenderBgr24Pre = BlenderRgbPre<Rgba8, OrderBgr>;

} // verus!
