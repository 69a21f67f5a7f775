//! Blenders for pixels packed into 16 or 32 bits: RGB 5-5-5 and 5-6-5,
//! RGB and BGR with 10 bits per channel, and with 11-11-10 / 10-11-11 bits.
//! Each blends in one step without gamma, premultiplied, or through a gamma
//! table; the arithmetic of the plain and premultiplied blenders wraps
//! around on overflow.
use crate::color_rgba::{Rgba16, Rgba8};
use crate::{BlenderPacked, Equiv, Gamma};
use vstd::prelude::*;

verus! {

pub open spec fn wadd_spec(a: u32, b: u32) -> u32 {
    vstd::wrapping::u32_specs::wrapping_add(a, b)
}

pub open spec fn wsub_spec(a: u32, b: u32) -> u32 {
    vstd::wrapping::u32_specs::wrapping_sub(a, b)
}

pub open spec fn wmul_spec(a: u32, b: u32) -> u32 {
    vstd::wrapping::u32_specs::wrapping_mul(a, b)
}

pub(crate) fn wadd(a: u32, b: u32) -> (r: u32)
    ensures
        r == wadd_spec(a, b),
{
    a.wrapping_add(b)
}

pub(crate) fn wsub(a: u32, b: u32) -> (r: u32)
    ensures
        r == wsub_spec(a, b),
{
    a.wrapping_sub(b)
}

pub(crate) fn wmul(a: u32, b: u32) -> (r: u32)
    ensures
        r == wmul_spec(a, b),
{
    a.wrapping_mul(b)
}

/// One channel blended through a gamma table: the colour's corrected value
/// `dir(c)` is mixed with the pixel's corrected value by `alpha` out of
/// `2^shift`, then the correction is undone.
pub open spec fn gamma_channel<G: Gamma<u8, u8>>(
    g: G,
    c: u32,
    xs: u32,
    xa: u32,
    alpha: u32,
    shift: nat,
) -> u8 {
    g.inv_spec(
        (((g.dir_spec(c as u8) - xs) * alpha + xa * vstd::arithmetic::power2::pow2(shift))
            / vstd::arithmetic::power2::pow2(shift) as int) as u8,
    )
}

/// The gamma blend of one channel does not underflow or overflow.
pub open spec fn gamma_channel_ok<G: Gamma<u8, u8>>(
    g: G,
    c: u32,
    xs: u32,
    xa: u32,
    alpha: u32,
    shift: nat,
) -> bool {
    &&& g.dir_spec(c as u8) >= xs
    &&& (g.dir_spec(c as u8) - xs) * alpha + xa * vstd::arithmetic::power2::pow2(shift)
        <= u32::MAX
}

fn gamma_channel_exec<G: Gamma<u8, u8>>(
    g: &G,
    c: u32,
    xs: u32,
    xa: u32,
    alpha: u32,
    shift: u32,
) -> (r: u8)
    requires
        g.gamma_wf(),
        xa <= 255,
        shift == 8 || shift == 16,
        gamma_channel_ok(*g, c, xs, xa, alpha, shift as nat),
    ensures
        r == gamma_channel(*g, c, xs, xa, alpha, shift as nat),
{
    proof {
        vstd::arithmetic::power2::lemma2_to64();
        vstd::arithmetic::power2::lemma_pow2_pos(shift as nat);
        vstd::bits::lemma_u32_shl_is_mul(xa, shift);
    }
    let d = g.dir(c as u8) as u32;
    assert(0 <= (d - xs) * alpha) by (nonlinear_arith)
        requires
            d >= xs,
            alpha >= 0,
    ;
    let t = (d - xs) * alpha + (xa << shift);
    proof {
        vstd::bits::lemma_u32_shr_is_div(t, shift);
    }
    g.inv((t >> shift) as u8)
}


//=========================================================BlenderRgb555
/// The pixel of an opaque colour in the RGB 5-5-5 with the top bit set layout.
pub open spec fn rgb555_pix(r: u32, g: u32, b: u32) -> u16 {
    (((r & 0xF8u32) << 7u32) | ((g & 0xF8u32) << 2u32) | (b >> 3u32) | 0x8000u32) as u16
}

/// The colour of a pixel in the RGB 5-5-5 with the top bit set layout, alpha 255.
pub open spec fn rgb555_color(p: u16) -> Rgba8 {
    let p = p as u32;
    Rgba8 { r: ((p >> 7u32) & 0xF8u32) as u8, g: ((p >> 2u32) & 0xF8u32) as u8, b: ((p << 3u32) & 0xF8u32) as u8, a: 255 }
}

/// A pixel blended with colour `(cr, cg, cb)` by `alpha`, in wrapping
/// arithmetic.
pub open spec fn rgb555_blend(p: u16, cr: u32, cg: u32, cb: u32, alpha: u32) -> u16 {
    let rgb = p as u32;
    let r = (rgb >> 7u32) & 0xF8u32;
    let g = (rgb >> 2u32) & 0xF8u32;
    let b = (rgb << 3u32) & 0xF8u32;
    (((wadd_spec(wmul_spec(wsub_spec(cr, r), alpha), r << 8u32) >> 1u32) & 0x7C00u32) | ((wadd_spec(wmul_spec(wsub_spec(cg, g), alpha), g << 8u32) >> 6u32) & 0x03E0u32) | (wadd_spec(wmul_spec(wsub_spec(cb, b), alpha), b << 8u32) >> 11u32) | 0x8000u32) as u16
}

/// A premultiplied blend: the pixel keeps `255 - alpha` of itself and
/// gains `cover` of the colour.
pub open spec fn rgb555_blend_pre(p: u16, cr: u32, cg: u32, cb: u32, alpha: u32, cover: u32) -> u16 {
    let alpha = wsub_spec(255u32, alpha);
    let rgb = p as u32;
    let r = (rgb >> 7u32) & 0xF8u32;
    let g = (rgb >> 2u32) & 0xF8u32;
    let b = (rgb << 3u32) & 0xF8u32;
    (((wadd_spec(wmul_spec(r, alpha), wmul_spec(cr, cover)) >> 1u32) & 0x7C00u32) | ((wadd_spec(wmul_spec(g, alpha), wmul_spec(cg, cover)) >> 6u32) & 0x03E0u32) | (wadd_spec(wmul_spec(b, alpha), wmul_spec(cb, cover)) >> 11u32) | 0x8000u32) as u16
}

fn rgb555_make_pix(r: u32, g: u32, b: u32) -> (res: u16)
    ensures
        res == rgb555_pix(r, g, b),
{
    (((r & 0xF8u32) << 7u32) | ((g & 0xF8u32) << 2u32) | (b >> 3u32) | 0x8000u32) as u16
}

fn rgb555_make_color(p: u16) -> (c: Rgba8)
    ensures
        c == rgb555_color(p),
{
    let p = p as u32;
    Rgba8::new_params((p >> 7u32) & 0xF8u32, (p >> 2u32) & 0xF8u32, (p << 3u32) & 0xF8u32, 255)
}

pub struct BlenderRgb555;

impl BlenderPacked for BlenderRgb555 {
    type ColorType = Rgba8;
    type ValueType = u8;
    type PixelType = u16;

    open spec fn blend_ok(&self, p: u16, cr: u32, cg: u32, cb: u32, alpha: u32) -> bool {
        true
    }

    fn new() -> Self {
        BlenderRgb555
    }

    fn blend_pix(&self, p: &mut u16, cr: u32, cg: u32, cb: u32, alpha: u32)
        ensures
            *final(p) == rgb555_blend(*old(p), cr, cg, cb, alpha),
    {
        let rgb = *p as u32;
        let r = (rgb >> 7u32) & 0xF8u32;
        let g = (rgb >> 2u32) & 0xF8u32;
        let b = (rgb << 3u32) & 0xF8u32;
        *p = (((wadd(wmul(wsub(cr, r), alpha), r << 8u32) >> 1u32) & 0x7C00u32) | ((wadd(wmul(wsub(cg, g), alpha), g << 8u32) >> 6u32) & 0x03E0u32) | (wadd(wmul(wsub(cb, b), alpha), b << 8u32) >> 11u32) | 0x8000u32) as u16;
    }

    /// The coverage plays no part.
    fn blend_pix_with_cover(&self, p: &mut u16, cr: u32, cg: u32, cb: u32, alpha: u32, _cover: u32)
        ensures
            *final(p) == rgb555_blend(*old(p), cr, cg, cb, alpha),
    {
        self.blend_pix(p, cr, cg, cb, alpha);
    }

    fn make_pix(&self, r: u32, g: u32, b: u32) -> (res: u16)
        ensures
            res == rgb555_pix(r, g, b),
    {
        rgb555_make_pix(r, g, b)
    }

    fn make_color(&self, p: u16) -> (c: Rgba8)
        ensures
            c == rgb555_color(p),
    {
        rgb555_make_color(p)
    }
}

pub struct BlenderRgb555Pre;

impl BlenderPacked for BlenderRgb555Pre {
    type ColorType = Rgba8;
    type ValueType = u8;
    type PixelType = u16;

    open spec fn blend_ok(&self, p: u16, cr: u32, cg: u32, cb: u32, alpha: u32) -> bool {
        true
    }

    fn new() -> Self {
        BlenderRgb555Pre
    }

    fn blend_pix_with_cover(&self, p: &mut u16, cr: u32, cg: u32, cb: u32, alpha: u32, cover: u32)
        ensures
            *final(p) == rgb555_blend_pre(*old(p), cr, cg, cb, alpha, cover),
    {
        let alpha = wsub(255u32, alpha);
        let rgb = *p as u32;
        let r = (rgb >> 7u32) & 0xF8u32;
        let g = (rgb >> 2u32) & 0xF8u32;
        let b = (rgb << 3u32) & 0xF8u32;
        *p = (((wadd(wmul(r, alpha), wmul(cr, cover)) >> 1u32) & 0x7C00u32) | ((wadd(wmul(g, alpha), wmul(cg, cover)) >> 6u32) & 0x03E0u32) | (wadd(wmul(b, alpha), wmul(cb, cover)) >> 11u32) | 0x8000u32) as u16;
    }

    /// A premultiplied blend with coverage zero.
    fn blend_pix(&self, p: &mut u16, cr: u32, cg: u32, cb: u32, alpha: u32)
        ensures
            *final(p) == rgb555_blend_pre(*old(p), cr, cg, cb, alpha, 0),
    {
        self.blend_pix_with_cover(p, cr, cg, cb, alpha, 0)
    }

    fn make_pix(&self, r: u32, g: u32, b: u32) -> (res: u16)
        ensures
            res == rgb555_pix(r, g, b),
    {
        rgb555_make_pix(r, g, b)
    }

    fn make_color(&self, p: u16) -> (c: Rgba8)
        ensures
            c == rgb555_color(p),
    {
        rgb555_make_color(p)
    }
}


/// A pixel blended with colour `(cr, cg, cb)` by `alpha` through gamma `g`.
pub open spec fn rgb555_blend_gamma<G: Gamma<u8, u8>>(gm: G, p: u16, cr: u32, cg: u32, cb: u32, alpha: u32) -> u16 {
    let rgb = p as u32;
    let r = gm.dir_spec(((rgb >> 7u32) & 0xF8u32) as u8) as u32;
    let g = gm.dir_spec(((rgb >> 2u32) & 0xF8u32) as u8) as u32;
    let b = gm.dir_spec(((rgb << 3u32) & 0xF8u32) as u8) as u32;
    ((((gamma_channel(gm, cr, r, r, alpha, 8) as u32) << 7u32) & 0x7C00u32) | (((gamma_channel(gm, cg, g, g, alpha, 8) as u32) << 2u32) & 0x03E0u32) | ((gamma_channel(gm, cb, b, b, alpha, 8) as u32) >> 3u32) | 0x8000u32) as u16
}

/// The gamma blend of pixel `p` runs without overflow.
pub open spec fn rgb555_blend_gamma_ok<G: Gamma<u8, u8>>(gm: G, p: u16, cr: u32, cg: u32, cb: u32, alpha: u32) -> bool {
    let rgb = p as u32;
    let r = gm.dir_spec(((rgb >> 7u32) & 0xF8u32) as u8) as u32;
    let g = gm.dir_spec(((rgb >> 2u32) & 0xF8u32) as u8) as u32;
    let b = gm.dir_spec(((rgb << 3u32) & 0xF8u32) as u8) as u32;
    &&& gm.gamma_wf()
    &&& gamma_channel_ok(gm, cr, r, r, alpha, 8)
    &&& gamma_channel_ok(gm, cg, g, g, alpha, 8)
    &&& gamma_channel_ok(gm, cb, b, b, alpha, 8)
}

pub struct BlenderRgb555Gamma<'a, G: Gamma<u8, u8>> {
    gamma: Equiv<'a, G>,
}

impl<'a, G: Gamma<u8, u8>> BlenderRgb555Gamma<'a, G> {
    /// The gamma table in use, owned or borrowed.
    pub closed spec fn gamma_target(&self) -> G {
        self.gamma.target()
    }

    pub fn new_borrowed(gamma: &'a mut G) -> (r: Self)
        ensures
            r.gamma_target() == *old(gamma),
    {
        BlenderRgb555Gamma { gamma: Equiv::Brw(gamma) }
    }

    pub fn new_owned(gamma: G) -> (r: Self)
        ensures
            r.gamma_target() == gamma,
    {
        BlenderRgb555Gamma { gamma: Equiv::Own(gamma) }
    }

    pub fn set_gamma_borrowed(&mut self, g: &'a mut G)
        ensures
            final(self).gamma_target() == *old(g),
    {
        self.gamma = Equiv::Brw(g);
    }

    pub fn set_gamma_owned(&mut self, g: G)
        ensures
            final(self).gamma_target() == g,
    {
        self.gamma = Equiv::Own(g);
    }

    pub fn gamma_mut(&mut self) -> (r: &mut G)
        ensures
            *r == old(self).gamma_target(),
            final(self).gamma_target() == *final(r),
    {
        self.gamma.get_mut()
    }

    pub fn gamma(&self) -> (r: &G)
        ensures
            *r == self.gamma_target(),
    {
        self.gamma.get()
    }
}

impl<'a, G: Gamma<u8, u8>> BlenderPacked for BlenderRgb555Gamma<'a, G> {
    type ColorType = Rgba8;
    type ValueType = u8;
    type PixelType = u16;

    open spec fn blend_ok(&self, p: u16, cr: u32, cg: u32, cb: u32, alpha: u32) -> bool {
        rgb555_blend_gamma_ok(self.gamma_target(), p, cr, cg, cb, alpha)
    }

    /// A blender with a gamma table of its own.
    fn new() -> (r: Self)
        ensures
            r.gamma_target().gamma_wf(),
    {
        BlenderRgb555Gamma { gamma: Equiv::Own(G::new()) }
    }

    fn blend_pix(&self, p: &mut u16, cr: u32, cg: u32, cb: u32, alpha: u32)
        ensures
            *final(p) == rgb555_blend_gamma(self.gamma_target(), *old(p), cr, cg, cb, alpha),
    {
        let gm = self.gamma.get();
        let rgb = *p as u32;
        let r = gm.dir(((rgb >> 7u32) & 0xF8u32) as u8) as u32;
        let g = gm.dir(((rgb >> 2u32) & 0xF8u32) as u8) as u32;
        let b = gm.dir(((rgb << 3u32) & 0xF8u32) as u8) as u32;
        let ir = gamma_channel_exec(gm, cr, r, r, alpha, 8);
        let ig = gamma_channel_exec(gm, cg, g, g, alpha, 8);
        let ib = gamma_channel_exec(gm, cb, b, b, alpha, 8);
        *p = ((((ir as u32) << 7u32) & 0x7C00u32) | (((ig as u32) << 2u32) & 0x03E0u32) | ((ib as u32) >> 3u32) | 0x8000u32) as u16;
    }

    /// The coverage plays no part.
    fn blend_pix_with_cover(&self, p: &mut u16, cr: u32, cg: u32, cb: u32, alpha: u32, _cover: u32)
        ensures
            *final(p) == rgb555_blend_gamma(self.gamma_target(), *old(p), cr, cg, cb, alpha),
    {
        self.blend_pix(p, cr, cg, cb, alpha);
    }

    fn make_pix(&self, r: u32, g: u32, b: u32) -> (res: u16)
        ensures
            res == rgb555_pix(r, g, b),
    {
        (((r & 0xF8u32) << 7u32) | ((g & 0xF8u32) << 2u32) | (b >> 3u32) | 0x8000u32) as u16
    }

    fn make_color(&self, p: u16) -> (c: Rgba8)
        ensures
            c == rgb555_color(p),
    {
        rgb555_make_color(p)
    }
}


//=========================================================BlenderRgb565
/// The pixel of an opaque colour in the RGB 5-6-5 layout.
pub open spec fn rgb565_pix(r: u32, g: u32, b: u32) -> u16 {
    (((r & 0xF8u32) << 8u32) | ((g & 0xFCu32) << 3u32) | (b >> 3u32)) as u16
}

/// The colour of a pixel in the RGB 5-6-5 layout, alpha 255.
pub open spec fn rgb565_color(p: u16) -> Rgba8 {
    let p = p as u32;
    Rgba8 { r: ((p >> 8u32) & 0xF8u32) as u8, g: ((p >> 3u32) & 0xFCu32) as u8, b: ((p << 3u32) & 0xF8u32) as u8, a: 255 }
}

/// A pixel blended with colour `(cr, cg, cb)` by `alpha`, in wrapping
/// arithmetic.
pub open spec fn rgb565_blend(p: u16, cr: u32, cg: u32, cb: u32, alpha: u32) -> u16 {
    let rgb = p as u32;
    let r = (rgb >> 8u32) & 0xF8u32;
    let g = (rgb >> 3u32) & 0xFCu32;
    let b = (rgb << 3u32) & 0xF8u32;
    ((wadd_spec(wmul_spec(wsub_spec(cr, r), alpha), r << 8u32) & 0xF800u32) | ((wadd_spec(wmul_spec(wsub_spec(cg, g), alpha), g << 8u32) >> 5u32) & 0x07E0u32) | (wadd_spec(wmul_spec(wsub_spec(cb, b), alpha), b << 8u32) >> 11u32)) as u16
}

/// A premultiplied blend: the pixel keeps `255 - alpha` of itself and
/// gains `cover` of the colour.
pub open spec fn rgb565_blend_pre(p: u16, cr: u32, cg: u32, cb: u32, alpha: u32, cover: u32) -> u16 {
    let alpha = wsub_spec(255u32, alpha);
    let rgb = p as u32;
    let r = (rgb >> 8u32) & 0xF8u32;
    let g = (rgb >> 3u32) & 0xFCu32;
    let b = (rgb << 3u32) & 0xF8u32;
    (((wadd_spec(wmul_spec(r, alpha), wmul_spec(cr, cover)) >> 1u32) & 0xF800u32) | ((wadd_spec(wmul_spec(g, alpha), wmul_spec(cg, cover)) >> 5u32) & 0x07E0u32) | (wadd_spec(wmul_spec(b, alpha), wmul_spec(cb, cover)) >> 11u32)) as u16
}

fn rgb565_make_pix(r: u32, g: u32, b: u32) -> (res: u16)
    ensures
        res == rgb565_pix(r, g, b),
{
    (((r & 0xF8u32) << 8u32) | ((g & 0xFCu32) << 3u32) | (b >> 3u32)) as u16
}

fn rgb565_make_color(p: u16) -> (c: Rgba8)
    ensures
        c == rgb565_color(p),
{
    let p = p as u32;
    Rgba8::new_params((p >> 8u32) & 0xF8u32, (p >> 3u32) & 0xFCu32, (p << 3u32) & 0xF8u32, 255)
}

pub struct BlenderRgb565;

impl BlenderPacked for BlenderRgb565 {
    type ColorType = Rgba8;
    type ValueType = u8;
    type PixelType = u16;

    open spec fn blend_ok(&self, p: u16, cr: u32, cg: u32, cb: u32, alpha: u32) -> bool {
        true
    }

    fn new() -> Self {
        BlenderRgb565
    }

    fn blend_pix(&self, p: &mut u16, cr: u32, cg: u32, cb: u32, alpha: u32)
        ensures
            *final(p) == rgb565_blend(*old(p), cr, cg, cb, alpha),
    {
        let rgb = *p as u32;
        let r = (rgb >> 8u32) & 0xF8u32;
        let g = (rgb >> 3u32) & 0xFCu32;
        let b = (rgb << 3u32) & 0xF8u32;
        *p = ((wadd(wmul(wsub(cr, r), alpha), r << 8u32) & 0xF800u32) | ((wadd(wmul(wsub(cg, g), alpha), g << 8u32) >> 5u32) & 0x07E0u32) | (wadd(wmul(wsub(cb, b), alpha), b << 8u32) >> 11u32)) as u16;
    }

    /// The coverage plays no part.
    fn blend_pix_with_cover(&self, p: &mut u16, cr: u32, cg: u32, cb: u32, alpha: u32, _cover: u32)
        ensures
            *final(p) == rgb565_blend(*old(p), cr, cg, cb, alpha),
    {
        self.blend_pix(p, cr, cg, cb, alpha);
    }

    fn make_pix(&self, r: u32, g: u32, b: u32) -> (res: u16)
        ensures
            res == rgb565_pix(r, g, b),
    {
        rgb565_make_pix(r, g, b)
    }

    fn make_color(&self, p: u16) -> (c: Rgba8)
        ensures
            c == rgb565_color(p),
    {
        rgb565_make_color(p)
    }
}

pub struct BlenderRgb565Pre;

impl BlenderPacked for BlenderRgb565Pre {
    type ColorType = Rgba8;
    type ValueType = u8;
    type PixelType = u16;

    open spec fn blend_ok(&self, p: u16, cr: u32, cg: u32, cb: u32, alpha: u32) -> bool {
        true
    }

    fn new() -> Self {
        BlenderRgb565Pre
    }

    fn blend_pix_with_cover(&self, p: &mut u16, cr: u32, cg: u32, cb: u32, alpha: u32, cover: u32)
        ensures
            *final(p) == rgb565_blend_pre(*old(p), cr, cg, cb, alpha, cover),
    {
        let alpha = wsub(255u32, alpha);
        let rgb = *p as u32;
        let r = (rgb >> 8u32) & 0xF8u32;
        let g = (rgb >> 3u32) & 0xFCu32;
        let b = (rgb << 3u32) & 0xF8u32;
        *p = (((wadd(wmul(r, alpha), wmul(cr, cover)) >> 1u32) & 0xF800u32) | ((wadd(wmul(g, alpha), wmul(cg, cover)) >> 5u32) & 0x07E0u32) | (wadd(wmul(b, alpha), wmul(cb, cover)) >> 11u32)) as u16;
    }

    /// A premultiplied blend with coverage zero.
    fn blend_pix(&self, p: &mut u16, cr: u32, cg: u32, cb: u32, alpha: u32)
        ensures
            *final(p) == rgb565_blend_pre(*old(p), cr, cg, cb, alpha, 0),
    {
        self.blend_pix_with_cover(p, cr, cg, cb, alpha, 0)
    }

    fn make_pix(&self, r: u32, g: u32, b: u32) -> (res: u16)
        ensures
            res == rgb565_pix(r, g, b),
    {
        rgb565_make_pix(r, g, b)
    }

    fn make_color(&self, p: u16) -> (c: Rgba8)
        ensures
            c == rgb565_color(p),
    {
        rgb565_make_color(p)
    }
}


/// A pixel blended with colour `(cr, cg, cb)` by `alpha` through gamma `g`.
pub open spec fn rgb565_blend_gamma<G: Gamma<u8, u8>>(gm: G, p: u16, cr: u32, cg: u32, cb: u32, alpha: u32) -> u16 {
    let rgb = p as u32;
    let r = gm.dir_spec(((rgb >> 8u32) & 0xF8u32) as u8) as u32;
    let g = gm.dir_spec(((rgb >> 3u32) & 0xFCu32) as u8) as u32;
    let b = gm.dir_spec(((rgb << 3u32) & 0xF8u32) as u8) as u32;
    ((((gamma_channel(gm, cr, r, r, alpha, 8) as u32) << 8u32) & 0xF800u32) | (((gamma_channel(gm, cg, g, g, alpha, 8) as u32) << 3u32) & 0x07E0u32) | ((gamma_channel(gm, cb, b, b, alpha, 8) as u32) >> 3u32)) as u16
}

/// The gamma blend of pixel `p` runs without overflow.
pub open spec fn rgb565_blend_gamma_ok<G: Gamma<u8, u8>>(gm: G, p: u16, cr: u32, cg: u32, cb: u32, alpha: u32) -> bool {
    let rgb = p as u32;
    let r = gm.dir_spec(((rgb >> 8u32) & 0xF8u32) as u8) as u32;
    let g = gm.dir_spec(((rgb >> 3u32) & 0xFCu32) as u8) as u32;
    let b = gm.dir_spec(((rgb << 3u32) & 0xF8u32) as u8) as u32;
    &&& gm.gamma_wf()
    &&& gamma_channel_ok(gm, cr, r, r, alpha, 8)
    &&& gamma_channel_ok(gm, cg, g, g, alpha, 8)
    &&& gamma_channel_ok(gm, cb, b, b, alpha, 8)
}

pub struct BlenderRgb565Gamma<'a, G: Gamma<u8, u8>> {
    gamma: Equiv<'a, G>,
}

impl<'a, G: Gamma<u8, u8>> BlenderRgb565Gamma<'a, G> {
    /// The gamma table in use, owned or borrowed.
    pub closed spec fn gamma_target(&self) -> G {
        self.gamma.target()
    }

    pub fn new_borrowed(gamma: &'a mut G) -> (r: Self)
        ensures
            r.gamma_target() == *old(gamma),
    {
        BlenderRgb565Gamma { gamma: Equiv::Brw(gamma) }
    }

    pub fn new_owned(gamma: G) -> (r: Self)
        ensures
            r.gamma_target() == gamma,
    {
        BlenderRgb565Gamma { gamma: Equiv::Own(gamma) }
    }

    pub fn set_gamma_borrowed(&mut self, g: &'a mut G)
        ensures
            final(self).gamma_target() == *old(g),
    {
        self.gamma = Equiv::Brw(g);
    }

    pub fn set_gamma_owned(&mut self, g: G)
        ensures
            final(self).gamma_target() == g,
    {
        self.gamma = Equiv::Own(g);
    }

    pub fn gamma_mut(&mut self) -> (r: &mut G)
        ensures
            *r == old(self).gamma_target(),
            final(self).gamma_target() == *final(r),
    {
        self.gamma.get_mut()
    }

    pub fn gamma(&self) -> (r: &G)
        ensures
            *r == self.gamma_target(),
    {
        self.gamma.get()
    }
}

impl<'a, G: Gamma<u8, u8>> BlenderPacked for BlenderRgb565Gamma<'a, G> {
    type ColorType = Rgba8;
    type ValueType = u8;
    type PixelType = u16;

    open spec fn blend_ok(&self, p: u16, cr: u32, cg: u32, cb: u32, alpha: u32) -> bool {
        rgb565_blend_gamma_ok(self.gamma_target(), p, cr, cg, cb, alpha)
    }

    /// A blender with a gamma table of its own.
    fn new() -> (r: Self)
        ensures
            r.gamma_target().gamma_wf(),
    {
        BlenderRgb565Gamma { gamma: Equiv::Own(G::new()) }
    }

    fn blend_pix(&self, p: &mut u16, cr: u32, cg: u32, cb: u32, alpha: u32)
        ensures
            *final(p) == rgb565_blend_gamma(self.gamma_target(), *old(p), cr, cg, cb, alpha),
    {
        let gm = self.gamma.get();
        let rgb = *p as u32;
        let r = gm.dir(((rgb >> 8u32) & 0xF8u32) as u8) as u32;
        let g = gm.dir(((rgb >> 3u32) & 0xFCu32) as u8) as u32;
        let b = gm.dir(((rgb << 3u32) & 0xF8u32) as u8) as u32;
        let ir = gamma_channel_exec(gm, cr, r, r, alpha, 8);
        let ig = gamma_channel_exec(gm, cg, g, g, alpha, 8);
        let ib = gamma_channel_exec(gm, cb, b, b, alpha, 8);
        *p = ((((ir as u32) << 8u32) & 0xF800u32) | (((ig as u32) << 3u32) & 0x07E0u32) | ((ib as u32) >> 3u32)) as u16;
    }

    /// The coverage plays no part.
    fn blend_pix_with_cover(&self, p: &mut u16, cr: u32, cg: u32, cb: u32, alpha: u32, _cover: u32)
        ensures
            *final(p) == rgb565_blend_gamma(self.gamma_target(), *old(p), cr, cg, cb, alpha),
    {
        self.blend_pix(p, cr, cg, cb, alpha);
    }

    fn make_pix(&self, r: u32, g: u32, b: u32) -> (res: u16)
        ensures
            res == rgb565_pix(r, g, b),
    {
        (((r & 0xF8u32) << 8u32) | ((g & 0xFCu32) << 3u32) | (b >> 3u32)) as u16
    }

    fn make_color(&self, p: u16) -> (c: Rgba8)
        ensures
            c == rgb565_color(p),
    {
        rgb565_make_color(p)
    }
}


//=========================================================BlenderRgbAAA
/// The pixel of an opaque colour in the RGB with 10 bits per channel and the top two bits set layout.
pub open spec fn rgb_aaa_pix(r: u32, g: u32, b: u32) -> u32 {
    (((r & 0xFFC0u32) << 14u32) | ((g & 0xFFC0u32) << 4u32) | (b >> 6u32) | 0xC0000000u32) as u32
}

/// The colour of a pixel in the RGB with 10 bits per channel and the top two bits set layout, alpha 255.
pub open spec fn rgb_aaa_color(p: u32) -> Rgba16 {
    let p = p as u32;
    Rgba16 { r: ((p >> 14u32) & 0xFFC0u32) as u16, g: ((p >> 4u32) & 0xFFC0u32) as u16, b: ((p << 6u32) & 0xFFC0u32) as u16, a: 255 }
}

/// A pixel blended with colour `(cr, cg, cb)` by `alpha`, in wrapping
/// arithmetic.
pub open spec fn rgb_aaa_blend(p: u32, cr: u32, cg: u32, cb: u32, alpha: u32) -> u32 {
    let rgb = p as u32;
    let r = (rgb >> 14u32) & 0xFFC0u32;
    let g = (rgb >> 4u32) & 0xFFC0u32;
    let b = (rgb << 6u32) & 0xFFC0u32;
    (((wadd_spec(wmul_spec(wsub_spec(cr, r), alpha), r << 16u32) >> 2u32) & 0x3FF00000u32) | ((wadd_spec(wmul_spec(wsub_spec(cg, g), alpha), g << 16u32) >> 12u32) & 0x000FFC00u32) | (wadd_spec(wmul_spec(wsub_spec(cb, b), alpha), b << 16u32) >> 22u32) | 0xC0000000u32) as u32
}

/// A premultiplied blend: the pixel keeps `0xFFFF - alpha` of itself and
/// gains `cover` of the colour.
pub open spec fn rgb_aaa_blend_pre(p: u32, cr: u32, cg: u32, cb: u32, alpha: u32, cover: u32) -> u32 {
    let alpha = wsub_spec(0xFFFFu32, alpha);
    let cover = wadd_spec(cover, 1u32) << 8u32;
    let rgb = p as u32;
    let r = (rgb >> 14u32) & 0xFFC0u32;
    let g = (rgb >> 4u32) & 0xFFC0u32;
    let b = (rgb << 6u32) & 0xFFC0u32;
    (((wadd_spec(wmul_spec(r, alpha), wmul_spec(cr, cover)) >> 2u32) & 0x3FF00000u32) | ((wadd_spec(wmul_spec(g, alpha), wmul_spec(cg, cover)) >> 12u32) & 0x000FFC00u32) | (wadd_spec(wmul_spec(b, alpha), wmul_spec(cb, cover)) >> 22u32) | 0xC0000000u32) as u32
}

fn rgb_aaa_make_pix(r: u32, g: u32, b: u32) -> (res: u32)
    ensures
        res == rgb_aaa_pix(r, g, b),
{
    (((r & 0xFFC0u32) << 14u32) | ((g & 0xFFC0u32) << 4u32) | (b >> 6u32) | 0xC0000000u32) as u32
}

fn rgb_aaa_make_color(p: u32) -> (c: Rgba16)
    ensures
        c == rgb_aaa_color(p),
{
    let p = p as u32;
    Rgba16::new_params((p >> 14u32) & 0xFFC0u32, (p >> 4u32) & 0xFFC0u32, (p << 6u32) & 0xFFC0u32, 255)
}

pub struct BlenderRgbAAA;

impl BlenderPacked for BlenderRgbAAA {
    type ColorType = Rgba16;
    type ValueType = u16;
    type PixelType = u32;

    open spec fn blend_ok(&self, p: u32, cr: u32, cg: u32, cb: u32, alpha: u32) -> bool {
        true
    }

    fn new() -> Self {
        BlenderRgbAAA
    }

    fn blend_pix(&self, p: &mut u32, cr: u32, cg: u32, cb: u32, alpha: u32)
        ensures
            *final(p) == rgb_aaa_blend(*old(p), cr, cg, cb, alpha),
    {
        let rgb = *p as u32;
        let r = (rgb >> 14u32) & 0xFFC0u32;
        let g = (rgb >> 4u32) & 0xFFC0u32;
        let b = (rgb << 6u32) & 0xFFC0u32;
        *p = (((wadd(wmul(wsub(cr, r), alpha), r << 16u32) >> 2u32) & 0x3FF00000u32) | ((wadd(wmul(wsub(cg, g), alpha), g << 16u32) >> 12u32) & 0x000FFC00u32) | (wadd(wmul(wsub(cb, b), alpha), b << 16u32) >> 22u32) | 0xC0000000u32) as u32;
    }

    /// The coverage plays no part.
    fn blend_pix_with_cover(&self, p: &mut u32, cr: u32, cg: u32, cb: u32, alpha: u32, _cover: u32)
        ensures
            *final(p) == rgb_aaa_blend(*old(p), cr, cg, cb, alpha),
    {
        self.blend_pix(p, cr, cg, cb, alpha);
    }

    fn make_pix(&self, r: u32, g: u32, b: u32) -> (res: u32)
        ensures
            res == rgb_aaa_pix(r, g, b),
    {
        rgb_aaa_make_pix(r, g, b)
    }

    fn make_color(&self, p: u32) -> (c: Rgba16)
        ensures
            c == rgb_aaa_color(p),
    {
        rgb_aaa_make_color(p)
    }
}

pub struct BlenderRgbAAAPre;

impl BlenderPacked for BlenderRgbAAAPre {
    type ColorType = Rgba16;
    type ValueType = u16;
    type PixelType = u32;

    open spec fn blend_ok(&self, p: u32, cr: u32, cg: u32, cb: u32, alpha: u32) -> bool {
        true
    }

    fn new() -> Self {
        BlenderRgbAAAPre
    }

    fn blend_pix_with_cover(&self, p: &mut u32, cr: u32, cg: u32, cb: u32, alpha: u32, cover: u32)
        ensures
            *final(p) == rgb_aaa_blend_pre(*old(p), cr, cg, cb, alpha, cover),
    {
        let alpha = wsub(0xFFFFu32, alpha);
        let cover = wadd(cover, 1u32) << 8u32;
        let rgb = *p as u32;
        let r = (rgb >> 14u32) & 0xFFC0u32;
        let g = (rgb >> 4u32) & 0xFFC0u32;
        let b = (rgb << 6u32) & 0xFFC0u32;
        *p = (((wadd(wmul(r, alpha), wmul(cr, cover)) >> 2u32) & 0x3FF00000u32) | ((wadd(wmul(g, alpha), wmul(cg, cover)) >> 12u32) & 0x000FFC00u32) | (wadd(wmul(b, alpha), wmul(cb, cover)) >> 22u32) | 0xC0000000u32) as u32;
    }

    /// A premultiplied blend with coverage zero.
    fn blend_pix(&self, p: &mut u32, cr: u32, cg: u32, cb: u32, alpha: u32)
        ensures
            *final(p) == rgb_aaa_blend_pre(*old(p), cr, cg, cb, alpha, 0),
    {
        self.blend_pix_with_cover(p, cr, cg, cb, alpha, 0)
    }

    fn make_pix(&self, r: u32, g: u32, b: u32) -> (res: u32)
        ensures
            res == rgb_aaa_pix(r, g, b),
    {
        rgb_aaa_make_pix(r, g, b)
    }

    fn make_color(&self, p: u32) -> (c: Rgba16)
        ensures
            c == rgb_aaa_color(p),
    {
        rgb_aaa_make_color(p)
    }
}


/// A pixel blended with colour `(cr, cg, cb)` by `alpha` through gamma `g`.
pub open spec fn rgb_aaa_blend_gamma<G: Gamma<u8, u8>>(gm: G, p: u32, cr: u32, cg: u32, cb: u32, alpha: u32) -> u32 {
    let rgb = p as u32;
    let r = gm.dir_spec(((rgb >> 14u32) & 0xFFC0u32) as u8) as u32;
    let g = gm.dir_spec(((rgb >> 4u32) & 0xFFC0u32) as u8) as u32;
    let b = gm.dir_spec(((rgb << 6u32) & 0xFFC0u32) as u8) as u32;
    ((((gamma_channel(gm, cr, r, r, alpha, 16) as u32) << 14u32) & 0x3FF00000u32) | (((gamma_channel(gm, cg, g, g, alpha, 16) as u32) << 4u32) & 0x000FFC00u32) | ((gamma_channel(gm, cb, b, b, alpha, 16) as u32) >> 6u32) | 0xC0000000u32) as u32
}

/// The gamma blend of pixel `p` runs without overflow.
pub open spec fn rgb_aaa_blend_gamma_ok<G: Gamma<u8, u8>>(gm: G, p: u32, cr: u32, cg: u32, cb: u32, alpha: u32) -> bool {
    let rgb = p as u32;
    let r = gm.dir_spec(((rgb >> 14u32) & 0xFFC0u32) as u8) as u32;
    let g = gm.dir_spec(((rgb >> 4u32) & 0xFFC0u32) as u8) as u32;
    let b = gm.dir_spec(((rgb << 6u32) & 0xFFC0u32) as u8) as u32;
    &&& gm.gamma_wf()
    &&& gamma_channel_ok(gm, cr, r, r, alpha, 16)
    &&& gamma_channel_ok(gm, cg, g, g, alpha, 16)
    &&& gamma_channel_ok(gm, cb, b, b, alpha, 16)
}

pub struct BlenderRgbAAAGamma<'a, G: Gamma<u8, u8>> {
    gamma: Equiv<'a, G>,
}

impl<'a, G: Gamma<u8, u8>> BlenderRgbAAAGamma<'a, G> {
    /// The gamma table in use, owned or borrowed.
    pub closed spec fn gamma_target(&self) -> G {
        self.gamma.target()
    }

    pub fn new_borrowed(gamma: &'a mut G) -> (r: Self)
        ensures
            r.gamma_target() == *old(gamma),
    {
        BlenderRgbAAAGamma { gamma: Equiv::Brw(gamma) }
    }

    pub fn new_owned(gamma: G) -> (r: Self)
        ensures
            r.gamma_target() == gamma,
    {
        BlenderRgbAAAGamma { gamma: Equiv::Own(gamma) }
    }

    pub fn set_gamma_borrowed(&mut self, g: &'a mut G)
        ensures
            final(self).gamma_target() == *old(g),
    {
        self.gamma = Equiv::Brw(g);
    }

    pub fn set_gamma_owned(&mut self, g: G)
        ensures
            final(self).gamma_target() == g,
    {
        self.gamma = Equiv::Own(g);
    }

    pub fn gamma_mut(&mut self) -> (r: &mut G)
        ensures
            *r == old(self).gamma_target(),
            final(self).gamma_target() == *final(r),
    {
        self.gamma.get_mut()
    }

    pub fn gamma(&self) -> (r: &G)
        ensures
            *r == self.gamma_target(),
    {
        self.gamma.get()
    }
}

impl<'a, G: Gamma<u8, u8>> BlenderPacked for BlenderRgbAAAGamma<'a, G> {
    type ColorType = Rgba16;
    type ValueType = u16;
    type PixelType = u32;

    open spec fn blend_ok(&self, p: u32, cr: u32, cg: u32, cb: u32, alpha: u32) -> bool {
        rgb_aaa_blend_gamma_ok(self.gamma_target(), p, cr, cg, cb, alpha)
    }

    /// A blender with a gamma table of its own.
    fn new() -> (r: Self)
        ensures
            r.gamma_target().gamma_wf(),
    {
        BlenderRgbAAAGamma { gamma: Equiv::Own(G::new()) }
    }

    fn blend_pix(&self, p: &mut u32, cr: u32, cg: u32, cb: u32, alpha: u32)
        ensures
            *final(p) == rgb_aaa_blend_gamma(self.gamma_target(), *old(p), cr, cg, cb, alpha),
    {
        let gm = self.gamma.get();
        let rgb = *p as u32;
        let r = gm.dir(((rgb >> 14u32) & 0xFFC0u32) as u8) as u32;
        let g = gm.dir(((rgb >> 4u32) & 0xFFC0u32) as u8) as u32;
        let b = gm.dir(((rgb << 6u32) & 0xFFC0u32) as u8) as u32;
        let ir = gamma_channel_exec(gm, cr, r, r, alpha, 16);
        let ig = gamma_channel_exec(gm, cg, g, g, alpha, 16);
        let ib = gamma_channel_exec(gm, cb, b, b, alpha, 16);
        *p = ((((ir as u32) << 14u32) & 0x3FF00000u32) | (((ig as u32) << 4u32) & 0x000FFC00u32) | ((ib as u32) >> 6u32) | 0xC0000000u32) as u32;
    }

    /// The coverage plays no part.
    fn blend_pix_with_cover(&self, p: &mut u32, cr: u32, cg: u32, cb: u32, alpha: u32, _cover: u32)
        ensures
            *final(p) == rgb_aaa_blend_gamma(self.gamma_target(), *old(p), cr, cg, cb, alpha),
    {
        self.blend_pix(p, cr, cg, cb, alpha);
    }

    fn make_pix(&self, r: u32, g: u32, b: u32) -> (res: u32)
        ensures
            res == rgb_aaa_pix(r, g, b),
    {
        (((r & 0xFFC0u32) << 14u32) | ((g & 0xFFC0u32) << 4u32) | (b >> 6u32) | 0xC0000000u32) as u32
    }

    fn make_color(&self, p: u32) -> (c: Rgba16)
        ensures
            c == rgb_aaa_color(p),
    {
        rgb_aaa_make_color(p)
    }
}


//=========================================================BlenderBgrAAA
/// The pixel of an opaque colour in the BGR with 10 bits per channel and the top two bits set layout.
pub open spec fn bgr_aaa_pix(r: u32, g: u32, b: u32) -> u32 {
    (((b & 0xFFC0u32) << 14u32) | ((g & 0xFFC0u32) << 4u32) | (r >> 6u32) | 0xC0000000u32) as u32
}

/// The colour of a pixel in the BGR with 10 bits per channel and the top two bits set layout, alpha 255.
pub open spec fn bgr_aaa_color(p: u32) -> Rgba16 {
    let p = p as u32;
    Rgba16 { r: ((p << 6u32) & 0xFFC0u32) as u16, g: ((p >> 4u32) & 0xFFC0u32) as u16, b: ((p >> 14u32) & 0xFFC0u32) as u16, a: 255 }
}

/// A pixel blended with colour `(cr, cg, cb)` by `alpha`, in wrapping
/// arithmetic.
pub open spec fn bgr_aaa_blend(p: u32, cr: u32, cg: u32, cb: u32, alpha: u32) -> u32 {
    let rgb = p as u32;
    let b = (rgb >> 14u32) & 0xFFC0u32;
    let g = (rgb >> 4u32) & 0xFFC0u32;
    let r = (rgb << 6u32) & 0xFFC0u32;
    (((wadd_spec(wmul_spec(wsub_spec(cb, b), alpha), b << 16u32) >> 2u32) & 0x3FF00000u32) | ((wadd_spec(wmul_spec(wsub_spec(cg, g), alpha), g << 16u32) >> 12u32) & 0x000FFC00u32) | (wadd_spec(wmul_spec(wsub_spec(cr, r), alpha), r << 16u32) >> 22u32) | 0xC0000000u32) as u32
}

/// A premultiplied blend: the pixel keeps `0xFFFF - alpha` of itself and
/// gains `cover` of the colour.
pub open spec fn bgr_aaa_blend_pre(p: u32, cr: u32, cg: u32, cb: u32, alpha: u32, cover: u32) -> u32 {
    let alpha = wsub_spec(0xFFFFu32, alpha);
    let cover = wadd_spec(cover, 1u32) << 8u32;
    let rgb = p as u32;
    let b = (rgb >> 14u32) & 0xFFC0u32;
    let g = (rgb >> 4u32) & 0xFFC0u32;
    let r = (rgb << 6u32) & 0xFFC0u32;
    (((wadd_spec(wmul_spec(b, alpha), wmul_spec(cr, cover)) >> 2u32) & 0x3FF00000u32) | ((wadd_spec(wmul_spec(g, alpha), wmul_spec(cg, cover)) >> 12u32) & 0x000FFC00u32) | (wadd_spec(wmul_spec(r, alpha), wmul_spec(cb, cover)) >> 22u32) | 0xC0000000u32) as u32
}

fn bgr_aaa_make_pix(r: u32, g: u32, b: u32) -> (res: u32)
    ensures
        res == bgr_aaa_pix(r, g, b),
{
    (((b & 0xFFC0u32) << 14u32) | ((g & 0xFFC0u32) << 4u32) | (r >> 6u32) | 0xC0000000u32) as u32
}

fn bgr_aaa_make_color(p: u32) -> (c: Rgba16)
    ensures
        c == bgr_aaa_color(p),
{
    let p = p as u32;
    Rgba16::new_params((p << 6u32) & 0xFFC0u32, (p >> 4u32) & 0xFFC0u32, (p >> 14u32) & 0xFFC0u32, 255)
}

pub struct BlenderBgrAAA;

impl BlenderPacked for BlenderBgrAAA {
    type ColorType = Rgba16;
    type ValueType = u16;
    type PixelType = u32;

    open spec fn blend_ok(&self, p: u32, cr: u32, cg: u32, cb: u32, alpha: u32) -> bool {
        true
    }

    fn new() -> Self {
        BlenderBgrAAA
    }

    fn blend_pix(&self, p: &mut u32, cr: u32, cg: u32, cb: u32, alpha: u32)
        ensures
            *final(p) == bgr_aaa_blend(*old(p), cr, cg, cb, alpha),
    {
        let rgb = *p as u32;
        let b = (rgb >> 14u32) & 0xFFC0u32;
        let g = (rgb >> 4u32) & 0xFFC0u32;
        let r = (rgb << 6u32) & 0xFFC0u32;
        *p = (((wadd(wmul(wsub(cb, b), alpha), b << 16u32) >> 2u32) & 0x3FF00000u32) | ((wadd(wmul(wsub(cg, g), alpha), g << 16u32) >> 12u32) & 0x000FFC00u32) | (wadd(wmul(wsub(cr, r), alpha), r << 16u32) >> 22u32) | 0xC0000000u32) as u32;
    }

    /// The coverage plays no part.
    fn blend_pix_with_cover(&self, p: &mut u32, cr: u32, cg: u32, cb: u32, alpha: u32, _cover: u32)
        ensures
            *final(p) == bgr_aaa_blend(*old(p), cr, cg, cb, alpha),
    {
        self.blend_pix(p, cr, cg, cb, alpha);
    }

    fn make_pix(&self, r: u32, g: u32, b: u32) -> (res: u32)
        ensures
            res == bgr_aaa_pix(r, g, b),
    {
        bgr_aaa_make_pix(r, g, b)
    }

    fn make_color(&self, p: u32) -> (c: Rgba16)
        ensures
            c == bgr_aaa_color(p),
    {
        bgr_aaa_make_color(p)
    }
}

pub struct BlenderBgrAAAPre;

impl BlenderPacked for BlenderBgrAAAPre {
    type ColorType = Rgba16;
    type ValueType = u16;
    type PixelType = u32;

    open spec fn blend_ok(&self, p: u32, cr: u32, cg: u32, cb: u32, alpha: u32) -> bool {
        true
    }

    fn new() -> Self {
        BlenderBgrAAAPre
    }

    fn blend_pix_with_cover(&self, p: &mut u32, cr: u32, cg: u32, cb: u32, alpha: u32, cover: u32)
        ensures
            *final(p) == bgr_aaa_blend_pre(*old(p), cr, cg, cb, alpha, cover),
    {
        let alpha = wsub(0xFFFFu32, alpha);
        let cover = wadd(cover, 1u32) << 8u32;
        let rgb = *p as u32;
        let b = (rgb >> 14u32) & 0xFFC0u32;
        let g = (rgb >> 4u32) & 0xFFC0u32;
        let r = (rgb << 6u32) & 0xFFC0u32;
        *p = (((wadd(wmul(b, alpha), wmul(cr, cover)) >> 2u32) & 0x3FF00000u32) | ((wadd(wmul(g, alpha), wmul(cg, cover)) >> 12u32) & 0x000FFC00u32) | (wadd(wmul(r, alpha), wmul(cb, cover)) >> 22u32) | 0xC0000000u32) as u32;
    }

    /// A premultiplied blend with coverage zero.
    fn blend_pix(&self, p: &mut u32, cr: u32, cg: u32, cb: u32, alpha: u32)
        ensures
            *final(p) == bgr_aaa_blend_pre(*old(p), cr, cg, cb, alpha, 0),
    {
        self.blend_pix_with_cover(p, cr, cg, cb, alpha, 0)
    }

    fn make_pix(&self, r: u32, g: u32, b: u32) -> (res: u32)
        ensures
            res == bgr_aaa_pix(r, g, b),
    {
        bgr_aaa_make_pix(r, g, b)
    }

    fn make_color(&self, p: u32) -> (c: Rgba16)
        ensures
            c == bgr_aaa_color(p),
    {
        bgr_aaa_make_color(p)
    }
}


/// A pixel blended with colour `(cr, cg, cb)` by `alpha` through gamma `g`.
pub open spec fn bgr_aaa_blend_gamma<G: Gamma<u8, u8>>(gm: G, p: u32, cr: u32, cg: u32, cb: u32, alpha: u32) -> u32 {
    let rgb = p as u32;
    let b = gm.dir_spec(((rgb >> 14u32) & 0xFFC0u32) as u8) as u32;
    let g = gm.dir_spec(((rgb >> 4u32) & 0xFFC0u32) as u8) as u32;
    let r = gm.dir_spec(((rgb << 6u32) & 0xFFC0u32) as u8) as u32;
    ((((gamma_channel(gm, cb, r, b, alpha, 16) as u32) << 14u32) & 0x3FF00000u32) | (((gamma_channel(gm, cg, g, g, alpha, 16) as u32) << 4u32) & 0x000FFC00u32) | ((gamma_channel(gm, cr, b, r, alpha, 16) as u32) >> 6u32) | 0xC0000000u32) as u32
}

/// The gamma blend of pixel `p` runs without overflow.
pub open spec fn bgr_aaa_blend_gamma_ok<G: Gamma<u8, u8>>(gm: G, p: u32, cr: u32, cg: u32, cb: u32, alpha: u32) -> bool {
    let rgb = p as u32;
    let b = gm.dir_spec(((rgb >> 14u32) & 0xFFC0u32) as u8) as u32;
    let g = gm.dir_spec(((rgb >> 4u32) & 0xFFC0u32) as u8) as u32;
    let r = gm.dir_spec(((rgb << 6u32) & 0xFFC0u32) as u8) as u32;
    &&& gm.gamma_wf()
    &&& gamma_channel_ok(gm, cb, r, b, alpha, 16)
    &&& gamma_channel_ok(gm, cg, g, g, alpha, 16)
    &&& gamma_channel_ok(gm, cr, b, r, alpha, 16)
}

pub struct BlenderBgrAAAGamma<'a, G: Gamma<u8, u8>> {
    gamma: Equiv<'a, G>,
}

impl<'a, G: Gamma<u8, u8>> BlenderBgrAAAGamma<'a, G> {
    /// The gamma table in use, owned or borrowed.
    pub closed spec fn gamma_target(&self) -> G {
        self.gamma.target()
    }

    pub fn new_borrowed(gamma: &'a mut G) -> (r: Self)
        ensures
            r.gamma_target() == *old(gamma),
    {
        BlenderBgrAAAGamma { gamma: Equiv::Brw(gamma) }
    }

    pub fn new_owned(gamma: G) -> (r: Self)
        ensures
            r.gamma_target() == gamma,
    {
        BlenderBgrAAAGamma { gamma: Equiv::Own(gamma) }
    }

    pub fn set_gamma_borrowed(&mut self, g: &'a mut G)
        ensures
            final(self).gamma_target() == *old(g),
    {
        self.gamma = Equiv::Brw(g);
    }

    pub fn set_gamma_owned(&mut self, g: G)
        ensures
            final(self).gamma_target() == g,
    {
        self.gamma = Equiv::Own(g);
    }

    pub fn gamma_mut(&mut self) -> (r: &mut G)
        ensures
            *r == old(self).gamma_target(),
            final(self).gamma_target() == *final(r),
    {
        self.gamma.get_mut()
    }

    pub fn gamma(&self) -> (r: &G)
        ensures
            *r == self.gamma_target(),
    {
        self.gamma.get()
    }
}

impl<'a, G: Gamma<u8, u8>> BlenderPacked for BlenderBgrAAAGamma<'a, G> {
    type ColorType = Rgba16;
    type ValueType = u16;
    type PixelType = u32;

    open spec fn blend_ok(&self, p: u32, cr: u32, cg: u32, cb: u32, alpha: u32) -> bool {
        bgr_aaa_blend_gamma_ok(self.gamma_target(), p, cr, cg, cb, alpha)
    }

    /// A blender with a gamma table of its own.
    fn new() -> (r: Self)
        ensures
            r.gamma_target().gamma_wf(),
    {
        BlenderBgrAAAGamma { gamma: Equiv::Own(G::new()) }
    }

    fn blend_pix(&self, p: &mut u32, cr: u32, cg: u32, cb: u32, alpha: u32)
        ensures
            *final(p) == bgr_aaa_blend_gamma(self.gamma_target(), *old(p), cr, cg, cb, alpha),
    {
        let gm = self.gamma.get();
        let rgb = *p as u32;
        let b = gm.dir(((rgb >> 14u32) & 0xFFC0u32) as u8) as u32;
        let g = gm.dir(((rgb >> 4u32) & 0xFFC0u32) as u8) as u32;
        let r = gm.dir(((rgb << 6u32) & 0xFFC0u32) as u8) as u32;
        let ir = gamma_channel_exec(gm, cb, r, b, alpha, 16);
        let ig = gamma_channel_exec(gm, cg, g, g, alpha, 16);
        let ib = gamma_channel_exec(gm, cr, b, r, alpha, 16);
        *p = ((((ir as u32) << 14u32) & 0x3FF00000u32) | (((ig as u32) << 4u32) & 0x000FFC00u32) | ((ib as u32) >> 6u32) | 0xC0000000u32) as u32;
    }

    /// The coverage plays no part.
    fn blend_pix_with_cover(&self, p: &mut u32, cr: u32, cg: u32, cb: u32, alpha: u32, _cover: u32)
        ensures
            *final(p) == bgr_aaa_blend_gamma(self.gamma_target(), *old(p), cr, cg, cb, alpha),
    {
        self.blend_pix(p, cr, cg, cb, alpha);
    }

    fn make_pix(&self, r: u32, g: u32, b: u32) -> (res: u32)
        ensures
            res == bgr_aaa_pix(r, g, b),
    {
        (((b & 0xFFC0u32) << 14u32) | ((g & 0xFFC0u32) << 4u32) | (r >> 6u32) | 0xC0000000u32) as u32
    }

    fn make_color(&self, p: u32) -> (c: Rgba16)
        ensures
            c == bgr_aaa_color(p),
    {
        bgr_aaa_make_color(p)
    }
}


//=========================================================BlenderRgbBBA
/// The pixel of an opaque colour in the RGB with 11-11-10 bits layout.
pub open spec fn rgb_bba_pix(r: u32, g: u32, b: u32) -> u32 {
    (((r & 0xFFE0u32) << 16u32) | ((g & 0xFFE0u32) << 5u32) | (b >> 6u32)) as u32
}

/// The colour of a pixel in the RGB with 11-11-10 bits layout, alpha 255.
pub open spec fn rgb_bba_color(p: u32) -> Rgba16 {
    let p = p as u32;
    Rgba16 { r: ((p >> 16u32) & 0xFFE0u32) as u16, g: ((p >> 5u32) & 0xFFE0u32) as u16, b: ((p << 6u32) & 0xFFC0u32) as u16, a: 255 }
}

/// A pixel blended with colour `(cr, cg, cb)` by `alpha`, in wrapping
/// arithmetic.
pub open spec fn rgb_bba_blend(p: u32, cr: u32, cg: u32, cb: u32, alpha: u32) -> u32 {
    let rgb = p as u32;
    let r = (rgb >> 16u32) & 0xFFE0u32;
    let g = (rgb >> 5u32) & 0xFFE0u32;
    let b = (rgb << 6u32) & 0xFFC0u32;
    ((wadd_spec(wmul_spec(wsub_spec(cr, r), alpha), r << 16u32) & 0xFFE00000u32) | ((wadd_spec(wmul_spec(wsub_spec(cg, g), alpha), g << 16u32) >> 11u32) & 0x001FFC00u32) | (wadd_spec(wmul_spec(wsub_spec(cb, b), alpha), b << 16u32) >> 22u32)) as u32
}

/// A premultiplied blend: the pixel keeps `0xFFFF - alpha` of itself and
/// gains `cover` of the colour.
pub open spec fn rgb_bba_blend_pre(p: u32, cr: u32, cg: u32, cb: u32, alpha: u32, cover: u32) -> u32 {
    let alpha = wsub_spec(0xFFFFu32, alpha);
    let cover = wadd_spec(cover, 1u32) << 8u32;
    let rgb = p as u32;
    let r = (rgb >> 16u32) & 0xFFE0u32;
    let g = (rgb >> 5u32) & 0xFFE0u32;
    let b = (rgb << 6u32) & 0xFFC0u32;
    ((wadd_spec(wmul_spec(r, alpha), wmul_spec(cr, cover)) & 0xFFE00000u32) | ((wadd_spec(wmul_spec(g, alpha), wmul_spec(cg, cover)) >> 11u32) & 0x001FFC00u32) | (wadd_spec(wmul_spec(b, alpha), wmul_spec(cb, cover)) >> 22u32)) as u32
}

fn rgb_bba_make_pix(r: u32, g: u32, b: u32) -> (res: u32)
    ensures
        res == rgb_bba_pix(r, g, b),
{
    (((r & 0xFFE0u32) << 16u32) | ((g & 0xFFE0u32) << 5u32) | (b >> 6u32)) as u32
}

fn rgb_bba_make_color(p: u32) -> (c: Rgba16)
    ensures
        c == rgb_bba_color(p),
{
    let p = p as u32;
    Rgba16::new_params((p >> 16u32) & 0xFFE0u32, (p >> 5u32) & 0xFFE0u32, (p << 6u32) & 0xFFC0u32, 255)
}

pub struct BlenderRgbBBA;

impl BlenderPacked for BlenderRgbBBA {
    type ColorType = Rgba16;
    type ValueType = u16;
    type PixelType = u32;

    open spec fn blend_ok(&self, p: u32, cr: u32, cg: u32, cb: u32, alpha: u32) -> bool {
        true
    }

    fn new() -> Self {
        BlenderRgbBBA
    }

    fn blend_pix(&self, p: &mut u32, cr: u32, cg: u32, cb: u32, alpha: u32)
        ensures
            *final(p) == rgb_bba_blend(*old(p), cr, cg, cb, alpha),
    {
        let rgb = *p as u32;
        let r = (rgb >> 16u32) & 0xFFE0u32;
        let g = (rgb >> 5u32) & 0xFFE0u32;
        let b = (rgb << 6u32) & 0xFFC0u32;
        *p = ((wadd(wmul(wsub(cr, r), alpha), r << 16u32) & 0xFFE00000u32) | ((wadd(wmul(wsub(cg, g), alpha), g << 16u32) >> 11u32) & 0x001FFC00u32) | (wadd(wmul(wsub(cb, b), alpha), b << 16u32) >> 22u32)) as u32;
    }

    /// The coverage plays no part.
    fn blend_pix_with_cover(&self, p: &mut u32, cr: u32, cg: u32, cb: u32, alpha: u32, _cover: u32)
        ensures
            *final(p) == rgb_bba_blend(*old(p), cr, cg, cb, alpha),
    {
        self.blend_pix(p, cr, cg, cb, alpha);
    }

    fn make_pix(&self, r: u32, g: u32, b: u32) -> (res: u32)
        ensures
            res == rgb_bba_pix(r, g, b),
    {
        rgb_bba_make_pix(r, g, b)
    }

    fn make_color(&self, p: u32) -> (c: Rgba16)
        ensures
            c == rgb_bba_color(p),
    {
        rgb_bba_make_color(p)
    }
}

pub struct BlenderRgbBBAPre;

impl BlenderPacked for BlenderRgbBBAPre {
    type ColorType = Rgba16;
    type ValueType = u16;
    type PixelType = u32;

    open spec fn blend_ok(&self, p: u32, cr: u32, cg: u32, cb: u32, alpha: u32) -> bool {
        true
    }

    fn new() -> Self {
        BlenderRgbBBAPre
    }

    fn blend_pix_with_cover(&self, p: &mut u32, cr: u32, cg: u32, cb: u32, alpha: u32, cover: u32)
        ensures
            *final(p) == rgb_bba_blend_pre(*old(p), cr, cg, cb, alpha, cover),
    {
        let alpha = wsub(0xFFFFu32, alpha);
        let cover = wadd(cover, 1u32) << 8u32;
        let rgb = *p as u32;
        let r = (rgb >> 16u32) & 0xFFE0u32;
        let g = (rgb >> 5u32) & 0xFFE0u32;
        let b = (rgb << 6u32) & 0xFFC0u32;
        *p = ((wadd(wmul(r, alpha), wmul(cr, cover)) & 0xFFE00000u32) | ((wadd(wmul(g, alpha), wmul(cg, cover)) >> 11u32) & 0x001FFC00u32) | (wadd(wmul(b, alpha), wmul(cb, cover)) >> 22u32)) as u32;
    }

    /// A premultiplied blend with coverage zero.
    fn blend_pix(&self, p: &mut u32, cr: u32, cg: u32, cb: u32, alpha: u32)
        ensures
            *final(p) == rgb_bba_blend_pre(*old(p), cr, cg, cb, alpha, 0),
    {
        self.blend_pix_with_cover(p, cr, cg, cb, alpha, 0)
    }

    fn make_pix(&self, r: u32, g: u32, b: u32) -> (res: u32)
        ensures
            res == rgb_bba_pix(r, g, b),
    {
        rgb_bba_make_pix(r, g, b)
    }

    fn make_color(&self, p: u32) -> (c: Rgba16)
        ensures
            c == rgb_bba_color(p),
    {
        rgb_bba_make_color(p)
    }
}


/// The pixel that the gamma blender of this layout makes for an opaque
/// colour: its red channel is shifted two bits short of where
/// `rgb_bba_color` reads it.
pub open spec fn rgb_bba_gamma_pix(r: u32, g: u32, b: u32) -> u32 {
    (((r & 0xFFE0u32) << 14u32) | ((g & 0xFFE0u32) << 5u32) | (b >> 6u32)) as u32
}


/// A pixel blended with colour `(cr, cg, cb)` by `alpha` through gamma `g`.
pub open spec fn rgb_bba_blend_gamma<G: Gamma<u8, u8>>(gm: G, p: u32, cr: u32, cg: u32, cb: u32, alpha: u32) -> u32 {
    let rgb = p as u32;
    let r = gm.dir_spec(((rgb >> 16u32) & 0xFFE0u32) as u8) as u32;
    let g = gm.dir_spec(((rgb >> 5u32) & 0xFFE0u32) as u8) as u32;
    let b = gm.dir_spec(((rgb << 6u32) & 0xFFC0u32) as u8) as u32;
    ((((gamma_channel(gm, cr, r, r, alpha, 16) as u32) << 16u32) & 0xFFE00000u32) | (((gamma_channel(gm, cg, g, g, alpha, 16) as u32) << 5u32) & 0x001FFC00u32) | ((gamma_channel(gm, cb, b, b, alpha, 16) as u32) >> 6u32)) as u32
}

/// The gamma blend of pixel `p` runs without overflow.
pub open spec fn rgb_bba_blend_gamma_ok<G: Gamma<u8, u8>>(gm: G, p: u32, cr: u32, cg: u32, cb: u32, alpha: u32) -> bool {
    let rgb = p as u32;
    let r = gm.dir_spec(((rgb >> 16u32) & 0xFFE0u32) as u8) as u32;
    let g = gm.dir_spec(((rgb >> 5u32) & 0xFFE0u32) as u8) as u32;
    let b = gm.dir_spec(((rgb << 6u32) & 0xFFC0u32) as u8) as u32;
    &&& gm.gamma_wf()
    &&& gamma_channel_ok(gm, cr, r, r, alpha, 16)
    &&& gamma_channel_ok(gm, cg, g, g, alpha, 16)
    &&& gamma_channel_ok(gm, cb, b, b, alpha, 16)
}

pub struct BlenderRgbBBAGamma<'a, G: Gamma<u8, u8>> {
    gamma: Equiv<'a, G>,
}

impl<'a, G: Gamma<u8, u8>> BlenderRgbBBAGamma<'a, G> {
    /// The gamma table in use, owned or borrowed.
    pub closed spec fn gamma_target(&self) -> G {
        self.gamma.target()
    }

    pub fn new_borrowed(gamma: &'a mut G) -> (r: Self)
        ensures
            r.gamma_target() == *old(gamma),
    {
        BlenderRgbBBAGamma { gamma: Equiv::Brw(gamma) }
    }

    pub fn new_owned(gamma: G) -> (r: Self)
        ensures
            r.gamma_target() == gamma,
    {
        BlenderRgbBBAGamma { gamma: Equiv::Own(gamma) }
    }

    pub fn set_gamma_borrowed(&mut self, g: &'a mut G)
        ensures
            final(self).gamma_target() == *old(g),
    {
        self.gamma = Equiv::Brw(g);
    }

    pub fn set_gamma_owned(&mut self, g: G)
        ensures
            final(self).gamma_target() == g,
    {
        self.gamma = Equiv::Own(g);
    }

    pub fn gamma_mut(&mut self) -> (r: &mut G)
        ensures
            *r == old(self).gamma_target(),
            final(self).gamma_target() == *final(r),
    {
        self.gamma.get_mut()
    }

    pub fn gamma(&self) -> (r: &G)
        ensures
            *r == self.gamma_target(),
    {
        self.gamma.get()
    }
}

impl<'a, G: Gamma<u8, u8>> BlenderPacked for BlenderRgbBBAGamma<'a, G> {
    type ColorType = Rgba16;
    type ValueType = u16;
    type PixelType = u32;

    open spec fn blend_ok(&self, p: u32, cr: u32, cg: u32, cb: u32, alpha: u32) -> bool {
        rgb_bba_blend_gamma_ok(self.gamma_target(), p, cr, cg, cb, alpha)
    }

    /// A blender with a gamma table of its own.
    fn new() -> (r: Self)
        ensures
            r.gamma_target().gamma_wf(),
    {
        BlenderRgbBBAGamma { gamma: Equiv::Own(G::new()) }
    }

    fn blend_pix(&self, p: &mut u32, cr: u32, cg: u32, cb: u32, alpha: u32)
        ensures
            *final(p) == rgb_bba_blend_gamma(self.gamma_target(), *old(p), cr, cg, cb, alpha),
    {
        let gm = self.gamma.get();
        let rgb = *p as u32;
        let r = gm.dir(((rgb >> 16u32) & 0xFFE0u32) as u8) as u32;
        let g = gm.dir(((rgb >> 5u32) & 0xFFE0u32) as u8) as u32;
        let b = gm.dir(((rgb << 6u32) & 0xFFC0u32) as u8) as u32;
        let ir = gamma_channel_exec(gm, cr, r, r, alpha, 16);
        let ig = gamma_channel_exec(gm, cg, g, g, alpha, 16);
        let ib = gamma_channel_exec(gm, cb, b, b, alpha, 16);
        *p = ((((ir as u32) << 16u32) & 0xFFE00000u32) | (((ig as u32) << 5u32) & 0x001FFC00u32) | ((ib as u32) >> 6u32)) as u32;
    }

    /// The coverage plays no part.
    fn blend_pix_with_cover(&self, p: &mut u32, cr: u32, cg: u32, cb: u32, alpha: u32, _cover: u32)
        ensures
            *final(p) == rgb_bba_blend_gamma(self.gamma_target(), *old(p), cr, cg, cb, alpha),
    {
        self.blend_pix(p, cr, cg, cb, alpha);
    }

    fn make_pix(&self, r: u32, g: u32, b: u32) -> (res: u32)
        ensures
            res == rgb_bba_gamma_pix(r, g, b),
    {
        (((r & 0xFFE0u32) << 14u32) | ((g & 0xFFE0u32) << 5u32) | (b >> 6u32)) as u32
    }

    fn make_color(&self, p: u32) -> (c: Rgba16)
        ensures
            c == rgb_bba_color(p),
    {
        rgb_bba_make_color(p)
    }
}


//=========================================================BlenderBgrABB
/// The pixel of an opaque colour in the BGR with 10-11-11 bits layout.
pub open spec fn bgr_abb_pix(r: u32, g: u32, b: u32) -> u32 {
    (((b & 0xFFC0u32) << 16u32) | ((g & 0xFFE0u32) << 6u32) | (r >> 5u32)) as u32
}

/// The colour of a pixel in the BGR with 10-11-11 bits layout, alpha 255.
pub open spec fn bgr_abb_color(p: u32) -> Rgba16 {
    let p = p as u32;
    Rgba16 { r: ((p << 5u32) & 0xFFE0u32) as u16, g: ((p >> 6u32) & 0xFFE0u32) as u16, b: ((p >> 16u32) & 0xFFC0u32) as u16, a: 255 }
}

/// A pixel blended with colour `(cr, cg, cb)` by `alpha`, in wrapping
/// arithmetic.
pub open spec fn bgr_abb_blend(p: u32, cr: u32, cg: u32, cb: u32, alpha: u32) -> u32 {
    let rgb = p as u32;
    let b = (rgb >> 16u32) & 0xFFC0u32;
    let g = (rgb >> 6u32) & 0xFFE0u32;
    let r = (rgb << 5u32) & 0xFFE0u32;
    ((wadd_spec(wmul_spec(wsub_spec(cb, b), alpha), b << 16u32) & 0xFFC00000u32) | ((wadd_spec(wmul_spec(wsub_spec(cg, g), alpha), g << 16u32) >> 10u32) & 0x003FF800u32) | (wadd_spec(wmul_spec(wsub_spec(cr, r), alpha), r << 16u32) >> 21u32)) as u32
}

/// A premultiplied blend: the pixel keeps `0xFFFF - alpha` of itself and
/// gains `cover` of the colour.
pub open spec fn bgr_abb_blend_pre(p: u32, cr: u32, cg: u32, cb: u32, alpha: u32, cover: u32) -> u32 {
    let alpha = wsub_spec(0xFFFFu32, alpha);
    let cover = wadd_spec(cover, 1u32) << 8u32;
    let rgb = p as u32;
    let b = (rgb >> 16u32) & 0xFFC0u32;
    let g = (rgb >> 6u32) & 0xFFE0u32;
    let r = (rgb << 5u32) & 0xFFE0u32;
    ((wadd_spec(wmul_spec(b, alpha), wmul_spec(cb, cover)) & 0xFFC00000u32) | ((wadd_spec(wmul_spec(g, alpha), wmul_spec(cg, cover)) >> 10u32) & 0x003FF800u32) | (wadd_spec(wmul_spec(r, alpha), wmul_spec(cr, cover)) >> 21u32)) as u32
}

fn bgr_abb_make_pix(r: u32, g: u32, b: u32) -> (res: u32)
    ensures
        res == bgr_abb_pix(r, g, b),
{
    (((b & 0xFFC0u32) << 16u32) | ((g & 0xFFE0u32) << 6u32) | (r >> 5u32)) as u32
}

fn bgr_abb_make_color(p: u32) -> (c: Rgba16)
    ensures
        c == bgr_abb_color(p),
{
    let p = p as u32;
    Rgba16::new_params((p << 5u32) & 0xFFE0u32, (p >> 6u32) & 0xFFE0u32, (p >> 16u32) & 0xFFC0u32, 255)
}

pub struct BlenderBgrABB;

impl BlenderPacked for BlenderBgrABB {
    type ColorType = Rgba16;
    type ValueType = u16;
    type PixelType = u32;

    open spec fn blend_ok(&self, p: u32, cr: u32, cg: u32, cb: u32, alpha: u32) -> bool {
        true
    }

    fn new() -> Self {
        BlenderBgrABB
    }

    fn blend_pix(&self, p: &mut u32, cr: u32, cg: u32, cb: u32, alpha: u32)
        ensures
            *final(p) == bgr_abb_blend(*old(p), cr, cg, cb, alpha),
    {
        let rgb = *p as u32;
        let b = (rgb >> 16u32) & 0xFFC0u32;
        let g = (rgb >> 6u32) & 0xFFE0u32;
        let r = (rgb << 5u32) & 0xFFE0u32;
        *p = ((wadd(wmul(wsub(cb, b), alpha), b << 16u32) & 0xFFC00000u32) | ((wadd(wmul(wsub(cg, g), alpha), g << 16u32) >> 10u32) & 0x003FF800u32) | (wadd(wmul(wsub(cr, r), alpha), r << 16u32) >> 21u32)) as u32;
    }

    /// The coverage plays no part.
    fn blend_pix_with_cover(&self, p: &mut u32, cr: u32, cg: u32, cb: u32, alpha: u32, _cover: u32)
        ensures
            *final(p) == bgr_abb_blend(*old(p), cr, cg, cb, alpha),
    {
        self.blend_pix(p, cr, cg, cb, alpha);
    }

    fn make_pix(&self, r: u32, g: u32, b: u32) -> (res: u32)
        ensures
            res == bgr_abb_pix(r, g, b),
    {
        bgr_abb_make_pix(r, g, b)
    }

    fn make_color(&self, p: u32) -> (c: Rgba16)
        ensures
            c == bgr_abb_color(p),
    {
        bgr_abb_make_color(p)
    }
}

pub struct BlenderBgrABBPre;

impl BlenderPacked for BlenderBgrABBPre {
    type ColorType = Rgba16;
    type ValueType = u16;
    type PixelType = u32;

    open spec fn blend_ok(&self, p: u32, cr: u32, cg: u32, cb: u32, alpha: u32) -> bool {
        true
    }

    fn new() -> Self {
        BlenderBgrABBPre
    }

    fn blend_pix_with_cover(&self, p: &mut u32, cr: u32, cg: u32, cb: u32, alpha: u32, cover: u32)
        ensures
            *final(p) == bgr_abb_blend_pre(*old(p), cr, cg, cb, alpha, cover),
    {
        let alpha = wsub(0xFFFFu32, alpha);
        let cover = wadd(cover, 1u32) << 8u32;
        let rgb = *p as u32;
        let b = (rgb >> 16u32) & 0xFFC0u32;
        let g = (rgb >> 6u32) & 0xFFE0u32;
        let r = (rgb << 5u32) & 0xFFE0u32;
        *p = ((wadd(wmul(b, alpha), wmul(cb, cover)) & 0xFFC00000u32) | ((wadd(wmul(g, alpha), wmul(cg, cover)) >> 10u32) & 0x003FF800u32) | (wadd(wmul(r, alpha), wmul(cr, cover)) >> 21u32)) as u32;
    }

    /// A premultiplied blend with coverage zero.
    fn blend_pix(&self, p: &mut u32, cr: u32, cg: u32, cb: u32, alpha: u32)
        ensures
            *final(p) == bgr_abb_blend_pre(*old(p), cr, cg, cb, alpha, 0),
    {
        self.blend_pix_with_cover(p, cr, cg, cb, alpha, 0)
    }

    fn make_pix(&self, r: u32, g: u32, b: u32) -> (res: u32)
        ensures
            res == bgr_abb_pix(r, g, b),
    {
        bgr_abb_make_pix(r, g, b)
    }

    fn make_color(&self, p: u32) -> (c: Rgba16)
        ensures
            c == bgr_abb_color(p),
    {
        bgr_abb_make_color(p)
    }
}


/// A pixel blended with colour `(cr, cg, cb)` by `alpha` through gamma `g`.
pub open spec fn bgr_abb_blend_gamma<G: Gamma<u8, u8>>(gm: G, p: u32, cr: u32, cg: u32, cb: u32, alpha: u32) -> u32 {
    let rgb = p as u32;
    let b = gm.dir_spec(((rgb >> 16u32) & 0xFFC0u32) as u8) as u32;
    let g = gm.dir_spec(((rgb >> 6u32) & 0xFFE0u32) as u8) as u32;
    let r = gm.dir_spec(((rgb << 5u32) & 0xFFE0u32) as u8) as u32;
    ((((gamma_channel(gm, cb, b, b, alpha, 16) as u32) << 16u32) & 0xFFC00000u32) | (((gamma_channel(gm, cg, g, g, alpha, 16) as u32) << 6u32) & 0x003FF800u32) | ((gamma_channel(gm, cr, r, r, alpha, 16) as u32) >> 5u32)) as u32
}

/// The gamma blend of pixel `p` runs without overflow.
pub open spec fn bgr_abb_blend_gamma_ok<G: Gamma<u8, u8>>(gm: G, p: u32, cr: u32, cg: u32, cb: u32, alpha: u32) -> bool {
    let rgb = p as u32;
    let b = gm.dir_spec(((rgb >> 16u32) & 0xFFC0u32) as u8) as u32;
    let g = gm.dir_spec(((rgb >> 6u32) & 0xFFE0u32) as u8) as u32;
    let r = gm.dir_spec(((rgb << 5u32) & 0xFFE0u32) as u8) as u32;
    &&& gm.gamma_wf()
    &&& gamma_channel_ok(gm, cb, b, b, alpha, 16)
    &&& gamma_channel_ok(gm, cg, g, g, alpha, 16)
    &&& gamma_channel_ok(gm, cr, r, r, alpha, 16)
}

pub struct BlenderBgrABBGamma<'a, G: Gamma<u8, u8>> {
    gamma: Equiv<'a, G>,
}

impl<'a, G: Gamma<u8, u8>> BlenderBgrABBGamma<'a, G> {
    /// The gamma table in use, owned or borrowed.
    pub closed spec fn gamma_target(&self) -> G {
        self.gamma.target()
    }

    pub fn new_borrowed(gamma: &'a mut G) -> (r: Self)
        ensures
            r.gamma_target() == *old(gamma),
    {
        BlenderBgrABBGamma { gamma: Equiv::Brw(gamma) }
    }

    pub fn new_owned(gamma: G) -> (r: Self)
        ensures
            r.gamma_target() == gamma,
    {
        BlenderBgrABBGamma { gamma: Equiv::Own(gamma) }
    }

    pub fn set_gamma_borrowed(&mut self, g: &'a mut G)
        ensures
            final(self).gamma_target() == *old(g),
    {
        self.gamma = Equiv::Brw(g);
    }

    pub fn set_gamma_owned(&mut self, g: G)
        ensures
            final(self).gamma_target() == g,
    {
        self.gamma = Equiv::Own(g);
    }

    pub fn gamma_mut(&mut self) -> (r: &mut G)
        ensures
            *r == old(self).gamma_target(),
            final(self).gamma_target() == *final(r),
    {
        self.gamma.get_mut()
    }

    pub fn gamma(&self) -> (r: &G)
        ensures
            *r == self.gamma_target(),
    {
        self.gamma.get()
    }
}

impl<'a, G: Gamma<u8, u8>> BlenderPacked for BlenderBgrABBGamma<'a, G> {
    type ColorType = Rgba16;
    type ValueType = u16;
    type PixelType = u32;

    open spec fn blend_ok(&self, p: u32, cr: u32, cg: u32, cb: u32, alpha: u32) -> bool {
        bgr_abb_blend_gamma_ok(self.gamma_target(), p, cr, cg, cb, alpha)
    }

    /// A blender with a gamma table of its own.
    fn new() -> (r: Self)
        ensures
            r.gamma_target().gamma_wf(),
    {
        BlenderBgrABBGamma { gamma: Equiv::Own(G::new()) }
    }

    fn blend_pix(&self, p: &mut u32, cr: u32, cg: u32, cb: u32, alpha: u32)
        ensures
            *final(p) == bgr_abb_blend_gamma(self.gamma_target(), *old(p), cr, cg, cb, alpha),
    {
        let gm = self.gamma.get();
        let rgb = *p as u32;
        let b = gm.dir(((rgb >> 16u32) & 0xFFC0u32) as u8) as u32;
        let g = gm.dir(((rgb >> 6u32) & 0xFFE0u32) as u8) as u32;
        let r = gm.dir(((rgb << 5u32) & 0xFFE0u32) as u8) as u32;
        let ir = gamma_channel_exec(gm, cb, b, b, alpha, 16);
        let ig = gamma_channel_exec(gm, cg, g, g, alpha, 16);
        let ib = gamma_channel_exec(gm, cr, r, r, alpha, 16);
        *p = ((((ir as u32) << 16u32) & 0xFFC00000u32) | (((ig as u32) << 6u32) & 0x003FF800u32) | ((ib as u32) >> 5u32)) as u32;
    }

    /// The coverage plays no part.
    fn blend_pix_with_cover(&self, p: &mut u32, cr: u32, cg: u32, cb: u32, alpha: u32, _cover: u32)
        ensures
            *final(p) == bgr_abb_blend_gamma(self.gamma_target(), *old(p), cr, cg, cb, alpha),
    {
        self.blend_pix(p, cr, cg, cb, alpha);
    }

    fn make_pix(&self, r: u32, g: u32, b: u32) -> (res: u32)
        ensures
            res == bgr_abb_pix(r, g, b),
    {
        (((b & 0xFFC0u32) << 16u32) | ((g & 0xFFE0u32) << 6u32) | (r >> 5u32)) as u32
    }

    fn make_color(&self, p: u32) -> (c: Rgba16)
        ensures
            c == bgr_abb_color(p),
    {
        bgr_abb_make_color(p)
    }
}


/// Packing an opaque colour into a RGB 5-5-5 with the top bit set pixel and reading it back
/// gives the colour with each channel cut to the bits that the layout keeps.
pub proof fn lemma_rgb555_round_trip(r: u32, g: u32, b: u32)
    requires
        r <= 255,
        g <= 255,
        b <= 255,
    ensures
        rgb555_color(rgb555_pix(r, g, b)) == (Rgba8 {
            r: (r & 0xF8u32) as u8,
            g: (g & 0xF8u32) as u8,
            b: (b & 0xF8u32) as u8,
            a: 255,
        }),
{
    let p = rgb555_pix(r, g, b) as u32;
    assert(((p >> 7u32) & 0xF8u32) == (r & 0xF8u32) && ((p >> 2u32) & 0xF8u32) == (g & 0xF8u32) && ((p << 3u32) & 0xF8u32) == (b & 0xF8u32)) by (bit_vector)
        requires
            r <= 255,
            g <= 255,
            b <= 255,
            p == ((((r & 0xF8u32) << 7u32) | ((g & 0xF8u32) << 2u32) | (b >> 3u32) | 0x8000u32) as u16) as u32,
    ;
}

/// Blending with alpha zero leaves a RGB 5-5-5 with the top bit set pixel's channels as they
/// are; only the bits that the layout always sets get set.
pub proof fn lemma_rgb555_blend_transparent(p: u16, cr: u32, cg: u32, cb: u32)
    ensures
        rgb555_blend(p, cr, cg, cb, 0) == ((p as u32) | 0x8000u32) as u16,
{
    let rgb = p as u32;
    let r = (rgb >> 7u32) & 0xF8u32;
    let g = (rgb >> 2u32) & 0xF8u32;
    let b = (rgb << 3u32) & 0xF8u32;
    assert(wmul_spec(wsub_spec(cr, r), 0) == 0);
    assert(wmul_spec(wsub_spec(cg, g), 0) == 0);
    assert(wmul_spec(wsub_spec(cb, b), 0) == 0);
    let x = wadd_spec(0, r << 8u32);
    let y = wadd_spec(0, g << 8u32);
    let z = wadd_spec(0, b << 8u32);
    assert(x == r << 8u32 && y == g << 8u32 && z == b << 8u32) by {
        assert(r << 8u32 <= u32::MAX);
    }
    let e = ((x >> 1u32) & 0x7C00u32) | ((y >> 6u32) & 0x03E0u32) | (z >> 11u32) | 0x8000u32;
    assert((e as u16) == ((rgb | 0x8000u32) as u16)) by (bit_vector)
        requires
            rgb <= 0xFFFF,
            r == (rgb >> 7u32) & 0xF8u32,
            g == (rgb >> 2u32) & 0xF8u32,
            b == (rgb << 3u32) & 0xF8u32,
            x == r << 8u32,
            y == g << 8u32,
            z == b << 8u32,
            e == ((x >> 1u32) & 0x7C00u32) | ((y >> 6u32) & 0x03E0u32) | (z >> 11u32) | 0x8000u32,
    ;
}


/// Packing an opaque colour into a RGB 5-6-5 pixel and reading it back
/// gives the colour with each channel cut to the bits that the layout keeps.
pub proof fn lemma_rgb565_round_trip(r: u32, g: u32, b: u32)
    requires
        r <= 255,
        g <= 255,
        b <= 255,
    ensures
        rgb565_color(rgb565_pix(r, g, b)) == (Rgba8 {
            r: (r & 0xF8u32) as u8,
            g: (g & 0xFCu32) as u8,
            b: (b & 0xF8u32) as u8,
            a: 255,
        }),
{
    let p = rgb565_pix(r, g, b) as u32;
    assert(((p >> 8u32) & 0xF8u32) == (r & 0xF8u32) && ((p >> 3u32) & 0xFCu32) == (g & 0xFCu32) && ((p << 3u32) & 0xF8u32) == (b & 0xF8u32)) by (bit_vector)
        requires
            r <= 255,
            g <= 255,
            b <= 255,
            p == ((((r & 0xF8u32) << 8u32) | ((g & 0xFCu32) << 3u32) | (b >> 3u32)) as u16) as u32,
    ;
}

/// Blending with alpha zero leaves a RGB 5-6-5 pixel's channels as they
/// are; only the bits that the layout always sets get set.
pub proof fn lemma_rgb565_blend_transparent(p: u16, cr: u32, cg: u32, cb: u32)
    ensures
        rgb565_blend(p, cr, cg, cb, 0) == ((p as u32) | 0u32) as u16,
{
    let rgb = p as u32;
    let r = (rgb >> 8u32) & 0xF8u32;
    let g = (rgb >> 3u32) & 0xFCu32;
    let b = (rgb << 3u32) & 0xF8u32;
    assert(wmul_spec(wsub_spec(cr, r), 0) == 0);
    assert(wmul_spec(wsub_spec(cg, g), 0) == 0);
    assert(wmul_spec(wsub_spec(cb, b), 0) == 0);
    let x = wadd_spec(0, r << 8u32);
    let y = wadd_spec(0, g << 8u32);
    let z = wadd_spec(0, b << 8u32);
    assert(x == r << 8u32 && y == g << 8u32 && z == b << 8u32) by {
        assert(r << 8u32 <= u32::MAX);
    }
    let e = (x & 0xF800u32) | ((y >> 5u32) & 0x07E0u32) | (z >> 11u32);
    assert((e as u16) == ((rgb | 0u32) as u16)) by (bit_vector)
        requires
            rgb <= 0xFFFF,
            r == (rgb >> 8u32) & 0xF8u32,
            g == (rgb >> 3u32) & 0xFCu32,
            b == (rgb << 3u32) & 0xF8u32,
            x == r << 8u32,
            y == g << 8u32,
            z == b << 8u32,
            e == (x & 0xF800u32) | ((y >> 5u32) & 0x07E0u32) | (z >> 11u32),
    ;
}


/// Packing an opaque colour into a RGB with 10 bits per channel and the top two bits set pixel and reading it back
/// gives the colour with each channel cut to the bits that the layout keeps.
pub proof fn lemma_rgb_aaa_round_trip(r: u32, g: u32, b: u32)
    requires
        r <= 0xFFFF,
        g <= 0xFFFF,
        b <= 0xFFFF,
    ensures
        rgb_aaa_color(rgb_aaa_pix(r, g, b)) == (Rgba16 {
            r: (r & 0xFFC0u32) as u16,
            g: (g & 0xFFC0u32) as u16,
            b: (b & 0xFFC0u32) as u16,
            a: 255,
        }),
{
    let p = rgb_aaa_pix(r, g, b) as u32;
    assert(((p >> 14u32) & 0xFFC0u32) == (r & 0xFFC0u32) && ((p >> 4u32) & 0xFFC0u32) == (g & 0xFFC0u32) && ((p << 6u32) & 0xFFC0u32) == (b & 0xFFC0u32)) by (bit_vector)
        requires
            r <= 0xFFFF,
            g <= 0xFFFF,
            b <= 0xFFFF,
            p == ((((r & 0xFFC0u32) << 14u32) | ((g & 0xFFC0u32) << 4u32) | (b >> 6u32) | 0xC0000000u32) as u32) as u32,
    ;
}

/// Blending with alpha zero leaves a RGB with 10 bits per channel and the top two bits set pixel's channels as they
/// are; only the bits that the layout always sets get set.
pub proof fn lemma_rgb_aaa_blend_transparent(p: u32, cr: u32, cg: u32, cb: u32)
    ensures
        rgb_aaa_blend(p, cr, cg, cb, 0) == ((p as u32) | 0xC0000000u32) as u32,
{
    let rgb = p as u32;
    let r = (rgb >> 14u32) & 0xFFC0u32;
    let g = (rgb >> 4u32) & 0xFFC0u32;
    let b = (rgb << 6u32) & 0xFFC0u32;
    assert(wmul_spec(wsub_spec(cr, r), 0) == 0);
    assert(wmul_spec(wsub_spec(cg, g), 0) == 0);
    assert(wmul_spec(wsub_spec(cb, b), 0) == 0);
    let x = wadd_spec(0, r << 16u32);
    let y = wadd_spec(0, g << 16u32);
    let z = wadd_spec(0, b << 16u32);
    assert(x == r << 16u32 && y == g << 16u32 && z == b << 16u32) by {
        assert(r << 16u32 <= u32::MAX);
    }
    let e = ((x >> 2u32) & 0x3FF00000u32) | ((y >> 12u32) & 0x000FFC00u32) | (z >> 22u32) | 0xC0000000u32;
    assert((e as u32) == ((rgb | 0xC0000000u32) as u32)) by (bit_vector)
        requires
            rgb <= 0xFFFF_FFFF,
            r == (rgb >> 14u32) & 0xFFC0u32,
            g == (rgb >> 4u32) & 0xFFC0u32,
            b == (rgb << 6u32) & 0xFFC0u32,
            x == r << 16u32,
            y == g << 16u32,
            z == b << 16u32,
            e == ((x >> 2u32) & 0x3FF00000u32) | ((y >> 12u32) & 0x000FFC00u32) | (z >> 22u32) | 0xC0000000u32,
    ;
}


/// Packing an opaque colour into a BGR with 10 bits per channel and the top two bits set pixel and reading it back
/// gives the colour with each channel cut to the bits that the layout keeps.
pub proof fn lemma_bgr_aaa_round_trip(r: u32, g: u32, b: u32)
    requires
        r <= 0xFFFF,
        g <= 0xFFFF,
        b <= 0xFFFF,
    ensures
        bgr_aaa_color(bgr_aaa_pix(r, g, b)) == (Rgba16 {
            r: (r & 0xFFC0u32) as u16,
            g: (g & 0xFFC0u32) as u16,
            b: (b & 0xFFC0u32) as u16,
            a: 255,
        }),
{
    let p = bgr_aaa_pix(r, g, b) as u32;
    assert(((p << 6u32) & 0xFFC0u32) == (r & 0xFFC0u32) && ((p >> 4u32) & 0xFFC0u32) == (g & 0xFFC0u32) && ((p >> 14u32) & 0xFFC0u32) == (b & 0xFFC0u32)) by (bit_vector)
        requires
            r <= 0xFFFF,
            g <= 0xFFFF,
            b <= 0xFFFF,
            p == ((((b & 0xFFC0u32) << 14u32) | ((g & 0xFFC0u32) << 4u32) | (r >> 6u32) | 0xC0000000u32) as u32) as u32,
    ;
}

/// Blending with alpha zero leaves a BGR with 10 bits per channel and the top two bits set pixel's channels as they
/// are; only the bits that the layout always sets get set.
pub proof fn lemma_bgr_aaa_blend_transparent(p: u32, cr: u32, cg: u32, cb: u32)
    ensures
        bgr_aaa_blend(p, cr, cg, cb, 0) == ((p as u32) | 0xC0000000u32) as u32,
{
    let rgb = p as u32;
    let b = (rgb >> 14u32) & 0xFFC0u32;
    let g = (rgb >> 4u32) & 0xFFC0u32;
    let r = (rgb << 6u32) & 0xFFC0u32;
    assert(wmul_spec(wsub_spec(cb, b), 0) == 0);
    assert(wmul_spec(wsub_spec(cg, g), 0) == 0);
    assert(wmul_spec(wsub_spec(cr, r), 0) == 0);
    let x = wadd_spec(0, b << 16u32);
    let y = wadd_spec(0, g << 16u32);
    let z = wadd_spec(0, r << 16u32);
    assert(x == b << 16u32 && y == g << 16u32 && z == r << 16u32) by {
        assert(b << 16u32 <= u32::MAX);
    }
    let e = ((x >> 2u32) & 0x3FF00000u32) | ((y >> 12u32) & 0x000FFC00u32) | (z >> 22u32) | 0xC0000000u32;
    assert((e as u32) == ((rgb | 0xC0000000u32) as u32)) by (bit_vector)
        requires
            rgb <= 0xFFFF_FFFF,
            b == (rgb >> 14u32) & 0xFFC0u32,
            g == (rgb >> 4u32) & 0xFFC0u32,
            r == (rgb << 6u32) & 0xFFC0u32,
            x == b << 16u32,
            y == g << 16u32,
            z == r << 16u32,
            e == ((x >> 2u32) & 0x3FF00000u32) | ((y >> 12u32) & 0x000FFC00u32) | (z >> 22u32) | 0xC0000000u32,
    ;
}


/// Packing an opaque colour into a RGB with 11-11-10 bits pixel and reading it back
/// gives the colour with each channel cut to the bits that the layout keeps.
pub proof fn lemma_rgb_bba_round_trip(r: u32, g: u32, b: u32)
    requires
        r <= 0xFFFF,
        g <= 0xFFFF,
        b <= 0xFFFF,
    ensures
        rgb_bba_color(rgb_bba_pix(r, g, b)) == (Rgba16 {
            r: (r & 0xFFE0u32) as u16,
            g: (g & 0xFFE0u32) as u16,
            b: (b & 0xFFC0u32) as u16,
            a: 255,
        }),
{
    let p = rgb_bba_pix(r, g, b) as u32;
    assert(((p >> 16u32) & 0xFFE0u32) == (r & 0xFFE0u32) && ((p >> 5u32) & 0xFFE0u32) == (g & 0xFFE0u32) && ((p << 6u32) & 0xFFC0u32) == (b & 0xFFC0u32)) by (bit_vector)
        requires
            r <= 0xFFFF,
            g <= 0xFFFF,
            b <= 0xFFFF,
            p == ((((r & 0xFFE0u32) << 16u32) | ((g & 0xFFE0u32) << 5u32) | (b >> 6u32)) as u32) as u32,
    ;
}

/// Blending with alpha zero leaves a RGB with 11-11-10 bits pixel's channels as they
/// are; only the bits that the layout always sets get set.
pub proof fn lemma_rgb_bba_blend_transparent(p: u32, cr: u32, cg: u32, cb: u32)
    ensures
        rgb_bba_blend(p, cr, cg, cb, 0) == ((p as u32) | 0u32) as u32,
{
    let rgb = p as u32;
    let r = (rgb >> 16u32) & 0xFFE0u32;
    let g = (rgb >> 5u32) & 0xFFE0u32;
    let b = (rgb << 6u32) & 0xFFC0u32;
    assert(wmul_spec(wsub_spec(cr, r), 0) == 0);
    assert(wmul_spec(wsub_spec(cg, g), 0) == 0);
    assert(wmul_spec(wsub_spec(cb, b), 0) == 0);
    let x = wadd_spec(0, r << 16u32);
    let y = wadd_spec(0, g << 16u32);
    let z = wadd_spec(0, b << 16u32);
    assert(x == r << 16u32 && y == g << 16u32 && z == b << 16u32) by {
        assert(r << 16u32 <= u32::MAX);
    }
    let e = (x & 0xFFE00000u32) | ((y >> 11u32) & 0x001FFC00u32) | (z >> 22u32);
    assert((e as u32) == ((rgb | 0u32) as u32)) by (bit_vector)
        requires
            rgb <= 0xFFFF_FFFF,
            r == (rgb >> 16u32) & 0xFFE0u32,
            g == (rgb >> 5u32) & 0xFFE0u32,
            b == (rgb << 6u32) & 0xFFC0u32,
            x == r << 16u32,
            y == g << 16u32,
            z == b << 16u32,
            e == (x & 0xFFE00000u32) | ((y >> 11u32) & 0x001FFC00u32) | (z >> 22u32),
    ;
}


/// Packing an opaque colour into a BGR with 10-11-11 bits pixel and reading it back
/// gives the colour with each channel cut to the bits that the layout keeps.
pub proof fn lemma_bgr_abb_round_trip(r: u32, g: u32, b: u32)
    requires
        r <= 0xFFFF,
        g <= 0xFFFF,
        b <= 0xFFFF,
    ensures
        bgr_abb_color(bgr_abb_pix(r, g, b)) == (Rgba16 {
            r: (r & 0xFFE0u32) as u16,
            g: (g & 0xFFE0u32) as u16,
            b: (b & 0xFFC0u32) as u16,
            a: 255,
        }),
{
    let p = bgr_abb_pix(r, g, b) as u32;
    assert(((p << 5u32) & 0xFFE0u32) == (r & 0xFFE0u32) && ((p >> 6u32) & 0xFFE0u32) == (g & 0xFFE0u32) && ((p >> 16u32) & 0xFFC0u32) == (b & 0xFFC0u32)) by (bit_vector)
        requires
            r <= 0xFFFF,
            g <= 0xFFFF,
            b <= 0xFFFF,
            p == ((((b & 0xFFC0u32) << 16u32) | ((g & 0xFFE0u32) << 6u32) | (r >> 5u32)) as u32) as u32,
    ;
}

/// Blending with alpha zero leaves a BGR with 10-11-11 bits pixel's channels as they
/// are; only the bits that the layout always sets get set.
pub proof fn lemma_bgr_abb_blend_transparent(p: u32, cr: u32, cg: u32, cb: u32)
    ensures
        bgr_abb_blend(p, cr, cg, cb, 0) == ((p as u32) | 0u32) as u32,
{
    let rgb = p as u32;
    let b = (rgb >> 16u32) & 0xFFC0u32;
    let g = (rgb >> 6u32) & 0xFFE0u32;
    let r = (rgb << 5u32) & 0xFFE0u32;
    assert(wmul_spec(wsub_spec(cb, b), 0) == 0);
    assert(wmul_spec(wsub_spec(cg, g), 0) == 0);
    assert(wmul_spec(wsub_spec(cr, r), 0) == 0);
    let x = wadd_spec(0, b << 16u32);
    let y = wadd_spec(0, g << 16u32);
    let z = wadd_spec(0, r << 16u32);
    assert(x == b << 16u32 && y == g << 16u32 && z == r << 16u32) by {
        assert(b << 16u32 <= u32::MAX);
    }
    let e = (x & 0xFFC00000u32) | ((y >> 10u32) & 0x003FF800u32) | (z >> 21u32);
    assert((e as u32) == ((rgb | 0u32) as u32)) by (bit_vector)
        requires
            rgb <= 0xFFFF_FFFF,
            b == (rgb >> 16u32) & 0xFFC0u32,
            g == (rgb >> 6u32) & 0xFFE0u32,
            r == (rgb << 5u32) & 0xFFE0u32,
            x == b << 16u32,
            y == g << 16u32,
            z == r << 16u32,
            e == (x & 0xFFC00000u32) | ((y >> 10u32) & 0x003FF800u32) | (z >> 21u32),
    ;
}

} // verus!
