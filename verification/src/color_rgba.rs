//! RGBA colours with integer channels, and the byte orders of RGB and RGBA
//! pixel formats.
use crate::{Args, Color, Gamma, Order, RgbArgs};
use vstd::prelude::*;

verus! {

/// Supported byte orders for RGB and RGBA pixel formats
pub struct OrderRgb;

impl Order for OrderRgb {
    open spec fn spec_r() -> usize {
        0
    }

    open spec fn spec_g() -> usize {
        1
    }

    open spec fn spec_b() -> usize {
        2
    }

    open spec fn spec_a() -> usize {
        3
    }

    open spec fn spec_tag() -> usize {
        3
    }

    fn r() -> (r: usize)
        ensures
            r == 0,
    {
        0
    }

    fn g() -> (r: usize)
        ensures
            r == 1,
    {
        1
    }

    fn b() -> (r: usize)
        ensures
            r == 2,
    {
        2
    }

    fn a() -> (r: usize)
        ensures
            r == 3,
    {
        3
    }

    fn tag() -> (r: usize)
        ensures
            r == 3,
    {
        3
    }
}

pub struct OrderBgr;

impl Order for OrderBgr {
    open spec fn spec_r() -> usize {
        2
    }

    open spec fn spec_g() -> usize {
        1
    }

    open spec fn spec_b() -> usize {
        0
    }

    open spec fn spec_a() -> usize {
        3
    }

    open spec fn spec_tag() -> usize {
        3
    }

    fn r() -> (r: usize)
        ensures
            r == 2,
    {
        2
    }

    fn g() -> (r: usize)
        ensures
            r == 1,
    {
        1
    }

    fn b() -> (r: usize)
        ensures
            r == 0,
    {
        0
    }

    fn a() -> (r: usize)
        ensures
            r == 3,
    {
        3
    }

    fn tag() -> (r: usize)
        ensures
            r == 3,
    {
        3
    }
}

pub struct OrderRgba;

impl Order for OrderRgba {
    open spec fn spec_r() -> usize {
        0
    }

    open spec fn spec_g() -> usize {
        1
    }

    open spec fn spec_b() -> usize {
        2
    }

    open spec fn spec_a() -> usize {
        3
    }

    open spec fn spec_tag() -> usize {
        4
    }

    fn r() -> (r: usize)
        ensures
            r == 0,
    {
        0
    }

    fn g() -> (r: usize)
        ensures
            r == 1,
    {
        1
    }

    fn b() -> (r: usize)
        ensures
            r == 2,
    {
        2
    }

    fn a() -> (r: usize)
        ensures
            r == 3,
    {
        3
    }

    fn tag() -> (r: usize)
        ensures
            r == 4,
    {
        4
    }
}

pub struct OrderArgb;

impl Order for OrderArgb {
    open spec fn spec_r() -> usize {
        1
    }

    open spec fn spec_g() -> usize {
        2
    }

    open spec fn spec_b() -> usize {
        3
    }

    open spec fn spec_a() -> usize {
        0
    }

    open spec fn spec_tag() -> usize {
        4
    }

    fn r() -> (r: usize)
        ensures
            r == 1,
    {
        1
    }

    fn g() -> (r: usize)
        ensures
            r == 2,
    {
        2
    }

    fn b() -> (r: usize)
        ensures
            r == 3,
    {
        3
    }

    fn a() -> (r: usize)
        ensures
            r == 0,
    {
        0
    }

    fn tag() -> (r: usize)
        ensures
            r == 4,
    {
        4
    }
}

pub struct OrderAbgr;

impl Order for OrderAbgr {
    open spec fn spec_r() -> usize {
        3
    }

    open spec fn spec_g() -> usize {
        2
    }

    open spec fn spec_b() -> usize {
        1
    }

    open spec fn spec_a() -> usize {
        0
    }

    open spec fn spec_tag() -> usize {
        4
    }

    fn r() -> (r: usize)
        ensures
            r == 3,
    {
        3
    }

    fn g() -> (r: usize)
        ensures
            r == 2,
    {
        2
    }

    fn b() -> (r: usize)
        ensures
            r == 1,
    {
        1
    }

    fn a() -> (r: usize)
        ensures
            r == 0,
    {
        0
    }

    fn tag() -> (r: usize)
        ensures
            r == 4,
    {
        4
    }
}

pub struct OrderBgra;

impl Order for OrderBgra {
    open spec fn spec_r() -> usize {
        2
    }

    open spec fn spec_g() -> usize {
        1
    }

    open spec fn spec_b() -> usize {
        0
    }

    open spec fn spec_a() -> usize {
        3
    }

    open spec fn spec_tag() -> usize {
        4
    }

    fn r() -> (r: usize)
        ensures
            r == 2,
    {
        2
    }

    fn g() -> (r: usize)
        ensures
            r == 1,
    {
        1
    }

    fn b() -> (r: usize)
        ensures
            r == 0,
    {
        0
    }

    fn a() -> (r: usize)
        ensures
            r == 3,
    {
        3
    }

    fn tag() -> (r: usize)
        ensures
            r == 4,
    {
        4
    }
}

/// A colour with red, green, blue and alpha channels of type `T`.
#[derive(Copy, Clone)]
pub struct RgbaBase<T> {
    pub r: T,
    pub g: T,
    pub b: T,
    pub a: T,
}

pub type Rgba8 = RgbaBase<u8>;

pub type Rgba16 = RgbaBase<u16>;

/// The smaller of two numbers.
pub open spec fn min_int(a: int, b: int) -> int {
    if a > b {
        b
    } else {
        a
    }
}

/// One channel accumulated: full coverage adds the channel, partial coverage
/// adds it scaled by `cover / 255` with rounding; the sum is clamped to
/// `mask`.
pub open spec fn add_channel(v: int, c: int, cover: int, mask: int) -> int {
    if cover == 255 {
        min_int(v + c, mask)
    } else {
        min_int(v + (c * cover + 127) / 256, mask)
    }
}

/// One channel scaled by alpha: `v * a >> shift`.
pub open spec fn premul_channel(v: int, a: int, shift: nat) -> int {
    (v * a) / vstd::arithmetic::power2::pow2(shift) as int
}

/// One channel rescaled from alpha `a_old` to alpha `a`, at most `a`.
pub open spec fn rescale_channel(v: int, a: int, a_old: int) -> int {
    min_int(v * a / a_old, a)
}

/// One channel of a premultiplied colour brought back to full alpha,
/// at most `mask`.
pub open spec fn demul_channel(v: int, mask: int, a: int) -> int {
    min_int(v * mask / a, mask)
}

pub(crate) proof fn lemma_pow2_8_16()
    ensures
        vstd::arithmetic::power2::pow2(8) == 256,
        vstd::arithmetic::power2::pow2(16) == 0x1_0000,
{
    vstd::arithmetic::power2::lemma2_to64();
}

/// `(x * y) >> shift` for `x, y < 2^shift <= 2^16`.
pub(crate) fn mul_shr(x: u32, y: u32, shift: u32) -> (r: u32)
    requires
        x <= 0xFFFF,
        y <= 0xFFFF,
        shift == 8 || shift == 16,
    ensures
        r == premul_channel(x as int, y as int, shift as nat),
{
    proof {
        lemma_pow2_8_16();
    }
    assert(x * y <= 0xFFFF * 0xFFFF) by (nonlinear_arith)
        requires
            x <= 0xFFFF,
            y <= 0xFFFF,
    ;
    let p = x * y;
    proof {
        vstd::bits::lemma_u32_shr_is_div(p, shift);
    }
    p >> shift
}

/// `min(x * y / d, y)`.
pub(crate) fn rescale(x: u32, y: u32, d: u32) -> (r: u32)
    requires
        x * y <= u32::MAX,
        d > 0,
    ensures
        r == rescale_channel(x as int, y as int, d as int),
{
    let q = (x * y) / d;
    if q > y {
        y
    } else {
        q
    }
}

/// Accumulates channel `c` into `v` with the given coverage, saturating at
/// `mask`.
pub(crate) fn add_chan(v: u32, c: u32, cover: u32, mask: u32) -> (r: u32)
    requires
        v <= 0xFFFF,
        c <= 0xFFFF,
        cover != 255 ==> c * cover + 127 <= u32::MAX,
    ensures
        r == add_channel(v as int, c as int, cover as int, mask as int),
{
    if cover == 255 {
        let s = v + c;
        if s > mask {
            mask
        } else {
            s
        }
    } else {
        let t = (c * cover + 127) >> 8u32;
        proof {
            vstd::bits::lemma_u32_shr_is_div((c * cover + 127) as u32, 8u32);
            vstd::arithmetic::power2::lemma2_to64();
            vstd::arithmetic::div_mod::lemma_div_is_ordered(
                (c * cover + 127) as int,
                u32::MAX as int,
                256,
            );
        }
        let s = v + t;
        if s > mask {
            mask
        } else {
            s
        }
    }
}

/// One 16-bit channel accumulated: full coverage adds the channel, partial
/// coverage adds it scaled by `cover / 256` rounded up from `255 / 256`; the
/// sum is clamped to 65535.
pub open spec fn add_channel16(v: int, c: int, cover: int) -> int {
    if cover == 255 {
        min_int(v + c, 65535)
    } else {
        min_int(v + (c * cover + 255) / 256, 65535)
    }
}

/// One 16-bit channel of a premultiplied colour demultiplied as the library
/// does it: full scale when the quotient would pass it, zero otherwise.
pub open spec fn demul_channel16(v: int, a: int) -> int {
    if v * 65535 / a > 65535 {
        65535
    } else {
        0
    }
}

/// Accumulates 16-bit channel `c` into `v` with the given coverage,
/// saturating at 65535.
pub(crate) fn add_chan16(v: u32, c: u32, cover: u32) -> (r: u32)
    requires
        v <= 0xFFFF,
        c <= 0xFFFF,
        cover == 255 ==> v + c <= 0xFFFF,
        cover != 255 ==> c * cover + 255 <= u32::MAX,
    ensures
        r == add_channel16(v as int, c as int, cover as int),
{
    if cover == 255 {
        v + c
    } else {
        let t = (c * cover + 255) >> 8u32;
        proof {
            vstd::bits::lemma_u32_shr_is_div((c * cover + 255) as u32, 8u32);
            vstd::arithmetic::power2::lemma2_to64();
            vstd::arithmetic::div_mod::lemma_div_is_ordered(
                (c * cover + 255) as int,
                u32::MAX as int,
                256,
            );
        }
        let s = v + t;
        if s > 65535 {
            65535
        } else {
            s
        }
    }
}

impl RgbaBase<u8> {
    pub fn new_params(r_: u32, g_: u32, b_: u32, a_: u32) -> (r: Self)
        ensures
            r == (Rgba8 { r: r_ as u8, g: g_ as u8, b: b_ as u8, a: a_ as u8 }),
    {
        Rgba8 { r: r_ as u8, g: g_ as u8, b: b_ as u8, a: a_ as u8 }
    }

    pub fn new_from_self_a(c: &Rgba8, a_: u32) -> (r: Self)
        ensures
            r == (Rgba8 { a: a_ as u8, ..*c }),
    {
        Rgba8 { r: c.r, g: c.g, b: c.b, a: a_ as u8 }
    }

    /// Gamma-corrects the colour channels; alpha is kept.
    pub fn apply_gamma_dir<G: Gamma<u8, u8>>(&mut self, gamma: &G)
        requires
            gamma.gamma_wf(),
        ensures
            *final(self) == (Rgba8 {
                r: gamma.dir_spec(old(self).r),
                g: gamma.dir_spec(old(self).g),
                b: gamma.dir_spec(old(self).b),
                a: old(self).a,
            }),
    {
        self.r = gamma.dir(self.r);
        self.g = gamma.dir(self.g);
        self.b = gamma.dir(self.b);
    }

    /// Undoes a gamma correction on the colour channels; alpha is kept.
    pub fn apply_gamma_inv<G: Gamma<u8, u8>>(&mut self, gamma: &G)
        requires
            gamma.gamma_wf(),
        ensures
            *final(self) == (Rgba8 {
                r: gamma.inv_spec(old(self).r),
                g: gamma.inv_spec(old(self).g),
                b: gamma.inv_spec(old(self).b),
                a: old(self).a,
            }),
    {
        self.r = gamma.inv(self.r);
        self.g = gamma.inv(self.g);
        self.b = gamma.inv(self.b);
    }
}

impl Args for RgbaBase<u8> {
    type ValueType = u8;

    open spec fn spec_a(&self) -> u8 {
        self.a
    }

    fn a(&self) -> (r: u8)
        ensures
            r == self.a,
    {
        self.a
    }

    fn a_mut(&mut self) -> (r: &mut u8)
        ensures
            *r == old(self).a,
            *final(self) == (Rgba8 { a: *final(r), ..*old(self) }),
    {
        &mut self.a
    }
}

impl RgbArgs for RgbaBase<u8> {
    open spec fn spec_rgb(&self) -> (u8, u8, u8) {
        (self.r, self.g, self.b)
    }

    fn new_init(r_: u8, g_: u8, b_: u8, a_: u8) -> (r: Self)
        ensures
            r == (Rgba8 { r: r_, g: g_, b: b_, a: a_ }),
    {
        Self { r: r_, g: g_, b: b_, a: a_ }
    }

    fn r(&self) -> (r: u8)
        ensures
            r == self.r,
    {
        self.r
    }

    fn g(&self) -> (r: u8)
        ensures
            r == self.g,
    {
        self.g
    }

    fn b(&self) -> (r: u8)
        ensures
            r == self.b,
    {
        self.b
    }

    fn r_mut(&mut self) -> (r: &mut u8)
        ensures
            *r == old(self).r,
            *final(self) == (Rgba8 { r: *final(r), ..*old(self) }),
    {
        &mut self.r
    }

    fn g_mut(&mut self) -> (r: &mut u8)
        ensures
            *r == old(self).g,
            *final(self) == (Rgba8 { g: *final(r), ..*old(self) }),
    {
        &mut self.g
    }

    fn b_mut(&mut self) -> (r: &mut u8)
        ensures
            *r == old(self).b,
            *final(self) == (Rgba8 { b: *final(r), ..*old(self) }),
    {
        &mut self.b
    }
}

impl Color for RgbaBase<u8> {
    open spec fn add_ok(&self, c: &Self, cover: u32) -> bool {
        &&& cover == 255 && c.a != 255 ==> {
            &&& self.r + c.r <= 255
            &&& self.g + c.g <= 255
            &&& self.b + c.b <= 255
            &&& self.a + c.a <= 255
        }
        &&& cover != 255 ==> {
            &&& c.r * cover + 127 <= u32::MAX
            &&& c.g * cover + 127 <= u32::MAX
            &&& c.b * cover + 127 <= u32::MAX
            &&& c.a * cover + 127 <= u32::MAX
        }
    }

    open spec fn premultiply_a_ok(&self, a: u32) -> bool {
        self.r * a <= u32::MAX && self.g * a <= u32::MAX && self.b * a <= u32::MAX
    }

    fn base_shift() -> (r: u32)
        ensures
            r == 8,
    {
        8
    }

    fn base_scale() -> (r: u32)
        ensures
            r == 256,
    {
        256
    }

    fn base_mask() -> (r: u32)
        ensures
            r == 255,
    {
        255
    }

    fn new() -> (r: Self)
        ensures
            r == (Rgba8 { r: 0, g: 0, b: 0, a: 0 }),
    {
        Rgba8 { r: 0, g: 0, b: 0, a: 0 }
    }

    fn no_color() -> (r: Self)
        ensures
            r == (Rgba8 { r: 0, g: 0, b: 0, a: 0 }),
    {
        Rgba8 { r: 0, g: 0, b: 0, a: 0 }
    }

    /// Adds `c` with coverage `cover`; full coverage of an opaque colour
    /// replaces this one.
    fn add(&mut self, c: &Self, cover: u32)
        ensures
            cover == 255 && c.a == 255 ==> *final(self) == *c,
            !(cover == 255 && c.a == 255) ==> {
                &&& final(self).r == add_channel(old(self).r as int, c.r as int, cover as int, 255)
                &&& final(self).g == add_channel(old(self).g as int, c.g as int, cover as int, 255)
                &&& final(self).b == add_channel(old(self).b as int, c.b as int, cover as int, 255)
                &&& final(self).a == add_channel(old(self).a as int, c.a as int, cover as int, 255)
            },
    {
        if cover == 255 && c.a == 255 {
            *self = *c;
        } else {
            self.r = add_chan(self.r as u32, c.r as u32, cover, 255) as u8;
            self.g = add_chan(self.g as u32, c.g as u32, cover, 255) as u8;
            self.b = add_chan(self.b as u32, c.b as u32, cover, 255) as u8;
            self.a = add_chan(self.a as u32, c.a as u32, cover, 255) as u8;
        }
    }

    fn clear(&mut self)
        ensures
            *final(self) == (Rgba8 { r: 0, g: 0, b: 0, a: 0 }),
    {
        self.r = 0;
        self.g = 0;
        self.b = 0;
        self.a = 0;
    }

    fn transparent(&mut self) -> (r: &Self)
        ensures
            *final(self) == (Rgba8 { a: 0, ..*old(self) }),
            *r == *final(self),
    {
        self.a = 0;
        self
    }

    /// Scales the colour channels by alpha.
    fn premultiply(&mut self) -> (r: &Self)
        ensures
            old(self).a == 255 ==> *final(self) == *old(self),
            old(self).a == 0 ==> *final(self) == (Rgba8 { r: 0, g: 0, b: 0, a: 0 }),
            0 < old(self).a < 255 ==> *final(self) == (Rgba8 {
                r: premul_channel(old(self).r as int, old(self).a as int, 8) as u8,
                g: premul_channel(old(self).g as int, old(self).a as int, 8) as u8,
                b: premul_channel(old(self).b as int, old(self).a as int, 8) as u8,
                a: old(self).a,
            }),
            *r == *final(self),
    {
        if self.a == 255 {
            return self;
        }
        if self.a == 0 {
            self.r = 0;
            self.g = 0;
            self.b = 0;
            return self;
        }
        self.r = mul_shr(self.r as u32, self.a as u32, 8) as u8;
        self.g = mul_shr(self.g as u32, self.a as u32, 8) as u8;
        self.b = mul_shr(self.b as u32, self.a as u32, 8) as u8;
        self
    }

    /// Rescales a premultiplied colour to alpha `a_`.
    fn premultiply_a(&mut self, a_: u32) -> (r: &Self)
        ensures
            old(self).a == 255 && a_ >= 255 ==> *final(self) == *old(self),
            !(old(self).a == 255 && a_ >= 255) && (old(self).a == 0 || a_ == 0) ==> *final(self)
                == (Rgba8 { r: 0, g: 0, b: 0, a: 0 }),
            !(old(self).a == 255 && a_ >= 255) && old(self).a != 0 && a_ != 0 ==> *final(self)
                == (Rgba8 {
                r: rescale_channel(old(self).r as int, a_ as int, old(self).a as int) as u8,
                g: rescale_channel(old(self).g as int, a_ as int, old(self).a as int) as u8,
                b: rescale_channel(old(self).b as int, a_ as int, old(self).a as int) as u8,
                a: a_ as u8,
            }),
            *r == *final(self),
    {
        if self.a == 255 && a_ >= 255 {
            return self;
        }
        if self.a == 0 || a_ == 0 {
            self.r = 0;
            self.g = 0;
            self.b = 0;
            self.a = 0;
            return self;
        }
        self.r = rescale(self.r as u32, a_, self.a as u32) as u8;
        self.g = rescale(self.g as u32, a_, self.a as u32) as u8;
        self.b = rescale(self.b as u32, a_, self.a as u32) as u8;
        self.a = a_ as u8;
        self
    }

    /// Brings a premultiplied colour back to full alpha.
    fn demultiply(&mut self) -> (r: &Self)
        ensures
            old(self).a == 255 ==> *final(self) == *old(self),
            old(self).a == 0 ==> *final(self) == (Rgba8 { r: 0, g: 0, b: 0, a: 0 }),
            0 < old(self).a < 255 ==> *final(self) == (Rgba8 {
                r: demul_channel(old(self).r as int, 255, old(self).a as int) as u8,
                g: demul_channel(old(self).g as int, 255, old(self).a as int) as u8,
                b: demul_channel(old(self).b as int, 255, old(self).a as int) as u8,
                a: old(self).a,
            }),
            *r == *final(self),
    {
        if self.a == 255 {
            return self;
        }
        if self.a == 0 {
            self.r = 0;
            self.g = 0;
            self.b = 0;
            return self;
        }
        assert(self.r * 255 <= u32::MAX && self.g * 255 <= u32::MAX && self.b * 255 <= u32::MAX)
            by (nonlinear_arith)
            requires
                self.r <= 255,
                self.g <= 255,
                self.b <= 255,
        ;
        self.r = rescale(self.r as u32, 255, self.a as u32) as u8;
        self.g = rescale(self.g as u32, 255, self.a as u32) as u8;
        self.b = rescale(self.b as u32, 255, self.a as u32) as u8;
        self
    }
}

/// A colour given by its channels, premultiplied.
pub fn rgba8_pre(r: u32, g: u32, b: u32, a: u32) -> (res: Rgba8)
    ensures
        a as u8 == 255 ==> res == Rgba8::new_params_spec(r, g, b, a),
        a as u8 == 0 ==> res == (Rgba8 { r: 0, g: 0, b: 0, a: 0 }),
        0 < (a as u8) && (a as u8) < 255 ==> res == (Rgba8 {
            r: premul_channel(r as u8 as int, a as u8 as int, 8) as u8,
            g: premul_channel(g as u8 as int, a as u8 as int, 8) as u8,
            b: premul_channel(b as u8 as int, a as u8 as int, 8) as u8,
            a: a as u8,
        }),
{
    let mut c = Rgba8::new_params(r, g, b, a);
    c.premultiply();
    c
}

impl RgbaBase<u8> {
    pub open spec fn new_params_spec(r: u32, g: u32, b: u32, a: u32) -> Rgba8 {
        Rgba8 { r: r as u8, g: g as u8, b: b as u8, a: a as u8 }
    }
}

/// An opaque colour from `0x00RRGGBB`.
pub fn rgb8_packed(v: u32) -> (r: Rgba8)
    ensures
        r == (Rgba8 { r: (v >> 16u32) as u8, g: (v >> 8u32) as u8, b: v as u8, a: 255 }),
{
    let res = Rgba8::new_params((v >> 16u32) & 0xFF, (v >> 8u32) & 0xFF, v & 0xFF, 255);
    proof {
        lemma_low_byte(v >> 16u32);
        lemma_low_byte(v >> 8u32);
        lemma_low_byte(v);
    }
    res
}

/// An opaque colour from `0x00BBGGRR`.
pub fn bgr8_packed(v: u32) -> (r: Rgba8)
    ensures
        r == (Rgba8 { r: v as u8, g: (v >> 8u32) as u8, b: (v >> 16u32) as u8, a: 255 }),
{
    let res = Rgba8::new_params(v & 0xFF, (v >> 8u32) & 0xFF, (v >> 16u32) & 0xFF, 255);
    proof {
        lemma_low_byte(v >> 16u32);
        lemma_low_byte(v >> 8u32);
        lemma_low_byte(v);
    }
    res
}

/// A colour from `0xAARRGGBB`.
pub fn argb8_packed(v: u32) -> (r: Rgba8)
    ensures
        r == (Rgba8 {
            r: (v >> 16u32) as u8,
            g: (v >> 8u32) as u8,
            b: v as u8,
            a: (v >> 24u32) as u8,
        }),
{
    let res = Rgba8::new_params((v >> 16u32) & 0xFF, (v >> 8u32) & 0xFF, v & 0xFF, v >> 24u32);
    proof {
        lemma_low_byte(v >> 16u32);
        lemma_low_byte(v >> 8u32);
        lemma_low_byte(v);
    }
    res
}

/// Masking with `0xFF` keeps what a cast to `u8` keeps.
proof fn lemma_low_byte(x: u32)
    ensures
        (x & 0xFF) as u8 == x as u8,
{
    assert((x & 0xFF) as u8 == x as u8) by (bit_vector);
}

/// The colour with its colour channels gamma-corrected.
pub fn rgba8_gamma_dir<G: Gamma<u8, u8>>(c: Rgba8, gamma: &G) -> (r: Rgba8)
    requires
        gamma.gamma_wf(),
    ensures
        r == (Rgba8 {
            r: gamma.dir_spec(c.r),
            g: gamma.dir_spec(c.g),
            b: gamma.dir_spec(c.b),
            a: c.a,
        }),
{
    Rgba8::new_params(
        gamma.dir(c.r) as u32,
        gamma.dir(c.g) as u32,
        gamma.dir(c.b) as u32,
        c.a as u32,
    )
}

/// The colour with a gamma correction of its colour channels undone.
pub fn rgba8_gamma_inv<G: Gamma<u8, u8>>(c: Rgba8, gamma: &G) -> (r: Rgba8)
    requires
        gamma.gamma_wf(),
    ensures
        r == (Rgba8 {
            r: gamma.inv_spec(c.r),
            g: gamma.inv_spec(c.g),
            b: gamma.inv_spec(c.b),
            a: c.a,
        }),
{
    Rgba8::new_params(
        gamma.inv(c.r) as u32,
        gamma.inv(c.g) as u32,
        gamma.inv(c.b) as u32,
        c.a as u32,
    )
}

impl RgbaBase<u16> {
    pub fn new_params(r_: u32, g_: u32, b_: u32, a_: u32) -> (r: Self)
        ensures
            r == (Rgba16 { r: r_ as u16, g: g_ as u16, b: b_ as u16, a: a_ as u16 }),
    {
        Rgba16 { r: r_ as u16, g: g_ as u16, b: b_ as u16, a: a_ as u16 }
    }

    pub fn new_from_self_a(c: &Rgba16, a_: u32) -> (r: Self)
        ensures
            r == (Rgba16 { a: a_ as u16, ..*c }),
    {
        Rgba16 { r: c.r, g: c.g, b: c.b, a: a_ as u16 }
    }

    /// Widens an 8-bit colour: each byte `v` becomes `v * 257`.
    pub fn new_from_rgba8(c: &Rgba8) -> (r: Self)
        ensures
            r == (Rgba16 {
                r: (c.r * 257) as u16,
                g: (c.g * 257) as u16,
                b: (c.b * 257) as u16,
                a: (c.a * 257) as u16,
            }),
    {
        Rgba16 {
            r: widen_byte(c.r),
            g: widen_byte(c.g),
            b: widen_byte(c.b),
            a: widen_byte(c.a),
        }
    }

    /// Widens an 8-bit colour; alpha takes `a_` in its high byte and the
    /// colour's alpha in its low byte.
    pub fn new_from_rgba8_a(c: &Rgba8, a_: u16) -> (r: Self)
        ensures
            r == (Rgba16 {
                r: (c.r * 257) as u16,
                g: (c.g * 257) as u16,
                b: (c.b * 257) as u16,
                a: (a_ << 8u16) | (c.a as u16),
            }),
    {
        Rgba16 {
            r: widen_byte(c.r),
            g: widen_byte(c.g),
            b: widen_byte(c.b),
            a: (a_ << 8u16) | (c.a as u16),
        }
    }
}

impl RgbaBase<u16> {
    /// Gamma-corrects the colour channels; alpha is kept.
    pub fn apply_gamma_dir<G: Gamma<u16, u16>>(&mut self, gamma: &G)
        requires
            gamma.gamma_wf(),
        ensures
            *final(self) == (Rgba16 {
                r: gamma.dir_spec(old(self).r),
                g: gamma.dir_spec(old(self).g),
                b: gamma.dir_spec(old(self).b),
                a: old(self).a,
            }),
    {
        self.r = gamma.dir(self.r);
        self.g = gamma.dir(self.g);
        self.b = gamma.dir(self.b);
    }

    /// Undoes a gamma correction on the colour channels; alpha is kept.
    pub fn apply_gamma_inv<G: Gamma<u16, u16>>(&mut self, gamma: &G)
        requires
            gamma.gamma_wf(),
        ensures
            *final(self) == (Rgba16 {
                r: gamma.inv_spec(old(self).r),
                g: gamma.inv_spec(old(self).g),
                b: gamma.inv_spec(old(self).b),
                a: old(self).a,
            }),
    {
        self.r = gamma.inv(self.r);
        self.g = gamma.inv(self.g);
        self.b = gamma.inv(self.b);
    }
}

/// The colour with its colour channels gamma-corrected.
pub fn rgba16_gamma_dir<G: Gamma<u16, u16>>(c: Rgba16, gamma: &G) -> (r: Rgba16)
    requires
        gamma.gamma_wf(),
    ensures
        r == (Rgba16 { r: gamma.dir_spec(c.r), g: gamma.dir_spec(c.g), b: gamma.dir_spec(c.b), a: c.a }),
{
    Rgba16::new_params(gamma.dir(c.r) as u32, gamma.dir(c.g) as u32, gamma.dir(c.b) as u32, c.a as u32)
}

/// The colour with the gamma correction of its colour channels undone.
pub fn rgba16_gamma_inv<G: Gamma<u16, u16>>(c: Rgba16, gamma: &G) -> (r: Rgba16)
    requires
        gamma.gamma_wf(),
    ensures
        r == (Rgba16 { r: gamma.inv_spec(c.r), g: gamma.inv_spec(c.g), b: gamma.inv_spec(c.b), a: c.a }),
{
    Rgba16::new_params(gamma.inv(c.r) as u32, gamma.inv(c.g) as u32, gamma.inv(c.b) as u32, c.a as u32)
}

impl From<Rgba8> for Rgba16 {
    fn from(c: Rgba8) -> (r: Self) {
        Self::new_from_rgba8(&c)
    }
}

impl vstd::std_specs::convert::FromSpecImpl<Rgba8> for Rgba16 {
    open spec fn obeys_from_spec() -> bool {
        true
    }

    open spec fn from_spec(c: Rgba8) -> Rgba16 {
        Rgba16 {
            r: (c.r * 257) as u16,
            g: (c.g * 257) as u16,
            b: (c.b * 257) as u16,
            a: (c.a * 257) as u16,
        }
    }
}

impl Color for RgbaBase<u16> {
    open spec fn add_ok(&self, c: &Self, cover: u32) -> bool {
        &&& cover == 255 && c.a != 65535 ==> {
            &&& self.r + c.r <= 65535
            &&& self.g + c.g <= 65535
            &&& self.b + c.b <= 65535
            &&& self.a + c.a <= 65535
        }
        &&& cover != 255 ==> {
            &&& c.r * cover + 255 <= u32::MAX
            &&& c.g * cover + 255 <= u32::MAX
            &&& c.b * cover + 255 <= u32::MAX
            &&& c.a * cover + 255 <= u32::MAX
        }
    }

    open spec fn premultiply_a_ok(&self, a: u32) -> bool {
        self.r * a <= u32::MAX && self.g * a <= u32::MAX && self.b * a <= u32::MAX
    }

    fn base_shift() -> (r: u32)
        ensures
            r == 16,
    {
        16
    }

    fn base_scale() -> (r: u32)
        ensures
            r == 65536,
    {
        65536
    }

    fn base_mask() -> (r: u32)
        ensures
            r == 65535,
    {
        65535
    }

    /// Opaque black.
    fn new() -> (r: Self)
        ensures
            r == (Rgba16 { r: 0, g: 0, b: 0, a: 0xffff }),
    {
        Rgba16 { r: 0, g: 0, b: 0, a: 0xffff }
    }

    fn no_color() -> (r: Self)
        ensures
            r == (Rgba16 { r: 0, g: 0, b: 0, a: 0 }),
    {
        Rgba16 { r: 0, g: 0, b: 0, a: 0 }
    }

    /// Adds `c` with coverage `cover`; full coverage of an opaque colour
    /// replaces this one.
    fn add(&mut self, c: &Self, cover: u32)
        ensures
            cover == 255 && c.a == 65535 ==> *final(self) == *c,
            !(cover == 255 && c.a == 65535) ==> {
                &&& final(self).r == add_channel16(old(self).r as int, c.r as int, cover as int)
                &&& final(self).g == add_channel16(old(self).g as int, c.g as int, cover as int)
                &&& final(self).b == add_channel16(old(self).b as int, c.b as int, cover as int)
                &&& final(self).a == add_channel16(old(self).a as int, c.a as int, cover as int)
            },
    {
        if cover == 255 && c.a == 65535 {
            *self = *c;
        } else {
            self.r = add_chan16(self.r as u32, c.r as u32, cover) as u16;
            self.g = add_chan16(self.g as u32, c.g as u32, cover) as u16;
            self.b = add_chan16(self.b as u32, c.b as u32, cover) as u16;
            self.a = add_chan16(self.a as u32, c.a as u32, cover) as u16;
        }
    }

    fn clear(&mut self)
        ensures
            *final(self) == (Rgba16 { r: 0, g: 0, b: 0, a: 0 }),
    {
        self.r = 0;
        self.g = 0;
        self.b = 0;
        self.a = 0;
    }

    fn transparent(&mut self) -> (r: &Self)
        ensures
            *final(self) == (Rgba16 { a: 0, ..*old(self) }),
            *r == *final(self),
    {
        self.a = 0;
        self
    }

    /// Scales the colour channels by alpha.
    fn premultiply(&mut self) -> (r: &Self)
        ensures
            old(self).a == 65535 ==> *final(self) == *old(self),
            old(self).a == 0 ==> *final(self) == (Rgba16 { r: 0, g: 0, b: 0, a: 0 }),
            0 < old(self).a < 65535 ==> *final(self) == (Rgba16 {
                r: premul_channel(old(self).r as int, old(self).a as int, 16) as u16,
                g: premul_channel(old(self).g as int, old(self).a as int, 16) as u16,
                b: premul_channel(old(self).b as int, old(self).a as int, 16) as u16,
                a: old(self).a,
            }),
            *r == *final(self),
    {
        if self.a == 65535 {
            return self;
        }
        if self.a == 0 {
            self.r = 0;
            self.g = 0;
            self.b = 0;
            return self;
        }
        self.r = mul_shr(self.r as u32, self.a as u32, 16) as u16;
        self.g = mul_shr(self.g as u32, self.a as u32, 16) as u16;
        self.b = mul_shr(self.b as u32, self.a as u32, 16) as u16;
        self
    }

    /// Rescales a premultiplied colour to alpha `a_`.
    fn premultiply_a(&mut self, a_: u32) -> (r: &Self)
        ensures
            old(self).a == 65535 && a_ >= 65535 ==> *final(self) == *old(self),
            !(old(self).a == 65535 && a_ >= 65535) && (old(self).a == 0 || a_ == 0) ==> *final(self)
                == (Rgba16 { r: 0, g: 0, b: 0, a: 0 }),
            !(old(self).a == 65535 && a_ >= 65535) && old(self).a != 0 && a_ != 0 ==> *final(self)
                == (Rgba16 {
                r: rescale_channel(old(self).r as int, a_ as int, old(self).a as int) as u16,
                g: rescale_channel(old(self).g as int, a_ as int, old(self).a as int) as u16,
                b: rescale_channel(old(self).b as int, a_ as int, old(self).a as int) as u16,
                a: a_ as u16,
            }),
            *r == *final(self),
    {
        if self.a == 65535 && a_ >= 65535 {
            return self;
        }
        if self.a == 0 || a_ == 0 {
            self.r = 0;
            self.g = 0;
            self.b = 0;
            self.a = 0;
            return self;
        }
        self.r = rescale(self.r as u32, a_, self.a as u32) as u16;
        self.g = rescale(self.g as u32, a_, self.a as u32) as u16;
        self.b = rescale(self.b as u32, a_, self.a as u32) as u16;
        self.a = a_ as u16;
        self
    }

    /// Brings a premultiplied colour back to full alpha: each colour channel becomes full scale when its quotient
    /// passes full scale and zero otherwise.
    fn demultiply(&mut self) -> (r: &Self)
        ensures
            old(self).a == 65535 ==> *final(self) == *old(self),
            old(self).a == 0 ==> *final(self) == (Rgba16 { r: 0, g: 0, b: 0, a: 0 }),
            0 < old(self).a < 65535 ==> *final(self) == (Rgba16 {
                r: demul_channel16(old(self).r as int, old(self).a as int) as u16,
                g: demul_channel16(old(self).g as int, old(self).a as int) as u16,
                b: demul_channel16(old(self).b as int, old(self).a as int) as u16,
                a: old(self).a,
            }),
            *r == *final(self),
    {
        if self.a == 65535 {
            return self;
        }
        if self.a == 0 {
            self.r = 0;
            self.g = 0;
            self.b = 0;
            return self;
        }
        assert(self.r * 65535 <= u32::MAX && self.g * 65535 <= u32::MAX && self.b * 65535 <= u32::MAX)
            by (nonlinear_arith)
            requires
                self.r <= 65535,
                self.g <= 65535,
                self.b <= 65535,
        ;
        let a = self.a as u32;
        let r_ = (self.r as u32 * 65535) / a;
        let g_ = (self.g as u32 * 65535) / a;
        let b_ = (self.b as u32 * 65535) / a;
        self.r = (if r_ > 65535 { 65535u32 } else { 0u32 }) as u16;
        self.g = (if g_ > 65535 { 65535u32 } else { 0u32 }) as u16;
        self.b = (if b_ > 65535 { 65535u32 } else { 0u32 }) as u16;
        self
    }
}

/// `(v << 8) | v`, the byte repeated in both halves of a 16-bit value.
fn widen_byte(v: u8) -> (r: u16)
    ensures
        r == v * 257,
{
    let w = v as u16;
    let r = (w << 8u16) | w;
    assert(r == w * 257) by (bit_vector)
        requires
            w <= 255,
            r == (w << 8u16) | w,
    ;
    r
}

impl Args for RgbaBase<u16> {
    type ValueType = u16;

    open spec fn spec_a(&self) -> u16 {
        self.a
    }

    fn a(&self) -> (r: u16)
        ensures
            r == self.a,
    {
        self.a
    }

    fn a_mut(&mut self) -> (r: &mut u16)
        ensures
            *r == old(self).a,
            *final(self) == (Rgba16 { a: *final(r), ..*old(self) }),
    {
        &mut self.a
    }
}

impl RgbArgs for RgbaBase<u16> {
    open spec fn spec_rgb(&self) -> (u16, u16, u16) {
        (self.r, self.g, self.b)
    }

    fn new_init(r_: u16, g_: u16, b_: u16, a_: u16) -> (r: Self)
        ensures
            r == (Rgba16 { r: r_, g: g_, b: b_, a: a_ }),
    {
        Self { r: r_, g: g_, b: b_, a: a_ }
    }

    fn r(&self) -> (r: u16)
        ensures
            r == self.r,
    {
        self.r
    }

    fn g(&self) -> (r: u16)
        ensures
            r == self.g,
    {
        self.g
    }

    fn b(&self) -> (r: u16)
        ensures
            r == self.b,
    {
        self.b
    }

    fn r_mut(&mut self) -> (r: &mut u16)
        ensures
            *r == old(self).r,
            *final(self) == (Rgba16 { r: *final(r), ..*old(self) }),
    {
        &mut self.r
    }

    fn g_mut(&mut self) -> (r: &mut u16)
        ensures
            *r == old(self).g,
            *final(self) == (Rgba16 { g: *final(r), ..*old(self) }),
    {
        &mut self.g
    }

    fn b_mut(&mut self) -> (r: &mut u16)
        ensures
            *r == old(self).b,
            *final(self) == (Rgba16 { b: *final(r), ..*old(self) }),
    {
        &mut self.b
    }
}

/// The 8-bit colour `c` premultiplied by its own alpha.
pub open spec fn premultiplied8(c: Rgba8) -> Rgba8 {
    if c.a == 255 {
        c
    } else if c.a == 0 {
        Rgba8 { r: 0, g: 0, b: 0, a: 0 }
    } else {
        Rgba8 {
            r: premul_channel(c.r as int, c.a as int, 8) as u8,
            g: premul_channel(c.g as int, c.a as int, 8) as u8,
            b: premul_channel(c.b as int, c.a as int, 8) as u8,
            a: c.a,
        }
    }
}

/// The 16-bit colour `c` premultiplied by its own alpha.
pub open spec fn premultiplied16(c: Rgba16) -> Rgba16 {
    if c.a == 65535 {
        c
    } else if c.a == 0 {
        Rgba16 { r: 0, g: 0, b: 0, a: 0 }
    } else {
        Rgba16 {
            r: premul_channel(c.r as int, c.a as int, 16) as u16,
            g: premul_channel(c.g as int, c.a as int, 16) as u16,
            b: premul_channel(c.b as int, c.a as int, 16) as u16,
            a: c.a,
        }
    }
}

/// The colour made opaque; opaque colours are their own premultiplied form.
pub fn rgba8_pre_from_rgba8(c: &Rgba8) -> (r: Rgba8)
    ensures
        r == (Rgba8 { a: 255, ..*c }),
        r == premultiplied8(Rgba8 { a: 255, ..*c }),
{
    let mut p = Rgba8::new_from_self_a(c, 255);
    p.premultiply();
    p
}

/// The colour with alpha `a` (its low byte), premultiplied.
pub fn rgba8_pre_from_rgba8_a(c: &Rgba8, a: u32) -> (r: Rgba8)
    ensures
        r == premultiplied8(Rgba8 { a: a as u8, ..*c }),
{
    let mut p = Rgba8::new_from_self_a(c, a);
    p.premultiply();
    p
}

/// A 16-bit colour given by its channels (their low 16 bits), premultiplied.
pub fn rgba16_pre(r: u32, g: u32, b: u32, a: u32) -> (res: Rgba16)
    ensures
        res == premultiplied16(Rgba16 { r: r as u16, g: g as u16, b: b as u16, a: a as u16 }),
{
    let mut p = Rgba16::new_params(r, g, b, a);
    p.premultiply();
    p
}

/// The 16-bit colour with alpha `a` (its low 16 bits), premultiplied.
pub fn rgba16_pre_rgba16_a(c: &Rgba16, a: u32) -> (r: Rgba16)
    ensures
        r == premultiplied16(Rgba16 { a: a as u16, ..*c }),
{
    let mut p = Rgba16::new_from_self_a(c, a);
    p.premultiply();
    p
}

/// An 8-bit colour widened to 16 bits, premultiplied.
pub fn rgba16_pre_from_rgba8(c: &Rgba8) -> (r: Rgba16)
    ensures
        r == premultiplied16(
            Rgba16 {
                r: (c.r * 257) as u16,
                g: (c.g * 257) as u16,
                b: (c.b * 257) as u16,
                a: (c.a * 257) as u16,
            },
        ),
{
    let mut p = Rgba16::new_from_rgba8(c);
    p.premultiply();
    p
}

/// An 8-bit colour widened to 16 bits with alpha `a` in the high byte and
/// the colour's alpha in the low byte, premultiplied.
pub fn rgba16_pre_from_rgba8_a(c: &Rgba8, a: u16) -> (r: Rgba16)
    ensures
        r == premultiplied16(
            Rgba16 {
                r: (c.r * 257) as u16,
                g: (c.g * 257) as u16,
                b: (c.b * 257) as u16,
                a: (a << 8u16) | (c.a as u16),
            },
        ),
{
    let mut p = Rgba16::new_from_rgba8_a(c, a);
    p.premultiply();
    p
}

} // verus!
