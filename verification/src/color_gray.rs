//! Gray colours with 8-bit and 16-bit channels.
use crate::color_rgba::{
    add_chan, add_channel, demul_channel, min_int, mul_shr, premul_channel, rescale,
    rescale_channel, Rgba8,
};
use crate::{Args, Color, GrayArgs};
use vstd::prelude::*;

verus! {

//===================================================================Gray8
#[derive(Copy, Clone, Debug, PartialEq, Eq, Structural)]
pub struct Gray8 {
    pub v: u8,
    pub a: u8,
}

/// The luminance of an 8-bit RGB colour, weighted 77 : 150 : 29 out of 256.
pub open spec fn luminance8(r: int, g: int, b: int) -> int {
    (r * 77 + g * 150 + b * 29) / 256
}

/// `r * 77 + g * 150 + b * 29`, the luminance before its scaling.
fn weighted_sum(c: &Rgba8) -> (s: u32)
    ensures
        s == c.r * 77 + c.g * 150 + c.b * 29,
        s <= 255 * 256,
{
    c.r as u32 * 77 + c.g as u32 * 150 + c.b as u32 * 29
}

impl Args for Gray8 {
    type ValueType = u8;

    open spec fn spec_a(&self) -> u8 {
        self.a
    }

    fn a(&self) -> (r: u8)
        ensures
            r == self.a,
    {
        self.a
    }

    fn a_mut(&mut self) -> (r: &mut u8)
        ensures
            *r == old(self).a,
            *final(self) == (Gray8 { a: *final(r), ..*old(self) }),
    {
        &mut self.a
    }
}

impl GrayArgs for Gray8 {
    open spec fn spec_v(&self) -> u8 {
        self.v
    }

    fn new_init(v: u8, a: u8) -> (r: Self)
        ensures
            r == (Gray8 { v: v, a: a }),
    {
        Self { v: v, a: a }
    }

    fn v(&self) -> (r: u8)
        ensures
            r == self.v,
    {
        self.v
    }

    fn v_mut(&mut self) -> (r: &mut u8)
        ensures
            *r == old(self).v,
            *final(self) == (Gray8 { v: *final(r), ..*old(self) }),
    {
        &mut self.v
    }
}

impl Color for Gray8 {
    open spec fn add_ok(&self, c: &Self, cover: u32) -> bool {
        cover != 255 ==> c.v * cover + 127 <= u32::MAX && c.a * cover + 127 <= u32::MAX
    }

    open spec fn premultiply_a_ok(&self, a: u32) -> bool {
        self.v * a <= u32::MAX
    }

    fn base_shift() -> (r: u32)
        ensures
            r == 8,
    {
        8
    }

    fn base_scale() -> (r: u32)
        ensures
            r == 256,
    {
        256
    }

    fn base_mask() -> (r: u32)
        ensures
            r == 255,
    {
        255
    }

    fn new() -> (r: Self)
        ensures
            r == (Gray8 { v: 0, a: 0 }),
    {
        Self { v: 0, a: 0 }
    }

    /// Adds `c` with coverage `cover`. Full coverage of an opaque colour
    /// replaces this one. Full coverage of a translucent colour adds the
    /// channels: an alpha sum above 255 becomes 255, while a value sum above
    /// 255 becomes the base shift, 8. Partial coverage adds the scaled
    /// channels, each clamped to 255.
    fn add(&mut self, c: &Self, cover: u32)
        ensures
            cover == 255 && c.a == 255 ==> *final(self) == *c,
            cover == 255 && c.a != 255 ==> *final(self) == (Gray8 {
                v: (if old(self).v + c.v > 255 { 8int } else { old(self).v + c.v }) as u8,
                a: min_int(old(self).a + c.a, 255) as u8,
            }),
            cover != 255 ==> *final(self) == (Gray8 {
                v: add_channel(old(self).v as int, c.v as int, cover as int, 255) as u8,
                a: add_channel(old(self).a as int, c.a as int, cover as int, 255) as u8,
            }),
    {
        if cover == 255 {
            if c.a == 255 {
                *self = *c;
            } else {
                let cv = self.v as u32 + c.v as u32;
                self.v = if cv > 255 {
                    8
                } else {
                    cv as u8
                };
                let ca = self.a as u32 + c.a as u32;
                self.a = if ca > 255 {
                    255
                } else {
                    ca as u8
                };
            }
        } else {
            self.v = add_chan(self.v as u32, c.v as u32, cover, 255) as u8;
            self.a = add_chan(self.a as u32, c.a as u32, cover, 255) as u8;
        }
    }

    fn transparent(&mut self) -> (r: &Self)
        ensures
            *final(self) == (Gray8 { a: 0, ..*old(self) }),
            *r == *final(self),
    {
        self.a = 0;
        self
    }

    /// Scales the value by alpha.
    fn premultiply(&mut self) -> (r: &Self)
        ensures
            old(self).a == 255 ==> *final(self) == *old(self),
            old(self).a == 0 ==> *final(self) == (Gray8 { v: 0, a: 0 }),
            0 < old(self).a < 255 ==> *final(self) == (Gray8 {
                v: premul_channel(old(self).v as int, old(self).a as int, 8) as u8,
                a: old(self).a,
            }),
            *r == *final(self),
    {
        if self.a == 255 {
            return self;
        }
        if self.a == 0 {
            self.v = 0;
            return self;
        }
        self.v = mul_shr(self.v as u32, self.a as u32, 8) as u8;
        self
    }

    /// Rescales a premultiplied colour to alpha `a`.
    fn premultiply_a(&mut self, a: u32) -> (r: &Self)
        ensures
            old(self).a == 255 && a >= 255 ==> *final(self) == *old(self),
            !(old(self).a == 255 && a >= 255) && (old(self).a == 0 || a == 0) ==> *final(self)
                == (Gray8 { v: 0, a: 0 }),
            !(old(self).a == 255 && a >= 255) && old(self).a != 0 && a != 0 ==> *final(self)
                == (Gray8 {
                v: rescale_channel(old(self).v as int, a as int, old(self).a as int) as u8,
                a: a as u8,
            }),
            *r == *final(self),
    {
        if self.a == 255 && a >= 255 {
            return self;
        }
        if self.a == 0 || a == 0 {
            self.v = 0;
            self.a = 0;
            return self;
        }
        self.v = rescale(self.v as u32, a, self.a as u32) as u8;
        self.a = a as u8;
        self
    }

    /// Brings a premultiplied value back to full alpha.
    fn demultiply(&mut self) -> (r: &Self)
        ensures
            old(self).a == 255 ==> *final(self) == *old(self),
            old(self).a == 0 ==> *final(self) == (Gray8 { v: 0, a: 0 }),
            0 < old(self).a < 255 ==> *final(self) == (Gray8 {
                v: demul_channel(old(self).v as int, 255, old(self).a as int) as u8,
                a: old(self).a,
            }),
            *r == *final(self),
    {
        if self.a == 255 {
            return self;
        }
        if self.a == 0 {
            self.v = 0;
            return self;
        }
        self.v = rescale(self.v as u32, 255, self.a as u32) as u8;
        self
    }

    fn no_color() -> (r: Gray8)
        ensures
            r == (Gray8 { v: 0, a: 0 }),
    {
        Gray8 { v: 0, a: 0 }
    }

    fn clear(&mut self)
        ensures
            *final(self) == (Gray8 { v: 0, a: 0 }),
    {
        self.v = 0;
        self.a = 0;
    }
}

impl Gray8 {
    pub fn new_params(v: u32, a: u32) -> (r: Self)
        ensures
            r == (Gray8 { v: v as u8, a: a as u8 }),
    {
        Gray8 { v: v as u8, a: a as u8 }
    }

    pub fn new_from_self_a(c: &Self, a: u32) -> (r: Self)
        ensures
            r == (Gray8 { v: c.v, a: a as u8 }),
    {
        Gray8 { v: c.v, a: a as u8 }
    }

    /// The luminance of an RGB colour, with its alpha.
    pub fn new_from_rgba8(c: &Rgba8) -> (r: Self)
        ensures
            r == (Gray8 { v: luminance8(c.r as int, c.g as int, c.b as int) as u8, a: c.a }),
    {
        let s = weighted_sum(c);
        proof {
            vstd::bits::lemma_u32_shr_is_div(s, 8);
            vstd::arithmetic::power2::lemma2_to64();
        }
        Gray8 { v: (s >> 8u32) as u8, a: c.a }
    }

    /// The luminance of an RGB colour, with alpha `a`.
    pub fn new_from_rgba8_a(c: &Rgba8, a: u32) -> (r: Self)
        ensures
            r == (Gray8 { v: luminance8(c.r as int, c.g as int, c.b as int) as u8, a: a as u8 }),
    {
        let s = weighted_sum(c);
        proof {
            vstd::bits::lemma_u32_shr_is_div(s, 8);
            vstd::arithmetic::power2::lemma2_to64();
        }
        Gray8 { v: (s >> 8u32) as u8, a: a as u8 }
    }
}

/// Premultiplication of an 8-bit gray colour as a function of its value.
pub open spec fn gray8_premultiplied(c: Gray8) -> Gray8 {
    if c.a == 255 {
        c
    } else if c.a == 0 {
        Gray8 { v: 0, a: 0 }
    } else {
        Gray8 { v: premul_channel(c.v as int, c.a as int, 8) as u8, a: c.a }
    }
}

//-------------------------------------------------------------gray8_pre
pub fn gray8_pre(v: u32, a: u32) -> (r: Gray8)
    ensures
        r == gray8_premultiplied(Gray8 { v: v as u8, a: a as u8 }),
{
    let mut g = Gray8::new_params(v, a);
    g.premultiply();
    g
}

pub fn gray8_pre_c(c: &Gray8, a: u32) -> (r: Gray8)
    ensures
        r == gray8_premultiplied(Gray8 { v: c.v, a: a as u8 }),
{
    let mut g = Gray8::new_from_self_a(c, a);
    g.premultiply();
    g
}

pub fn gray8_pre_rgba8(c: &Rgba8) -> (r: Gray8)
    ensures
        r == gray8_premultiplied(
            Gray8 { v: luminance8(c.r as int, c.g as int, c.b as int) as u8, a: c.a },
        ),
{
    let mut g = Gray8::new_from_rgba8(c);
    g.premultiply();
    g
}

pub fn gray8_pre_rgba8_u(c: &Rgba8, a: u32) -> (r: Gray8)
    ensures
        r == gray8_premultiplied(
            Gray8 { v: luminance8(c.r as int, c.g as int, c.b as int) as u8, a: a as u8 },
        ),
{
    let mut g = Gray8::new_from_rgba8_a(c, a);
    g.premultiply();
    g
}

/// A premultiplied gray colour never has more value than alpha (up to the
/// rounding of the scale 256 against 255).
pub proof fn lemma_premultiplied_value_bounded(c: Gray8)
    ensures
        gray8_premultiplied(c).a == c.a,
        c.a < 255 ==> gray8_premultiplied(c).v <= c.a,
{
    if 0 < c.a < 255 {
        let p = c.v as int * c.a as int;
        assert(p <= 255 * c.a) by (nonlinear_arith)
            requires
                p == c.v as int * c.a as int,
                c.v <= 255,
                c.a >= 0,
        ;
        crate::color_rgba::lemma_pow2_8_16();
        assert(p / 256 <= c.a) by (nonlinear_arith)
            requires
                p <= 255 * c.a,
                c.a >= 0,
                p >= 0,
        ;
    }
}

//========================================================================Gray16
#[derive(Copy, Clone, Debug, PartialEq, Eq, Structural)]
pub struct Gray16 {
    pub v: u16,
    pub a: u16,
}

impl Args for Gray16 {
    type ValueType = u16;

    open spec fn spec_a(&self) -> u16 {
        self.a
    }

    fn a(&self) -> (r: u16)
        ensures
            r == self.a,
    {
        self.a
    }

    fn a_mut(&mut self) -> (r: &mut u16)
        ensures
            *r == old(self).a,
            *final(self) == (Gray16 { a: *final(r), ..*old(self) }),
    {
        &mut self.a
    }
}

impl GrayArgs for Gray16 {
    open spec fn spec_v(&self) -> u16 {
        self.v
    }

    fn new_init(v: u16, a: u16) -> (r: Self)
        ensures
            r == (Gray16 { v: v, a: a }),
    {
        Self { v: v, a: a }
    }

    fn v(&self) -> (r: u16)
        ensures
            r == self.v,
    {
        self.v
    }

    fn v_mut(&mut self) -> (r: &mut u16)
        ensures
            *r == old(self).v,
            *final(self) == (Gray16 { v: *final(r), ..*old(self) }),
    {
        &mut self.v
    }
}

impl Color for Gray16 {
    open spec fn add_ok(&self, c: &Self, cover: u32) -> bool {
        &&& cover == 255 && c.a != 0xFFFF ==> self.v + c.v <= 0xFFFF && self.a + c.a <= 0xFFFF
        &&& cover != 255 ==> c.v * cover + 127 <= u32::MAX && c.a * cover + 127 <= u32::MAX
    }

    open spec fn premultiply_a_ok(&self, a: u32) -> bool {
        self.v * a <= u32::MAX
    }

    fn base_shift() -> (r: u32)
        ensures
            r == 16,
    {
        16
    }

    fn base_scale() -> (r: u32)
        ensures
            r == 0x1_0000,
    {
        0x1_0000
    }

    fn base_mask() -> (r: u32)
        ensures
            r == 0xFFFF,
    {
        0xFFFF
    }

    /// Black and opaque.
    fn new() -> (r: Gray16)
        ensures
            r == (Gray16 { v: 0, a: 0xffff }),
    {
        Gray16 { v: 0, a: 0xffff }
    }

    fn clear(&mut self)
        ensures
            *final(self) == (Gray16 { v: 0, a: 0 }),
    {
        self.v = 0;
        self.a = 0;
    }

    fn no_color() -> (r: Self)
        ensures
            r == (Gray16 { v: 0, a: 0 }),
    {
        Self { v: 0, a: 0 }
    }

    /// Adds `c` with coverage `cover`; full coverage of an opaque colour
    /// replaces this one.
    fn add(&mut self, c: &Self, cover: u32)
        ensures
            cover == 255 && c.a == 0xFFFF ==> *final(self) == *c,
            cover == 255 && c.a != 0xFFFF ==> *final(self) == (Gray16 {
                v: (old(self).v + c.v) as u16,
                a: (old(self).a + c.a) as u16,
            }),
            cover != 255 ==> *final(self) == (Gray16 {
                v: add_channel(old(self).v as int, c.v as int, cover as int, 0xFFFF) as u16,
                a: add_channel(old(self).a as int, c.a as int, cover as int, 0xFFFF) as u16,
            }),
    {
        if cover == 255 {
            if c.a == 0xFFFF {
                *self = *c;
            } else {
                let cv = (self.v + c.v) as u32;
                self.v = (if cv > 0xFFFF {
                    0xFFFF
                } else {
                    cv
                }) as u16;
                let ca = (self.a + c.a) as u32;
                self.a = (if ca > 0xFFFF {
                    0xFFFF
                } else {
                    ca
                }) as u16;
            }
        } else {
            self.v = add_chan(self.v as u32, c.v as u32, cover, 0xFFFF) as u16;
            self.a = add_chan(self.a as u32, c.a as u32, cover, 0xFFFF) as u16;
        }
    }

    fn transparent(&mut self) -> (r: &Self)
        ensures
            *final(self) == (Gray16 { a: 0, ..*old(self) }),
            *r == *final(self),
    {
        self.a = 0;
        self
    }

    /// Scales the value by alpha.
    fn premultiply(&mut self) -> (r: &Self)
        ensures
            old(self).a == 0xFFFF ==> *final(self) == *old(self),
            old(self).a == 0 ==> *final(self) == (Gray16 { v: 0, a: 0 }),
            0 < old(self).a < 0xFFFF ==> *final(self) == (Gray16 {
                v: premul_channel(old(self).v as int, old(self).a as int, 16) as u16,
                a: old(self).a,
            }),
            *r == *final(self),
    {
        if self.a == 0xFFFF {
            return self;
        }
        if self.a == 0 {
            self.v = 0;
            return self;
        }
        self.v = mul_shr(self.v as u32, self.a as u32, 16) as u16;
        self
    }

    /// Rescales a premultiplied colour to alpha `a_`.
    fn premultiply_a(&mut self, a_: u32) -> (r: &Self)
        ensures
            old(self).a == 0xFFFF && a_ >= 0xFFFF ==> *final(self) == *old(self),
            !(old(self).a == 0xFFFF && a_ >= 0xFFFF) && (old(self).a == 0 || a_ == 0)
                ==> *final(self) == (Gray16 { v: 0, a: 0 }),
            !(old(self).a == 0xFFFF && a_ >= 0xFFFF) && old(self).a != 0 && a_ != 0
                ==> *final(self) == (Gray16 {
                v: rescale_channel(old(self).v as int, a_ as int, old(self).a as int) as u16,
                a: a_ as u16,
            }),
            *r == *final(self),
    {
        if self.a == 0xFFFF && a_ >= 0xFFFF {
            return self;
        }
        if self.a == 0 || a_ == 0 {
            self.v = 0;
            self.a = 0;
            return self;
        }
        self.v = rescale(self.v as u32, a_, self.a as u32) as u16;
        self.a = a_ as u16;
        self
    }

    /// Brings a premultiplied value back to full alpha.
    fn demultiply(&mut self) -> (r: &Self)
        ensures
            old(self).a == 0xFFFF ==> *final(self) == *old(self),
            old(self).a == 0 ==> *final(self) == (Gray16 { v: 0, a: 0 }),
            0 < old(self).a < 0xFFFF ==> *final(self) == (Gray16 {
                v: demul_channel(old(self).v as int, 0xFFFF, old(self).a as int) as u16,
                a: old(self).a,
            }),
            *r == *final(self),
    {
        if self.a == 0xFFFF {
            return self;
        }
        if self.a == 0 {
            self.v = 0;
            return self;
        }
        assert(self.v * 0xFFFF <= u32::MAX) by (nonlinear_arith)
            requires
                self.v <= 0xFFFF,
        ;
        self.v = rescale(self.v as u32, 0xFFFF, self.a as u32) as u16;
        self
    }
}

impl Gray16 {
    pub fn new_params(v: u32, a: u32) -> (r: Self)
        ensures
            r == (Gray16 { v: v as u16, a: a as u16 }),
    {
        Gray16 { v: v as u16, a: a as u16 }
    }

    pub fn new_from_self_a(c: &Self, a: u32) -> (r: Self)
        ensures
            r == (Gray16 { v: c.v, a: a as u16 }),
    {
        Gray16 { v: c.v, a: a as u16 }
    }

    /// The luminance of an 8-bit RGB colour on the 16-bit scale, with its
    /// alpha widened.
    pub fn new_from_rgba8(c: &Rgba8) -> (r: Self)
        ensures
            r == (Gray16 {
                v: (c.r * 77 + c.g * 150 + c.b * 29) as u16,
                a: (c.a * 257) as u16,
            }),
    {
        let s = weighted_sum(c);
        Gray16 { v: s as u16, a: widen(c.a as u16) }
    }

    /// The luminance of an 8-bit RGB colour on the 16-bit scale, with alpha
    /// `a` repeated in both bytes.
    pub fn new_from_rgba8_a(c: &Rgba8, a: u32) -> (r: Self)
        ensures
            r == (Gray16 {
                v: (c.r * 77 + c.g * 150 + c.b * 29) as u16,
                a: (((a as u16) << 8u16) | (a as u16)),
            }),
    {
        let s = weighted_sum(c);
        Gray16 { v: s as u16, a: ((a as u16) << 8u16) | (a as u16) }
    }
}

/// `(v << 8) | v` for a byte `v`.
fn widen(v: u16) -> (r: u16)
    requires
        v <= 255,
    ensures
        r == v * 257,
{
    let r = (v << 8u16) | v;
    assert(r == v * 257) by (bit_vector)
        requires
            v <= 255,
            r == (v << 8u16) | v,
    ;
    r
}

/// Premultiplication of a 16-bit gray colour as a function of its value.
pub open spec fn gray16_premultiplied(c: Gray16) -> Gray16 {
    if c.a == 0xFFFF {
        c
    } else if c.a == 0 {
        Gray16 { v: 0, a: 0 }
    } else {
        Gray16 { v: premul_channel(c.v as int, c.a as int, 16) as u16, a: c.a }
    }
}

//------------------------------------------------------------gray16_pre
pub fn gray16_pre(v: u32, a: u32) -> (r: Gray16)
    ensures
        r == gray16_premultiplied(Gray16 { v: v as u16, a: a as u16 }),
{
    let mut g = Gray16::new_params(v, a);
    g.premultiply();
    g
}

pub fn gray16_pre_c(c: &Gray16, a: u32) -> (r: Gray16)
    ensures
        r == gray16_premultiplied(Gray16 { v: c.v, a: a as u16 }),
{
    let mut g = Gray16::new_from_self_a(c, a);
    g.premultiply();
    g
}

pub fn gray16_pre_rgba8(c: &Rgba8) -> (r: Gray16)
    ensures
        r == gray16_premultiplied(
            Gray16 { v: (c.r * 77 + c.g * 150 + c.b * 29) as u16, a: (c.a * 257) as u16 },
        ),
{
    let mut g = Gray16::new_from_rgba8(c);
    g.premultiply();
    g
}

pub fn gray16_pre_rgba8_u(c: &Rgba8, a: u32) -> (r: Gray16)
    ensures
        r == gray16_premultiplied(
            Gray16 {
                v: (c.r * 77 + c.g * 150 + c.b * 29) as u16,
                a: (((a as u16) << 8u16) | (a as u16)),
            },
        ),
{
    let mut g = Gray16::new_from_rgba8_a(c, a);
    g.premultiply();
    g
}

} // verus!
