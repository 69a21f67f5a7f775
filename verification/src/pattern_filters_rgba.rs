//! Filters that read line patterns: nearest pixel, and bilinear between the
//! four pixels around a subpixel position. Positions are in subpixels, 256
//! to a pixel.
use crate::color_rgba::{Rgba16, Rgba8};
use crate::{Color, PatternFilter};
use core::marker::PhantomData;
use vstd::prelude::*;

verus! {

/// The colour of `buf` at row `y`, column `x`.
pub open spec fn at<C>(buf: &[&[C]], x: int, y: int) -> C {
    buf@[y]@[x]
}

/// Pixel `(x, y)` lies inside `buf`.
pub open spec fn in_buf<C>(buf: &[&[C]], x: int, y: int) -> bool {
    0 <= y < buf@.len() && 0 <= x < buf@[y]@.len()
}

//======================================================PatternFilterNn
/// Reads the pixel a position falls in.
pub struct PatternFilterNn<C> {
    pub dummy: PhantomData<C>,
}

pub type PatternFilterNNRGBA8 = PatternFilterNn<Rgba8>;

pub type PatternFilterNNRGBA16 = PatternFilterNn<Rgba16>;

impl<C: Color> PatternFilter for PatternFilterNn<C> {
    type ColorType = C;

    open spec fn low_res_ok(&self, buf: &[&[C]], x: i32, y: i32) -> bool {
        in_buf(buf, x as int, y as int)
    }

    open spec fn high_res_ok(&self, buf: &[&[C]], x: i32, y: i32) -> bool {
        x >= 0 && y >= 0 && in_buf(buf, x / 256, y / 256)
    }

    open spec fn low_res_value(&self, buf: &[&[C]], x: i32, y: i32) -> C {
        at(buf, x as int, y as int)
    }

    open spec fn high_res_value(&self, buf: &[&[C]], x: i32, y: i32) -> C {
        at(buf, x / 256, y / 256)
    }

    fn new() -> Self {
        PatternFilterNn { dummy: PhantomData }
    }

    fn dilation(&self) -> (r: u32)
        ensures
            r == 0,
    {
        0
    }

    fn pixel_low_res(&self, buf: &[&[C]], p: &mut C, x: i32, y: i32) {
        *p = buf[y as usize][x as usize];
    }

    fn pixel_high_res(&self, buf: &[&[C]], p: &mut C, x: i32, y: i32) {
        *p = buf[(y / 256) as usize][(x / 256) as usize];
    }
}

//=============================================PatternFilterBilinearRgba
/// Mixes the four pixels around a subpixel position, each weighted by the
/// area it shares with a pixel-sized square at the position.
pub struct PatternFilterBilinearRgba<C> {
    pub dummy: PhantomData<C>,
}

pub type PatternFilterBilinearRgba8 = PatternFilterBilinearRgba<Rgba8>;

pub type PatternFilterBilinearRgba16 = PatternFilterBilinearRgba<Rgba16>;

/// One channel mixed from four pixels with weights `w00 .. w11` (which add
/// up to `256 * 256`), rounded.
pub open spec fn bilerp(w00: int, w10: int, w01: int, w11: int, c00: int, c10: int, c01: int, c11: int) -> int {
    (32768 + w00 * c00 + w10 * c10 + w01 * c01 + w11 * c11) / 65536
}

/// The four weights at subpixel offsets `fx`, `fy`.
pub open spec fn bilinear_weights(fx: int, fy: int) -> (int, int, int, int) {
    ((256 - fx) * (256 - fy), fx * (256 - fy), (256 - fx) * fy, fx * fy)
}

/// The subpixel position `(x, y)` and the pixel right of and below the one
/// it falls in lie inside `buf`.
pub open spec fn bilinear_ok<C>(buf: &[&[C]], x: i32, y: i32) -> bool {
    let (xl, yl) = (x / 256, y / 256);
    &&& x >= 0 && y >= 0
    &&& in_buf(buf, xl + 1, yl)
    &&& in_buf(buf, xl + 1, yl + 1)
}

/// The weights are those of a pixel-sized square.
proof fn lemma_weights(fx: int, fy: int)
    requires
        0 <= fx < 256,
        0 <= fy < 256,
    ensures
        ({
            let (w00, w10, w01, w11) = bilinear_weights(fx, fy);
            &&& 0 <= w00 <= 65536 && 0 <= w10 <= 65536 && 0 <= w01 <= 65536 && 0 <= w11 <= 65536
            &&& w00 + w10 + w01 + w11 == 65536
        }),
{
    assert(0 <= (256 - fx) * (256 - fy) <= 65536 && 0 <= fx * (256 - fy) <= 65536 && 0 <= (256 - fx) * fy
        <= 65536 && 0 <= fx * fy <= 65536) by (nonlinear_arith)
        requires
            0 <= fx < 256,
            0 <= fy < 256,
    ;
    assert((256 - fx) * (256 - fy) + fx * (256 - fy) + (256 - fx) * fy + fx * fy == 65536)
        by (nonlinear_arith);
}

/// One channel mixed from four pixels.
fn bilerp_8(w00: u32, w10: u32, w01: u32, w11: u32, c00: u8, c10: u8, c01: u8, c11: u8) -> (r: u8)
    requires
        w00 + w10 + w01 + w11 == 65536,
    ensures
        r == bilerp(w00 as int, w10 as int, w01 as int, w11 as int, c00 as int, c10 as int, c01 as int, c11 as int) as u8,
{
    assert(w00 * c00 + w10 * c10 + w01 * c01 + w11 * c11 <= 65536 * 255) by (nonlinear_arith)
        requires
            w00 + w10 + w01 + w11 == 65536,
            c00 <= 255,
            c10 <= 255,
            c01 <= 255,
            c11 <= 255,
    ;
    assert(w00 * c00 <= 65536 * 255 && w10 * c10 <= 65536 * 255 && w01 * c01 <= 65536 * 255) by (nonlinear_arith)
        requires
            w00 + w10 + w01 + w11 == 65536,
            c00 <= 255,
            c10 <= 255,
            c01 <= 255,
    ;
    let s: u32 = 32768 + w00 * c00 as u32 + w10 * c10 as u32 + w01 * c01 as u32 + w11 * c11 as u32;
    proof {
        vstd::bits::lemma_u32_shr_is_div(s, 16);
        vstd::arithmetic::power2::lemma2_to64();
    }
    (s >> 16u32) as u8
}

impl PatternFilter for PatternFilterBilinearRgba<Rgba8> {
    type ColorType = Rgba8;

    open spec fn low_res_ok(&self, buf: &[&[Rgba8]], x: i32, y: i32) -> bool {
        in_buf(buf, x as int, y as int)
    }

    open spec fn high_res_ok(&self, buf: &[&[Rgba8]], x: i32, y: i32) -> bool {
        bilinear_ok(buf, x, y)
    }

    open spec fn low_res_value(&self, buf: &[&[Rgba8]], x: i32, y: i32) -> Rgba8 {
        at(buf, x as int, y as int)
    }

    open spec fn high_res_value(&self, buf: &[&[Rgba8]], x: i32, y: i32) -> Rgba8 {
        let (xl, yl) = (x / 256, y / 256);
        let (w00, w10, w01, w11) = bilinear_weights((x % 256) as int, (y % 256) as int);
        let (c00, c10, c01, c11) = (at(buf, xl, yl), at(buf, xl + 1, yl), at(buf, xl, yl + 1), at(buf, xl + 1, yl + 1));
        Rgba8 {
            r: bilerp(w00, w10, w01, w11, c00.r as int, c10.r as int, c01.r as int, c11.r as int) as u8,
            g: bilerp(w00, w10, w01, w11, c00.g as int, c10.g as int, c01.g as int, c11.g as int) as u8,
            b: bilerp(w00, w10, w01, w11, c00.b as int, c10.b as int, c01.b as int, c11.b as int) as u8,
            a: bilerp(w00, w10, w01, w11, c00.a as int, c10.a as int, c01.a as int, c11.a as int) as u8,
        }
    }

    fn new() -> Self {
        PatternFilterBilinearRgba { dummy: PhantomData }
    }

    fn dilation(&self) -> (r: u32)
        ensures
            r == 1,
    {
        1
    }

    fn pixel_low_res(&self, buf: &[&[Rgba8]], p: &mut Rgba8, x: i32, y: i32) {
        *p = buf[y as usize][x as usize];
    }

    fn pixel_high_res(&self, buf: &[&[Rgba8]], p: &mut Rgba8, x: i32, y: i32) {
        proof {
            lemma_weights((x % 256) as int, (y % 256) as int);
        }
        let x_lr = (x / 256) as usize;
        let y_lr = (y / 256) as usize;
        let fx = (x % 256) as u32;
        let fy = (y % 256) as u32;
        let w00 = (256 - fx) * (256 - fy);
        let w10 = fx * (256 - fy);
        let w01 = (256 - fx) * fy;
        let w11 = fx * fy;
        let c00 = buf[y_lr][x_lr];
        let c10 = buf[y_lr][x_lr + 1];
        let c01 = buf[y_lr + 1][x_lr];
        let c11 = buf[y_lr + 1][x_lr + 1];
        p.r = bilerp_8(w00, w10, w01, w11, c00.r, c10.r, c01.r, c11.r);
        p.g = bilerp_8(w00, w10, w01, w11, c00.g, c10.g, c01.g, c11.g);
        p.b = bilerp_8(w00, w10, w01, w11, c00.b, c10.b, c01.b, c11.b);
        p.a = bilerp_8(w00, w10, w01, w11, c00.a, c10.a, c01.a, c11.a);
    }
}

/// One channel mixed from four pixels.
fn bilerp_16(w00: u32, w10: u32, w01: u32, w11: u32, c00: u16, c10: u16, c01: u16, c11: u16) -> (r: u16)
    requires
        w00 + w10 + w01 + w11 == 65536,
    ensures
        r == bilerp(w00 as int, w10 as int, w01 as int, w11 as int, c00 as int, c10 as int, c01 as int, c11 as int) as u16,
{
    assert(w00 * c00 + w10 * c10 + w01 * c01 + w11 * c11 <= 65536 * 65535) by (nonlinear_arith)
        requires
            w00 + w10 + w01 + w11 == 65536,
            c00 <= 65535,
            c10 <= 65535,
            c01 <= 65535,
            c11 <= 65535,
    ;
    assert(w00 * c00 <= 65536 * 65535 && w10 * c10 <= 65536 * 65535 && w01 * c01 <= 65536 * 65535) by (nonlinear_arith)
        requires
            w00 + w10 + w01 + w11 == 65536,
            c00 <= 65535,
            c10 <= 65535,
            c01 <= 65535,
    ;
    let s: u32 = 32768 + w00 * c00 as u32 + w10 * c10 as u32 + w01 * c01 as u32 + w11 * c11 as u32;
    proof {
        vstd::bits::lemma_u32_shr_is_div(s, 16);
        vstd::arithmetic::power2::lemma2_to64();
    }
    (s >> 16u32) as u16
}

impl PatternFilter for PatternFilterBilinearRgba<Rgba16> {
    type ColorType = Rgba16;

    open spec fn low_res_ok(&self, buf: &[&[Rgba16]], x: i32, y: i32) -> bool {
        in_buf(buf, x as int, y as int)
    }

    open spec fn high_res_ok(&self, buf: &[&[Rgba16]], x: i32, y: i32) -> bool {
        bilinear_ok(buf, x, y)
    }

    open spec fn low_res_value(&self, buf: &[&[Rgba16]], x: i32, y: i32) -> Rgba16 {
        at(buf, x as int, y as int)
    }

    open spec fn high_res_value(&self, buf: &[&[Rgba16]], x: i32, y: i32) -> Rgba16 {
        let (xl, yl) = (x / 256, y / 256);
        let (w00, w10, w01, w11) = bilinear_weights((x % 256) as int, (y % 256) as int);
        let (c00, c10, c01, c11) = (at(buf, xl, yl), at(buf, xl + 1, yl), at(buf, xl, yl + 1), at(buf, xl + 1, yl + 1));
        Rgba16 {
            r: bilerp(w00, w10, w01, w11, c00.r as int, c10.r as int, c01.r as int, c11.r as int) as u16,
            g: bilerp(w00, w10, w01, w11, c00.g as int, c10.g as int, c01.g as int, c11.g as int) as u16,
            b: bilerp(w00, w10, w01, w11, c00.b as int, c10.b as int, c01.b as int, c11.b as int) as u16,
            a: bilerp(w00, w10, w01, w11, c00.a as int, c10.a as int, c01.a as int, c11.a as int) as u16,
        }
    }

    fn new() -> Self {
        PatternFilterBilinearRgba { dummy: PhantomData }
    }

    fn dilation(&self) -> (r: u32)
        ensures
            r == 1,
    {
        1
    }

    fn pixel_low_res(&self, buf: &[&[Rgba16]], p: &mut Rgba16, x: i32, y: i32) {
        *p = buf[y as usize][x as usize];
    }

    fn pixel_high_res(&self, buf: &[&[Rgba16]], p: &mut Rgba16, x: i32, y: i32) {
        proof {
            lemma_weights((x % 256) as int, (y % 256) as int);
        }
        let x_lr = (x / 256) as usize;
        let y_lr = (y / 256) as usize;
        let fx = (x % 256) as u32;
        let fy = (y % 256) as u32;
        let w00 = (256 - fx) * (256 - fy);
        let w10 = fx * (256 - fy);
        let w01 = (256 - fx) * fy;
        let w11 = fx * fy;
        let c00 = buf[y_lr][x_lr];
        let c10 = buf[y_lr][x_lr + 1];
        let c01 = buf[y_lr + 1][x_lr];
        let c11 = buf[y_lr + 1][x_lr + 1];
        p.r = bilerp_16(w00, w10, w01, w11, c00.r, c10.r, c01.r, c11.r);
        p.g = bilerp_16(w00, w10, w01, w11, c00.g, c10.g, c01.g, c11.g);
        p.b = bilerp_16(w00, w10, w01, w11, c00.b, c10.b, c01.b, c11.b);
        p.a = bilerp_16(w00, w10, w01, w11, c00.a, c10.a, c01.a, c11.a);
    }
}

/// On a pixel's corner only that pixel has weight.
proof fn lemma_bilerp_corner(c00: int, c10: int, c01: int, c11: int)
    requires
        0 <= c00,
    ensures
        bilerp(65536, 0, 0, 0, c00, c10, c01, c11) == c00,
{
    assert(0 * c10 == 0 && 0 * c01 == 0 && 0 * c11 == 0);
    vstd::arithmetic::div_mod::lemma_fundamental_div_mod_converse(32768 + 65536 * c00, 65536, c00, 32768);
}

/// At a subpixel position on a pixel's corner the bilinear filter reads that
/// pixel exactly, and so agrees with the nearest-pixel filter.
pub proof fn lemma_bilinear_on_pixel(
    f: PatternFilterBilinearRgba<Rgba8>,
    g: PatternFilterNn<Rgba8>,
    buf: &[&[Rgba8]],
    x: i32,
    y: i32,
)
    requires
        bilinear_ok(buf, x, y),
        x % 256 == 0,
        y % 256 == 0,
    ensures
        f.high_res_value(buf, x, y) == at(buf, x / 256, y / 256),
        f.high_res_value(buf, x, y) == g.high_res_value(buf, x, y),
{
    let (xl, yl) = (x / 256, y / 256);
    assert(bilinear_weights(0, 0) == (65536int, 0int, 0int, 0int));
    let (c00, c10, c01, c11) = (at(buf, xl, yl), at(buf, xl + 1, yl), at(buf, xl, yl + 1), at(buf, xl + 1, yl + 1));
    lemma_bilerp_corner(c00.r as int, c10.r as int, c01.r as int, c11.r as int);
    lemma_bilerp_corner(c00.g as int, c10.g as int, c01.g as int, c11.g as int);
    lemma_bilerp_corner(c00.b as int, c10.b as int, c01.b as int, c11.b as int);
    lemma_bilerp_corner(c00.a as int, c10.a as int, c01.a as int, c11.a as int);
}

} // verus!
