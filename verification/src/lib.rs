//! Integer core of the Anti-Grain Geometry 2.4 rendering library: path
//! commands and rectangles, line interpolators, colour types and pixel
//! blenders, gray and RGB pixel formats over a rendering buffer, alpha masks,
//! wrap modes, stack blur, the command state machines of the path
//! converters, and the checksum used to sign fonts, each with its contract
//! proved by Verus.
#![allow(unused_parens)]
#![allow(non_upper_case_globals)]

use vstd::prelude::*;

pub mod alpha_mask_u8;
pub mod array;
pub mod basics;
pub mod bitset_iterator;
pub mod blur;
pub mod clip_liang_barsky;
pub mod color_gray;
pub mod color_rgba;
pub mod conv_adaptor_vcgen;
pub mod conv_adaptor_vpgen;
pub mod conv_close_polygon;
pub mod conv_concat;
pub mod conv_gpc;
pub mod curves;
pub mod dda_line;
pub mod ellipse_bresenham;
pub mod font_cache_manager;
pub mod font_freetype;
pub mod ft_bitmap;
pub mod ft_outline;
pub mod gamma_functions;
pub mod gamma_lut;
pub mod glyph_raster_bin;
pub mod image_accessors;
pub mod image_filters;
pub mod line_aa_basics;
pub mod math_stroke;
pub mod order;
pub mod path_storage;
pub mod path_storage_integer;
pub mod pattern_filters_rgba;
pub mod pixfmt_amask_adaptor;
pub mod pixfmt_gray;
pub mod pixfmt_rgb;
pub mod pixfmt_rgb_packed;
pub mod rendering_buffer;
pub mod stack_blur;

verus! {

/// Integer sample types that the colour and path code is written over.
/// Each conversion follows Rust's `as` and keeps the low bits of the value;
/// the implementations below state it for every type.
pub trait AggInteger: Copy + Sized {
    /// The value converted to `u32` as `as` does.
    spec fn spec_into_u32(&self) -> u32;

    /// The value converted to `i32` as `as` does.
    spec fn spec_into_i32(&self) -> i32;

    /// `i` converted to this type as `as` does.
    spec fn spec_from_u32(i: u32) -> Self;

    fn into_u32(&self) -> (r: u32)
        ensures
            r == self.spec_into_u32(),
    ;

    fn into_i32(&self) -> (r: i32)
        ensures
            r == self.spec_into_i32(),
    ;

    fn into_u64(&self) -> u64;

    fn into_u8(&self) -> u8;

    fn from_i32(i: i32) -> Self;

    fn from_u32(i: u32) -> (r: Self)
        ensures
            r == Self::spec_from_u32(i),
    ;

    fn from_u8(i: u8) -> Self;

    fn from_clong(i: i64) -> Self;

    fn from_u64(i: u64) -> Self;

    fn wrapping_mul(&self, a: Self) -> Self;

    fn wrapping_add(&self, a: Self) -> Self;
}

/// A pair of coordinates built from its two components.
pub trait Point: Sized {
    type T;

    fn new(x: Self::T, y: Self::T) -> Self;
}

/// Byte positions of the colour channels inside a pixel.
pub trait Order {
    spec fn spec_r() -> usize;

    spec fn spec_g() -> usize;

    spec fn spec_b() -> usize;

    spec fn spec_a() -> usize;

    spec fn spec_tag() -> usize;

    fn r() -> (r: usize)
        ensures
            r == Self::spec_r(),
    ;

    fn g() -> (r: usize)
        ensures
            r == Self::spec_g(),
    ;

    fn b() -> (r: usize)
        ensures
            r == Self::spec_b(),
    ;

    fn a() -> (r: usize)
        ensures
            r == Self::spec_a(),
    ;

    /// Number of bytes of one pixel in this order.
    fn tag() -> (r: usize)
        ensures
            r == Self::spec_tag(),
    ;
}

/// A colour that has an alpha channel.
pub trait Args {
    type ValueType: AggInteger;

    /// The alpha channel.
    spec fn spec_a(&self) -> Self::ValueType;

    fn a(&self) -> (r: Self::ValueType)
        ensures
            r == self.spec_a(),
    ;

    fn a_mut(&mut self) -> (r: &mut Self::ValueType)
        ensures
            *r == old(self).spec_a(),
            final(self).spec_a() == *final(r),
    ;
}

/// A colour with red, green and blue channels.
pub trait RgbArgs: Args + Sized {
    /// The red, green and blue channels.
    spec fn spec_rgb(&self) -> (Self::ValueType, Self::ValueType, Self::ValueType);

    fn r(&self) -> (r: Self::ValueType)
        ensures
            r == self.spec_rgb().0,
    ;

    fn g(&self) -> (r: Self::ValueType)
        ensures
            r == self.spec_rgb().1,
    ;

    fn b(&self) -> (r: Self::ValueType)
        ensures
            r == self.spec_rgb().2,
    ;

    fn r_mut(&mut self) -> (r: &mut Self::ValueType)
        ensures
            *r == old(self).spec_rgb().0,
            final(self).spec_rgb() == (*final(r), old(self).spec_rgb().1, old(self).spec_rgb().2),
            final(self).spec_a() == old(self).spec_a(),
    ;

    fn g_mut(&mut self) -> (r: &mut Self::ValueType)
        ensures
            *r == old(self).spec_rgb().1,
            final(self).spec_rgb() == (old(self).spec_rgb().0, *final(r), old(self).spec_rgb().2),
            final(self).spec_a() == old(self).spec_a(),
    ;

    fn b_mut(&mut self) -> (r: &mut Self::ValueType)
        ensures
            *r == old(self).spec_rgb().2,
            final(self).spec_rgb() == (old(self).spec_rgb().0, old(self).spec_rgb().1, *final(r)),
            final(self).spec_a() == old(self).spec_a(),
    ;

    fn new_init(
        r: Self::ValueType,
        g: Self::ValueType,
        b: Self::ValueType,
        a: Self::ValueType,
    ) -> (res: Self)
        ensures
            res.spec_rgb() == (r, g, b),
            res.spec_a() == a,
    ;
}

/// A colour with one luminance channel.
pub trait GrayArgs: Args + Sized {
    /// The luminance channel.
    spec fn spec_v(&self) -> Self::ValueType;

    fn v(&self) -> (r: Self::ValueType)
        ensures
            r == self.spec_v(),
    ;

    fn v_mut(&mut self) -> (r: &mut Self::ValueType)
        ensures
            *r == old(self).spec_v(),
            final(self).spec_v() == *final(r),
            final(self).spec_a() == old(self).spec_a(),
    ;

    fn new_init(v: Self::ValueType, a: Self::ValueType) -> (res: Self)
        ensures
            res.spec_v() == v,
            res.spec_a() == a,
    ;
}

/// The integer operations of a colour type: its scale, premultiplication
/// by alpha and accumulation with a coverage.
pub trait Color: Args + Copy + Sized {
    /// `add` can run without overflow.
    spec fn add_ok(&self, c: &Self, cover: u32) -> bool;

    /// `premultiply_a` can run without overflow.
    spec fn premultiply_a_ok(&self, a: u32) -> bool;

    fn base_shift() -> u32;

    fn base_scale() -> u32;

    fn base_mask() -> u32;

    fn new() -> Self;

    fn clear(&mut self);

    fn transparent(&mut self) -> &Self;

    fn premultiply(&mut self) -> &Self;

    fn premultiply_a(&mut self, a: u32) -> &Self
        requires
            old(self).premultiply_a_ok(a),
    ;

    fn demultiply(&mut self) -> &Self;

    fn add(&mut self, c: &Self, cover: u32)
        requires
            old(self).add_ok(c, cover),
    ;

    fn no_color() -> Self;
}

/// A gamma correction in both directions, read from lookup tables.
pub trait Gamma<LoResT: AggInteger, HiResT: AggInteger>: Sized {
    spec fn dir_spec(&self, v: LoResT) -> HiResT;

    spec fn inv_spec(&self, v: HiResT) -> LoResT;

    spec fn gamma_wf(&self) -> bool;

    fn new() -> (r: Self)
        ensures
            r.gamma_wf(),
    ;

    fn dir(&self, v: LoResT) -> (r: HiResT)
        requires
            self.gamma_wf(),
        ensures
            r == self.dir_spec(v),
    ;

    fn inv(&self, v: HiResT) -> (r: LoResT)
        requires
            self.gamma_wf(),
        ensures
            r == self.inv_spec(v),
    ;
}

/// Blends colours into pixels packed into one integer.
pub trait BlenderPacked: Sized {
    type PixelType: AggInteger;
    type ColorType: RgbArgs;
    type ValueType: AggInteger;

    /// Blending into pixel `p` runs without overflow and within the tables.
    spec fn blend_ok(&self, p: Self::PixelType, cr: u32, cg: u32, cb: u32, alpha: u32) -> bool;

    fn new() -> Self;

    fn blend_pix_with_cover(
        &self,
        p: &mut Self::PixelType,
        cr: u32,
        cg: u32,
        cb: u32,
        alpha: u32,
        cover: u32,
    )
        requires
            self.blend_ok(*old(p), cr, cg, cb, alpha),
    ;

    fn blend_pix(&self, p: &mut Self::PixelType, cr: u32, cg: u32, cb: u32, alpha: u32)
        requires
            self.blend_ok(*old(p), cr, cg, cb, alpha),
    ;

    fn make_pix(&self, r: u32, g: u32, b: u32) -> Self::PixelType;

    fn make_color(&self, p: Self::PixelType) -> Self::ColorType;
}

/// Blends a colour value into one channel of a gray pixel.
pub trait BlenderG<C: Color>: Sized {
    /// Blending into `p` runs without overflow.
    spec fn blend_ok(&self, p: C::ValueType, v: u32, alpha: u32) -> bool;

    /// The pixel value after `blend_pix`.
    spec fn blended(&self, p: C::ValueType, v: u32, alpha: u32) -> C::ValueType;

    /// The pixel value after `blend_pix_with_cover`.
    spec fn blended_cover(&self, p: C::ValueType, v: u32, alpha: u32, cover: u32) -> C::ValueType;

    fn new() -> Self;

    fn blend_pix_with_cover(&self, p: &mut C::ValueType, v: u32, alpha: u32, cover: u32)
        ensures
            *final(p) == self.blended_cover(*old(p), v, alpha, cover),
    ;

    fn blend_pix(&self, p: &mut C::ValueType, v: u32, alpha: u32)
        requires
            self.blend_ok(*old(p), v, alpha),
        ensures
            *final(p) == self.blended(*old(p), v, alpha),
    ;
}

/// Maps an arbitrary coordinate into the range of an image of a given size.
pub trait ImageWrap: Sized {
    /// Every coordinate handed out lies below this bound.
    spec fn bound(&self) -> u32;

    spec fn wrap_wf(&self) -> bool;

    /// `new` runs without overflow or division by zero on `size`.
    spec fn new_ok(size: u32) -> bool;

    /// `get` runs without overflow on `v`.
    spec fn get_ok(&self, v: i32) -> bool;

    fn new(size: u32) -> (r: Self)
        requires
            Self::new_ok(size),
        ensures
            r.wrap_wf(),
            0 < r.bound(),
            size > 0 ==> r.bound() <= size,
    ;

    fn get(&mut self, v: i32) -> (r: u32)
        requires
            old(self).wrap_wf(),
            old(self).get_ok(v),
        ensures
            final(self).wrap_wf(),
            final(self).bound() == old(self).bound(),
            r < old(self).bound(),
    ;

    fn inc(&mut self) -> (r: u32)
        requires
            old(self).wrap_wf(),
        ensures
            final(self).wrap_wf(),
            final(self).bound() == old(self).bound(),
            r < old(self).bound(),
    ;
}

/// The four channels of a colour as 32-bit values.
pub open spec fn rgba_u32<A: RgbArgs>(v: &A) -> (u32, u32, u32, u32) {
    (
        v.spec_rgb().0.spec_into_u32(),
        v.spec_rgb().1.spec_into_u32(),
        v.spec_rgb().2.spec_into_u32(),
        v.spec_a().spec_into_u32(),
    )
}

/// The two channels of a gray colour as 32-bit values.
pub open spec fn va_u32<A: GrayArgs>(v: &A) -> (u32, u32) {
    (v.spec_v().spec_into_u32(), v.spec_a().spec_into_u32())
}

/// Sums of the channels of colours, as a blur accumulates them.
pub trait BlurCalcRgb: RgbArgs {
    /// The sums of red, green, blue and alpha.
    spec fn sums(&self) -> (u32, u32, u32, u32);

    /// The sums are the colour's channels, so that one set of sums can be
    /// added to another.
    proof fn lemma_channels_are_sums(&self)
        ensures
            rgba_u32(self) == self.sums(),
    ;

    fn new() -> (r: Self)
        ensures
            r.sums() == (0u32, 0u32, 0u32, 0u32),
    ;

    fn clear(&mut self)
        ensures
            final(self).sums() == (0u32, 0u32, 0u32, 0u32),
    ;

    /// Adds the channels of `v`.
    fn add<A: RgbArgs>(&mut self, v: &A)
        requires
            old(self).sums().0 + rgba_u32(v).0 <= u32::MAX,
            old(self).sums().1 + rgba_u32(v).1 <= u32::MAX,
            old(self).sums().2 + rgba_u32(v).2 <= u32::MAX,
            old(self).sums().3 + rgba_u32(v).3 <= u32::MAX,
        ensures
            final(self).sums() == (
                (old(self).sums().0 + rgba_u32(v).0) as u32,
                (old(self).sums().1 + rgba_u32(v).1) as u32,
                (old(self).sums().2 + rgba_u32(v).2) as u32,
                (old(self).sums().3 + rgba_u32(v).3) as u32,
            ),
    ;

    /// Adds the channels of `v`, each taken `k` times.
    fn add_k<A: RgbArgs>(&mut self, v: &A, k: u32)
        requires
            old(self).sums().0 + rgba_u32(v).0 * k <= u32::MAX,
            old(self).sums().1 + rgba_u32(v).1 * k <= u32::MAX,
            old(self).sums().2 + rgba_u32(v).2 * k <= u32::MAX,
            old(self).sums().3 + rgba_u32(v).3 * k <= u32::MAX,
        ensures
            final(self).sums() == (
                (old(self).sums().0 + rgba_u32(v).0 * k) as u32,
                (old(self).sums().1 + rgba_u32(v).1 * k) as u32,
                (old(self).sums().2 + rgba_u32(v).2 * k) as u32,
                (old(self).sums().3 + rgba_u32(v).3 * k) as u32,
            ),
    ;

    /// Takes the channels of `v` away again.
    fn sub<A: RgbArgs>(&mut self, v: &A)
        requires
            old(self).sums().0 >= rgba_u32(v).0,
            old(self).sums().1 >= rgba_u32(v).1,
            old(self).sums().2 >= rgba_u32(v).2,
            old(self).sums().3 >= rgba_u32(v).3,
        ensures
            final(self).sums() == (
                (old(self).sums().0 - rgba_u32(v).0) as u32,
                (old(self).sums().1 - rgba_u32(v).1) as u32,
                (old(self).sums().2 - rgba_u32(v).2) as u32,
                (old(self).sums().3 - rgba_u32(v).3) as u32,
            ),
    ;

    /// Writes the sums divided by `div` into `v`.
    fn calc_pix<A: RgbArgs>(&mut self, v: &mut A, div: u32)
        requires
            div != 0,
        ensures
            final(self).sums() == old(self).sums(),
            final(v).spec_rgb() == (
                A::ValueType::spec_from_u32(old(self).sums().0 / div),
                A::ValueType::spec_from_u32(old(self).sums().1 / div),
                A::ValueType::spec_from_u32(old(self).sums().2 / div),
            ),
            final(v).spec_a() == A::ValueType::spec_from_u32(old(self).sums().3 / div),
    ;

    /// Writes the sums multiplied by `mul` and shifted right by `shr` into
    /// `v`: a division by a table's reciprocal; the product wraps in 32
    /// bits.
    fn calc_pix_mul<A: RgbArgs>(&mut self, v: &mut A, mul: u32, shr: u32)
        requires
            shr < 32,
        ensures
            final(self).sums() == old(self).sums(),
            final(v).spec_rgb() == (
                A::ValueType::spec_from_u32(vstd::wrapping::u32_specs::wrapping_mul(old(self).sums().0, mul) >> shr),
                A::ValueType::spec_from_u32(vstd::wrapping::u32_specs::wrapping_mul(old(self).sums().1, mul) >> shr),
                A::ValueType::spec_from_u32(vstd::wrapping::u32_specs::wrapping_mul(old(self).sums().2, mul) >> shr),
            ),
            final(v).spec_a() == A::ValueType::spec_from_u32(vstd::wrapping::u32_specs::wrapping_mul(old(self).sums().3, mul) >> shr),
    ;
}

/// Sums of the channels of gray colours, as a blur accumulates them.
pub trait BlurCalcGray: GrayArgs {
    /// The sums of luminance and alpha.
    spec fn sums(&self) -> (u32, u32);

    fn new() -> (r: Self)
        ensures
            r.sums() == (0u32, 0u32),
    ;

    fn clear(&mut self)
        ensures
            final(self).sums() == (0u32, 0u32),
    ;

    /// Adds the channels of `g`.
    fn add<A: GrayArgs>(&mut self, g: &A)
        requires
            old(self).sums().0 + va_u32(g).0 <= u32::MAX,
            old(self).sums().1 + va_u32(g).1 <= u32::MAX,
        ensures
            final(self).sums() == (
                (old(self).sums().0 + va_u32(g).0) as u32,
                (old(self).sums().1 + va_u32(g).1) as u32,
            ),
    ;

    /// Adds the channels of `g`, each taken `k` times.
    fn add_k<A: GrayArgs>(&mut self, g: &A, k: u32)
        requires
            old(self).sums().0 + va_u32(g).0 * k <= u32::MAX,
            old(self).sums().1 + va_u32(g).1 * k <= u32::MAX,
        ensures
            final(self).sums() == (
                (old(self).sums().0 + va_u32(g).0 * k) as u32,
                (old(self).sums().1 + va_u32(g).1 * k) as u32,
            ),
    ;

    /// Takes the channels of `g` away again.
    fn sub<A: GrayArgs>(&mut self, g: &A)
        requires
            old(self).sums().0 >= va_u32(g).0,
            old(self).sums().1 >= va_u32(g).1,
        ensures
            final(self).sums() == (
                (old(self).sums().0 - va_u32(g).0) as u32,
                (old(self).sums().1 - va_u32(g).1) as u32,
            ),
    ;

    /// Writes the sums divided by `div` into `g`.
    fn calc_pix<A: GrayArgs>(&mut self, g: &mut A, div: u32)
        requires
            div != 0,
        ensures
            final(self).sums() == old(self).sums(),
            final(g).spec_v() == A::ValueType::spec_from_u32(old(self).sums().0 / div),
            final(g).spec_a() == A::ValueType::spec_from_u32(old(self).sums().1 / div),
    ;

    /// Writes the sums multiplied by `mul` and shifted right by `shr` into
    /// `g`; the product wraps in 32 bits.
    fn calc_pix_mul<A: GrayArgs>(&mut self, g: &mut A, mul: u32, shr: u32)
        requires
            shr < 32,
        ensures
            final(self).sums() == old(self).sums(),
            final(g).spec_v() == A::ValueType::spec_from_u32(vstd::wrapping::u32_specs::wrapping_mul(old(self).sums().0, mul) >> shr),
            final(g).spec_a() == A::ValueType::spec_from_u32(vstd::wrapping::u32_specs::wrapping_mul(old(self).sums().1, mul) >> shr),
    ;
}

/// Rows of pixels held in one buffer.
pub trait RenderBuffer {
    type T;

    /// Takes `buf` as the rows of an image of the given size.
    fn attach(&mut self, buf: Vec<Self::T>, width: u32, height: u32, stride: i32);

    fn width(&self) -> u32;

    fn height(&self) -> u32;

    /// The distance between rows, negative where rows are stored bottom up.
    fn stride(&self) -> i32;

    fn stride_abs(&self) -> u32;
}

/// Per-pixel coverage read from an alpha mask.
pub trait AlphaMask {
    type CoverType: AggInteger;

    /// Reading the pixel at `(x, y)` stays within the mask's buffer.
    spec fn pixel_ok(&self, x: i32, y: i32) -> bool;

    /// Reading a row of `num_pix` pixels from `(x, y)` into covers of length
    /// `dst_len` stays within the buffer and the covers.
    spec fn hspan_ok(&self, x: i32, y: i32, dst_len: nat, num_pix: i32) -> bool;

    /// Reading a column of `num_pix` pixels from `(x, y)` into covers of
    /// length `dst_len` stays within the buffer and the covers.
    spec fn vspan_ok(&self, x: i32, y: i32, dst_len: nat, num_pix: i32) -> bool;

    /// The coverage of pixel `(x, y)`.
    spec fn pixel_spec(&self, x: i32, y: i32) -> Self::CoverType;

    /// `val` scaled by the coverage of pixel `(x, y)`.
    spec fn combine_pixel_spec(&self, x: i32, y: i32, val: Self::CoverType) -> Self::CoverType;

    /// The covers `dst` after the coverage of a row was written into them.
    spec fn fill_hspan_spec(&self, x: i32, y: i32, dst: Seq<Self::CoverType>, num_pix: i32) -> Seq<
        Self::CoverType,
    >;

    /// The covers `dst` after they were scaled by the coverage of a row.
    spec fn combine_hspan_spec(&self, x: i32, y: i32, dst: Seq<Self::CoverType>, num_pix: i32) -> Seq<
        Self::CoverType,
    >;

    /// The covers `dst` after the coverage of a column was written into them.
    spec fn fill_vspan_spec(&self, x: i32, y: i32, dst: Seq<Self::CoverType>, num_pix: i32) -> Seq<
        Self::CoverType,
    >;

    /// The covers `dst` after they were scaled by the coverage of a column.
    spec fn combine_vspan_spec(&self, x: i32, y: i32, dst: Seq<Self::CoverType>, num_pix: i32) -> Seq<
        Self::CoverType,
    >;

    fn cover_full() -> u32;

    fn pixel(&self, x: i32, y: i32) -> (r: Self::CoverType)
        requires
            self.pixel_ok(x, y),
        ensures
            r == self.pixel_spec(x, y),
    ;

    fn combine_pixel(&self, x: i32, y: i32, val: Self::CoverType) -> (r: Self::CoverType)
        requires
            self.pixel_ok(x, y),
        ensures
            r == self.combine_pixel_spec(x, y, val),
    ;

    fn fill_hspan(&self, x: i32, y: i32, dst: &mut [Self::CoverType], num_pix: i32)
        requires
            self.hspan_ok(x, y, old(dst)@.len(), num_pix),
        ensures
            final(dst)@.len() == old(dst)@.len(),
            final(dst)@ == self.fill_hspan_spec(x, y, old(dst)@, num_pix),
    ;

    fn combine_hspan(&self, x: i32, y: i32, dst: &mut [Self::CoverType], num_pix: i32)
        requires
            self.hspan_ok(x, y, old(dst)@.len(), num_pix),
        ensures
            final(dst)@.len() == old(dst)@.len(),
            final(dst)@ == self.combine_hspan_spec(x, y, old(dst)@, num_pix),
    ;

    fn fill_vspan(&self, x: i32, y: i32, dst: &mut [Self::CoverType], num_pix: i32)
        requires
            self.vspan_ok(x, y, old(dst)@.len(), num_pix),
        ensures
            final(dst)@.len() == old(dst)@.len(),
            final(dst)@ == self.fill_vspan_spec(x, y, old(dst)@, num_pix),
    ;

    fn combine_vspan(&self, x: i32, y: i32, dst: &mut [Self::CoverType], num_pix: i32)
        requires
            self.vspan_ok(x, y, old(dst)@.len(), num_pix),
        ensures
            final(dst)@.len() == old(dst)@.len(),
            final(dst)@ == self.combine_vspan_spec(x, y, old(dst)@, num_pix),
    ;
}

/// A collection of markers that a vertex generator feeds.
pub trait Markers {

}

/// A source of image pixels.
pub trait ImageSrc {

}

/// Reads spans of an image's pixels as bytes, walking right and down.
pub trait ImageAccessor: ImageSrc {
    fn span(&mut self, x: i32, y: i32, len: u32) -> &[u8];

    fn next_x(&mut self) -> &[u8];

    fn next_y(&mut self) -> &[u8];
}

/// A clipping box and the bounds it may take.
pub trait Clip {
    fn reset_clipping(&mut self, visibility: bool);

    fn clip_box(&self) -> &basics::RectI;

    fn xmin(&self) -> i32;

    fn ymin(&self) -> i32;

    fn xmax(&self) -> i32;

    fn ymax(&self) -> i32;

    fn bounding_clip_box(&self) -> &basics::RectI;

    fn bounding_xmin(&self) -> i32;

    fn bounding_ymin(&self) -> i32;

    fn bounding_xmax(&self) -> i32;

    fn bounding_ymax(&self) -> i32;
}

/// The fill styles of a compound rasterizer.
pub trait RasterStyle<C: Color> {
    fn is_solid(&self, style: u32) -> bool;

    fn color(&self, style: u32) -> &C;

    fn generate_span(&mut self, span: &mut [C], x: i32, y: i32, len: u32, style: u32);
}

/// The style sweep of a compound rasterizer.
pub trait Rasterizer0 {
    fn sweep_styles(&mut self) -> u32;

    fn style(&self, idx: u32) -> u32;

    fn allocate_cover_buffer(&mut self, len: u32) -> &mut [u8];

    fn scanline_start(&self) -> i32;

    fn scanline_length(&self) -> u32;
}

/// Receives lines in subpixel coordinates.
pub trait Rasterizer {
    fn reset(&mut self);

    fn line(&mut self, x1: i32, y1: i32, x2: i32, y2: i32);

    fn render_hline(&mut self, ey: i32, x1: i32, y1: i32, x2: i32, y2: i32);
}

/// Blends a colour into the components of one pixel.
pub trait Blender<C: Color, O: Order>: Sized {
    /// Blending into the pixel `p` stays inside it and runs without
    /// overflow.
    spec fn blend_ok(&self, p: Seq<C::ValueType>, cr: u32, cg: u32, cb: u32, alpha: u32) -> bool;

    /// The same, for a blend with a coverage.
    spec fn blend_cover_ok(
        &self,
        p: Seq<C::ValueType>,
        cr: u32,
        cg: u32,
        cb: u32,
        alpha: u32,
        cover: u32,
    ) -> bool;

    /// The pixel after `blend_pix`.
    spec fn blended(
        &self,
        p: Seq<C::ValueType>,
        cr: u32,
        cg: u32,
        cb: u32,
        alpha: u32,
    ) -> Seq<C::ValueType>;

    /// The pixel after `blend_pix_with_cover`.
    spec fn blended_cover(
        &self,
        p: Seq<C::ValueType>,
        cr: u32,
        cg: u32,
        cb: u32,
        alpha: u32,
        cover: u32,
    ) -> Seq<C::ValueType>;

    fn new() -> Self;

    fn blend_pix_with_cover(
        &self,
        p: &mut [C::ValueType],
        cr: u32,
        cg: u32,
        cb: u32,
        alpha: u32,
        cover: u32,
    )
        requires
            self.blend_cover_ok(old(p)@, cr, cg, cb, alpha, cover),
        ensures
            final(p)@ == self.blended_cover(old(p)@, cr, cg, cb, alpha, cover),
            final(p)@.len() == old(p)@.len(),
    ;

    fn blend_pix(&self, p: &mut [C::ValueType], cr: u32, cg: u32, cb: u32, alpha: u32)
        requires
            self.blend_ok(old(p)@, cr, cg, cb, alpha),
        ensures
            final(p)@ == self.blended(old(p)@, cr, cg, cb, alpha),
            final(p)@.len() == old(p)@.len(),
    ;
}

/// Blends a colour into the components of one pixel by a compositing
/// operation chosen by number.
pub trait BlenderOp<C: Color, O: Order>: Sized {
    fn new() -> Self;

    fn blend_pix_with_cover(
        &self,
        op: u32,
        p: &mut [C::ValueType],
        cr: u32,
        cg: u32,
        cb: u32,
        alpha: u32,
        cover: u32,
    );

    fn blend_pix(&self, op: u32, p: &mut [C::ValueType], cr: u32, cg: u32, cb: u32, alpha: u32);
}

/// Reads the colours of a line pattern, at pixel or at subpixel positions.
pub trait PatternFilter: Sized {
    type ColorType: Color;

    /// The pixel `(x, y)` lies inside `buf`.
    spec fn low_res_ok(&self, buf: &[&[Self::ColorType]], x: i32, y: i32) -> bool;

    /// The pixels that the subpixel position `(x, y)` reads lie inside `buf`.
    spec fn high_res_ok(&self, buf: &[&[Self::ColorType]], x: i32, y: i32) -> bool;

    /// The colour read at pixel `(x, y)`.
    spec fn low_res_value(&self, buf: &[&[Self::ColorType]], x: i32, y: i32) -> Self::ColorType;

    /// The colour read at subpixel position `(x, y)`.
    spec fn high_res_value(&self, buf: &[&[Self::ColorType]], x: i32, y: i32) -> Self::ColorType;

    fn new() -> Self;

    /// How many pixels the pattern must be widened by on each side.
    fn dilation(&self) -> u32;

    fn pixel_high_res(&self, buf: &[&[Self::ColorType]], p: &mut Self::ColorType, x: i32, y: i32)
        requires
            self.high_res_ok(buf, x, y),
        ensures
            *final(p) == self.high_res_value(buf, x, y),
    ;

    fn pixel_low_res(&self, buf: &[&[Self::ColorType]], p: &mut Self::ColorType, x: i32, y: i32)
        requires
            self.low_res_ok(buf, x, y),
        ensures
            *final(p) == self.low_res_value(buf, x, y),
    ;
}

/// A vertex that records its distance to the next one.
pub trait VertexDistance {
    fn calc_distance(&mut self, v: &Self) -> bool;
}

/// A collection that vertices are appended to.
pub trait VertexConsumer {
    type ValueType;

    fn remove_all(&mut self);

    fn add(&mut self, val: Self::ValueType);
}

/// Lookup of a colour by index.
pub trait ColorFn<C> {
    /// The number of colours that can be looked up.
    spec fn count(&self) -> nat;

    fn size(&self) -> u32;

    fn get(&mut self, v: u32) -> C
        requires
            v < old(self).count(),
    ;
}

/// Lookup of an alpha value by index.
pub trait AlphaFn<V> {
    fn size(&self) -> u32;

    fn get(&mut self, v: u32) -> V;
}

/// The distance function of a gradient.
pub trait GradientFunc {
    fn calculate(&self, x: i32, y: i32, d: i32) -> i32;
}

/// A transformation of subpixel coordinates.
pub trait Distortion {
    fn calculate(&self, x: &mut i32, y: &mut i32);
}

/// Receives path commands with integer coordinates.
pub trait PathStore {
    type T: AggInteger;

    fn move_to(&mut self, x: Self::T, y: Self::T);

    fn line_to(&mut self, x: Self::T, y: Self::T);

    fn curve3(&mut self, x_ctrl: Self::T, y_ctrl: Self::T, x_to: Self::T, y_to: Self::T);

    fn curve4(
        &mut self,
        x_ctrl1: Self::T,
        y_ctrl1: Self::T,
        x_ctrl2: Self::T,
        y_ctrl2: Self::T,
        x_to: Self::T,
        y_to: Self::T,
    );

    fn close_polygon(&mut self);
}

/// Either a value owned by its holder, or one borrowed from elsewhere.
pub enum Equiv<'a, B: Sized> {
    Own(B),
    Brw(&'a mut B),
}

impl<'a, B: Sized> Equiv<'a, B> {
    /// The value, wherever it lives.
    pub open spec fn target(&self) -> B {
        match self {
            Equiv::Own(b) => *b,
            Equiv::Brw(b) => **b,
        }
    }

    pub fn get(&self) -> (r: &B)
        ensures
            *r == self.target(),
    {
        match self {
            Equiv::Own(b) => b,
            Equiv::Brw(b) => &**b,
        }
    }

    pub fn get_mut(&mut self) -> (r: &mut B)
        ensures
            *r == old(self).target(),
            final(self).target() == *final(r),
    {
        match self {
            Equiv::Own(b) => b,
            Equiv::Brw(b) => &mut **b,
        }
    }
}

impl AggInteger for i8 {
    open spec fn spec_into_u32(&self) -> u32 {
        *self as u32
    }

    open spec fn spec_into_i32(&self) -> i32 {
        *self as i32
    }

    open spec fn spec_from_u32(i: u32) -> Self {
        i as i8
    }

    fn into_u32(&self) -> (r: u32)
        ensures
            r == *self as u32,
    {
        *self as u32
    }

    fn into_i32(&self) -> (r: i32)
        ensures
            r == *self as i32,
    {
        *self as i32
    }

    fn into_u64(&self) -> (r: u64)
        ensures
            r == *self as u64,
    {
        *self as u64
    }

    fn into_u8(&self) -> (r: u8)
        ensures
            r == *self as u8,
    {
        *self as u8
    }

    fn from_i32(i: i32) -> (r: Self)
        ensures
            r == i as i8,
    {
        i as i8
    }

    fn from_u32(i: u32) -> (r: Self)
        ensures
            r == i as i8,
    {
        i as i8
    }

    fn from_u8(i: u8) -> (r: Self)
        ensures
            r == i as i8,
    {
        i as i8
    }

    fn from_clong(i: i64) -> (r: Self)
        ensures
            r == i as i8,
    {
        i as i8
    }

    fn from_u64(i: u64) -> (r: Self)
        ensures
            r == i as i8,
    {
        i as i8
    }

    fn wrapping_mul(&self, a: Self) -> (r: Self)
        ensures
            r == vstd::wrapping::i8_specs::wrapping_mul(*self, a),
    {
        (i8::wrapping_mul)(*self, a)
    }

    fn wrapping_add(&self, a: Self) -> (r: Self)
        ensures
            r == vstd::wrapping::i8_specs::wrapping_add(*self, a),
    {
        (i8::wrapping_add)(*self, a)
    }
}

impl AggInteger for u8 {
    open spec fn spec_into_u32(&self) -> u32 {
        *self as u32
    }

    open spec fn spec_into_i32(&self) -> i32 {
        *self as i32
    }

    open spec fn spec_from_u32(i: u32) -> Self {
        i as u8
    }

    fn into_u32(&self) -> (r: u32)
        ensures
            r == *self as u32,
    {
        *self as u32
    }

    fn into_i32(&self) -> (r: i32)
        ensures
            r == *self as i32,
    {
        *self as i32
    }

    fn into_u64(&self) -> (r: u64)
        ensures
            r == *self as u64,
    {
        *self as u64
    }

    fn into_u8(&self) -> (r: u8)
        ensures
            r == *self as u8,
    {
        *self as u8
    }

    fn from_i32(i: i32) -> (r: Self)
        ensures
            r == i as u8,
    {
        i as u8
    }

    fn from_u32(i: u32) -> (r: Self)
        ensures
            r == i as u8,
    {
        i as u8
    }

    fn from_u8(i: u8) -> (r: Self)
        ensures
            r == i as u8,
    {
        i as u8
    }

    fn from_clong(i: i64) -> (r: Self)
        ensures
            r == i as u8,
    {
        i as u8
    }

    fn from_u64(i: u64) -> (r: Self)
        ensures
            r == i as u8,
    {
        i as u8
    }

    fn wrapping_mul(&self, a: Self) -> (r: Self)
        ensures
            r == vstd::wrapping::u8_specs::wrapping_mul(*self, a),
    {
        (u8::wrapping_mul)(*self, a)
    }

    fn wrapping_add(&self, a: Self) -> (r: Self)
        ensures
            r == vstd::wrapping::u8_specs::wrapping_add(*self, a),
    {
        (u8::wrapping_add)(*self, a)
    }
}

impl AggInteger for i16 {
    open spec fn spec_into_u32(&self) -> u32 {
        *self as u32
    }

    open spec fn spec_into_i32(&self) -> i32 {
        *self as i32
    }

    open spec fn spec_from_u32(i: u32) -> Self {
        i as i16
    }

    fn into_u32(&self) -> (r: u32)
        ensures
            r == *self as u32,
    {
        *self as u32
    }

    fn into_i32(&self) -> (r: i32)
        ensures
            r == *self as i32,
    {
        *self as i32
    }

    fn into_u64(&self) -> (r: u64)
        ensures
            r == *self as u64,
    {
        *self as u64
    }

    fn into_u8(&self) -> (r: u8)
        ensures
            r == *self as u8,
    {
        *self as u8
    }

    fn from_i32(i: i32) -> (r: Self)
        ensures
            r == i as i16,
    {
        i as i16
    }

    fn from_u32(i: u32) -> (r: Self)
        ensures
            r == i as i16,
    {
        i as i16
    }

    fn from_u8(i: u8) -> (r: Self)
        ensures
            r == i as i16,
    {
        i as i16
    }

    fn from_clong(i: i64) -> (r: Self)
        ensures
            r == i as i16,
    {
        i as i16
    }

    fn from_u64(i: u64) -> (r: Self)
        ensures
            r == i as i16,
    {
        i as i16
    }

    fn wrapping_mul(&self, a: Self) -> (r: Self)
        ensures
            r == vstd::wrapping::i16_specs::wrapping_mul(*self, a),
    {
        (i16::wrapping_mul)(*self, a)
    }

    fn wrapping_add(&self, a: Self) -> (r: Self)
        ensures
            r == vstd::wrapping::i16_specs::wrapping_add(*self, a),
    {
        (i16::wrapping_add)(*self, a)
    }
}

impl AggInteger for u16 {
    open spec fn spec_into_u32(&self) -> u32 {
        *self as u32
    }

    open spec fn spec_into_i32(&self) -> i32 {
        *self as i32
    }

    open spec fn spec_from_u32(i: u32) -> Self {
        i as u16
    }

    fn into_u32(&self) -> (r: u32)
        ensures
            r == *self as u32,
    {
        *self as u32
    }

    fn into_i32(&self) -> (r: i32)
        ensures
            r == *self as i32,
    {
        *self as i32
    }

    fn into_u64(&self) -> (r: u64)
        ensures
            r == *self as u64,
    {
        *self as u64
    }

    fn into_u8(&self) -> (r: u8)
        ensures
            r == *self as u8,
    {
        *self as u8
    }

    fn from_i32(i: i32) -> (r: Self)
        ensures
            r == i as u16,
    {
        i as u16
    }

    fn from_u32(i: u32) -> (r: Self)
        ensures
            r == i as u16,
    {
        i as u16
    }

    fn from_u8(i: u8) -> (r: Self)
        ensures
            r == i as u16,
    {
        i as u16
    }

    fn from_clong(i: i64) -> (r: Self)
        ensures
            r == i as u16,
    {
        i as u16
    }

    fn from_u64(i: u64) -> (r: Self)
        ensures
            r == i as u16,
    {
        i as u16
    }

    fn wrapping_mul(&self, a: Self) -> (r: Self)
        ensures
            r == vstd::wrapping::u16_specs::wrapping_mul(*self, a),
    {
        (u16::wrapping_mul)(*self, a)
    }

    fn wrapping_add(&self, a: Self) -> (r: Self)
        ensures
            r == vstd::wrapping::u16_specs::wrapping_add(*self, a),
    {
        (u16::wrapping_add)(*self, a)
    }
}

impl AggInteger for i32 {
    open spec fn spec_into_u32(&self) -> u32 {
        *self as u32
    }

    open spec fn spec_into_i32(&self) -> i32 {
        *self as i32
    }

    open spec fn spec_from_u32(i: u32) -> Self {
        i as i32
    }

    fn into_u32(&self) -> (r: u32)
        ensures
            r == *self as u32,
    {
        *self as u32
    }

    fn into_i32(&self) -> (r: i32)
        ensures
            r == *self as i32,
    {
        *self as i32
    }

    fn into_u64(&self) -> (r: u64)
        ensures
            r == *self as u64,
    {
        *self as u64
    }

    fn into_u8(&self) -> (r: u8)
        ensures
            r == *self as u8,
    {
        *self as u8
    }

    fn from_i32(i: i32) -> (r: Self)
        ensures
            r == i as i32,
    {
        i as i32
    }

    fn from_u32(i: u32) -> (r: Self)
        ensures
            r == i as i32,
    {
        i as i32
    }

    fn from_u8(i: u8) -> (r: Self)
        ensures
            r == i as i32,
    {
        i as i32
    }

    fn from_clong(i: i64) -> (r: Self)
        ensures
            r == i as i32,
    {
        i as i32
    }

    fn from_u64(i: u64) -> (r: Self)
        ensures
            r == i as i32,
    {
        i as i32
    }

    fn wrapping_mul(&self, a: Self) -> (r: Self)
        ensures
            r == vstd::wrapping::i32_specs::wrapping_mul(*self, a),
    {
        (i32::wrapping_mul)(*self, a)
    }

    fn wrapping_add(&self, a: Self) -> (r: Self)
        ensures
            r == vstd::wrapping::i32_specs::wrapping_add(*self, a),
    {
        (i32::wrapping_add)(*self, a)
    }
}

impl AggInteger for u32 {
    open spec fn spec_into_u32(&self) -> u32 {
        *self as u32
    }

    open spec fn spec_into_i32(&self) -> i32 {
        *self as i32
    }

    open spec fn spec_from_u32(i: u32) -> Self {
        i as u32
    }

    fn into_u32(&self) -> (r: u32)
        ensures
            r == *self as u32,
    {
        *self as u32
    }

    fn into_i32(&self) -> (r: i32)
        ensures
            r == *self as i32,
    {
        *self as i32
    }

    fn into_u64(&self) -> (r: u64)
        ensures
            r == *self as u64,
    {
        *self as u64
    }

    fn into_u8(&self) -> (r: u8)
        ensures
            r == *self as u8,
    {
        *self as u8
    }

    fn from_i32(i: i32) -> (r: Self)
        ensures
            r == i as u32,
    {
        i as u32
    }

    fn from_u32(i: u32) -> (r: Self)
        ensures
            r == i as u32,
    {
        i as u32
    }

    fn from_u8(i: u8) -> (r: Self)
        ensures
            r == i as u32,
    {
        i as u32
    }

    fn from_clong(i: i64) -> (r: Self)
        ensures
            r == i as u32,
    {
        i as u32
    }

    fn from_u64(i: u64) -> (r: Self)
        ensures
            r == i as u32,
    {
        i as u32
    }

    fn wrapping_mul(&self, a: Self) -> (r: Self)
        ensures
            r == vstd::wrapping::u32_specs::wrapping_mul(*self, a),
    {
        (u32::wrapping_mul)(*self, a)
    }

    fn wrapping_add(&self, a: Self) -> (r: Self)
        ensures
            r == vstd::wrapping::u32_specs::wrapping_add(*self, a),
    {
        (u32::wrapping_add)(*self, a)
    }
}

impl AggInteger for u64 {
    open spec fn spec_into_u32(&self) -> u32 {
        *self as u32
    }

    open spec fn spec_into_i32(&self) -> i32 {
        *self as i32
    }

    open spec fn spec_from_u32(i: u32) -> Self {
        i as u64
    }

    fn into_u32(&self) -> (r: u32)
        ensures
            r == *self as u32,
    {
        *self as u32
    }

    fn into_i32(&self) -> (r: i32)
        ensures
            r == *self as i32,
    {
        *self as i32
    }

    fn into_u64(&self) -> (r: u64)
        ensures
            r == *self as u64,
    {
        *self as u64
    }

    fn into_u8(&self) -> (r: u8)
        ensures
            r == *self as u8,
    {
        *self as u8
    }

    fn from_i32(i: i32) -> (r: Self)
        ensures
            r == i as u64,
    {
        i as u64
    }

    fn from_u32(i: u32) -> (r: Self)
        ensures
            r == i as u64,
    {
        i as u64
    }

    fn from_u8(i: u8) -> (r: Self)
        ensures
            r == i as u64,
    {
        i as u64
    }

    fn from_clong(i: i64) -> (r: Self)
        ensures
            r == i as u64,
    {
        i as u64
    }

    fn from_u64(i: u64) -> (r: Self)
        ensures
            r == i as u64,
    {
        i as u64
    }

    fn wrapping_mul(&self, a: Self) -> (r: Self)
        ensures
            r == vstd::wrapping::u64_specs::wrapping_mul(*self, a),
    {
        (u64::wrapping_mul)(*self, a)
    }

    fn wrapping_add(&self, a: Self) -> (r: Self)
        ensures
            r == vstd::wrapping::u64_specs::wrapping_add(*self, a),
    {
        (u64::wrapping_add)(*self, a)
    }
}

} // verus!
