//! A pixel format seen through an alpha mask: every cover that reaches the
//! RGB pixel format is first scaled by (or taken from) the mask.
use crate::color_rgba::Rgba8;
use crate::color_gray::Gray8;
use crate::pixfmt_gray::{row_bytes, scaled_covers, AlphaBlendGray};
use crate::pixfmt_rgb::{
    color_span_pix, covers_pix, lut_pix, lut_pix_ok, order_ok, put_win, rgb_copy_or_blend_ok,
    rgb_cover_blend, rgb_cover_ok, rgb_set, span3_written, win, AlphaBlendRgb,
};
use crate::rendering_buffer::{abs_stride, RenderBuf};
use crate::{AlphaMask, Blender, BlenderG, Equiv, Order};
use vstd::prelude::*;

verus! {

/// How many covers the span buffer holds past the length last asked for.
pub const SPAN_EXTRA_TAIL: u32 = 256;

/// The span buffer after it was made long enough for `len` covers: when it
/// is shorter, it grows to `len` plus the extra tail, the new covers zero.
pub open spec fn grown(s: Seq<u8>, len: nat) -> Seq<u8> {
    if len > s.len() {
        s + Seq::new((len + SPAN_EXTRA_TAIL - s.len()) as nat, |i: int| 0u8)
    } else {
        s
    }
}

/// The span buffer grown for `len` covers, its first `len` covers full.
pub open spec fn full_span(s: Seq<u8>, len: nat) -> Seq<u8> {
    let g = grown(s, len);
    Seq::new(g.len(), |i: int| if i < len { 255u8 } else { g[i] })
}

/// The span buffer grown for `len` covers, its first `len` covers taken
/// from `covers`.
pub open spec fn cover_span(s: Seq<u8>, len: nat, covers: Seq<u8>) -> Seq<u8> {
    let g = grown(s, len);
    Seq::new(g.len(), |i: int| if i < len { covers[i] } else { g[i] })
}

/// Blending `c` into `len` pixels from `(x, y)` with `covers`, rightwards
/// (`vertical` false) or downwards, stays in the buffer and in range.
pub open spec fn solid_span_ok<'b, O: Order, Blend: Blender<Rgba8, O>>(
    p: AlphaBlendRgb<'b, Rgba8, O, Blend>,
    vertical: bool,
    x: i32,
    y: i32,
    len: u32,
    c: Rgba8,
    covers: Seq<u8>,
) -> bool {
    &&& len <= covers.len()
    &&& if vertical {
        &&& p.vrun_ok(x as int, y as int, len as int)
        &&& forall|k: int|
            0 <= k < len ==> rgb_cover_ok::<O, Blend>(
                p.blender,
                #[trigger] win(p.bytes(), p.vbase(x as int, y as int)(k)),
                c,
                covers[k] as u32,
            )
    } else {
        &&& p.hrun_ok(x as int, y as int, len as int)
        &&& forall|k: int|
            0 <= k < len ==> rgb_cover_ok::<O, Blend>(
                p.blender,
                #[trigger] win(p.bytes(), p.hbase(x as int, y as int)(k)),
                c,
                covers[k] as u32,
            )
    }
}

/// Blending a pixel `w` with `colors[k]` and `covers[k]` (or `cover` where
/// there are no covers) stays in range.
pub open spec fn color_pix_ok<O: Order, Blend: Blender<Rgba8, O>>(
    b: Blend,
    w: Seq<u8>,
    k: int,
    colors: Seq<Rgba8>,
    covers: Seq<u8>,
    cover: u8,
) -> bool {
    if covers.len() > 0 {
        rgb_cover_ok::<O, Blend>(b, w, colors[k], covers[k] as u32)
    } else if cover == 255 {
        rgb_copy_or_blend_ok::<O, Blend>(b, w, colors[k])
    } else {
        rgb_cover_ok::<O, Blend>(b, w, colors[k], cover as u32)
    }
}

/// Blending `colors` into `len` pixels from `(x, y)` with `covers` (or with
/// `cover` where there are none), rightwards or downwards, stays in the
/// buffer and in range.
pub open spec fn color_span_ok<'b, O: Order, Blend: Blender<Rgba8, O>>(
    p: AlphaBlendRgb<'b, Rgba8, O, Blend>,
    vertical: bool,
    x: i32,
    y: i32,
    len: u32,
    colors: Seq<Rgba8>,
    covers: Seq<u8>,
    cover: u8,
) -> bool {
    &&& len <= colors.len()
    &&& covers.len() > 0 ==> len <= covers.len()
    &&& if vertical {
        &&& p.vrun_ok(x as int, y as int, len as int)
        &&& forall|k: int|
            0 <= k < len ==> color_pix_ok::<O, Blend>(
                p.blender,
                #[trigger] win(p.bytes(), p.vbase(x as int, y as int)(k)),
                k,
                colors,
                covers,
                cover,
            )
    } else {
        &&& p.hrun_ok(x as int, y as int, len as int)
        &&& forall|k: int|
            0 <= k < len ==> color_pix_ok::<O, Blend>(
                p.blender,
                #[trigger] win(p.bytes(), p.hbase(x as int, y as int)(k)),
                k,
                colors,
                covers,
                cover,
            )
    }
}

//==================================================PixAmaskAdaptor
/// An RGB pixel format whose drawing goes through an alpha mask. The covers
/// are gathered in a span buffer that grows as needed and keeps what it
/// held between calls.
pub struct PixAmaskAdaptor<'a, 'b, O, Blend, A> {
    pixf: Equiv<'a, AlphaBlendRgb<'b, Rgba8, O, Blend>>,
    mask: Equiv<'a, A>,
    span: Vec<u8>,
}

impl<'a, 'b, O: Order, Blend: Blender<Rgba8, O>, A: AlphaMask<CoverType = u8>> PixAmaskAdaptor<
    'a,
    'b,
    O,
    Blend,
    A,
> {
    /// The pixel format drawn into.
    pub closed spec fn pix(&self) -> AlphaBlendRgb<'b, Rgba8, O, Blend> {
        self.pixf.target()
    }

    /// The alpha mask.
    pub closed spec fn amask(&self) -> A {
        self.mask.target()
    }

    /// The span buffer of covers.
    pub closed spec fn span(&self) -> Seq<u8> {
        self.span@
    }

    pub fn new(pixf: &'a mut AlphaBlendRgb<'b, Rgba8, O, Blend>, mask: &'a mut A) -> (r: Self)
        ensures
            r.pix() == *old(pixf),
            r.amask() == *old(mask),
            r.span() == Seq::<u8>::empty(),
    {
        PixAmaskAdaptor { pixf: Equiv::Brw(pixf), mask: Equiv::Brw(mask), span: Vec::new() }
    }

    fn realloc_span(&mut self, len: u32)
        requires
            len + SPAN_EXTRA_TAIL <= usize::MAX,
        ensures
            final(self).span() == grown(old(self).span(), len as nat),
            final(self).pix() == old(self).pix(),
            final(self).amask() == old(self).amask(),
    {
        if len as usize > self.span.len() {
            let n: usize = len as usize + SPAN_EXTRA_TAIL as usize;
            let ghost s0 = self.span@;
            while self.span.len() < n
                invariant
                    s0.len() <= self.span@.len() <= n,
                    self.span@.subrange(0, s0.len() as int) == s0,
                    forall|i: int| s0.len() <= i < self.span@.len() ==> self.span@[i] == 0,
                    self.pix() == old(self).pix(),
                    self.amask() == old(self).amask(),
                decreases n - self.span.len(),
            {
                self.span.push(0);
            }
            assert(self.span@ =~= grown(s0, len as nat));
        }
    }

    fn init_span(&mut self, len: u32)
        requires
            len + SPAN_EXTRA_TAIL <= usize::MAX,
        ensures
            final(self).span() == full_span(old(self).span(), len as nat),
            final(self).pix() == old(self).pix(),
            final(self).amask() == old(self).amask(),
    {
        self.realloc_span(len);
        let ghost g = self.span@;
        let mut i: u32 = 0;
        while i < len
            invariant
                i <= len,
                g == grown(old(self).span(), len as nat),
                self.span@.len() == g.len(),
                len <= g.len(),
                forall|j: int| 0 <= j < g.len() ==> self.span@[j] == if j < i { 255u8 } else { g[j] },
                self.pix() == old(self).pix(),
                self.amask() == old(self).amask(),
            decreases len - i,
        {
            self.span.set(i as usize, 255);
            i += 1;
        }
        assert(self.span@ =~= full_span(old(self).span(), len as nat));
    }

    fn init_span_with_cover(&mut self, len: u32, covers: &[u8])
        requires
            len + SPAN_EXTRA_TAIL <= usize::MAX,
            len <= covers@.len(),
        ensures
            final(self).span() == cover_span(old(self).span(), len as nat, covers@),
            final(self).pix() == old(self).pix(),
            final(self).amask() == old(self).amask(),
    {
        self.realloc_span(len);
        let ghost g = self.span@;
        let mut i: u32 = 0;
        while i < len
            invariant
                i <= len,
                len <= covers@.len(),
                g == grown(old(self).span(), len as nat),
                self.span@.len() == g.len(),
                len <= g.len(),
                forall|j: int|
                    0 <= j < g.len() ==> self.span@[j] == if j < i {
                        covers@[j]
                    } else {
                        g[j]
                    },
                self.pix() == old(self).pix(),
                self.amask() == old(self).amask(),
            decreases len - i,
        {
            self.span.set(i as usize, covers[i as usize]);
            i += 1;
        }
        assert(self.span@ =~= cover_span(old(self).span(), len as nat, covers@));
    }

    /// Draws into `pixf` from now on.
    pub fn attach_pixfmt2(&mut self, pixf: &'a mut AlphaBlendRgb<'b, Rgba8, O, Blend>)
        ensures
            final(self).pix() == *old(pixf),
            final(self).amask() == old(self).amask(),
            final(self).span() == old(self).span(),
    {
        self.pixf = Equiv::Brw(pixf);
    }

    /// Reads its covers from `mask` from now on.
    pub fn attach_alpha_mask(&mut self, mask: &'a mut A)
        ensures
            final(self).amask() == *old(mask),
            final(self).pix() == old(self).pix(),
            final(self).span() == old(self).span(),
    {
        self.mask = Equiv::Brw(mask);
    }

    pub fn width(&self) -> (r: u32)
        ensures
            r == self.pix().buf().dims().0,
    {
        self.pixf.get().width()
    }

    pub fn height(&self) -> (r: u32)
        ensures
            r == self.pix().buf().dims().1,
    {
        self.pixf.get().height()
    }

    pub fn stride(&self) -> (r: i32)
        ensures
            r == self.pix().buf().dims().2,
    {
        self.pixf.get().stride()
    }

    /// The pixel `(x, y)` as the pixel format reads it.
    pub fn pixel(&self, x: i32, y: i32) -> (r: Rgba8)
        requires
            self.pix().hrun_ok(x as int, y as int, 1),
        ensures
            ({
                let w = self.pix().pixel_bytes(x as int, y as int);
                r == (Rgba8 {
                    r: w[O::spec_r() as int],
                    g: w[O::spec_g() as int],
                    b: w[O::spec_b() as int],
                    a: 255,
                })
            }),
    {
        self.pixf.get().pixel(x, y)
    }

    /// Writes the channels of `c` into the first three bytes of `p`.
    pub fn make_pix(&self, p: &mut [u8], c: &Rgba8)
        requires
            old(p)@.len() >= 3,
            order_ok::<O>(),
        ensures
            final(p)@ == rgb_set::<O>(old(p)@, *c),
    {
        self.pixf.get().make_pix(p, c)
    }

    /// Blends `c` into pixel `(x, y)` with the mask's coverage of it.
    pub fn copy_pixel(&mut self, x: i32, y: i32, c: &Rgba8)
        requires
            old(self).pix().hrun_ok(x as int, y as int, 1),
            old(self).amask().pixel_ok(x, y),
            rgb_cover_ok::<O, Blend>(
                old(self).pix().blender,
                old(self).pix().pixel_bytes(x as int, y as int),
                *c,
                old(self).amask().pixel_spec(x, y) as u32,
            ),
        ensures
            ({
                let p = old(self).pix();
                let b = p.pix_at(x as int, y as int);
                final(self).pix().bytes() == put_win(
                    p.bytes(),
                    b,
                    rgb_cover_blend::<O, Blend>(
                        p.blender,
                        win(p.bytes(), b),
                        *c,
                        old(self).amask().pixel_spec(x, y) as u32,
                    ),
                )
            }),
            final(self).pix().buf().dims() == old(self).pix().buf().dims(),
            final(self).amask() == old(self).amask(),
            final(self).span() == old(self).span(),
    {
        let cover = self.mask.get().pixel(x, y);
        self.pixf.get_mut().blend_pixel(x, y, c, cover);
    }

    /// Blends `c` into pixel `(x, y)` with `cover` scaled by the mask.
    pub fn blend_pixel(&mut self, x: i32, y: i32, c: &Rgba8, cover: u8)
        requires
            old(self).pix().hrun_ok(x as int, y as int, 1),
            old(self).amask().pixel_ok(x, y),
            rgb_cover_ok::<O, Blend>(
                old(self).pix().blender,
                old(self).pix().pixel_bytes(x as int, y as int),
                *c,
                old(self).amask().combine_pixel_spec(x, y, cover) as u32,
            ),
        ensures
            ({
                let p = old(self).pix();
                let b = p.pix_at(x as int, y as int);
                final(self).pix().bytes() == put_win(
                    p.bytes(),
                    b,
                    rgb_cover_blend::<O, Blend>(
                        p.blender,
                        win(p.bytes(), b),
                        *c,
                        old(self).amask().combine_pixel_spec(x, y, cover) as u32,
                    ),
                )
            }),
            final(self).pix().buf().dims() == old(self).pix().buf().dims(),
            final(self).amask() == old(self).amask(),
            final(self).span() == old(self).span(),
    {
        let m = self.mask.get().combine_pixel(x, y, cover);
        self.pixf.get_mut().blend_pixel(x, y, c, m);
    }

    /// Copies `len` pixels of row `ysrc` of `from`, from column `xsrc`, to
    /// `(xdst, ydst)`; the mask plays no part.
    pub fn copy_from(&mut self, from: &RenderBuf, xdst: i32, ydst: i32, xsrc: i32, ysrc: i32, len: u32)
        requires
            old(self).pix().hrun_ok(xdst as int, ydst as int, len as int),
            from.wf(),
            0 <= xsrc,
            0 <= ysrc < from.dims().1,
            3 * xsrc + 3 * len <= abs_stride(from.dims().2),
        ensures
            final(self).pix().buf().dims() == old(self).pix().buf().dims(),
            final(self).pix().bytes().len() == old(self).pix().bytes().len(),
            forall|k: int|
                0 <= k < 3 * len ==> final(self).pix().bytes()[old(self).pix().pix_at(xdst as int, ydst as int) + k]
                    == #[trigger] from.bytes()[from.row_start(ysrc as int) + 3 * xsrc + k],
            forall|j: int|
                0 <= j < old(self).pix().bytes().len() && !(old(self).pix().pix_at(xdst as int, ydst as int)
                    <= j < old(self).pix().pix_at(xdst as int, ydst as int) + 3 * len)
                    ==> #[trigger] final(self).pix().bytes()[j] == old(self).pix().bytes()[j],
            final(self).amask() == old(self).amask(),
            final(self).span() == old(self).span(),
    {
        self.pixf.get_mut().copy_from(from, xdst, ydst, xsrc, ysrc, len);
    }

    /// Blends `color` into `len` pixels from `(xdst, ydst)` with the bytes
    /// of row `ysrc` of the gray image `from` as covers, scaled by `cover`;
    /// the mask plays no part.
    pub fn blend_from_color<'c, BG: BlenderG<Gray8>, const STEP: u32, const OFFSET: u32>(
        &mut self,
        from: &AlphaBlendGray<'c, Gray8, BG, STEP, OFFSET>,
        color: &Rgba8,
        xdst: i32,
        ydst: i32,
        xsrc: i32,
        ysrc: i32,
        len: u32,
        cover: u32,
    )
        requires
            old(self).pix().hrun_ok(xdst as int, ydst as int, len as int),
            from.buf().wf(),
            0 <= ysrc < from.buf().dims().1,
            len <= abs_stride(from.buf().dims().2),
            cover <= 255,
            forall|k: int|
                0 <= k < len ==> rgb_cover_ok::<O, Blend>(
                    old(self).pix().blender,
                    #[trigger] win(old(self).pix().bytes(), old(self).pix().hbase(xdst as int, ydst as int)(k)),
                    *color,
                    scaled_covers(row_bytes(from.buf(), ysrc as int, len as int), cover)[k] as u32,
                ),
        ensures
            span3_written(
                old(self).pix().bytes(),
                final(self).pix().bytes(),
                len as int,
                old(self).pix().hbase(xdst as int, ydst as int),
                covers_pix::<O, Blend>(
                    old(self).pix().blender,
                    *color,
                    scaled_covers(row_bytes(from.buf(), ysrc as int, len as int), cover),
                ),
            ),
            final(self).pix().buf().dims() == old(self).pix().buf().dims(),
            final(self).amask() == old(self).amask(),
            final(self).span() == old(self).span(),
    {
        self.pixf.get_mut().blend_from_color(from, color, xdst, ydst, xsrc, ysrc, len, cover);
    }

    /// Applies to `len` pixels from `(xdst, ydst)` the colours that
    /// `color_lut` holds for the bytes of row `ysrc` of the gray image
    /// `from`, with `cover`; the mask plays no part.
    pub fn blend_from_lut<'c, BG: BlenderG<Gray8>, const STEP: u32, const OFFSET: u32>(
        &mut self,
        from: &AlphaBlendGray<'c, Gray8, BG, STEP, OFFSET>,
        color_lut: &[Rgba8],
        xdst: i32,
        ydst: i32,
        xsrc: i32,
        ysrc: i32,
        len: u32,
        cover: u32,
    )
        requires
            old(self).pix().hrun_ok(xdst as int, ydst as int, len as int),
            from.buf().wf(),
            0 <= ysrc < from.buf().dims().1,
            len <= abs_stride(from.buf().dims().2),
            cover <= 255,
            forall|k: int|
                0 <= k < len ==> (#[trigger] row_bytes(from.buf(), ysrc as int, len as int)[k]) < color_lut@.len(),
            forall|k: int|
                0 <= k < len ==> lut_pix_ok::<O, Blend>(
                    old(self).pix().blender,
                    #[trigger] win(old(self).pix().bytes(), old(self).pix().hbase(xdst as int, ydst as int)(k)),
                    color_lut@[row_bytes(from.buf(), ysrc as int, len as int)[k] as int],
                    cover,
                ),
        ensures
            span3_written(
                old(self).pix().bytes(),
                final(self).pix().bytes(),
                len as int,
                old(self).pix().hbase(xdst as int, ydst as int),
                lut_pix::<O, Blend>(
                    old(self).pix().blender,
                    color_lut@,
                    row_bytes(from.buf(), ysrc as int, len as int),
                    cover,
                ),
            ),
            final(self).pix().buf().dims() == old(self).pix().buf().dims(),
            final(self).amask() == old(self).amask(),
            final(self).span() == old(self).span(),
    {
        self.pixf.get_mut().blend_from_lut(from, color_lut, xdst, ydst, xsrc, ysrc, len, cover);
    }

    /// Sets `len` pixels rightwards from `(x, y)` to `c`, each with the
    /// mask's coverage of it.
    pub fn copy_hline(&mut self, x: i32, y: i32, len: u32, c: &Rgba8)
        requires
            len <= i32::MAX,
            len + SPAN_EXTRA_TAIL <= usize::MAX,
            old(self).amask().hspan_ok(x, y, grown(old(self).span(), len as nat).len(), len as i32),
            solid_span_ok(
                old(self).pix(),
                false,
                x,
                y,
                len,
                *c,
                old(self).amask().fill_hspan_spec(x, y, grown(old(self).span(), len as nat), len as i32),
            ),
        ensures
            final(self).span() == old(self).amask().fill_hspan_spec(
                x,
                y,
                grown(old(self).span(), len as nat),
                len as i32,
            ),
            final(self).amask() == old(self).amask(),
            span3_written(
                old(self).pix().bytes(),
                final(self).pix().bytes(),
                len as int,
                old(self).pix().hbase(x as int, y as int),
                covers_pix::<O, Blend>(old(self).pix().blender, *c, final(self).span()),
            ),
            final(self).pix().buf().dims() == old(self).pix().buf().dims(),
    {
        self.realloc_span(len);
        self.mask.get().fill_hspan(x, y, self.span.as_mut_slice(), len as i32);
        self.pixf.get_mut().blend_solid_hspan(x, y, len, c, self.span.as_slice());
    }

    /// Blends `c` into `len` pixels rightwards from `(x, y)`, each with the
    /// mask's coverage of it (the `_cover` argument is not used).
    pub fn blend_hline(&mut self, x: i32, y: i32, len: u32, c: &Rgba8, _cover: u8)
        requires
            len <= i32::MAX,
            len + SPAN_EXTRA_TAIL <= usize::MAX,
            old(self).amask().hspan_ok(x, y, full_span(old(self).span(), len as nat).len(), len as i32),
            solid_span_ok(old(self).pix(), false, x, y, len, *c, old(self).amask().combine_hspan_spec(x, y, full_span(old(self).span(), len as nat), len as i32)),
        ensures
            final(self).span() == old(self).amask().combine_hspan_spec(x, y, full_span(old(self).span(), len as nat), len as i32),
            final(self).amask() == old(self).amask(),
            span3_written(
                old(self).pix().bytes(),
                final(self).pix().bytes(),
                len as int,
                old(self).pix().hbase(x as int, y as int),
                covers_pix::<O, Blend>(old(self).pix().blender, *c, final(self).span()),
            ),
            final(self).pix().buf().dims() == old(self).pix().buf().dims(),
    {
        self.init_span(len);
        self.mask.get().combine_hspan(x, y, self.span.as_mut_slice(), len as i32);
        self.pixf.get_mut().blend_solid_hspan(x, y, len, c, self.span.as_slice());
    }

    /// Sets `len` pixels downwards from `(x, y)` to `c`, each with the mask's
    /// coverage of it.
    pub fn copy_vline(&mut self, x: i32, y: i32, len: u32, c: &Rgba8)
        requires
            len <= i32::MAX,
            len + SPAN_EXTRA_TAIL <= usize::MAX,
            old(self).amask().vspan_ok(x, y, grown(old(self).span(), len as nat).len(), len as i32),
            solid_span_ok(old(self).pix(), true, x, y, len, *c, old(self).amask().fill_vspan_spec(x, y, grown(old(self).span(), len as nat), len as i32)),
        ensures
            final(self).span() == old(self).amask().fill_vspan_spec(x, y, grown(old(self).span(), len as nat), len as i32),
            final(self).amask() == old(self).amask(),
            span3_written(
                old(self).pix().bytes(),
                final(self).pix().bytes(),
                len as int,
                old(self).pix().vbase(x as int, y as int),
                covers_pix::<O, Blend>(old(self).pix().blender, *c, final(self).span()),
            ),
            final(self).pix().buf().dims() == old(self).pix().buf().dims(),
    {
        self.realloc_span(len);
        self.mask.get().fill_vspan(x, y, self.span.as_mut_slice(), len as i32);
        self.pixf.get_mut().blend_solid_vspan(x, y, len, c, self.span.as_slice());
    }

    /// Blends `c` into `len` pixels downwards from `(x, y)`, each with the
    /// mask's coverage of it (the `_cover` argument is not used).
    pub fn blend_vline(&mut self, x: i32, y: i32, len: u32, c: &Rgba8, _cover: u8)
        requires
            len <= i32::MAX,
            len + SPAN_EXTRA_TAIL <= usize::MAX,
            old(self).amask().vspan_ok(x, y, full_span(old(self).span(), len as nat).len(), len as i32),
            solid_span_ok(old(self).pix(), true, x, y, len, *c, old(self).amask().combine_vspan_spec(x, y, full_span(old(self).span(), len as nat), len as i32)),
        ensures
            final(self).span() == old(self).amask().combine_vspan_spec(x, y, full_span(old(self).span(), len as nat), len as i32),
            final(self).amask() == old(self).amask(),
            span3_written(
                old(self).pix().bytes(),
                final(self).pix().bytes(),
                len as int,
                old(self).pix().vbase(x as int, y as int),
                covers_pix::<O, Blend>(old(self).pix().blender, *c, final(self).span()),
            ),
            final(self).pix().buf().dims() == old(self).pix().buf().dims(),
    {
        self.init_span(len);
        self.mask.get().combine_vspan(x, y, self.span.as_mut_slice(), len as i32);
        self.pixf.get_mut().blend_solid_vspan(x, y, len, c, self.span.as_slice());
    }

    /// Blends `c` into `len` pixels rightwards from `(x, y)`, pixel `k` with
    /// `covers[k]` scaled by the mask.
    pub fn blend_solid_hspan(&mut self, x: i32, y: i32, len: u32, c: &Rgba8, covers: &[u8])
        requires
            len <= i32::MAX,
            len + SPAN_EXTRA_TAIL <= usize::MAX,
            len <= covers@.len(),
            old(self).amask().hspan_ok(x, y, cover_span(old(self).span(), len as nat, covers@).len(), len as i32),
            solid_span_ok(old(self).pix(), false, x, y, len, *c, old(self).amask().combine_hspan_spec(x, y, cover_span(old(self).span(), len as nat, covers@), len as i32)),
        ensures
            final(self).span() == old(self).amask().combine_hspan_spec(x, y, cover_span(old(self).span(), len as nat, covers@), len as i32),
            final(self).amask() == old(self).amask(),
            span3_written(
                old(self).pix().bytes(),
                final(self).pix().bytes(),
                len as int,
                old(self).pix().hbase(x as int, y as int),
                covers_pix::<O, Blend>(old(self).pix().blender, *c, final(self).span()),
            ),
            final(self).pix().buf().dims() == old(self).pix().buf().dims(),
    {
        self.init_span_with_cover(len, covers);
        self.mask.get().combine_hspan(x, y, self.span.as_mut_slice(), len as i32);
        self.pixf.get_mut().blend_solid_hspan(x, y, len, c, self.span.as_slice());
    }

    /// Blends `c` into `len` pixels downwards from `(x, y)`, pixel `k` with
    /// `covers[k]` scaled by the mask.
    pub fn blend_solid_vspan(&mut self, x: i32, y: i32, len: u32, c: &Rgba8, covers: &[u8])
        requires
            len <= i32::MAX,
            len + SPAN_EXTRA_TAIL <= usize::MAX,
            len <= covers@.len(),
            old(self).amask().vspan_ok(x, y, cover_span(old(self).span(), len as nat, covers@).len(), len as i32),
            solid_span_ok(old(self).pix(), true, x, y, len, *c, old(self).amask().combine_vspan_spec(x, y, cover_span(old(self).span(), len as nat, covers@), len as i32)),
        ensures
            final(self).span() == old(self).amask().combine_vspan_spec(x, y, cover_span(old(self).span(), len as nat, covers@), len as i32),
            final(self).amask() == old(self).amask(),
            span3_written(
                old(self).pix().bytes(),
                final(self).pix().bytes(),
                len as int,
                old(self).pix().vbase(x as int, y as int),
                covers_pix::<O, Blend>(old(self).pix().blender, *c, final(self).span()),
            ),
            final(self).pix().buf().dims() == old(self).pix().buf().dims(),
    {
        self.init_span_with_cover(len, covers);
        self.mask.get().combine_vspan(x, y, self.span.as_mut_slice(), len as i32);
        self.pixf.get_mut().blend_solid_vspan(x, y, len, c, self.span.as_slice());
    }

    /// Blends `colors` into `len` pixels rightwards from `(x, y)`, each with
    /// the mask's coverage of it.
    pub fn copy_color_hspan(&mut self, x: i32, y: i32, len: u32, colors: &[Rgba8])
        requires
            len <= i32::MAX,
            len + SPAN_EXTRA_TAIL <= usize::MAX,
            old(self).amask().hspan_ok(x, y, grown(old(self).span(), len as nat).len(), len as i32),
            color_span_ok(old(self).pix(), false, x, y, len, colors@, old(self).amask().fill_hspan_spec(x, y, grown(old(self).span(), len as nat), len as i32), 255u8),
        ensures
            final(self).span() == old(self).amask().fill_hspan_spec(x, y, grown(old(self).span(), len as nat), len as i32),
            final(self).amask() == old(self).amask(),
            span3_written(
                old(self).pix().bytes(),
                final(self).pix().bytes(),
                len as int,
                old(self).pix().hbase(x as int, y as int),
                color_span_pix::<O, Blend>(old(self).pix().blender, colors@, final(self).span(), 255u8),
            ),
            final(self).pix().buf().dims() == old(self).pix().buf().dims(),
    {
        self.realloc_span(len);
        self.mask.get().fill_hspan(x, y, self.span.as_mut_slice(), len as i32);
        self.pixf.get_mut().blend_color_hspan(x, y, len, colors, self.span.as_slice(), 255u8);
    }

    /// Blends `colors` into `len` pixels downwards from `(x, y)`, each with
    /// the mask's coverage of it.
    pub fn copy_color_vspan(&mut self, x: i32, y: i32, len: u32, colors: &[Rgba8])
        requires
            len <= i32::MAX,
            len + SPAN_EXTRA_TAIL <= usize::MAX,
            old(self).amask().vspan_ok(x, y, grown(old(self).span(), len as nat).len(), len as i32),
            color_span_ok(old(self).pix(), true, x, y, len, colors@, old(self).amask().fill_vspan_spec(x, y, grown(old(self).span(), len as nat), len as i32), 255u8),
        ensures
            final(self).span() == old(self).amask().fill_vspan_spec(x, y, grown(old(self).span(), len as nat), len as i32),
            final(self).amask() == old(self).amask(),
            span3_written(
                old(self).pix().bytes(),
                final(self).pix().bytes(),
                len as int,
                old(self).pix().vbase(x as int, y as int),
                color_span_pix::<O, Blend>(old(self).pix().blender, colors@, final(self).span(), 255u8),
            ),
            final(self).pix().buf().dims() == old(self).pix().buf().dims(),
    {
        self.realloc_span(len);
        self.mask.get().fill_vspan(x, y, self.span.as_mut_slice(), len as i32);
        self.pixf.get_mut().blend_color_vspan(x, y, len, colors, self.span.as_slice(), 255u8);
    }

    /// Blends `colors` into `len` pixels rightwards from `(x, y)`: with `covers`
    /// scaled by the mask where there are covers, else with the mask's
    /// coverage. `cover` counts only where the span buffer is empty.
    pub fn blend_color_hspan(
        &mut self,
        x: i32,
        y: i32,
        len: u32,
        colors: &[Rgba8],
        covers: &[u8],
        cover: u8,
    )
        requires
            len <= i32::MAX,
            len + SPAN_EXTRA_TAIL <= usize::MAX,
            covers@.len() > 0 ==> len <= covers@.len(),
            if covers@.len() > 0 {
                old(self).amask().hspan_ok(x, y, cover_span(old(self).span(), len as nat, covers@).len(), len as i32)
            } else {
                old(self).amask().hspan_ok(x, y, grown(old(self).span(), len as nat).len(), len as i32)
            },
            color_span_ok(old(self).pix(), false, x, y, len, colors@, (if covers@.len() > 0 {
                old(self).amask().combine_hspan_spec(x, y, cover_span(old(self).span(), len as nat, covers@), len as i32)
            } else {
                old(self).amask().fill_hspan_spec(x, y, grown(old(self).span(), len as nat), len as i32)
            }), cover),
        ensures
            final(self).span() == (if covers@.len() > 0 {
                old(self).amask().combine_hspan_spec(x, y, cover_span(old(self).span(), len as nat, covers@), len as i32)
            } else {
                old(self).amask().fill_hspan_spec(x, y, grown(old(self).span(), len as nat), len as i32)
            }),
            final(self).amask() == old(self).amask(),
            span3_written(
                old(self).pix().bytes(),
                final(self).pix().bytes(),
                len as int,
                old(self).pix().hbase(x as int, y as int),
                color_span_pix::<O, Blend>(old(self).pix().blender, colors@, final(self).span(), cover),
            ),
            final(self).pix().buf().dims() == old(self).pix().buf().dims(),
    {
        if covers.len() > 0 {
            self.init_span_with_cover(len, covers);
            self.mask.get().combine_hspan(x, y, self.span.as_mut_slice(), len as i32);
        } else {
            self.realloc_span(len);
            self.mask.get().fill_hspan(x, y, self.span.as_mut_slice(), len as i32);
        }
        self.pixf.get_mut().blend_color_hspan(x, y, len, colors, self.span.as_slice(), cover);
    }

    /// Blends `colors` into `len` pixels downwards from `(x, y)`: with `covers`
    /// scaled by the mask where there are covers, else with the mask's
    /// coverage. `cover` counts only where the span buffer is empty.
    pub fn blend_color_vspan(
        &mut self,
        x: i32,
        y: i32,
        len: u32,
        colors: &[Rgba8],
        covers: &[u8],
        cover: u8,
    )
        requires
            len <= i32::MAX,
            len + SPAN_EXTRA_TAIL <= usize::MAX,
            covers@.len() > 0 ==> len <= covers@.len(),
            if covers@.len() > 0 {
                old(self).amask().vspan_ok(x, y, cover_span(old(self).span(), len as nat, covers@).len(), len as i32)
            } else {
                old(self).amask().vspan_ok(x, y, grown(old(self).span(), len as nat).len(), len as i32)
            },
            color_span_ok(old(self).pix(), true, x, y, len, colors@, (if covers@.len() > 0 {
                old(self).amask().combine_vspan_spec(x, y, cover_span(old(self).span(), len as nat, covers@), len as i32)
            } else {
                old(self).amask().fill_vspan_spec(x, y, grown(old(self).span(), len as nat), len as i32)
            }), cover),
        ensures
            final(self).span() == (if covers@.len() > 0 {
                old(self).amask().combine_vspan_spec(x, y, cover_span(old(self).span(), len as nat, covers@), len as i32)
            } else {
                old(self).amask().fill_vspan_spec(x, y, grown(old(self).span(), len as nat), len as i32)
            }),
            final(self).amask() == old(self).amask(),
            span3_written(
                old(self).pix().bytes(),
                final(self).pix().bytes(),
                len as int,
                old(self).pix().vbase(x as int, y as int),
                color_span_pix::<O, Blend>(old(self).pix().blender, colors@, final(self).span(), cover),
            ),
            final(self).pix().buf().dims() == old(self).pix().buf().dims(),
    {
        if covers.len() > 0 {
            self.init_span_with_cover(len, covers);
            self.mask.get().combine_vspan(x, y, self.span.as_mut_slice(), len as i32);
        } else {
            self.realloc_span(len);
            self.mask.get().fill_vspan(x, y, self.span.as_mut_slice(), len as i32);
        }
        self.pixf.get_mut().blend_color_vspan(x, y, len, colors, self.span.as_slice(), cover);
    }
}

} // verus!
