use agg::alpha_mask_u8::{AlphaMaskGray8, AlphaMaskRgb24Gray, AmaskNoClipGray8};
use agg::array::{PodAutoArray, PodBVector};
use agg::bitset_iterator::BitsetIterator;
use agg::blur::{
    stack_blur_gray8, stack_blur_rgb24, StackBlurCalcGray, StackBlurCalcRgba, StackBlurTables,
};
use agg::color_gray::Gray8;
use agg::color_rgba::{OrderRgb, Rgba8};
use agg::font_freetype::calc_crc32;
use agg::glyph_raster_bin::GlyphRasterBin;
use agg::image_accessors::{
    WrapModeReflect, WrapModeReflectAutoPow2, WrapModeRepeat, WrapModeRepeatAutoPow2,
    WrapModeRepeatPow2,
};
use agg::path_storage_integer::{PathStorageInteger, VertexInteger};
use agg::rendering_buffer::RenderBuf;
use agg::{AlphaMask, BlurCalcGray, BlurCalcRgb, ColorFn, ImageWrap, PathStore, RenderBuffer, VertexConsumer};

#[test]
fn wrap_repeat_takes_modulo() {
    let mut w = WrapModeRepeat::new(10);
    assert_eq!(w.get(13), 3);
    assert_eq!(w.inc(), 4);
    assert_eq!(w.get(9), 9);
    assert_eq!(w.inc(), 0);
}

#[test]
fn wrap_repeat_pow2_masks() {
    let mut w = WrapModeRepeatPow2::new(10);
    assert_eq!(w.get(13), 5);
    assert_eq!(w.get(-1), 7);
    assert_eq!(w.inc(), 0);
    let mut z = WrapModeRepeatPow2::new(0);
    assert_eq!(z.get(12345), 0);
}

#[test]
fn wrap_repeat_auto_pow2_chooses_reduction() {
    let mut p = WrapModeRepeatAutoPow2::new(8);
    assert_eq!(p.get(13), 5);
    assert_eq!(p.get(-1), 7);
    let mut q = WrapModeRepeatAutoPow2::new(10);
    assert_eq!(q.get(13), 3);
    assert_eq!(q.inc(), 4);
}

#[test]
fn wrap_reflect_mirrors() {
    let mut w = WrapModeReflect::new(10);
    assert_eq!(w.get(3), 3);
    assert_eq!(w.get(12), 7);
    assert_eq!(w.inc(), 6);
}

#[test]
fn wrap_reflect_auto_pow2_mirrors() {
    let mut w = WrapModeReflectAutoPow2::new(10);
    assert_eq!(w.get(-1), 0);
    assert_eq!(w.get(25), 5);
    let mut p = WrapModeReflectAutoPow2::new(8);
    assert_eq!(p.get(-1), 0);
    assert_eq!(p.get(9), 6);
    assert_eq!(p.inc(), 5);
}

fn gray_image(w: u32, h: u32, px: &[u8]) -> RenderBuf {
    RenderBuf::new(px.to_vec(), w, h, w as i32).unwrap()
}

#[test]
fn render_buf_rejects_short_buffer() {
    assert!(RenderBuf::new(vec![0u8; 5], 3, 2, 3).is_none());
    assert!(RenderBuf::new(vec![0u8; 6], 3, 2, i32::MIN).is_none());
    let rb = RenderBuf::new(vec![0u8; 6], 3, 2, -3).unwrap();
    assert_eq!(rb.row_offset(0), 3);
    assert_eq!(rb.row_offset(1), 0);
    assert_eq!(rb.stride_abs(), 3);
    assert_eq!((rb.width(), rb.height(), rb.stride()), (3, 2, -3));
}

#[test]
fn render_buf_attach_and_bytes() {
    let mut rb = gray_image(2, 2, &[1, 2, 3, 4]);
    rb.set_byte(2, 9);
    assert_eq!(rb.byte_at(2), 9);
    rb.attach(vec![7u8; 8], 4, 2, 4);
    assert_eq!(rb.as_bytes(), &[7u8; 8][..]);
}

#[test]
fn alpha_mask_pixel_inside_and_outside() {
    let m = AlphaMaskGray8::new(gray_image(3, 2, &[10, 20, 30, 40, 50, 60]));
    assert_eq!(m.pixel(1, 1), 50);
    assert_eq!(m.pixel(3, 0), 0);
    assert_eq!(m.pixel(-1, 0), 0);
    assert_eq!(m.combine_pixel(2, 0, 255), ((255u32 + 255 * 30) >> 8) as u8);
    assert_eq!(AlphaMaskGray8::cover_full(), 255);
}

#[test]
fn alpha_mask_fill_hspan_inside_reads_row() {
    let m = AlphaMaskGray8::new(gray_image(4, 2, &[1, 2, 3, 4, 5, 6, 7, 8]));
    let mut dst = [99u8; 6];
    m.fill_hspan(1, 1, &mut dst, 3);
    assert_eq!(dst, [6, 7, 8, 99, 99, 99]);
    let mut out = [99u8; 4];
    m.fill_hspan(0, 5, &mut out, 3);
    assert_eq!(out, [0, 0, 0, 99]);
}

#[test]
fn alpha_mask_fill_hspan_left_clip_as_library() {
    let m = AlphaMaskGray8::new(gray_image(4, 1, &[1, 2, 3, 4]));
    let mut dst = [99u8; 5];
    m.fill_hspan(-2, 0, &mut dst, 4);
    assert_eq!(dst, [1, 2, 99, 99, 99]);
}

#[test]
fn alpha_mask_vspan_and_combine() {
    let m = AlphaMaskGray8::new(gray_image(2, 3, &[10, 0, 20, 0, 255, 0]));
    let mut dst = [0u8; 3];
    m.fill_vspan(0, 0, &mut dst, 3);
    assert_eq!(dst, [10, 20, 255]);
    let mut c = [255u8, 255, 255];
    m.combine_vspan(0, 0, &mut c, 3);
    assert_eq!(c, [((255 + 255 * 10) >> 8) as u8, ((255 + 255 * 20) >> 8) as u8, 255]);
    let mut h = [128u8, 128];
    m.combine_hspan(0, 2, &mut h, 2);
    assert_eq!(h, [((255 + 128 * 255) >> 8) as u8, ((255 + 128 * 0) >> 8) as u8]);
}

#[test]
fn alpha_mask_rgb_luminance() {
    let m = AlphaMaskRgb24Gray::new(RenderBuf::new(vec![200, 100, 50, 0, 0, 0], 2, 1, 6).unwrap());
    assert_eq!(m.pixel(0, 0), 124);
    assert_eq!(m.pixel(1, 0), 0);
}

#[test]
fn amask_no_clip_spans() {
    let m = AmaskNoClipGray8::new(gray_image(3, 2, &[1, 2, 3, 4, 5, 6]));
    assert_eq!(m.pixel(2, 1), 6);
    let mut dst = [0u8; 3];
    m.fill_hspan(0, 1, &mut dst, 3);
    assert_eq!(dst, [4, 5, 6]);
    let mut v = [0u8; 2];
    m.fill_vspan(1, 0, &mut v, 2);
    assert_eq!(v, [2, 5]);
}

#[test]
fn bitset_iterator_walks_msb_first() {
    let bits = [0b1010_0000u8, 0b0000_0001];
    let mut it = BitsetIterator::new(&bits, 0);
    assert_ne!(it.bit(), 0);
    it.inc();
    assert_eq!(it.bit(), 0);
    it.inc();
    assert_ne!(it.bit(), 0);
    let mut j = BitsetIterator::new(&bits, 15);
    assert_ne!(j.bit(), 0);
    j = BitsetIterator::new(&bits, 14);
    assert_eq!(j.bit(), 0);
    j.inc();
    assert_ne!(j.bit(), 0);
}

#[test]
fn stack_blur_gray_single_dot() {
    let mut img = gray_image(4, 3, &[0, 0, 0, 0, 0, 255, 0, 0, 0, 0, 0, 0]);
    stack_blur_gray8::<1, 0>(&mut img, 1, 1);
    assert_eq!(img.as_bytes(), &[15, 31, 15, 0, 31, 63, 31, 0, 15, 31, 15, 0][..]);
}

#[test]
fn stack_blur_gray_row_only() {
    let mut img = gray_image(7, 1, &[10, 20, 30, 40, 50, 60, 70]);
    stack_blur_gray8::<1, 0>(&mut img, 2, 0);
    assert_eq!(img.as_bytes(), &[14, 21, 30, 40, 50, 59, 65][..]);
    let mut one = gray_image(1, 1, &[100]);
    stack_blur_gray8::<1, 0>(&mut one, 3, 3);
    assert_eq!(one.as_bytes(), &[100][..]);
}

#[test]
fn stack_blur_zero_radius_keeps_image() {
    let mut img = gray_image(3, 1, &[1, 200, 3]);
    stack_blur_gray8::<1, 0>(&mut img, 0, 0);
    assert_eq!(img.as_bytes(), &[1, 200, 3][..]);
}

#[test]
fn stack_blur_rgb_blurs_each_channel() {
    let px = vec![0, 0, 0, 0, 255, 0, 0, 0, 0, 0, 0, 0, 0, 0, 0];
    let mut img = RenderBuf::new(px, 5, 1, 15).unwrap();
    stack_blur_rgb24::<OrderRgb>(&mut img, 1, 0);
    let b = img.as_bytes();
    assert_eq!(b, &[0, 63, 0, 0, 127, 0, 0, 63, 0, 0, 0, 0, 0, 0, 0][..]);
}

#[test]
fn stack_blur_tables_values() {
    let t = StackBlurTables::new();
    assert_eq!(t.mul(1), 512);
    assert_eq!(t.shr(1), 11);
    assert_eq!(t.mul(254), 259);
    assert_eq!(t.shr(254), 24);
}

#[test]
fn stack_blur_calc_add_sub_round_trip() {
    let mut s = <StackBlurCalcRgba<u32> as BlurCalcRgb>::new();
    let c = Rgba8 { r: 10, g: 20, b: 30, a: 40 };
    s.add(&c);
    s.add_k(&c, 2);
    let mut out = Rgba8 { r: 0, g: 0, b: 0, a: 0 };
    s.calc_pix(&mut out, 3);
    assert_eq!((out.r, out.g, out.b, out.a), (10, 20, 30, 40));
    s.sub(&c);
    s.calc_pix_mul(&mut out, 128, 8);
    assert_eq!((out.r, out.g, out.b, out.a), (10, 20, 30, 40));
    s.clear();
    s.calc_pix(&mut out, 1);
    assert_eq!((out.r, out.a), (0, 0));
}

#[test]
fn stack_blur_calc_gray() {
    let mut s = <StackBlurCalcGray<u32> as BlurCalcGray>::new();
    let g = Gray8 { v: 100, a: 50 };
    s.add_k(&g, 4);
    s.sub(&g);
    let mut out = Gray8 { v: 0, a: 0 };
    s.calc_pix(&mut out, 3);
    assert_eq!((out.v, out.a), (100, 50));
}

#[test]
fn crc32_of_check_string() {
    let data = b"123456789";
    assert_eq!(calc_crc32(data, data.len()), 0xCBF4_3926);
    assert_eq!(calc_crc32(data, 0), 0);
}

#[test]
fn glyph_raster_reads_font() {
    // height 2, base line 1, first char 65, one char; offset 0; width 3, rows 0b101_00000 and 0b010_00000
    let font = [2u8, 1, 65, 1, 0, 0, 3, 0b1010_0000, 0b0100_0000];
    let mut g = GlyphRasterBin::new(&font);
    assert_eq!(g.height(), 2);
    assert_eq!(g.base_line(), 1);
    assert_eq!(g.width("AA"), 6);
    // A character is cut to its low byte: U+0141 selects glyph 0x41.
    assert_eq!(g.width("A\u{141}"), 6);
    assert_eq!(g.prepare_glyph(65), 3);
    let top = g.span(1).to_vec();
    assert_eq!(&top[..3], &[255, 0, 255]);
    let bottom = g.span(0).to_vec();
    assert_eq!(&bottom[..3], &[0, 255, 0]);
}

#[test]
fn pod_auto_array_fills_from_front() {
    let mut a = PodAutoArray::<i32, 4>::new(-1);
    assert_eq!(a.size(), 0);
    a.add(5);
    a.add(6);
    assert_eq!(a.size(), 2);
    assert_eq!(*a.at(0), 5);
    assert_eq!(a.value_at(1), 6);
    assert_eq!(a.value_at(3), -1);
    a.inc_size(1);
    assert_eq!(a.size(), 3);
}

#[test]
fn pod_bvector_ring_neighbours() {
    let v = vec![1, 2, 3];
    assert_eq!(*v.prev(0), 3);
    assert_eq!(*v.next(2), 1);
    assert_eq!(*v.curr(1), 2);
    assert_eq!(*PodBVector::last(&v), 3);
    let mut w = vec![1, 2, 3];
    w.modify_last(9);
    assert_eq!(w, vec![1, 2, 9]);
    let mut e: Vec<i32> = Vec::new();
    e.modify_last(4);
    assert_eq!(e, vec![4]);
}

#[test]
fn vec_consumer_and_colour_lookup() {
    let mut v: Vec<u8> = vec![1];
    VertexConsumer::add(&mut v, 2);
    assert_eq!(v, vec![1, 2]);
    VertexConsumer::remove_all(&mut v);
    assert!(v.is_empty());
    let mut cs = vec![Rgba8 { r: 1, g: 2, b: 3, a: 4 }];
    assert_eq!(ColorFn::size(&cs), 1);
    assert_eq!(ColorFn::get(&mut cs, 0).b, 3);
}

#[test]
fn path_storage_integer_round_trip() {
    let mut p = PathStorageInteger::<i32, 6>::new();
    p.move_to(10, 20);
    p.line_to(-30, 40);
    p.curve3(1, 2, 3, 4);
    assert_eq!(p.size(), 4);
    p.rewind(0);
    let (mut x, mut y) = (0, 0);
    assert_eq!(p.vertex(&mut x, &mut y), 1);
    assert_eq!((x, y), (10, 20));
    assert_eq!(p.vertex(&mut x, &mut y), 2);
    assert_eq!((x, y), (-30, 40));
    assert_eq!(p.vertex(&mut x, &mut y), 3);
    assert_eq!((x, y), (1, 2));
    assert_eq!(p.vertex(&mut x, &mut y), 3);
    assert_eq!(p.vertex(&mut x, &mut y), 0x4F);
    assert_eq!(p.vertex(&mut x, &mut y), 0);
    assert_eq!(p.byte_size(), 4 * std::mem::size_of::<VertexInteger<i32, 6>>());
    p.remove_all();
    assert_eq!(p.size(), 0);
}

#[test]
fn path_storage_integer_closes_before_new_move() {
    let mut p = PathStorageInteger::<i16, 6>::new();
    p.move_to(1, 1);
    p.line_to(2, 2);
    p.move_to(5, 5);
    let (mut x, mut y) = (0, 0);
    assert_eq!(p.vertex(&mut x, &mut y), 1);
    assert_eq!(p.vertex(&mut x, &mut y), 2);
    assert_eq!(p.vertex(&mut x, &mut y), 0x4F);
    assert_eq!(p.vertex(&mut x, &mut y), 1);
    assert_eq!((x, y), (5, 5));
}

#[test]
fn vertex_integer_packs_command() {
    let v = VertexInteger::<i32, 6>::new(7, -8, 3);
    assert_eq!(v.cmd(), 4);
    assert_eq!(v.coords(), (7, -8));
    let d = VertexInteger::<i16, 6>::new_default();
    assert_eq!((d.x, d.y), (0, 0));
    assert_eq!(d.cmd(), 1);
}
