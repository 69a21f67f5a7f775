use agg::color_gray::{Gray16, Gray8};
use agg::color_rgba::{OrderBgr, OrderRgb, Rgba16, Rgba8};
use agg::gamma_lut::GammaLut;
use agg::pixfmt_gray::{AlphaBlendGray, BlenderGray, BlenderGray8, BlenderGrayPre, PixGray8};
use agg::pixfmt_rgb::{
    ApplyGammaDirRgb, ApplyGammaInvRgb, BlenderRgb, BlenderRgbGamma, BlenderRgbPre, PixBgr24,
    PixRgb24,
};
use agg::pixfmt_rgb_packed::{
    BlenderBgrAAA, BlenderRgb555, BlenderRgb555Gamma, BlenderRgb555Pre, BlenderRgb565,
    BlenderRgbAAA,
};
use agg::pattern_filters_rgba::{PatternFilterBilinearRgba8, PatternFilterNNRGBA8};
use agg::rendering_buffer::RenderBuf;
use agg::{Blender, BlenderG, BlenderPacked, Gamma, PatternFilter};

#[test]
fn rgb555_blend_full_alpha_takes_colour() {
    let b = BlenderRgb555::new();
    let mut p: u16 = 0x8000;
    b.blend_pix(&mut p, 255, 0, 0, 255);
    assert_eq!(p, 0xFC00);
    let mut q: u16 = 0xFFFF;
    b.blend_pix(&mut q, 0, 0, 0, 128);
    assert_eq!(q, 0xBDEF);
}

#[test]
fn rgb555_blend_zero_alpha_keeps_pixel() {
    let b = BlenderRgb555::new();
    let mut p = b.make_pix(200, 100, 40);
    let before = p;
    b.blend_pix(&mut p, 1, 2, 3, 0);
    assert_eq!(p, before);
}

#[test]
fn rgb555_pack_unpack_round_trip() {
    let b = BlenderRgb555::new();
    let p = b.make_pix(255, 128, 64);
    assert_eq!(p, 0xFE08);
    let c = b.make_color(p);
    assert_eq!((c.r, c.g, c.b, c.a), (248, 128, 64, 255));
    assert_eq!(b.make_pix(c.r as u32, c.g as u32, c.b as u32), p);
}

#[test]
fn rgb555_pre_with_cover() {
    let b = BlenderRgb555Pre::new();
    let mut p: u16 = 0x8000;
    b.blend_pix_with_cover(&mut p, 0, 0, 0, 255, 255);
    assert_eq!(p & 0x7FFF, 0);
}

#[test]
fn rgb565_blend_and_pack() {
    let b = BlenderRgb565::new();
    let mut p: u16 = 0;
    b.blend_pix(&mut p, 255, 255, 255, 255);
    assert_eq!(p, 0xFFFF);
    assert_eq!(b.make_pix(255, 128, 64), 0xFC08);
}

#[test]
fn rgb_aaa_and_bgr_aaa_pack_round_trip() {
    let b = BlenderRgbAAA::new();
    let p = b.make_pix(0xFFC0, 0x4000, 0x0040);
    let c = b.make_color(p);
    assert_eq!((c.r, c.g, c.b), (0xFFC0, 0x4000, 0x0040));
    assert_eq!(b.make_pix(c.r as u32, c.g as u32, c.b as u32), p);
    let d = BlenderBgrAAA::new();
    let q = d.make_pix(0, 0, 0);
    assert_eq!(q, 0xC000_0000);
}

#[test]
fn rgb555_gamma_with_linear_table() {
    let g = GammaLut::<u8, u8, 8, 8>::new();
    let b = BlenderRgb555Gamma::new_owned(g);
    let plain = BlenderRgb555::new();
    let mut p: u16 = 0x8000;
    let mut q: u16 = 0x8000;
    b.blend_pix(&mut p, 255, 0, 0, 255);
    plain.blend_pix(&mut q, 255, 0, 0, 255);
    assert_eq!(p & 0x7C00, 0x7C00);
    assert_eq!(q & 0x7C00, 0x7C00);
    assert_eq!(b.gamma().dir(17), 17);
}

#[test]
fn gray8_blender_moves_towards_colour() {
    let b = <BlenderGray<Gray8> as BlenderG<Gray8>>::new();
    let mut p: u8 = 100;
    b.blend_pix(&mut p, 200, 128);
    assert_eq!(p, 150);
    let mut q: u8 = 200;
    b.blend_pix(&mut q, 100, 128);
    assert_eq!(q, 150);
    let mut r: u8 = 77;
    b.blend_pix(&mut r, 3, 0);
    assert_eq!(r, 77);
}

#[test]
fn gray16_blender_moves_towards_colour() {
    let b = <BlenderGray<Gray16> as BlenderG<Gray16>>::new();
    let mut p: u16 = 1000;
    b.blend_pix(&mut p, 50000, 32768);
    assert_eq!(p, 25500);
}

#[test]
fn gray8_pre_blenders() {
    let b = <BlenderGrayPre<Gray8> as BlenderG<Gray8>>::new();
    let mut p: u8 = 100;
    b.blend_pix_with_cover(&mut p, 50, 128, 255);
    assert_eq!(p, 99);
    let mut q: u8 = 200;
    b.blend_pix(&mut q, 10, 0);
    assert_eq!(q, 209);
}

#[test]
fn rgb_blend_moves_towards_colour() {
    let b = <BlenderRgb<Rgba8, OrderRgb> as Blender<Rgba8, OrderRgb>>::new();
    let mut p = [10u8, 20, 30];
    b.blend_pix(&mut p, 200, 100, 50, 128);
    assert_eq!(p, [105, 60, 40]);
    let mut q = [200u8, 200, 200];
    b.blend_pix_with_cover(&mut q, 0, 200, 255, 128, 7);
    assert_eq!(q, [100, 200, 227]);
    let mut z = [1u8, 2, 3];
    b.blend_pix(&mut z, 255, 255, 255, 0);
    assert_eq!(z, [1, 2, 3]);
    let bgr = <BlenderRgb<Rgba8, OrderBgr> as Blender<Rgba8, OrderBgr>>::new();
    let mut p2 = [30u8, 20, 10];
    bgr.blend_pix(&mut p2, 200, 100, 50, 128);
    assert_eq!(p2, [40, 60, 105]);
}

#[test]
fn rgb_pre_blend_adds_colour() {
    let b = <BlenderRgbPre<Rgba8, OrderRgb> as Blender<Rgba8, OrderRgb>>::new();
    let mut p = [100u8, 100, 100];
    b.blend_pix(&mut p, 50, 0, 255, 128);
    assert_eq!(p, [99, 49, 48]);
    let mut q = [100u8, 0, 0];
    b.blend_pix_with_cover(&mut q, 50, 0, 0, 128, 255);
    assert_eq!(q, [99, 0, 0]);
    let b16 = <BlenderRgbPre<Rgba16, OrderRgb> as Blender<Rgba16, OrderRgb>>::new();
    let mut w = [1000u16, 0, 65535];
    b16.blend_pix(&mut w, 0, 0, 0, 32768);
    assert_eq!(w, [499, 0, 32766]);
}

#[test]
fn rgb_gamma_blend_and_apply() {
    let b = BlenderRgbGamma::<Rgba8, OrderRgb, GammaLut<u8, u8, 8, 8>>::new_owned(GammaLut::new_linear());
    let mut p = [10u8, 200, 30];
    b.blend_pix(&mut p, 200, 0, 50, 128);
    assert_eq!(p, [105, 100, 40]);
    let mut g = GammaLut::<u8, u8, 8, 8>::new_linear();
    g.set_dir_entry(10, 11);
    g.set_inv_entry(11, 12);
    let dir = ApplyGammaDirRgb::<Rgba8, OrderRgb, GammaLut<u8, u8, 8, 8>>::new(&g);
    let mut px = [10u8, 10, 5];
    dir.apply(&mut px);
    assert_eq!(px, [11, 11, 5]);
    let inv = ApplyGammaInvRgb::<Rgba8, OrderRgb, GammaLut<u8, u8, 8, 8>>::new(&g);
    inv.apply(&mut px);
    assert_eq!(px, [12, 12, 5]);
}

#[test]
fn gray_pixfmt_copies_and_blends() {
    let rb = RenderBuf::new(vec![0u8; 8], 4, 2, 4).unwrap();
    let mut pf = AlphaBlendGray::<Gray8, BlenderGray8, 1, 0>::new_owned(rb);
    assert_eq!((pf.width(), pf.height(), pf.stride()), (4, 2, 4));
    pf.copy_pixel(1, 0, &Gray8 { v: 100, a: 255 });
    assert_eq!(pf.pixel(1, 0), Gray8 { v: 100, a: 255 });
    pf.blend_hline(0, 1, 4, &Gray8 { v: 200, a: 255 }, 255);
    pf.blend_solid_hspan(0, 0, 4, &Gray8 { v: 100, a: 255 }, &[0, 128, 255, 64]);
    assert_eq!(pf.rbuf_mut().as_bytes(), &[0, 100, 100, 25, 200, 200, 200, 200]);
    pf.copy_vline(3, 0, 2, &Gray8 { v: 7, a: 255 });
    assert_eq!(pf.rbuf_mut().as_bytes(), &[0, 100, 100, 7, 200, 200, 200, 7]);
    pf.blend_pixel(0, 0, &Gray8 { v: 255, a: 0 }, 255);
    assert_eq!(pf.pixel(0, 0).v, 0);
}

#[test]
fn gray_pixfmt_spans_and_gamma() {
    let rb = RenderBuf::new(vec![0u8; 8], 2, 2, -4).unwrap();
    let mut pf = AlphaBlendGray::<Gray8, BlenderGray8, 2, 1>::new_owned(rb);
    // with a negative stride row 0 is the last row in memory; pixel x is at byte 2x+1
    pf.copy_color_hspan(0, 0, 2, &[Gray8 { v: 1, a: 255 }, Gray8 { v: 2, a: 255 }]);
    assert_eq!(pf.rbuf_mut().as_bytes(), &[0, 0, 0, 0, 0, 1, 0, 2]);
    pf.copy_color_vspan(1, 0, 2, &[Gray8 { v: 9, a: 255 }, Gray8 { v: 8, a: 255 }]);
    assert_eq!(pf.rbuf_mut().as_bytes(), &[0, 0, 0, 8, 0, 1, 0, 9]);
    let colors = [Gray8 { v: 50, a: 255 }, Gray8 { v: 200, a: 0 }];
    pf.blend_color_hspan(0, 1, 2, &colors, &[], 255);
    assert_eq!(pf.rbuf_mut().as_bytes(), &[0, 50, 0, 8, 0, 1, 0, 9]);
    pf.blend_color_vspan(0, 0, 2, &[Gray8 { v: 100, a: 255 }, Gray8 { v: 100, a: 255 }], &[255, 0], 0);
    assert_eq!(pf.rbuf_mut().as_bytes(), &[0, 50, 0, 8, 0, 100, 0, 9]);
    let mut g = GammaLut::<u8, u8, 8, 8>::new_linear();
    g.set_dir_entry(9, 10);
    g.set_dir_entry(0, 0);
    pf.apply_gamma_dir(&g);
    assert_eq!(pf.rbuf_mut().as_bytes(), &[0, 50, 0, 8, 0, 100, 0, 10]);
    g.set_inv_entry(100, 99);
    pf.apply_gamma_inv(&g);
    assert_eq!(pf.rbuf_mut().as_bytes(), &[0, 50, 0, 8, 0, 99, 0, 10]);
}

#[test]
fn rgb_pixfmt_copies_and_blends() {
    let rb = RenderBuf::new(vec![0u8; 12], 2, 2, 6).unwrap();
    let mut pf = PixRgb24::new_owned(rb);
    pf.copy_pixel(1, 0, &Rgba8 { r: 1, g: 2, b: 3, a: 255 });
    let c = pf.pixel(1, 0);
    assert_eq!((c.r, c.g, c.b, c.a), (1, 2, 3, 255));
    pf.blend_hline(0, 1, 2, &Rgba8 { r: 200, g: 100, b: 50, a: 255 }, 255);
    pf.blend_solid_hspan(0, 0, 2, &Rgba8 { r: 100, g: 100, b: 100, a: 255 }, &[128, 0]);
    assert_eq!(pf.rbuf_mut().as_bytes(), &[50, 50, 50, 1, 2, 3, 200, 100, 50, 200, 100, 50]);
    pf.copy_vline(1, 0, 2, &Rgba8 { r: 9, g: 8, b: 7, a: 255 });
    assert_eq!(pf.rbuf_mut().as_bytes(), &[50, 50, 50, 9, 8, 7, 200, 100, 50, 9, 8, 7]);
    let colors = [Rgba8 { r: 5, g: 5, b: 5, a: 255 }, Rgba8 { r: 0, g: 0, b: 0, a: 0 }];
    pf.blend_color_hspan(0, 0, 2, &colors, &[], 255);
    assert_eq!(pf.rbuf_mut().as_bytes(), &[5, 5, 5, 9, 8, 7, 200, 100, 50, 9, 8, 7]);
    let mut g = GammaLut::<u8, u8, 8, 8>::new_linear();
    g.set_dir_entry(9, 10);
    pf.apply_gamma_dir(&g);
    assert_eq!(pf.rbuf_mut().as_bytes(), &[5, 5, 5, 10, 8, 7, 200, 100, 50, 10, 8, 7]);
}

#[test]
fn bgr_pixfmt_orders_channels() {
    let rb = RenderBuf::new(vec![0u8; 6], 2, 1, 6).unwrap();
    let mut pf = PixBgr24::new_owned(rb);
    pf.copy_pixel(0, 0, &Rgba8 { r: 1, g: 2, b: 3, a: 255 });
    pf.copy_color_hspan(1, 0, 1, &[Rgba8 { r: 4, g: 5, b: 6, a: 255 }]);
    assert_eq!(pf.rbuf_mut().as_bytes(), &[3, 2, 1, 6, 5, 4]);
    let c = pf.pixel(1, 0);
    assert_eq!((c.r, c.g, c.b), (4, 5, 6));
    pf.blend_pixel(0, 0, &Rgba8 { r: 255, g: 255, b: 255, a: 0 }, 255);
    assert_eq!(pf.rbuf_mut().as_bytes(), &[3, 2, 1, 6, 5, 4]);
}

fn rgba(r: u8, g: u8, b: u8, a: u8) -> Rgba8 {
    Rgba8 { r, g, b, a }
}

#[test]
fn pattern_filters_read_pixels() {
    let row0 = [rgba(0, 0, 0, 0), rgba(255, 0, 0, 255)];
    let row1 = [rgba(0, 255, 0, 255), rgba(0, 0, 255, 255)];
    let buf: [&[Rgba8]; 2] = [&row0, &row1];
    let nn = PatternFilterNNRGBA8::new();
    assert_eq!(nn.dilation(), 0);
    let mut p = rgba(9, 9, 9, 9);
    nn.pixel_low_res(&buf, &mut p, 1, 0);
    assert_eq!((p.r, p.g, p.b, p.a), (255, 0, 0, 255));
    nn.pixel_high_res(&buf, &mut p, 300, 10);
    assert_eq!((p.r, p.g, p.b, p.a), (255, 0, 0, 255));
    let bl = PatternFilterBilinearRgba8::new();
    assert_eq!(bl.dilation(), 1);
    bl.pixel_high_res(&buf, &mut p, 128, 128);
    assert_eq!((p.r, p.g, p.b, p.a), (64, 64, 64, 191));
    bl.pixel_high_res(&buf, &mut p, 0, 0);
    assert_eq!((p.r, p.g, p.b, p.a), (0, 0, 0, 0));
    bl.pixel_low_res(&buf, &mut p, 0, 1);
    assert_eq!((p.r, p.g, p.b, p.a), (0, 255, 0, 255));
}

#[test]
fn rgb_copy_from_copies_pixels_of_another_buffer() {
    let src = RenderBuf::new(vec![1u8, 2, 3, 4, 5, 6], 2, 1, 6).unwrap();
    let mut pf = PixRgb24::new_owned(RenderBuf::new(vec![0u8; 9], 3, 1, 9).unwrap());
    pf.copy_from(&src, 1, 0, 0, 0, 2);
    assert_eq!(pf.rbuf_mut().as_bytes(), &[0, 0, 0, 1, 2, 3, 4, 5, 6]);
}

#[test]
fn rgb_blend_from_color_takes_coverage_from_gray_image() {
    let mask = PixGray8::new_owned(RenderBuf::new(vec![255u8, 0], 2, 1, 2).unwrap());
    let mut pf = PixRgb24::new_owned(RenderBuf::new(vec![0u8; 6], 2, 1, 6).unwrap());
    pf.blend_from_color(&mask, &Rgba8 { r: 200, g: 100, b: 50, a: 255 }, 0, 0, 7, 0, 2, 255);
    assert_eq!(pf.rbuf_mut().as_bytes(), &[200, 100, 50, 0, 0, 0]);
}

#[test]
fn rgb_blend_from_lut_looks_colours_up() {
    let lut: Vec<Rgba8> = (0..256u32).map(|v| Rgba8 { r: v as u8, g: (255 - v) as u8, b: 0, a: 255 }).collect();
    let src = PixGray8::new_owned(RenderBuf::new(vec![10u8, 20], 2, 1, 2).unwrap());
    let mut pf = PixRgb24::new_owned(RenderBuf::new(vec![0u8; 6], 2, 1, 6).unwrap());
    pf.blend_from_lut(&src, &lut, 0, 0, 0, 0, 2, 255);
    assert_eq!(pf.rbuf_mut().as_bytes(), &[9, 244, 0, 19, 234, 0]);
    let mut pf = PixRgb24::new_owned(RenderBuf::new(vec![0u8; 6], 2, 1, 6).unwrap());
    pf.blend_from_lut(&src, &lut, 0, 0, 0, 0, 2, 128);
    assert_eq!(pf.rbuf_mut().as_bytes(), &[5, 122, 0, 10, 117, 0]);
}

#[test]
fn gray_transfers_from_other_images() {
    let src = RenderBuf::new(vec![7u8, 8, 9], 3, 1, 3).unwrap();
    let mut pf = PixGray8::new_owned(RenderBuf::new(vec![0u8; 4], 4, 1, 4).unwrap());
    pf.copy_from(&src, 1, 0, 1, 0, 2);
    assert_eq!(pf.rbuf_mut().as_bytes(), &[0, 8, 9, 0]);

    let mask = PixGray8::new_owned(RenderBuf::new(vec![255u8, 0], 2, 1, 2).unwrap());
    let mut pf = PixGray8::new_owned(RenderBuf::new(vec![10u8, 10], 2, 1, 2).unwrap());
    pf.blend_from_color(&mask, &Gray8 { v: 200, a: 255 }, 0, 0, 1, 0, 2, 255);
    assert_eq!(pf.rbuf_mut().as_bytes(), &[200, 10]);

    let lut: Vec<Gray8> = (0..256u32).map(|v| Gray8 { v: (255 - v) as u8, a: 255 }).collect();
    let idx = PixGray8::new_owned(RenderBuf::new(vec![10u8, 20], 2, 1, 2).unwrap());
    let mut pf = PixGray8::new_owned(RenderBuf::new(vec![0u8; 2], 2, 1, 2).unwrap());
    pf.blend_from_lut(&idx, &lut, 0, 0, 0, 0, 2, 255);
    assert_eq!(pf.rbuf_mut().as_bytes(), &[245, 235]);
}
