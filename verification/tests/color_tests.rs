use agg::color_gray::{gray8_pre, Gray16, Gray8};
use agg::color_rgba::{
    rgb8_packed, rgba16_pre, rgba16_pre_from_rgba8, rgba16_pre_from_rgba8_a, rgba16_pre_rgba16_a,
    rgba8_gamma_dir, rgba8_pre, rgba8_pre_from_rgba8, rgba8_pre_from_rgba8_a, OrderBgr, OrderRgb,
    Rgba16, Rgba8,
};
use agg::gamma_lut::GammaLut;
use agg::{Args, Color, Gamma, GrayArgs, Order, RgbArgs};

fn rgba8(r: u8, g: u8, b: u8, a: u8) -> Rgba8 {
    Rgba8 { r, g, b, a }
}

#[test]
fn rgba8_add_partial_cover_rounds_and_clamps() {
    let mut c = rgba8(100, 200, 0, 10);
    c.add(&rgba8(100, 100, 255, 20), 128);
    assert_eq!((c.r, c.g, c.b, c.a), (150, 250, 127, 20));
}

#[test]
fn rgba8_add_full_cover_opaque_replaces() {
    let mut c = rgba8(1, 2, 3, 4);
    c.add(&rgba8(9, 8, 7, 255), 255);
    assert_eq!((c.r, c.g, c.b, c.a), (9, 8, 7, 255));
}

#[test]
fn rgba8_add_full_cover_translucent_sums() {
    let mut c = rgba8(10, 20, 30, 40);
    c.add(&rgba8(1, 2, 3, 4), 255);
    assert_eq!((c.r, c.g, c.b, c.a), (11, 22, 33, 44));
}

#[test]
fn rgba8_premultiply_and_demultiply() {
    let mut c = rgba8(200, 50, 255, 128);
    c.premultiply();
    assert_eq!((c.r, c.g, c.b, c.a), (100, 25, 127, 128));
    let mut z = rgba8(200, 50, 255, 0);
    z.premultiply();
    assert_eq!((z.r, z.g, z.b, z.a), (0, 0, 0, 0));
    let mut o = rgba8(200, 50, 255, 255);
    o.premultiply();
    assert_eq!((o.r, o.g, o.b), (200, 50, 255));
    let mut d = rgba8(100, 25, 127, 128);
    d.demultiply();
    assert_eq!((d.r, d.g, d.b, d.a), (199, 49, 253, 128));
}

#[test]
fn rgba8_premultiply_a_rescales() {
    let mut c = rgba8(100, 50, 200, 200);
    c.premultiply_a(128);
    assert_eq!((c.r, c.g, c.b, c.a), (64, 32, 128, 128));
}

#[test]
fn rgba8_pre_builds_premultiplied() {
    let c = rgba8_pre(200, 50, 255, 128);
    assert_eq!((c.r, c.g, c.b, c.a), (100, 25, 127, 128));
}

#[test]
fn rgba8_transparent_and_clear() {
    let mut c = rgba8(1, 2, 3, 4);
    c.transparent();
    assert_eq!((c.r, c.g, c.b, c.a), (1, 2, 3, 0));
    c.clear();
    assert_eq!((c.r, c.g, c.b, c.a), (0, 0, 0, 0));
}

#[test]
fn rgba8_packed_constructors() {
    let c = rgb8_packed(0x123456);
    assert_eq!((c.r, c.g, c.b, c.a), (0x12, 0x34, 0x56, 255));
}

#[test]
fn rgba8_accessors() {
    let mut c = Rgba8::new_init(1, 2, 3, 4);
    assert_eq!((c.r(), c.g(), c.b(), c.a()), (1, 2, 3, 4));
    *c.g_mut() = 9;
    *c.a_mut() = 8;
    assert_eq!((c.r, c.g, c.b, c.a), (1, 9, 3, 8));
}

#[test]
fn gamma_linear_table_is_identity() {
    let g = GammaLut::<u8, u8, 8, 8>::new();
    for v in 0..=255u8 {
        assert_eq!(g.dir(v), v);
        assert_eq!(g.inv(g.dir(v)), v);
    }
    let c = rgba8_gamma_dir(rgba8(10, 20, 30, 40), &g);
    assert_eq!((c.r, c.g, c.b, c.a), (10, 20, 30, 40));
}

#[test]
fn gamma_table_entries_can_be_set() {
    let mut g = GammaLut::<u8, u8, 8, 8>::new();
    g.set_dir_entry(3, 200);
    g.set_inv_entry(200, 3);
    assert_eq!(g.dir(3), 200);
    assert_eq!(g.inv(200), 3);
    let mut c = rgba8(3, 3, 4, 9);
    c.apply_gamma_dir(&g);
    assert_eq!((c.r, c.g, c.b, c.a), (200, 200, 4, 9));
}

#[test]
fn rgba16_from_rgba8_widens() {
    let c = Rgba16::new_from_rgba8(&rgba8(0x12, 0xFF, 0, 1));
    assert_eq!((c.r, c.g, c.b, c.a), (0x1212, 0xFFFF, 0, 0x0101));
    let f: Rgba16 = Rgba16::from(rgba8(1, 2, 3, 4));
    assert_eq!((f.r, f.g, f.b, f.a), (257, 514, 771, 1028));
}

#[test]
fn rgba16_add_and_premultiply() {
    let mut c = Rgba16 { r: 1000, g: 60000, b: 0, a: 0 };
    c.add(&Rgba16 { r: 30000, g: 30000, b: 0, a: 0 }, 128);
    assert_eq!((c.r, c.g), (16000, 65535));
    let mut p = Rgba16 { r: 60000, g: 0, b: 65535, a: 40000 };
    p.premultiply();
    assert_eq!((p.r, p.g, p.b, p.a), (36621, 0, 39999, 40000));
    let n = Rgba16::new();
    assert_eq!((n.r, n.g, n.b, n.a), (0, 0, 0, 0xffff));
}

#[test]
fn rgba16_demultiply_keeps_library_rule() {
    let mut c = Rgba16 { r: 30000, g: 1, b: 40000, a: 30000 };
    c.demultiply();
    assert_eq!((c.r, c.g, c.b, c.a), (0, 0, 65535, 30000));
}

#[test]
fn gray8_add_and_premultiply() {
    let mut g = Gray8::new_params(100, 10);
    g.add(&Gray8::new_params(100, 20), 128);
    assert_eq!((g.v, g.a), (150, 20));
    let p = gray8_pre(200, 128);
    assert_eq!((p.v, p.a), (100, 128));
    let mut o = Gray8::new_params(200, 10);
    o.add(&Gray8::new_params(100, 20), 255);
    assert_eq!((o.v, o.a), (8, 30));
}

#[test]
fn gray8_from_rgba8_luminance() {
    let g = Gray8::new_from_rgba8(&rgba8(200, 100, 50, 77));
    assert_eq!((g.v(), g.a()), (124, 77));
    let mut h = Gray8::new_init(5, 6);
    *h.v_mut() = 7;
    assert_eq!((h.v, h.a), (7, 6));
}

#[test]
fn gray16_scale() {
    assert_eq!(Gray16::base_shift(), 16);
    assert_eq!(Gray16::base_mask(), 65535);
    let g = Gray16::new_params(70000, 5);
    assert_eq!((g.v, g.a), (70000u32 as u16, 5));
}

#[test]
fn orders_place_channels() {
    assert_eq!((OrderRgb::r(), OrderRgb::g(), OrderRgb::b()), (0, 1, 2));
    assert_eq!((OrderBgr::r(), OrderBgr::g(), OrderBgr::b()), (2, 1, 0));
    assert_eq!(OrderRgb::tag(), 3);
}

#[test]
fn rgba_pre_helpers() {
    let c = rgba8(10, 20, 30, 40);
    let o = rgba8_pre_from_rgba8(&c);
    assert_eq!((o.r, o.g, o.b, o.a), (10, 20, 30, 255));
    let h = rgba8_pre_from_rgba8_a(&c, 128);
    assert_eq!((h.r, h.g, h.b, h.a), (5, 10, 15, 128));
    let t = rgba8_pre_from_rgba8_a(&c, 0);
    assert_eq!((t.r, t.g, t.b, t.a), (0, 0, 0, 0));
    let w = rgba16_pre(1000, 2000, 3000, 32768);
    assert_eq!((w.r, w.g, w.b, w.a), (500, 1000, 1500, 32768));
    let x = rgba16_pre_rgba16_a(&Rgba16 { r: 1000, g: 2000, b: 3000, a: 9 }, 65535);
    assert_eq!((x.r, x.g, x.b, x.a), (1000, 2000, 3000, 65535));
    let y = rgba16_pre_from_rgba8(&rgba8(10, 20, 30, 128));
    assert_eq!((y.r, y.g, y.b, y.a), (1290, 2580, 3870, 32896));
    let z = rgba16_pre_from_rgba8_a(&rgba8(10, 20, 30, 128), 0x12);
    assert_eq!((z.r, z.g, z.b, z.a), (185, 371, 557, 4736));
}
