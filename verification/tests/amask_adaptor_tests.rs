use agg::alpha_mask_u8::{AlphaMaskGray8, AmaskNoClipGray8};
use agg::color_rgba::Rgba8;
use agg::pixfmt_amask_adaptor::PixAmaskAdaptor;
use agg::pixfmt_gray::PixGray8;
use agg::pixfmt_rgb::PixRgb24;
use agg::rendering_buffer::RenderBuf;

fn rgb_image(w: u32, h: u32) -> PixRgb24<'static> {
    PixRgb24::new_owned(RenderBuf::new(vec![0u8; (3 * w * h) as usize], w, h, (3 * w) as i32).unwrap())
}

fn rgb(c: Rgba8) -> (u8, u8, u8, u8) {
    (c.r, c.g, c.b, c.a)
}

fn mask_image(w: u32, h: u32, px: &[u8]) -> RenderBuf {
    RenderBuf::new(px.to_vec(), w, h, w as i32).unwrap()
}

const C: Rgba8 = Rgba8 { r: 200, g: 100, b: 50, a: 255 };

#[test]
fn copy_hline_takes_covers_from_the_mask() {
    let mut pf = rgb_image(3, 1);
    let mut mask = AlphaMaskGray8::new(mask_image(3, 1, &[255, 0, 128]));
    {
        let mut ad = PixAmaskAdaptor::new(&mut pf, &mut mask);
        assert_eq!((ad.width(), ad.height(), ad.stride()), (3, 1, 9));
        ad.copy_hline(0, 0, 3, &C);
    }
    let mut expect = rgb_image(3, 1);
    expect.blend_solid_hspan(0, 0, 3, &C, &[255, 0, 128]);
    assert_eq!(pf.rbuf_mut().as_bytes(), expect.rbuf_mut().as_bytes());
    assert_eq!(&pf.rbuf_mut().as_bytes()[0..6], &[200, 100, 50, 0, 0, 0]);
    assert_ne!(&pf.rbuf_mut().as_bytes()[6..9], &[0, 0, 0]);
}

#[test]
fn blend_hline_ignores_its_cover_and_scales_full_cover_by_the_mask() {
    let mut pf = rgb_image(3, 1);
    let mut mask = AlphaMaskGray8::new(mask_image(3, 1, &[255, 0, 128]));
    {
        let mut ad = PixAmaskAdaptor::new(&mut pf, &mut mask);
        ad.blend_hline(0, 0, 3, &C, 7);
    }
    // (255 + 255 * m) >> 8 gives back 255, 0 and 128.
    let mut expect = rgb_image(3, 1);
    expect.blend_solid_hspan(0, 0, 3, &C, &[255, 0, 128]);
    assert_eq!(pf.rbuf_mut().as_bytes(), expect.rbuf_mut().as_bytes());
}

#[test]
fn blend_solid_hspan_scales_given_covers() {
    let mut pf = rgb_image(3, 1);
    let mut mask = AlphaMaskGray8::new(mask_image(3, 1, &[255, 128, 255]));
    {
        let mut ad = PixAmaskAdaptor::new(&mut pf, &mut mask);
        ad.blend_solid_hspan(0, 0, 3, &C, &[0, 255, 128]);
    }
    // (255 + 0) >> 8 = 0, (255 + 255 * 128) >> 8 = 128, (255 + 128 * 255) >> 8 = 128.
    let mut expect = rgb_image(3, 1);
    expect.blend_solid_hspan(0, 0, 3, &C, &[0, 128, 128]);
    assert_eq!(pf.rbuf_mut().as_bytes(), expect.rbuf_mut().as_bytes());
}

#[test]
fn vertical_lines_read_the_mask_column() {
    let mut pf = rgb_image(1, 3);
    let mut mask = AmaskNoClipGray8::new(mask_image(1, 3, &[0, 255, 255]));
    {
        let mut ad = PixAmaskAdaptor::new(&mut pf, &mut mask);
        ad.copy_vline(0, 0, 3, &C);
    }
    assert_eq!(pf.rbuf_mut().as_bytes(), &[0, 0, 0, 200, 100, 50, 200, 100, 50]);
    let mut pf = rgb_image(1, 3);
    let mut mask = AmaskNoClipGray8::new(mask_image(1, 3, &[255, 0, 255]));
    {
        let mut ad = PixAmaskAdaptor::new(&mut pf, &mut mask);
        ad.blend_solid_vspan(0, 0, 3, &C, &[255, 255, 0]);
    }
    assert_eq!(pf.rbuf_mut().as_bytes(), &[200, 100, 50, 0, 0, 0, 0, 0, 0]);
}

#[test]
fn color_spans_and_pixels_go_through_the_mask() {
    let colors = [C, Rgba8 { r: 1, g: 2, b: 3, a: 255 }];
    let mut pf = rgb_image(2, 1);
    let mut mask = AlphaMaskGray8::new(mask_image(2, 1, &[255, 0]));
    {
        let mut ad = PixAmaskAdaptor::new(&mut pf, &mut mask);
        ad.copy_color_hspan(0, 0, 2, &colors);
    }
    assert_eq!(pf.rbuf_mut().as_bytes(), &[200, 100, 50, 0, 0, 0]);
    let mut pf = rgb_image(2, 1);
    let mut mask = AlphaMaskGray8::new(mask_image(2, 1, &[0, 255]));
    {
        let mut ad = PixAmaskAdaptor::new(&mut pf, &mut mask);
        ad.blend_color_hspan(0, 0, 2, &colors, &[], 255);
        ad.copy_pixel(0, 0, &Rgba8 { r: 9, g: 9, b: 9, a: 255 });
        assert_eq!(rgb(ad.pixel(1, 0)), (1, 2, 3, 255));
        assert_eq!(rgb(ad.pixel(0, 0)), (0, 0, 0, 255));
        ad.blend_pixel(1, 0, &C, 255);
        assert_eq!(rgb(ad.pixel(1, 0)), rgb(C));
    }
}

#[test]
fn attached_mask_is_used_from_then_on() {
    let mut pf = rgb_image(2, 1);
    let mut m1 = AlphaMaskGray8::new(mask_image(2, 1, &[0, 0]));
    let mut m2 = AlphaMaskGray8::new(mask_image(2, 1, &[255, 255]));
    {
        let mut ad = PixAmaskAdaptor::new(&mut pf, &mut m1);
        ad.copy_hline(0, 0, 2, &C);
        assert_eq!(rgb(ad.pixel(0, 0)), (0, 0, 0, 255));
        ad.attach_alpha_mask(&mut m2);
        ad.copy_hline(0, 0, 2, &C);
        assert_eq!(rgb(ad.pixel(1, 0)), rgb(C));
    }
}

#[test]
fn copies_and_blends_from_other_images_without_the_mask() {
    let src = RenderBuf::new(vec![1u8, 2, 3, 4, 5, 6], 2, 1, 6).unwrap();
    let gray = PixGray8::new_owned(RenderBuf::new(vec![255u8, 0], 2, 1, 2).unwrap());
    let lut: Vec<Rgba8> = (0..256u32).map(|v| Rgba8 { r: v as u8, g: (255 - v) as u8, b: 0, a: 255 }).collect();
    let mut pf = rgb_image(2, 1);
    let mut mask = AlphaMaskGray8::new(mask_image(2, 1, &[0, 0]));
    {
        let mut ad = PixAmaskAdaptor::new(&mut pf, &mut mask);
        ad.copy_from(&src, 0, 0, 0, 0, 2);
        assert_eq!(rgb(ad.pixel(1, 0)), (4, 5, 6, 255));
        ad.blend_from_color(&gray, &C, 0, 0, 0, 0, 2, 255);
        assert_eq!(rgb(ad.pixel(0, 0)), rgb(C));
        assert_eq!(rgb(ad.pixel(1, 0)), (4, 5, 6, 255));
        ad.blend_from_lut(&gray, &lut, 0, 0, 0, 0, 2, 255);
    }
    let mut expect = rgb_image(2, 1);
    expect.copy_from(&src, 0, 0, 0, 0, 2);
    expect.blend_from_color(&gray, &C, 0, 0, 0, 0, 2, 255);
    expect.blend_from_lut(&gray, &lut, 0, 0, 0, 0, 2, 255);
    assert_eq!(pf.rbuf_mut().as_bytes(), expect.rbuf_mut().as_bytes());
    assert_eq!(pf.rbuf_mut().as_bytes()[0], 254);
}
