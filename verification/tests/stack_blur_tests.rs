use agg::blur::{stack_blur_rgb24, StackBlurCalcRgba};
use agg::color_rgba::{OrderRgb, Rgba8};
use agg::pixfmt_rgb::{PixBgr24, PixRgb24};
use agg::rendering_buffer::RenderBuf;
use agg::stack_blur::StackBlur;

type Blur = StackBlur<Rgba8, StackBlurCalcRgba<u32>>;

fn image(bytes: Vec<u8>, w: u32, h: u32) -> RenderBuf {
    RenderBuf::new(bytes, w, h, (3 * w) as i32).unwrap()
}

fn reds(row: &[u8]) -> Vec<u8> {
    let mut v = Vec::new();
    for &r in row {
        v.push(r);
        v.push(0);
        v.push(0);
    }
    v
}

#[test]
fn stack_blur_x_radius_one_row() {
    let mut pf = PixRgb24::new_owned(image(reds(&[10, 20, 30, 40]), 4, 1));
    let mut blur = Blur::new();
    blur.blur_x(&mut pf, 1);
    assert_eq!(pf.rbuf_mut().as_bytes(), &reds(&[12, 20, 30, 37])[..]);
}

#[test]
fn stack_blur_x_radius_two_row() {
    let mut pf = PixRgb24::new_owned(image(reds(&[0, 255, 0, 90, 7]), 5, 1));
    let mut blur = Blur::new();
    blur.blur_x(&mut pf, 2);
    assert_eq!(pf.rbuf_mut().as_bytes(), &reds(&[56, 95, 77, 60, 24])[..]);
}

#[test]
fn stack_blur_x_wide_radius_divides() {
    let mut pf = PixRgb24::new_owned(image(reds(&[200, 255, 255]), 3, 1));
    let mut blur = Blur::new();
    blur.blur_x(&mut pf, 255);
    assert_eq!(pf.rbuf_mut().as_bytes(), &reds(&[227, 227, 227])[..]);
    let mut pf = PixRgb24::new_owned(image(reds(&[9, 250, 60]), 3, 1));
    blur.blur_x(&mut pf, 300);
    assert_eq!(pf.rbuf_mut().as_bytes(), &reds(&[35, 35, 35])[..]);
}

#[test]
fn stack_blur_x_zero_radius_keeps_image() {
    let bytes = vec![1u8, 2, 3, 4, 5, 6, 7, 8, 9, 10, 11, 12];
    let mut pf = PixRgb24::new_owned(image(bytes.clone(), 2, 2));
    let mut blur = Blur::new();
    blur.blur_x(&mut pf, 0);
    assert_eq!(pf.rbuf_mut().as_bytes(), &bytes[..]);
}

#[test]
fn stack_blur_x_matches_row_pass_of_stack_blur_rgb24() {
    let bytes: Vec<u8> = (0..54u32).map(|i| ((i * 37 + 11) % 256) as u8).collect();
    for radius in 1..5u32 {
        let mut pf = PixRgb24::new_owned(image(bytes.clone(), 6, 3));
        let mut blur = Blur::new();
        blur.blur_x(&mut pf, radius);
        let mut rb = image(bytes.clone(), 6, 3);
        stack_blur_rgb24::<OrderRgb>(&mut rb, radius, 0);
        assert_eq!(pf.rbuf_mut().as_bytes(), rb.as_bytes());
    }
}

#[test]
fn stack_blur_x_keeps_rows_apart_and_orders_channels() {
    // Two rows of two BGR pixels: blue 100 and 0 in the first row, green 50
    // and 250 in the second.
    let bytes = vec![100u8, 0, 0, 0, 0, 0, 0, 50, 0, 0, 250, 0];
    let mut pf = PixBgr24::new_owned(image(bytes, 2, 2));
    let mut blur = Blur::new();
    blur.blur_x(&mut pf, 1);
    // Row 0, blue: (3*100 + 0) / 4 = 75 and (100 + 3*0) / 4 = 25.
    // Row 1, green: (3*50 + 250) / 4 = 100 and (50 + 3*250) / 4 = 200.
    assert_eq!(pf.rbuf_mut().as_bytes(), &[75, 0, 0, 25, 0, 0, 0, 100, 0, 0, 200, 0]);
}

#[test]
fn stack_blur_y_matches_column_pass_of_stack_blur_rgb24() {
    let bytes: Vec<u8> = (0..54u32).map(|i| ((i * 53 + 7) % 256) as u8).collect();
    for radius in 1..5u32 {
        let mut pf = PixRgb24::new_owned(image(bytes.clone(), 3, 6));
        let mut blur = Blur::new();
        blur.blur_y(&mut pf, radius);
        let mut rb = image(bytes.clone(), 3, 6);
        stack_blur_rgb24::<OrderRgb>(&mut rb, 0, radius);
        assert_eq!(pf.rbuf_mut().as_bytes(), rb.as_bytes());
    }
}

#[test]
fn stack_blur_both_ways_matches_stack_blur_rgb24() {
    let bytes: Vec<u8> = (0..60u32).map(|i| ((i * 29 + 3) % 256) as u8).collect();
    for radius in 1..4u32 {
        let mut pf = PixRgb24::new_owned(image(bytes.clone(), 4, 5));
        let mut blur = Blur::new();
        blur.blur(&mut pf, radius);
        let mut rb = image(bytes.clone(), 4, 5);
        stack_blur_rgb24::<OrderRgb>(&mut rb, radius, radius);
        assert_eq!(pf.rbuf_mut().as_bytes(), rb.as_bytes());
    }
}

#[test]
fn stack_blur_y_column_of_two() {
    // One column of two pixels: red 100 above 0.
    let mut pf = PixRgb24::new_owned(image(vec![100, 0, 0, 0, 0, 0], 1, 2));
    let mut blur = Blur::new();
    blur.blur_y(&mut pf, 1);
    assert_eq!(pf.rbuf_mut().as_bytes(), &[75, 0, 0, 25, 0, 0]);
}
