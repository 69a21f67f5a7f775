use agg::basics::{
    clear_orientation, get_close_flag, get_orientation, intersect_rectangles, is_ccw, is_close,
    is_closed, is_curve, is_curve3, is_curve4, is_cw, is_drawing, is_end_poly, is_line_to,
    is_move_to, is_next_poly, is_oriented, is_stop, is_vertex, set_orientation, unite_rectangles,
    CoverScale, PathCmd, PathFlag, PolySubpixelScale, RectI, Saturation, VertexI,
};
use agg::clip_liang_barsky::{clipping_flags, clipping_flags_x, clipping_flags_y};

#[test]
fn rect_normalize_orders_corners() {
    let mut r = RectI::new(10, 20, 1, 2);
    r.normalize();
    assert_eq!((r.x1, r.y1, r.x2, r.y2), (1, 2, 10, 20));
    assert!(r.is_valid());
}

#[test]
fn rect_clip_is_intersection() {
    let mut r = RectI::new(0, 0, 10, 10);
    let c = RectI::new(5, -5, 20, 7);
    let ok = r.clip(&c);
    assert!(ok);
    assert_eq!((r.x1, r.y1, r.x2, r.y2), (5, 0, 10, 7));
}

#[test]
fn rect_clip_disjoint_is_invalid() {
    let mut r = RectI::new(0, 0, 10, 10);
    let c = RectI::new(20, 20, 30, 30);
    assert!(!r.clip(&c));
    assert!(!r.is_valid());
}

#[test]
fn rect_hit_test_edges_inclusive() {
    let r = RectI::new(0, 0, 10, 10);
    assert!(r.hit_test(0, 0));
    assert!(r.hit_test(10, 10));
    assert!(!r.hit_test(11, 5));
    assert!(!r.hit_test(5, -1));
}

#[test]
fn intersect_and_unite_rectangles() {
    let mut a = RectI::new(0, 0, 10, 10);
    let b = RectI::new(5, 5, 15, 15);
    let i = *intersect_rectangles(&mut a, &b);
    assert_eq!((i.x1, i.y1, i.x2, i.y2), (5, 5, 10, 10));
    let mut c = RectI::new(0, 0, 10, 10);
    let u = *unite_rectangles(&mut c, &b);
    assert_eq!((u.x1, u.y1, u.x2, u.y2), (0, 0, 15, 15));
}

#[test]
fn path_command_predicates() {
    assert!(is_stop(0));
    assert!(is_move_to(1));
    assert!(is_line_to(2));
    assert!(is_curve3(3) && is_curve(3));
    assert!(is_curve4(4) && is_curve(4));
    assert!(is_vertex(1) && is_vertex(7) && !is_vertex(0) && !is_vertex(0x0F));
    assert!(is_drawing(2) && !is_drawing(1));
    assert!(is_end_poly(0x0F) && is_end_poly(0x4F) && !is_end_poly(2));
    assert!(is_close(0x4F) && is_close(0x4F | 0x10) && !is_close(0x0F));
    assert!(is_next_poly(0) && is_next_poly(1) && is_next_poly(0x0F) && !is_next_poly(2));
}

#[test]
fn path_orientation_flags() {
    let c = 0x0F | 0x40;
    let cw = set_orientation(c, 0x20);
    assert_eq!(cw, 0x6F);
    assert!(is_cw(cw) && !is_ccw(cw) && is_oriented(cw));
    assert_eq!(get_orientation(cw), 0x20);
    assert_eq!(clear_orientation(cw), 0x4F);
    let ccw = set_orientation(cw, 0x10);
    assert_eq!(get_orientation(ccw), 0x10);
    assert!(is_closed(0x4F));
    assert_eq!(get_close_flag(0x4F), 0x40);
    assert_eq!(get_close_flag(0x0F), 0);
}

#[test]
fn enum_values() {
    assert_eq!(CoverScale::Shift.value(), 8);
    assert_eq!(CoverScale::Size.value(), 256);
    assert_eq!(CoverScale::Mask.value(), 255);
    assert_eq!(PolySubpixelScale::Scale.value(), 256);
    assert_eq!(PathCmd::EndPoly.value(), 0x0F);
    assert_eq!(PathCmd::MoveTo.value(), 1);
    assert_eq!(PathFlag::Close.value(), 0x40);
    assert_eq!(PathFlag::Mask.value(), 0xF0);
}

#[test]
fn saturation_mul_rounds() {
    assert_eq!(Saturation::<8>::mul(255, 255), 255);
    assert_eq!(Saturation::<8>::mul(128, 128), 64);
    assert_eq!(Saturation::<8>::mul(0, 200), 0);
}

#[test]
fn vertex_new_keeps_fields() {
    let v = VertexI::new(3, 4, 2);
    assert_eq!((v.x, v.y, v.cmd), (3, 4, 2));
}

#[test]
fn clipping_flags_regions() {
    let b = RectI::new(0, 0, 10, 10);
    assert_eq!(clipping_flags(5, 5, &b), 0);
    assert_eq!(clipping_flags(11, 5, &b), 1);
    assert_eq!(clipping_flags(5, 11, &b), 2);
    assert_eq!(clipping_flags(-1, 5, &b), 4);
    assert_eq!(clipping_flags(5, -1, &b), 8);
    assert_eq!(clipping_flags(-1, -1, &b), 12);
    assert_eq!(clipping_flags(11, 11, &b), 3);
    assert_eq!(clipping_flags_x(-3, &b), 4);
    assert_eq!(clipping_flags_y(30, &b), 2);
}
