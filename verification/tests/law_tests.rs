use agg::array::PodAutoArray;
use agg::basics::RectI;
use agg::clip_liang_barsky::{clipping_flags, clipping_flags_x, clipping_flags_y, CF_X_CLIPPED, CF_Y_CLIPPED};
use agg::dda_line::{Dda2LineIp, DdaLineIp, LineBresenhamIp};
use agg::ellipse_bresenham::EllipseBresenhamIp;
use agg::path_storage_integer::PathStorageInteger;
use agg::PathStore;

#[test]
fn dda_inc_by_equals_repeated_inc() {
    let mut a = DdaLineIp::<8, 0>::new(0, 10, 4);
    let mut b = DdaLineIp::<8, 0>::new(0, 10, 4);
    a.inc_by(2);
    b.inc();
    b.inc();
    assert_eq!((a.dy(), a.y()), (b.dy(), b.y()));
    assert_eq!(a.y(), 5);
    a.inc_by(2);
    assert_eq!(a.y(), 10);
}

#[test]
fn dda_dec_undoes_inc() {
    let mut d = DdaLineIp::<8, 0>::new(0, 10, 4);
    d.inc_by(4);
    d.dec();
    assert_eq!((d.dy(), d.y()), (1920, 7));
    d.inc();
    d.dec();
    assert_eq!((d.dy(), d.y()), (1920, 7));
    d.dec();
    d.inc();
    assert_eq!((d.dy(), d.y()), (1920, 7));
}

#[test]
fn dda2_forward_line_reaches_end_and_accumulator_returns() {
    let mut d = Dda2LineIp::new_fwd(0, 10, 4);
    let m0 = d.mod_();
    let mut ys = Vec::new();
    for _ in 0..4 {
        d.inc();
        assert!(-4 < d.mod_() && d.mod_() <= 0);
        ys.push(d.y());
    }
    assert_eq!(ys, vec![2, 5, 7, 10]);
    assert_eq!(d.mod_(), m0);
    // Near the ends of the i32 range.
    let mut e = Dda2LineIp::new_fwd(i32::MAX - 6, i32::MAX, 3);
    for _ in 0..3 {
        e.inc();
    }
    assert_eq!(e.y(), i32::MAX);
    // Starting at i32::MIN.
    let mut f = Dda2LineIp::new_fwd(i32::MIN, i32::MIN + 1, 2);
    let m0 = f.mod_();
    f.inc();
    assert_eq!(f.y(), i32::MIN);
    f.inc();
    assert_eq!((f.y(), f.mod_()), (i32::MIN + 1, m0));
}

#[test]
fn dda2_save_then_load_restores() {
    let mut d = Dda2LineIp::new_fwd(3, 40, 7);
    d.inc();
    let mut buf = [0i32; 2];
    d.save(&mut buf);
    let (m, y, l, r) = (d.mod_(), d.y(), d.lft(), d.rem());
    d.inc();
    d.inc();
    d.adjust_forward();
    d.load(&buf);
    assert_eq!((d.mod_(), d.y(), d.lft(), d.rem()), (m, y, l, r));
}

#[test]
fn bresenham_line_with_wide_coordinates() {
    let li = LineBresenhamIp::new(-1_000_000_000, 0, 1_000_000_000, 256);
    assert_eq!(li.get_len(), 7812500);
    assert!(!li.is_ver());
}

#[test]
fn ellipse_steps_move_one_unit() {
    let mut e = EllipseBresenhamIp::new(3, 2);
    for _ in 0..5 {
        e.inc();
        let s = (e.dx(), e.dy());
        assert!(s == (1, 0) || s == (0, 1) || s == (1, 1));
    }
}

#[test]
fn pod_auto_array_reads_back_and_counts() {
    let mut p = PodAutoArray::<i32, 4>::new(0);
    p.add(7);
    p.inc_size(1);
    p.add(9);
    assert_eq!(p.size(), 3);
    assert_eq!(*p.at(0), 7);
    assert_eq!(*p.at(2), 9);
    assert_eq!(p.value_at(1), 0);
}

#[test]
fn clipping_flags_are_parts_of_the_code() {
    let b = RectI::new(0, 0, 10, 10);
    for &(x, y) in &[(-5, 3), (15, -2), (4, 20), (11, 11), (5, 5)] {
        let f = clipping_flags(x, y, &b);
        assert_eq!(clipping_flags_x(x, &b), f & CF_X_CLIPPED);
        assert_eq!(clipping_flags_y(y, &b), f & CF_Y_CLIPPED);
    }
}

#[test]
fn normalize_makes_valid() {
    let mut r = RectI::new(5, 0, 0, 5);
    assert!(!r.is_valid());
    r.normalize();
    assert!(r.is_valid());
}

#[test]
fn path_size_counts_vertices_since_clear() {
    let mut p = PathStorageInteger::<i32, 6>::new();
    p.move_to(0, 0);
    p.curve3(1, 1, 2, 2);
    p.close_polygon();
    assert_eq!(p.size(), 3);
    p.remove_all();
    p.curve4(1, 1, 2, 2, 3, 3);
    p.line_to(4, 4);
    assert_eq!(p.size(), 4);
    assert_eq!(p.byte_size(), 4 * std::mem::size_of::<agg::path_storage_integer::VertexInteger<i32, 6>>());
}
