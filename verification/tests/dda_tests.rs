use agg::dda_line::{Dda2LineIp, DdaLineIp, LineBresenhamIp};
use agg::ellipse_bresenham::EllipseBresenhamIp;

#[test]
fn dda_line_reaches_end_after_count_steps() {
    let mut d = DdaLineIp::<16, 0>::new(0, 100, 10);
    for _ in 0..10 {
        d.inc();
    }
    assert_eq!(d.y(), 100);
    d.dec();
    assert_eq!(d.y(), 90);
    d.inc_by(1);
    d.dec_by(10);
    assert_eq!(d.y(), 0);
}

#[test]
fn dda2_forward_sequence() {
    let mut d = Dda2LineIp::new_fwd(0, 10, 4);
    let mut ys = Vec::new();
    for _ in 0..4 {
        d.inc();
        ys.push(d.y());
    }
    assert_eq!(ys, vec![2, 5, 7, 10]);
}

#[test]
fn dda2_inc_then_dec_round_trip() {
    let mut d = Dda2LineIp::new_fwd(3, 17, 5);
    let before = (d.y(), d.mod_());
    d.inc();
    d.dec();
    assert_eq!((d.y(), d.mod_()), before);
}

#[test]
fn dda2_save_load() {
    let mut d = Dda2LineIp::new_fwd(0, 10, 4);
    d.inc();
    let mut data = [0i32; 2];
    d.save(&mut data);
    let mut e = Dda2LineIp::new_fwd(0, 10, 4);
    e.load(&data);
    assert_eq!(e.y(), d.y());
    assert_eq!(e.mod_(), d.mod_());
    assert_eq!(e.lft(), 2);
    assert_eq!(e.rem(), 2);
}

#[test]
fn dda2_nonpositive_count_is_one() {
    let d = Dda2LineIp::new_bwd_y(7, 0);
    assert_eq!(d.lft(), 6);
    assert_eq!(d.y(), 0);
}

#[test]
fn bresenham_horizontal_line() {
    let li = LineBresenhamIp::new(0, 0, 10 * 256, 3 * 256);
    assert!(!li.is_ver());
    assert_eq!(li.get_len(), 10);
    assert_eq!(li.get_inc(), 1);
    assert_eq!(li.x1(), 0);
    assert_eq!(li.y1(), 0);
}

#[test]
fn bresenham_vertical_line_backwards() {
    let li = LineBresenhamIp::new(0, 20 * 256, 2 * 256, 0);
    assert!(li.is_ver());
    assert_eq!(li.get_len(), 20);
    assert_eq!(li.get_inc(), -1);
    assert_eq!(LineBresenhamIp::line_lr(1000), 3);
}

#[test]
fn ellipse_steps_move_one_pixel() {
    let mut e = EllipseBresenhamIp::new(10, 5);
    for _ in 0..20 {
        e.inc();
        let (dx, dy) = (e.dx(), e.dy());
        assert!(dx == 0 || dx == 1);
        assert!(dy == 0 || dy == 1);
        assert!(dx + dy >= 1);
    }
}
