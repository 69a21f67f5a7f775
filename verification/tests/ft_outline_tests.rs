use agg::ft_outline::{decompose_ft_outline, FtOutline, FtVector, OutlineCmd};

fn v(x: i64, y: i64) -> FtVector {
    FtVector { x, y }
}

fn outline(points: &[(i64, i64)], tags: &[u8], contours: &[i16]) -> FtOutline {
    FtOutline {
        points: points.iter().map(|&(x, y)| v(x, y)).collect(),
        tags: tags.to_vec(),
        contours: contours.to_vec(),
    }
}

fn decompose(o: &FtOutline) -> (Vec<OutlineCmd>, bool) {
    let mut path = Vec::new();
    let ok = decompose_ft_outline(o, &mut path);
    (path, ok)
}

#[test]
fn outline_square_of_lines() {
    let o = outline(&[(0, 0), (64, 0), (64, 64), (0, 64)], &[1, 1, 1, 1], &[3]);
    let (path, ok) = decompose(&o);
    assert!(ok);
    assert!(
        path == vec![
            OutlineCmd::MoveTo(v(0, 0)),
            OutlineCmd::LineTo(v(64, 0)),
            OutlineCmd::LineTo(v(64, 64)),
            OutlineCmd::LineTo(v(0, 64)),
            OutlineCmd::Close,
        ]
    );
}

#[test]
fn outline_conic_runs_meet_halfway() {
    let o = outline(&[(0, 0), (10, 10), (30, 10), (40, 0)], &[1, 0, 0, 1], &[3]);
    let (path, ok) = decompose(&o);
    assert!(ok);
    assert!(
        path == vec![
            OutlineCmd::MoveTo(v(0, 0)),
            OutlineCmd::Curve3(v(10, 10), v(20, 10)),
            OutlineCmd::Curve3(v(30, 10), v(40, 0)),
            OutlineCmd::Close,
        ]
    );
}

#[test]
fn outline_starting_with_control_point_starts_at_last_on_point() {
    // The high bits of a tag do not count.
    let o = outline(&[(10, 10), (20, 0), (0, 0)], &[0, 1, 0x81], &[2]);
    let (path, ok) = decompose(&o);
    assert!(ok);
    assert!(
        path == vec![
            OutlineCmd::MoveTo(v(0, 0)),
            OutlineCmd::Curve3(v(10, 10), v(20, 0)),
            OutlineCmd::Close,
        ]
    );
}

#[test]
fn outline_of_control_points_starts_halfway_rounding_toward_zero() {
    let o = outline(&[(-3, 0), (0, 5)], &[0, 0], &[1]);
    let (path, ok) = decompose(&o);
    assert!(ok);
    assert!(
        path == vec![
            OutlineCmd::MoveTo(v(-1, 2)),
            OutlineCmd::Curve3(v(-3, 0), v(-1, 2)),
            OutlineCmd::Curve3(v(0, 5), v(-1, 2)),
        ]
    );
}

#[test]
fn outline_cubic_arcs() {
    // The second control point takes its y from the point after it.
    let o = outline(&[(0, 0), (10, 20), (30, 40), (50, 0)], &[1, 2, 2, 1], &[3]);
    let (path, ok) = decompose(&o);
    assert!(ok);
    assert!(
        path == vec![
            OutlineCmd::MoveTo(v(0, 0)),
            OutlineCmd::Curve4(v(10, 20), v(30, 0), v(50, 0)),
            OutlineCmd::Close,
        ]
    );
    // A cubic arc back to the start closes the contour by itself.
    let o = outline(&[(0, 0), (10, 20), (30, 40)], &[1, 2, 2], &[2]);
    let (path, ok) = decompose(&o);
    assert!(ok);
    assert!(path == vec![OutlineCmd::MoveTo(v(0, 0)), OutlineCmd::Curve4(v(10, 20), v(30, 40), v(0, 0))]);
}

#[test]
fn outline_stops_at_misplaced_tags() {
    // The second contour begins with a cubic control point.
    let o = outline(&[(0, 0), (1, 0), (2, 2), (5, 5), (6, 6)], &[1, 1, 1, 2, 1], &[2, 4]);
    let (path, ok) = decompose(&o);
    assert!(!ok);
    assert!(
        path == vec![
            OutlineCmd::MoveTo(v(0, 0)),
            OutlineCmd::LineTo(v(1, 0)),
            OutlineCmd::LineTo(v(2, 2)),
            OutlineCmd::Close,
        ]
    );
    // A lone cubic control point.
    let o = outline(&[(0, 0), (1, 0), (2, 2)], &[1, 1, 2], &[2]);
    let (path, ok) = decompose(&o);
    assert!(!ok);
    assert!(path == vec![OutlineCmd::MoveTo(v(0, 0)), OutlineCmd::LineTo(v(1, 0))]);
    // A quadratic run that meets a cubic control point.
    let o = outline(&[(0, 0), (1, 1), (2, 2), (3, 3)], &[1, 0, 2, 1], &[3]);
    let (path, ok) = decompose(&o);
    assert!(!ok);
    assert!(path == vec![OutlineCmd::MoveTo(v(0, 0))]);
}

#[test]
fn outline_appends_to_the_path() {
    let o = outline(&[(0, 0), (1, 0)], &[1, 1], &[1]);
    let mut path = vec![OutlineCmd::Close];
    assert!(decompose_ft_outline(&o, &mut path));
    assert!(
        path == vec![
            OutlineCmd::Close,
            OutlineCmd::MoveTo(v(0, 0)),
            OutlineCmd::LineTo(v(1, 0)),
            OutlineCmd::Close,
        ]
    );
}
