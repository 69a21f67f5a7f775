use agg::path_storage::{PathBase, VertexStlStorage};

fn dump(p: &PathBase<i32>) -> Vec<(i32, i32, u32)> {
    let mut out = Vec::new();
    for i in 0..p.total_vertices() {
        let (mut x, mut y) = (0, 0);
        let c = p.vertex_idx(i, &mut x, &mut y);
        out.push((x, y, c));
    }
    out
}

#[test]
fn path_close_and_invert() {
    let mut p = PathBase::<i32>::new();
    p.end_poly(0, 0);
    assert_eq!(p.total_vertices(), 0);
    p.move_to(0, 0);
    p.line_to(1, 0);
    p.line_to(1, 1);
    p.close_polygon(0, 0);
    assert_eq!(dump(&p), vec![(0, 0, 1), (1, 0, 2), (1, 1, 2), (0, 0, 0x4F)]);
    // A second close adds nothing: the path no longer ends with a vertex.
    p.close_polygon(0, 0);
    assert_eq!(p.total_vertices(), 4);
    p.invert_polygon(0);
    assert_eq!(dump(&p), vec![(1, 1, 1), (1, 0, 2), (0, 0, 2), (0, 0, 0x4F)]);
    assert_eq!(p.start_new_path(0), 5);
    assert_eq!(p.start_new_path(0), 5);
    assert_eq!(p.command(6), 2);
}

#[test]
fn path_invert_skips_leading_moves() {
    let mut p = PathBase::<i32>::new();
    p.move_to(9, 9);
    p.move_to(0, 0);
    p.line_to(5, 0);
    p.line_to(5, 5);
    p.move_to(7, 7);
    p.invert_polygon(0);
    assert_eq!(dump(&p), vec![(9, 9, 1), (5, 5, 1), (5, 0, 2), (0, 0, 2), (7, 7, 1)]);
}

#[test]
fn path_reads_vertices_in_order() {
    let mut p = PathBase::<i32>::new();
    p.move_to(3, 4);
    p.line_to(5, 6);
    p.rewind(0);
    let (mut x, mut y) = (0, 0);
    assert_eq!(p.vertex(&mut x, &mut y), 1);
    assert_eq!((x, y), (3, 4));
    assert_eq!(p.vertex(&mut x, &mut y), 2);
    assert_eq!((x, y), (5, 6));
    assert_eq!(p.vertex(&mut x, &mut y), 0);
    assert_eq!((x, y), (5, 6));
    p.modify_vertex(0, 8, 8);
    p.modify_command(1, 0x4F);
    assert_eq!(dump(&p), vec![(8, 8, 1), (5, 6, 0x4F)]);
}

#[test]
fn vertex_storage_swaps_and_reads_last() {
    let mut s = VertexStlStorage::<i32>::new();
    assert_eq!(s.last_command(), 0);
    s.add_vertex(1, 2, 1);
    s.add_vertex(3, 4, 2);
    s.swap_vertices(0, 1);
    assert_eq!(s.last_command(), 1);
    let (mut x, mut y) = (0, 0);
    assert_eq!(s.vertex(0, &mut x, &mut y), 2);
    assert_eq!((x, y), (3, 4));
}
