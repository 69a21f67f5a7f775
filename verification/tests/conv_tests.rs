use agg::conv_adaptor_vcgen::{AccumulateStep, NullMarkers, VcgenAdaptorState, VcgenStatus, VcgenStep};
use agg::conv_adaptor_vpgen::{VpgenAdaptorState, VpgenStep};
use agg::conv_close_polygon::{ClosePolygonState, ClosePolygonStep};
use agg::conv_concat::ConcatState;

const STOP: u32 = 0;
const MOVE_TO: u32 = 1;
const LINE_TO: u32 = 2;
const END_POLY: u32 = 0x0F;
const CLOSED_END_POLY: u32 = 0x4F;

#[test]
fn close_polygon_passes_commands_through() {
    let mut s = ClosePolygonState::new(0i32);
    assert!(matches!(s.next(), ClosePolygonStep::Pull));
    assert_eq!(s.accept(MOVE_TO, 1, 1), Some(MOVE_TO));
    assert_eq!(s.accept(LINE_TO, 2, 2), Some(LINE_TO));
    assert!(s.line_to);
    assert!(matches!(s.next(), ClosePolygonStep::Pull));
}

#[test]
fn close_polygon_closes_before_move_to() {
    let mut s = ClosePolygonState::new(0i32);
    s.accept(MOVE_TO, 1, 1);
    s.accept(LINE_TO, 2, 2);
    assert_eq!(s.accept(MOVE_TO, 5, 6), None);
    assert!(matches!(s.next(), ClosePolygonStep::Emit(CLOSED_END_POLY, 0, 0)));
    assert!(matches!(s.next(), ClosePolygonStep::Emit(MOVE_TO, 5, 6)));
    assert!(matches!(s.next(), ClosePolygonStep::Pull));
    assert!(!s.line_to);
}

#[test]
fn close_polygon_closes_before_stop() {
    let mut s = ClosePolygonState::new(0i32);
    s.accept(MOVE_TO, 1, 1);
    s.accept(LINE_TO, 2, 2);
    s.accept(MOVE_TO, 5, 6);
    s.next();
    s.next();
    s.accept(LINE_TO, 7, 7);
    assert_eq!(s.accept(STOP, 0, 0), None);
    assert!(matches!(s.next(), ClosePolygonStep::Emit(CLOSED_END_POLY, 0, 0)));
    // the stop is handed on with the coordinates last buffered
    assert!(matches!(s.next(), ClosePolygonStep::Emit(STOP, 5, 6)));
    assert_eq!(s.accept(STOP, 0, 0), Some(STOP));
}

#[test]
fn close_polygon_marks_end_poly_closed_and_drops_unknown() {
    let mut s = ClosePolygonState::new(0i32);
    assert_eq!(s.accept(END_POLY, 0, 0), Some(CLOSED_END_POLY));
    assert_eq!(s.accept(END_POLY | 0x10, 0, 0), Some(0x5F));
    assert_eq!(s.accept(0x10, 0, 0), None);
    assert!(matches!(s.next(), ClosePolygonStep::Pull));
    s.accept(LINE_TO, 1, 1);
    s.rewind();
    assert!(!s.line_to);
    assert_eq!(s.vertex, 2);
}

#[test]
fn vpgen_auto_close_returns_to_start_at_stop() {
    let mut s = VpgenAdaptorState::new(0.0f64);
    assert!(matches!(s.generator_empty(false), VpgenStep::Pull));
    assert!(matches!(s.accept(MOVE_TO, 1.0, 1.0, true), VpgenStep::MoveTo(x, y) if x == 1.0 && y == 1.0));
    assert!(matches!(s.accept(LINE_TO, 2.0, 1.0, true), VpgenStep::LineTo(x, y) if x == 2.0 && y == 1.0));
    assert!(matches!(s.accept(LINE_TO, 2.0, 2.0, true), VpgenStep::LineTo(..)));
    assert_eq!(s.vertices, 3);
    assert!(matches!(s.accept(STOP, 9.0, 9.0, true), VpgenStep::LineTo(x, y) if x == 1.0 && y == 1.0));
    assert_eq!(s.poly_flags, CLOSED_END_POLY);
    assert!(matches!(s.generator_empty(false), VpgenStep::Emit(CLOSED_END_POLY, x, y) if x == 0.0 && y == 0.0));
    assert!(matches!(s.generator_empty(false), VpgenStep::Return(STOP)));
    assert_eq!(s.vertices, 0);
}

#[test]
fn vpgen_auto_close_before_next_move_to() {
    let mut s = VpgenAdaptorState::new(0.0f64);
    s.accept(MOVE_TO, 1.0, 1.0, true);
    s.accept(LINE_TO, 2.0, 1.0, true);
    s.accept(LINE_TO, 2.0, 2.0, true);
    assert!(matches!(s.accept(MOVE_TO, 5.0, 5.0, true), VpgenStep::LineTo(x, y) if x == 1.0 && y == 1.0));
    assert_eq!(s.vertices, -1);
    assert!(matches!(s.generator_empty(false), VpgenStep::Emit(CLOSED_END_POLY, ..)));
    assert!(matches!(s.generator_empty(false), VpgenStep::MoveTo(x, y) if x == 5.0 && y == 5.0));
    assert_eq!(s.vertices, 1);
}

#[test]
fn vpgen_without_auto_close() {
    let mut s = VpgenAdaptorState::new(0.0f64);
    s.accept(MOVE_TO, 1.0, 1.0, false);
    s.accept(LINE_TO, 2.0, 1.0, false);
    s.accept(LINE_TO, 2.0, 2.0, false);
    // an open end of polygon is held but nothing is drawn
    assert!(matches!(s.accept(END_POLY, 0.0, 0.0, false), VpgenStep::Again));
    assert_eq!(s.poly_flags, END_POLY);
    assert_eq!(s.vertices, 3);
    // a closed one draws back to the start
    assert!(matches!(s.accept(CLOSED_END_POLY, 0.0, 0.0, false), VpgenStep::LineTo(x, _) if x == 1.0));
    assert_eq!(s.vertices, 0);
    // the held flags are not handed on when the generator reopens polygons
    assert!(matches!(s.generator_empty(true), VpgenStep::Pull));
    assert!(matches!(s.accept(STOP, 0.0, 0.0, false), VpgenStep::Return(STOP)));
    s.rewind();
    assert_eq!(s.poly_flags, 0);
    assert_eq!(s.vertices, 0);
}

#[test]
fn vcgen_collects_a_path_then_generates() {
    let mut s = VcgenAdaptorState::new(0.0f64);
    assert!(matches!(s.step(), VcgenStep::ReadStart));
    s.started(MOVE_TO, 1.0, 2.0);
    assert!(s.status == VcgenStatus::Accumulate);
    assert!(matches!(s.step(), VcgenStep::BeginPath(x, y) if x == 1.0 && y == 2.0));
    assert!(matches!(s.accumulate(LINE_TO, 3.0, 4.0), AccumulateStep::Add(LINE_TO)));
    assert!(matches!(s.accumulate(0x10, 0.0, 0.0), AccumulateStep::Skip));
    assert!(matches!(s.accumulate(CLOSED_END_POLY, 0.0, 0.0), AccumulateStep::AddLast(CLOSED_END_POLY)));
    assert!(matches!(s.step(), VcgenStep::Generate));
    assert!(s.generated(LINE_TO));
    assert!(!s.generated(STOP));
    assert!(matches!(s.step(), VcgenStep::BeginPath(..)));
}

#[test]
fn vcgen_move_to_starts_next_path_and_stop_ends() {
    let mut s = VcgenAdaptorState::new(0.0f64);
    s.started(MOVE_TO, 1.0, 2.0);
    s.accumulate(LINE_TO, 3.0, 4.0);
    assert!(matches!(s.accumulate(MOVE_TO, 7.0, 8.0), AccumulateStep::Finish));
    assert!(!s.generated(STOP));
    assert!(matches!(s.step(), VcgenStep::BeginPath(x, y) if x == 7.0 && y == 8.0));
    assert!(matches!(s.accumulate(STOP, 0.0, 0.0), AccumulateStep::Finish));
    assert_eq!(s.last_cmd, STOP);
    assert!(!s.generated(STOP));
    assert!(matches!(s.step(), VcgenStep::Return(STOP)));
    s.rewind();
    assert!(matches!(s.step(), VcgenStep::ReadStart));
}

#[test]
fn null_markers_give_nothing() {
    let mut m = NullMarkers::new();
    m.remove_all();
    m.add_vertex(1.0f64, 2.0f64, LINE_TO);
    m.rewind(0);
    let mut x = 3.5f64;
    let mut y = 4.5f64;
    assert_eq!(m.vertex(&mut x, &mut y), STOP);
    assert_eq!((x, y), (3.5, 4.5));
}

#[test]
fn concat_reads_first_then_second_source() {
    let mut s = ConcatState::new();
    assert_eq!(s.current(), None);
    s.rewind();
    assert_eq!(s.current(), Some(0));
    assert!(s.accept(MOVE_TO));
    assert_eq!(s.current(), Some(0));
    assert!(!s.accept(STOP));
    assert_eq!(s.current(), Some(1));
    assert!(s.accept(LINE_TO));
    assert!(!s.accept(STOP));
    assert_eq!(s.current(), None);
}
