use path_flatten::path::{Path, PathCommand};
use path_flatten::point::Point;
use path_flatten::segment::Segment;

fn pt(x: i64, y: i64) -> Point {
    Point::new(x, y)
}

#[test]
fn new_path_is_empty() {
    let path = Path::new();
    assert!(path.commands().is_empty());
    assert!(path.to_segments().is_empty());
}

#[test]
fn appends_record_commands_in_order() {
    let mut path = Path::new();
    path.move_to(pt(1, 2));
    path.line_to(pt(3, 4));
    path.quad_to(pt(5, 6), pt(7, 8));
    path.cubic_to(pt(9, 10), pt(11, 12), pt(13, 14));
    path.close();
    let commands = path.commands();
    assert_eq!(commands.len(), 5);
    assert!(matches!(commands[0], PathCommand::MoveTo(p) if p == pt(1, 2)));
    assert!(matches!(commands[1], PathCommand::LineTo(p) if p == pt(3, 4)));
    assert!(matches!(commands[2], PathCommand::QuadTo(c, p) if c == pt(5, 6) && p == pt(7, 8)));
    assert!(matches!(
        commands[3],
        PathCommand::CubicTo(c1, c2, p) if c1 == pt(9, 10) && c2 == pt(11, 12) && p == pt(13, 14)
    ));
    assert!(matches!(commands[4], PathCommand::Close));
}

#[test]
fn segment_order_preservation() {
    // move_to (0,0); line_to (1,0); quad_to (2,0),(2,1); cubic_to (1,2),(0,2),(0,1),
    // in ticks of 1/256: exactly three segments, each starting at the
    // previous command's terminal point, in command order.
    let mut path = Path::new();
    path.move_to(pt(0, 0));
    path.line_to(pt(256, 0));
    path.quad_to(pt(512, 0), pt(512, 256));
    path.cubic_to(pt(256, 512), pt(0, 512), pt(0, 256));
    let segments = path.to_segments();
    assert_eq!(segments.len(), 3);
    assert!(matches!(
        segments[0],
        Segment::Line(a, b) if a == pt(0, 0) && b == pt(256, 0)
    ));
    assert!(matches!(
        segments[1],
        Segment::Quad(a, c, b) if a == pt(256, 0) && c == pt(512, 0) && b == pt(512, 256)
    ));
    assert!(matches!(
        segments[2],
        Segment::Cubic(a, c1, c2, b)
            if a == pt(512, 256) && c1 == pt(256, 512) && c2 == pt(0, 512) && b == pt(0, 256)
    ));
}

#[test]
fn implicit_start_is_origin() {
    let mut path = Path::new();
    path.line_to(pt(100, 200));
    let segments = path.to_segments();
    assert_eq!(segments.len(), 1);
    assert!(matches!(
        segments[0],
        Segment::Line(a, b) if a == pt(0, 0) && b == pt(100, 200)
    ));
}

#[test]
fn close_draws_nothing_and_keeps_current_point() {
    let mut path = Path::new();
    path.move_to(pt(10, 10));
    path.line_to(pt(20, 10));
    path.close();
    path.line_to(pt(30, 30));
    let segments = path.to_segments();
    assert_eq!(segments.len(), 2);
    assert!(matches!(
        segments[1],
        Segment::Line(a, b) if a == pt(20, 10) && b == pt(30, 30)
    ));
}

#[test]
fn move_to_relocates_without_drawing() {
    let mut path = Path::new();
    path.move_to(pt(5, 5));
    path.move_to(pt(50, 50));
    path.line_to(pt(60, 50));
    let segments = path.to_segments();
    assert_eq!(segments.len(), 1);
    assert!(matches!(
        segments[0],
        Segment::Line(a, b) if a == pt(50, 50) && b == pt(60, 50)
    ));
}

#[test]
fn path_subdivide_concatenates_segment_polylines() {
    let mut path = Path::new();
    path.move_to(pt(0, 0));
    path.line_to(pt(256, 0));
    path.quad_to(pt(512, 0), pt(512, 256));
    path.cubic_to(pt(256, 512), pt(0, 512), pt(0, 256));
    let whole = path.subdivide();

    let mut expected: Vec<Point> = Vec::new();
    for segment in path.to_segments() {
        expected.extend(path_flatten::subdivision::subdivide(&segment));
    }
    assert_eq!(whole, expected);
    // Each drawing command contributes its polyline in order; the first point
    // of the whole output is the path's first drawn point.
    assert_eq!(whole[0], pt(0, 0));
}
