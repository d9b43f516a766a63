use player_follow::geometry::Point;
use player_follow::lines::LineList;

#[test]
fn vertices_list_start_then_end() {
    let list = LineList {
        lines: vec![
            (Point::new(1, 2, 3), Point::new(4, 5, 6)),
            (Point::new(-1, 0, 0), Point::new(0, 0, -1)),
        ],
    };
    assert_eq!(
        list.vertices(),
        vec![
            Point::new(1, 2, 3),
            Point::new(4, 5, 6),
            Point::new(-1, 0, 0),
            Point::new(0, 0, -1),
        ]
    );
}

#[test]
fn empty_line_list_has_no_vertices() {
    let list = LineList { lines: Vec::new() };
    assert!(list.vertices().is_empty());
}

#[test]
fn axes_gizmo_lines() {
    let list = LineList::axes(10_000_000);
    let origin = Point::new(0, 0, 0);
    assert_eq!(
        list.lines,
        vec![
            (origin, Point::new(10_000_000, 0, 0)),
            (origin, Point::new(0, 10_000_000, 0)),
            (origin, Point::new(0, 0, 10_000_000)),
        ]
    );
    assert_eq!(list.vertices().len(), 6);
}
