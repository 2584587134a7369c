use kurbo::{Point, Vec2};
use overstory::drag::DragState;

type Drag = DragState<Point>;

/// The movement delta of an update: the new position minus the position the
/// drag reports the movement started from.
fn update(drag: &mut Drag, pos: Point) -> Option<Vec2> {
    drag.update(pos).map(|from| pos - from)
}

/// The total offset: the current position minus the drag's start position.
fn total_offset(drag: &Drag, current: Point) -> Option<Vec2> {
    drag.start_pos.map(|start| current - start)
}

#[test]
fn new_drag_state_is_not_dragging() {
    let drag = Drag::default();
    assert!(drag.start_pos.is_none());
    assert!(drag.start_pos.is_some() == drag.last_pos.is_some());
}

#[test]
fn start_sets_dragging_state() {
    let mut drag = Drag::default();
    let start = Point::new(10.0, 20.0);

    drag.start(start);

    assert_eq!(drag.start_pos, Some(start));
    assert_eq!(drag.start_pos, drag.last_pos);
}

#[test]
fn update_returns_delta_when_dragging() {
    let mut drag = Drag::default();
    drag.start(Point::new(10.0, 20.0));

    let new_pos = Point::new(15.0, 25.0);
    let delta = update(&mut drag, new_pos);

    assert_eq!(delta, Some(Vec2::new(5.0, 5.0)));
    assert_eq!(drag.last_pos, Some(new_pos));
}

#[test]
fn update_returns_none_when_not_dragging() {
    let mut drag = Drag::default();

    let delta = update(&mut drag, Point::new(15.0, 25.0));

    assert_eq!(delta, None);
    assert!(drag.last_pos.is_none());
}

#[test]
fn update_with_no_last_position_returns_none() {
    let mut drag: Drag = DragState {
        start_pos: Some(Point::new(10.0, 20.0)),
        last_pos: None,
    };

    let new_pos = Point::new(15.0, 25.0);
    let delta = update(&mut drag, new_pos);

    assert_eq!(delta, None);
    assert_eq!(drag.last_pos, Some(new_pos));
}

#[test]
fn multiple_updates_track_incremental_deltas() {
    let mut drag = Drag::default();
    drag.start(Point::new(0.0, 0.0));

    // First move
    let delta1 = update(&mut drag, Point::new(5.0, 3.0));
    assert_eq!(delta1, Some(Vec2::new(5.0, 3.0)));

    // Second move from new position
    let delta2 = update(&mut drag, Point::new(8.0, 7.0));
    assert_eq!(delta2, Some(Vec2::new(3.0, 4.0)));

    // Third move
    let delta3 = update(&mut drag, Point::new(10.0, 10.0));
    assert_eq!(delta3, Some(Vec2::new(2.0, 3.0)));
}

#[test]
fn total_offset_calculates_from_start() {
    let mut drag = Drag::default();
    let start = Point::new(10.0, 20.0);
    drag.start(start);

    // Move to intermediate position
    update(&mut drag, Point::new(15.0, 25.0));

    // Total offset from start to current position
    let current = Point::new(20.0, 35.0);
    let total = total_offset(&drag, current);

    assert_eq!(total, Some(Vec2::new(10.0, 15.0)));
}

#[test]
fn total_offset_returns_none_when_not_dragging() {
    let drag = Drag::default();

    let total = total_offset(&drag, Point::new(100.0, 200.0));

    assert_eq!(total, None);
}

#[test]
fn total_offset_with_no_start_position_returns_none() {
    let drag: Drag = DragState {
        start_pos: None,
        last_pos: Some(Point::new(10.0, 20.0)),
    };

    let total = total_offset(&drag, Point::new(15.0, 25.0));

    assert_eq!(total, None);
}

#[test]
fn end_resets_drag_state() {
    let mut drag = Drag::default();
    drag.start(Point::new(10.0, 20.0));
    update(&mut drag, Point::new(15.0, 25.0));

    drag.end();

    assert!(drag.start_pos.is_none());
    assert!(drag.last_pos.is_none());
}

#[test]
fn end_on_fresh_state_is_safe() {
    let mut drag = Drag::default();

    drag.end();

    assert!(drag.start_pos.is_none());
    assert!(drag.start_pos.is_some() == drag.last_pos.is_some());
}

#[test]
fn negative_movement_deltas() {
    let mut drag = Drag::default();
    drag.start(Point::new(100.0, 100.0));

    // Move to smaller coordinates
    let delta = update(&mut drag, Point::new(90.0, 85.0));

    assert_eq!(delta, Some(Vec2::new(-10.0, -15.0)));
}

#[test]
fn zero_movement_delta() {
    let mut drag = Drag::default();
    let start = Point::new(50.0, 50.0);
    drag.start(start);

    // Update to same position
    let delta = update(&mut drag, start);

    assert_eq!(delta, Some(Vec2::new(0.0, 0.0)));
}

#[test]
fn fractional_coordinates() {
    let mut drag = Drag::default();
    drag.start(Point::new(1.5, 2.7));

    let delta = update(&mut drag, Point::new(3.2, 4.1));

    // Use approximate equality for floating point comparison
    let expected_delta = Vec2::new(1.7, 1.4);
    assert!((delta.unwrap().x - expected_delta.x).abs() < f64::EPSILON * 10.0);
    assert!((delta.unwrap().y - expected_delta.y).abs() < f64::EPSILON * 10.0);

    let total = total_offset(&drag, Point::new(3.2, 4.1));
    assert!((total.unwrap().x - expected_delta.x).abs() < f64::EPSILON * 10.0);
    assert!((total.unwrap().y - expected_delta.y).abs() < f64::EPSILON * 10.0);
}

#[test]
fn start_overwrites_previous_drag() {
    let mut drag = Drag::default();

    // First drag session
    drag.start(Point::new(0.0, 0.0));
    update(&mut drag, Point::new(10.0, 10.0));

    // Start new drag session from different position
    let new_start = Point::new(50.0, 60.0);
    drag.start(new_start);

    assert_eq!(drag.start_pos, Some(new_start));
    assert_eq!(drag.start_pos, drag.last_pos);

    // Total offset should be from new start position
    let total = total_offset(&drag, Point::new(55.0, 65.0));
    assert_eq!(total, Some(Vec2::new(5.0, 5.0)));
}

#[test]
fn large_coordinate_values() {
    let mut drag = Drag::default();
    drag.start(Point::new(1000000.0, 2000000.0));

    let delta = update(&mut drag, Point::new(1000001.0, 2000002.0));

    assert_eq!(delta, Some(Vec2::new(1.0, 2.0)));
}


#[test]
fn updates_without_a_drag_change_nothing_and_end_stops_dragging() {
    let mut drag: DragState<(i32, i32)> = DragState::new();
    assert!(!drag.is_dragging());
    assert_eq!(drag.update((1, 1)), None);
    assert_eq!((drag.start_pos, drag.last_pos), (None, None));
    drag.start((2, 3));
    assert!(drag.is_dragging());
    assert_eq!(drag.update((4, 4)), Some((2, 3)));
    assert_eq!(drag.update((5, 6)), Some((4, 4)));
    assert_eq!(drag.start_pos, Some((2, 3)));
    drag.end();
    assert!(!drag.is_dragging());
    assert_eq!(drag.update((7, 7)), None);
}
