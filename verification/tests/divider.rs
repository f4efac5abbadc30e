use explorer::geometry::{Axis, Bounds, Point};
use explorer::resizable::ResizableState;

fn measured_state() -> ResizableState {
    let mut s = ResizableState::new(Axis::Horizontal, 240, 100, 400);
    s.set_container_bounds(Bounds::new(0, 0, 500, 300));
    s
}

#[test]
fn new_divider_keeps_its_seed() {
    let s = ResizableState::new(Axis::Horizontal, 240, 100, 400);
    assert_eq!(s.size(), 240);
    assert!(!s.is_resizing());
    assert_eq!(s.bounds(), Bounds::new(0, 0, 0, 0));
}

#[test]
fn apply_above_range_clamps_to_max() {
    let mut s = measured_state();
    s.resize_first_panel(550);
    assert_eq!(s.size(), 400);
}

#[test]
fn apply_below_range_clamps_to_min() {
    let mut s = measured_state();
    s.resize_first_panel(50);
    assert_eq!(s.size(), 100);
}

#[test]
fn apply_inside_range_passes_through() {
    let mut s = measured_state();
    s.resize_first_panel(250);
    assert_eq!(s.size(), 250);
}

#[test]
fn apply_twice_is_stable() {
    let mut s = measured_state();
    s.resize_first_panel(550);
    assert_eq!(s.size(), 400);
    s.resize_first_panel(400);
    assert_eq!(s.size(), 400);
}

#[test]
fn divider_never_leaves_the_container() {
    let mut s = ResizableState::new(Axis::Horizontal, 10, 0, i64::MAX);
    s.set_container_bounds(Bounds::new(0, 0, 500, 300));
    s.resize_first_panel(600);
    assert_eq!(s.size(), 500);
}

#[test]
fn unmeasured_container_ignores_requests() {
    let mut s = ResizableState::new(Axis::Horizontal, 240, 100, 400);
    s.resize_first_panel(550);
    assert_eq!(s.size(), 240);
}

#[test]
fn drag_to_pointer_position_550_clamps_to_400() {
    let mut s = measured_state();
    s.start_resizing();
    assert!(s.is_resizing());
    s.on_pointer_move(Point { x: 550, y: 40 });
    assert_eq!(s.size(), 400);
}

#[test]
fn pointer_position_is_measured_from_container_origin() {
    let mut s = ResizableState::new(Axis::Horizontal, 240, 100, 400);
    s.set_container_bounds(Bounds::new(200, 0, 500, 300));
    s.start_resizing();
    s.on_pointer_move(Point { x: 550, y: 40 });
    assert_eq!(s.size(), 350);
}

#[test]
fn vertical_divider_reads_the_y_coordinate() {
    let mut s = ResizableState::new(Axis::Vertical, 100, 0, 250);
    s.set_container_bounds(Bounds::new(0, 0, 500, 300));
    s.start_resizing();
    s.on_pointer_move(Point { x: 480, y: 180 });
    assert_eq!(s.size(), 180);
}

#[test]
fn move_while_idle_is_ignored() {
    let mut s = measured_state();
    s.on_pointer_move(Point { x: 550, y: 40 });
    assert_eq!(s.size(), 240);
    assert!(!s.is_resizing());
}

#[test]
fn release_ends_the_drag_wherever_it_lands() {
    let mut s = measured_state();
    s.start_resizing();
    s.on_pointer_up();
    assert!(!s.is_resizing());
    s.on_pointer_move(Point { x: 550, y: 40 });
    assert_eq!(s.size(), 240);
}

#[test]
fn release_while_idle_changes_nothing() {
    let mut s = measured_state();
    s.on_pointer_up();
    assert!(!s.is_resizing());
    assert_eq!(s.size(), 240);
}
