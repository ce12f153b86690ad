use wasmgame::pointer::{pixel_under, relative_position, DragState, Touch};

fn touch(id: i32, x: i32, y: i32) -> Touch {
    Touch { id, x, y }
}

#[test]
fn positions_are_taken_relative_to_the_canvas() {
    assert_eq!(relative_position(120, 80, 100, 50), (20, 30));
    assert_eq!(pixel_under(20, 30, 600), (20, 570));
}

#[test]
fn mouse_drag_reports_offsets_from_where_it_started() {
    let mut s = DragState::new();
    assert_eq!(s.on_mousemove(5, 5), None);
    s.on_mousedown(10, 20);
    assert_eq!(s.on_mousemove(10, 20), Some((0, 0)));
    assert_eq!(s.on_mousemove(15, 12), Some((5, 8)));
    s.on_mouseup();
    assert_eq!(s.on_mousemove(15, 12), None);
}

#[test]
fn touch_drag_follows_only_its_touch() {
    let mut s = DragState::new();
    assert!(!s.on_touchstart(&vec![touch(1, 0, 0), touch(2, 5, 5)]));
    assert_eq!(s.drag_origin(), None);
    assert!(s.on_touchstart(&vec![touch(3, 100, 100)]));
    assert_eq!(s.drag_origin(), Some((100, 100)));
    assert_eq!(s.drag_touch(), Some(3));
    assert_eq!(
        s.on_touchmove(&vec![touch(3, 110, 90), touch(3, 120, 80), touch(4, 0, 0), touch(3, 1, 1)]),
        vec![(10, 10), (20, 20)]
    );
    assert_eq!(s.on_touchmove(&vec![touch(4, 0, 0), touch(3, 1, 1)]), vec![]);
    assert_eq!(s.on_touchend(&vec![touch(4, 0, 0)]), None);
    assert_eq!(s.on_touchend(&vec![touch(3, 130, 130)]), Some((30, -30)));
    assert_eq!(s.drag_origin(), None);
    assert_eq!(s.drag_touch(), None);
    assert_eq!(s.on_touchend(&vec![touch(3, 130, 130)]), None);
}

#[test]
fn touch_cancel_ends_the_drag_like_touch_end() {
    let mut s = DragState::new();
    assert!(s.on_touchstart(&vec![touch(9, 0, 0)]));
    assert_eq!(s.on_touchcancel(&vec![]), None);
    assert_eq!(s.on_touchcancel(&vec![touch(9, -3, 4)]), Some((-3, -4)));
    assert_eq!(s.drag_touch(), None);
}
