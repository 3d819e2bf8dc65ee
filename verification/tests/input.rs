use infinite_minesweeper::input::{
    Drag, DragKind, KeyLayout, KeysPressed, Modifiers, MouseButton, DRAG_THRESHOLD,
};

#[test]
fn drag_passes_the_threshold_at_three_pixels() {
    assert_eq!(DRAG_THRESHOLD, 3);
    let mut drag = Drag::begin(MouseButton::Left, DragKind::Pan, (100, 100));
    assert_eq!(drag.cursor_start, (100, 100));
    assert_eq!(drag.cursor_end, (100, 100));
    assert!(!drag.past_threshold);
    drag.update_cursor_end((102, 98));
    assert_eq!(drag.cursor_end, (102, 98));
    assert!(!drag.past_threshold);
    drag.update_cursor_end((103, 100));
    assert!(drag.past_threshold);
    assert_eq!(drag.cursor_start, (100, 100));
    assert_eq!(drag.kind, DragKind::Pan);
    assert_eq!(drag.button, MouseButton::Left);
}

#[test]
fn drag_stays_past_the_threshold_once_it_was() {
    let mut drag = Drag::begin(MouseButton::Middle, DragKind::Scale, (10, 10));
    drag.update_cursor_end((10, 7));
    assert!(drag.past_threshold);
    drag.update_cursor_end((10, 10));
    assert!(drag.past_threshold);
    assert_eq!(drag.cursor_end, (10, 10));
}

#[test]
fn drag_measures_either_axis_and_either_direction() {
    for &(end, past) in &[
        ((3u32, 0u32), true),
        ((0, 3), true),
        ((2, 2), false),
        ((0, 0), false),
        ((u32::MAX, 0), true),
    ] {
        let mut drag = Drag::begin(MouseButton::Right, DragKind::Pan, (0, 0));
        drag.update_cursor_end(end);
        assert_eq!(drag.past_threshold, past, "end {:?}", end);
    }
    let mut drag = Drag::begin(MouseButton::Right, DragKind::Pan, (u32::MAX, 5));
    drag.update_cursor_end((0, 5));
    assert!(drag.past_threshold);
    let mut drag = Drag::begin(MouseButton::Right, DragKind::Pan, (50, 50));
    drag.update_cursor_end((48, 52));
    assert!(!drag.past_threshold);
    drag.update_cursor_end((47, 52));
    assert!(drag.past_threshold);
}

#[test]
fn buttons_start_their_kind_of_drag() {
    assert_eq!(MouseButton::Left.drag_kind(), Some(DragKind::Pan));
    assert_eq!(MouseButton::Right.drag_kind(), Some(DragKind::Pan));
    assert_eq!(MouseButton::Middle.drag_kind(), Some(DragKind::Scale));
    assert_eq!(MouseButton::Other(4).drag_kind(), None);
}

#[test]
fn keys_pressed_follows_presses_and_releases() {
    let mut keys = KeysPressed::new();
    assert!(!keys.index(17));
    keys.update(17, Some(22), true);
    keys.update(30, None, true);
    assert!(keys.index(17));
    assert!(keys.index(30));
    assert!(keys.index_virtual(22));
    assert!(!keys.index(22));
    assert!(!keys.index_virtual(17));
    keys.update(17, Some(22), true);
    assert!(keys.index(17));
    keys.update(17, Some(22), false);
    assert!(!keys.index(17));
    assert!(!keys.index_virtual(22));
    assert!(keys.index(30));
    keys.update(99, None, false);
    assert!(keys.index(30));
    let keys = KeysPressed::default();
    assert!(!keys.index(0));
}

#[test]
fn a_release_without_a_keycode_leaves_the_keycodes() {
    let mut keys = KeysPressed::new();
    keys.update(5, Some(7), true);
    keys.update(5, None, false);
    assert!(!keys.index(5));
    assert!(keys.index_virtual(7));
}

#[test]
fn modifiers_only_ctrl() {
    let none = Modifiers::none();
    assert_eq!(none, Modifiers { shift: false, ctrl: false, alt: false, logo: false });
    assert_eq!(Modifiers::default(), none);
    assert!(!none.only_ctrl());
    assert!(Modifiers { ctrl: true, ..none }.only_ctrl());
    assert!(!Modifiers { ctrl: true, shift: true, ..none }.only_ctrl());
    assert!(!Modifiers { ctrl: true, alt: true, ..none }.only_ctrl());
    assert!(!Modifiers { ctrl: true, logo: true, ..none }.only_ctrl());
}

#[test]
fn key_layouts() {
    let pc = KeyLayout::standard();
    assert_eq!((pc.w, pc.a, pc.s, pc.d, pc.q, pc.e, pc.z), (17, 30, 31, 32, 16, 18, 44));
    let mac = KeyLayout::macos();
    assert_eq!((mac.w, mac.a, mac.s, mac.d, mac.q, mac.e, mac.z), (13, 0, 1, 2, 12, 14, 6));
}
