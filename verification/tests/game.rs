use infinite_minesweeper::game::Game;
use infinite_minesweeper::input::{DragKind, KeyLayout, Modifiers, MouseButton};
use infinite_minesweeper::pos::{ChunkPos, TilePos};
use infinite_minesweeper::tile::{FlagState, HiddenState, Tile};

const SAFE: Tile = Tile::Covered(FlagState::Blank, HiddenState::Safe);
const SAVE_KEY: u32 = 28;

fn game_with_safe_chunk() -> Game {
    let mut game = Game::new();
    for y in 0..64 {
        for x in 0..64 {
            game.grid_mut().set_tile(TilePos(x, y), SAFE);
        }
    }
    game.grid_mut().set_tile(TilePos(30, 30), Tile::Covered(FlagState::Blank, HiddenState::Mine));
    game
}

#[test]
fn a_new_game_is_empty() {
    let game = Game::new();
    assert!(game.cursor_pos().is_none());
    assert!(game.drag().is_none());
    assert_eq!(game.modifiers(), Modifiers::none());
    assert!(!game.key_held(17));
    assert!(!game.is_drag_scaling());
    assert!(game.grid().get_chunk(ChunkPos(0, 0)).is_none());
    let game = Game::default();
    assert!(game.cursor_pos().is_none());
}

#[test]
fn pressing_needs_a_cursor_and_a_button_that_drags() {
    let mut game = Game::new();
    assert!(game.handle_mouse_press(MouseButton::Left).is_none());
    assert!(game.drag().is_none());
    assert!(game.handle_cursor_moved((40, 50)).is_none());
    assert_eq!(game.cursor_pos(), Some((40, 50)));
    assert!(game.handle_mouse_press(MouseButton::Other(7)).is_none());
    assert!(game.drag().is_none());
    let started = game.handle_mouse_press(MouseButton::Middle).expect("drag started");
    assert_eq!(started.kind, DragKind::Scale);
    assert_eq!(started.button, MouseButton::Middle);
    assert_eq!(started.cursor_start, (40, 50));
    assert_eq!(started.cursor_end, (40, 50));
    assert!(!started.past_threshold);
    assert!(game.is_drag_scaling());
    // a second button does not start a second drag
    assert!(game.handle_mouse_press(MouseButton::Left).is_none());
    assert_eq!(game.drag().expect("drag").button, MouseButton::Middle);
}

#[test]
fn the_cameras_follow_a_drag_past_the_threshold() {
    let mut game = Game::new();
    game.handle_cursor_moved((40, 50));
    game.handle_mouse_press(MouseButton::Left);
    assert!(!game.is_drag_scaling());
    assert!(game.handle_cursor_moved((41, 52)).is_none());
    assert_eq!(game.drag().expect("drag").cursor_end, (41, 52));
    let follow = game.handle_cursor_moved((44, 50)).expect("past threshold");
    assert_eq!(follow.cursor_start, (40, 50));
    assert_eq!(follow.cursor_end, (44, 50));
    assert_eq!(follow.kind, DragKind::Pan);
    let follow = game.handle_cursor_moved((40, 50)).expect("still dragging");
    assert!(follow.past_threshold);
}

#[test]
fn a_left_click_reveals_and_a_right_click_flags() {
    let mut game = game_with_safe_chunk();
    game.handle_cursor_moved((5, 5));
    game.handle_mouse_press(MouseButton::Left);
    game.handle_mouse_release(MouseButton::Left, TilePos(31, 31));
    assert!(game.drag().is_none());
    assert_eq!(game.grid().get_tile(TilePos(31, 31)), Tile::Number(1));

    game.handle_mouse_press(MouseButton::Right);
    game.handle_mouse_release(MouseButton::Right, TilePos(30, 30));
    assert_eq!(
        game.grid().get_tile(TilePos(30, 30)),
        Tile::Covered(FlagState::Flag, HiddenState::Mine)
    );
    game.handle_mouse_release(MouseButton::Right, TilePos(30, 30));
    assert_eq!(
        game.grid().get_tile(TilePos(30, 30)),
        Tile::Covered(FlagState::Question, HiddenState::Mine)
    );
}

#[test]
fn releasing_after_a_drag_is_no_click() {
    let mut game = game_with_safe_chunk();
    game.handle_cursor_moved((5, 5));
    game.handle_mouse_press(MouseButton::Left);
    game.handle_cursor_moved((50, 5));
    game.handle_mouse_release(MouseButton::Left, TilePos(31, 31));
    assert!(game.drag().is_none());
    assert_eq!(game.grid().get_tile(TilePos(31, 31)), SAFE);
}

#[test]
fn releasing_another_button_keeps_the_drag_and_does_nothing() {
    let mut game = game_with_safe_chunk();
    game.handle_cursor_moved((5, 5));
    game.handle_mouse_press(MouseButton::Middle);
    game.handle_mouse_release(MouseButton::Left, TilePos(31, 31));
    assert!(game.drag().is_some());
    assert_eq!(game.grid().get_tile(TilePos(31, 31)), SAFE);
    // the middle button ends its drag and reveals nothing
    game.handle_mouse_release(MouseButton::Middle, TilePos(31, 31));
    assert!(game.drag().is_none());
    assert_eq!(game.grid().get_tile(TilePos(31, 31)), SAFE);
}

#[test]
fn releasing_outside_the_window_does_nothing() {
    let mut game = game_with_safe_chunk();
    game.handle_cursor_moved((5, 5));
    game.handle_mouse_press(MouseButton::Left);
    game.handle_cursor_left();
    assert!(game.cursor_pos().is_none());
    game.handle_mouse_release(MouseButton::Left, TilePos(31, 31));
    assert!(game.drag().is_some());
    assert_eq!(game.grid().get_tile(TilePos(31, 31)), SAFE);
}

#[test]
fn control_s_asks_for_a_save() {
    let mut game = Game::new();
    assert!(!game.handle_keyboard_input(31, Some(SAVE_KEY), true, SAVE_KEY));
    assert!(game.key_held(31));
    game.handle_modifiers_changed(Modifiers { ctrl: true, ..Modifiers::none() });
    assert!(game.handle_keyboard_input(31, Some(SAVE_KEY), true, SAVE_KEY));
    assert!(!game.handle_keyboard_input(31, Some(SAVE_KEY), false, SAVE_KEY));
    assert!(!game.key_held(31));
    assert!(!game.handle_keyboard_input(30, Some(10), true, SAVE_KEY));
    assert!(!game.handle_keyboard_input(30, None, true, SAVE_KEY));
    game.handle_modifiers_changed(Modifiers { ctrl: true, shift: true, ..Modifiers::none() });
    assert!(!game.handle_keyboard_input(31, Some(SAVE_KEY), true, SAVE_KEY));
}

#[test]
fn held_keys_move_the_camera() {
    let layout = KeyLayout::standard();
    let mut game = Game::new();
    assert_eq!(game.keyboard_motion(layout), (0, 0, 0));
    game.handle_keyboard_input(layout.d, None, true, SAVE_KEY);
    game.handle_keyboard_input(layout.s, None, true, SAVE_KEY);
    game.handle_keyboard_input(layout.q, None, true, SAVE_KEY);
    assert_eq!(game.keyboard_motion(layout), (1, -1, 1));
    game.handle_keyboard_input(layout.a, None, true, SAVE_KEY);
    game.handle_keyboard_input(layout.e, None, true, SAVE_KEY);
    game.handle_keyboard_input(layout.z, None, true, SAVE_KEY);
    assert_eq!(game.keyboard_motion(layout), (0, -1, 0));
    game.handle_keyboard_input(layout.q, None, false, SAVE_KEY);
    game.handle_keyboard_input(layout.a, None, false, SAVE_KEY);
    assert_eq!(game.keyboard_motion(layout), (1, -1, -1));
    game.handle_modifiers_changed(Modifiers { shift: true, ..Modifiers::none() });
    assert_eq!(game.keyboard_motion(layout), (2, -2, -2));
    game.handle_modifiers_changed(Modifiers { shift: true, alt: true, ..Modifiers::none() });
    assert_eq!(game.keyboard_motion(layout), (0, 0, 0));
    game.handle_modifiers_changed(Modifiers { ctrl: true, ..Modifiers::none() });
    assert_eq!(game.keyboard_motion(layout), (0, 0, 0));
    game.handle_modifiers_changed(Modifiers { logo: true, ..Modifiers::none() });
    assert_eq!(game.keyboard_motion(layout), (0, 0, 0));
    game.handle_modifiers_changed(Modifiers::none());
    game.handle_keyboard_input(layout.w, None, true, SAVE_KEY);
    assert_eq!(game.keyboard_motion(layout), (1, 0, -1));
    assert_eq!(game.keyboard_motion(KeyLayout::macos()), (0, 0, 0));
}
