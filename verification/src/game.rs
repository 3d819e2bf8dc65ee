//! The game as the player's input drives it: the grid, the cursor, the drag
//! in progress and the keys that are held. Each event changes this state
//! and tells the caller what is left for it to do with the camera.

use crate::chunk::ChunkView;
use crate::grid::{tile_in, Grid};
use crate::input::{Drag, DragKind, KeyLayout, KeysPressed, KeysView, Modifiers, MouseButton};
use crate::pos::{ChunkPos, TilePos};
use crate::tile::Tile;
use crate::rules::{chord_between, flooded_between};
use vstd::prelude::*;

verus! {

/// Whether `after` comes from `before` by the action of a click of
/// `button` on the tile at `pos`: the left button reveals, by what the tile
/// shows; the right button toggles the flag; any other button does nothing.
pub open spec fn clicked_between(
    before: Map<ChunkPos, ChunkView>,
    after: Map<ChunkPos, ChunkView>,
    button: MouseButton,
    pos: TilePos,
) -> bool {
    match button {
        MouseButton::Left => match tile_in(before, pos) {
            Tile::Covered(_, _) => flooded_between(before, after, set![pos], Seq::empty()),
            Tile::Number(_) => chord_between(before, after, pos),
            Tile::Mine => after == before,
        },
        MouseButton::Right => {
            &&& tile_in(after, pos) == tile_in(before, pos).toggled()
            &&& forall|other: TilePos|
                other != pos ==> #[trigger] tile_in(after, other) == tile_in(before, other)
            &&& after.dom() == before.dom().insert(pos.spec_chunk())
        },
        _ => after == before,
    }
}

/// The state of a game, but for its cameras.
#[derive(Debug)]
pub struct Game {
    /// Tile grid.
    grid: Grid,
    /// Position of the mouse cursor.
    cursor_pos: Option<(u32, u32)>,
    /// Mouse drag in progress.
    drag: Option<Drag>,
    /// Set of pressed keys.
    keys: KeysPressed,
    /// Set of pressed modifiers.
    modifiers: Modifiers,
}

impl Game {
    /// Tile grid.
    pub closed spec fn spec_grid(&self) -> Grid {
        self.grid
    }

    /// Position of the mouse cursor, if it is over the window.
    pub closed spec fn spec_cursor_pos(&self) -> Option<(u32, u32)> {
        self.cursor_pos
    }

    /// Mouse drag in progress, if there is one.
    pub closed spec fn spec_drag(&self) -> Option<Drag> {
        self.drag
    }

    /// The keys that are held.
    pub closed spec fn spec_keys(&self) -> KeysView {
        self.keys@
    }

    /// The modifier keys that are held.
    pub closed spec fn spec_modifiers(&self) -> Modifiers {
        self.modifiers
    }

    /// Whether releasing `button` is a click: the cursor is over the
    /// window, and no drag is in progress but one of this button that has
    /// stayed under the threshold.
    pub open spec fn release_clicks(&self, button: MouseButton) -> bool {
        &&& self.spec_cursor_pos() is Some
        &&& match self.spec_drag() {
            Some(drag) => drag.button == button && !drag.past_threshold,
            None => true,
        }
    }

    /// The drag that is left in progress after `button` is released: the
    /// button's own drag ends, if the cursor is over the window.
    pub open spec fn drag_after_release(&self, button: MouseButton) -> Option<Drag> {
        match self.spec_drag() {
            Some(drag) => if self.spec_cursor_pos() is Some && drag.button == button {
                None
            } else {
                Some(drag)
            },
            None => None,
        }
    }

    /// The drag that pressing `button` starts: none while another is in
    /// progress, none while the cursor is outside the window, none for a
    /// button that starts none.
    pub open spec fn drag_started_by(&self, button: MouseButton) -> Option<Drag> {
        match (self.spec_drag(), self.spec_cursor_pos(), button.spec_drag_kind()) {
            (None, Some(pixel), Some(kind)) => Some(
                Drag {
                    button,
                    cursor_start: pixel,
                    cursor_end: pixel,
                    past_threshold: false,
                    kind,
                },
            ),
            _ => None,
        }
    }

    /// How far the held keys move the camera along one axis: one step for
    /// the key of the one direction, less one for that of the other.
    pub open spec fn axis_steps(forward: bool, backward: bool) -> int {
        (if forward {
            1int
        } else {
            0int
        }) - (if backward {
            1int
        } else {
            0int
        })
    }

    /// The steps to the right, upward and inward that the held keys ask of
    /// the camera: none while control, alt or the logo key is held, and
    /// twice as many while shift is.
    pub open spec fn spec_keyboard_motion(&self, layout: KeyLayout) -> (i8, i8, i8) {
        let held = self.spec_keys().scancodes;
        let mods = self.spec_modifiers();
        if mods.ctrl || mods.alt || mods.logo {
            (0i8, 0i8, 0i8)
        } else {
            let twice: int = if mods.shift {
                2
            } else {
                1
            };
            (
                (twice * Game::axis_steps(held.contains(layout.d), held.contains(layout.a))) as i8,
                (twice * Game::axis_steps(held.contains(layout.w), held.contains(layout.s))) as i8,
                (twice * Game::axis_steps(
                    held.contains(layout.q),
                    held.contains(layout.z) || held.contains(layout.e),
                )) as i8,
            )
        }
    }

    /// Returns a new game.
    pub fn new() -> (game: Game)
        ensures
            game.spec_grid()@ == Map::<ChunkPos, ChunkView>::empty(),
            game.spec_cursor_pos() is None,
            game.spec_drag() is None,
            game.spec_keys() == (KeysView { scancodes: Set::empty(), virtual_keycodes: Set::empty() }),
            game.spec_modifiers() == Modifiers::spec_none(),
    {
        Game {
            grid: Grid::new(),
            cursor_pos: None,
            drag: None,
            keys: KeysPressed::new(),
            modifiers: Modifiers::none(),
        }
    }

    /// Returns the tile grid.
    pub fn grid(&self) -> (grid: &Grid)
        ensures
            *grid == self.spec_grid(),
    {
        &self.grid
    }

    /// Returns the tile grid, to change it.
    pub fn grid_mut(&mut self) -> (grid: &mut Grid)
        ensures
            *grid == old(self).spec_grid(),
            final(self).spec_grid() == *final(grid),
            final(self).spec_cursor_pos() == old(self).spec_cursor_pos(),
            final(self).spec_drag() == old(self).spec_drag(),
            final(self).spec_keys() == old(self).spec_keys(),
            final(self).spec_modifiers() == old(self).spec_modifiers(),
    {
        &mut self.grid
    }

    /// Returns the position of the mouse cursor, if it is over the window.
    #[verifier::when_used_as_spec(spec_cursor_pos)]
    pub fn cursor_pos(&self) -> (cursor: Option<(u32, u32)>)
        ensures
            cursor == self.spec_cursor_pos(),
    {
        self.cursor_pos
    }

    /// Returns the mouse drag in progress, if there is one.
    #[verifier::when_used_as_spec(spec_drag)]
    pub fn drag(&self) -> (drag: Option<Drag>)
        ensures
            drag == self.spec_drag(),
    {
        self.drag
    }

    /// Returns the modifier keys that are held.
    #[verifier::when_used_as_spec(spec_modifiers)]
    pub fn modifiers(&self) -> (modifiers: Modifiers)
        ensures
            modifiers == self.spec_modifiers(),
    {
        self.modifiers
    }

    /// Returns whether the key with the given scancode is held.
    pub fn key_held(&self, scancode: u32) -> (held: bool)
        ensures
            held == self.spec_keys().scancodes.contains(scancode),
    {
        self.keys.index(scancode)
    }

    /// Takes in a key that went down or up, and tells whether the game is
    /// to be saved: whether the key went down, is the one with the virtual
    /// keycode `save_key`, and control is the one modifier held.
    pub fn handle_keyboard_input(
        &mut self,
        scancode: u32,
        virtual_keycode: Option<u32>,
        pressed: bool,
        save_key: u32,
    ) -> (save: bool)
        ensures
            final(self).spec_keys() == old(self).spec_keys().updated(
                scancode,
                virtual_keycode,
                pressed,
            ),
            save == (pressed && virtual_keycode == Some(save_key) && old(
                self,
            ).spec_modifiers().spec_only_ctrl()),
            final(self).spec_grid() == old(self).spec_grid(),
            final(self).spec_cursor_pos() == old(self).spec_cursor_pos(),
            final(self).spec_drag() == old(self).spec_drag(),
            final(self).spec_modifiers() == old(self).spec_modifiers(),
    {
        self.keys.update(scancode, virtual_keycode, pressed);
        if pressed {
            match virtual_keycode {
                Some(code) => code == save_key && self.modifiers.only_ctrl(),
                None => false,
            }
        } else {
            false
        }
    }

    /// Takes in a change of the modifier keys that are held.
    pub fn handle_modifiers_changed(&mut self, modifiers: Modifiers)
        ensures
            final(self).spec_modifiers() == modifiers,
            final(self).spec_grid() == old(self).spec_grid(),
            final(self).spec_cursor_pos() == old(self).spec_cursor_pos(),
            final(self).spec_drag() == old(self).spec_drag(),
            final(self).spec_keys() == old(self).spec_keys(),
    {
        self.modifiers = modifiers;
    }

    /// Takes in a move of the cursor to `pos`, and returns the drag that
    /// the cameras are to follow: the drag in progress, once it is past the
    /// threshold.
    pub fn handle_cursor_moved(&mut self, pos: (u32, u32)) -> (follow: Option<Drag>)
        ensures
            final(self).spec_cursor_pos() == Some(pos),
            final(self).spec_drag() == match old(self).spec_drag() {
                Some(drag) => Some(drag.moved_to(pos)),
                None => None,
            },
            follow == match final(self).spec_drag() {
                Some(drag) => if drag.past_threshold {
                    Some(drag)
                } else {
                    None
                },
                None => None,
            },
            final(self).spec_grid() == old(self).spec_grid(),
            final(self).spec_keys() == old(self).spec_keys(),
            final(self).spec_modifiers() == old(self).spec_modifiers(),
    {
        self.cursor_pos = Some(pos);
        match self.drag {
            Some(mut drag) => {
                drag.update_cursor_end(pos);
                self.drag = Some(drag);
                if drag.past_threshold {
                    Some(drag)
                } else {
                    None
                }
            },
            None => None,
        }
    }

    /// Takes in that the cursor has left the window.
    pub fn handle_cursor_left(&mut self)
        ensures
            final(self).spec_cursor_pos() is None,
            final(self).spec_grid() == old(self).spec_grid(),
            final(self).spec_drag() == old(self).spec_drag(),
            final(self).spec_keys() == old(self).spec_keys(),
            final(self).spec_modifiers() == old(self).spec_modifiers(),
    {
        self.cursor_pos = None;
    }

    /// Takes in a mouse button that went down, and returns the drag that it
    /// started, if it started one.
    pub fn handle_mouse_press(&mut self, button: MouseButton) -> (started: Option<Drag>)
        ensures
            started == old(self).drag_started_by(button),
            final(self).spec_drag() == match started {
                Some(drag) => Some(drag),
                None => old(self).spec_drag(),
            },
            final(self).spec_grid() == old(self).spec_grid(),
            final(self).spec_cursor_pos() == old(self).spec_cursor_pos(),
            final(self).spec_keys() == old(self).spec_keys(),
            final(self).spec_modifiers() == old(self).spec_modifiers(),
    {
        if self.drag.is_some() {
            return None;
        }
        let pixel = match self.cursor_pos {
            Some(pixel) => pixel,
            None => return None,
        };
        let kind = match button.drag_kind() {
            Some(kind) => kind,
            None => return None,
        };
        let drag = Drag::begin(button, kind, pixel);
        self.drag = Some(drag);
        Some(drag)
    }

    /// Takes in a mouse button that went up, with the tile under the
    /// cursor. The button's own drag ends. Where the release is a click,
    /// the left button reveals the tile and the right button toggles its
    /// flag.
    pub fn handle_mouse_release(&mut self, button: MouseButton, tile_pos: TilePos)
        requires
            old(self).spec_grid().wf(),
        ensures
            final(self).spec_grid().wf(),
            final(self).spec_drag() == old(self).drag_after_release(button),
            if old(self).release_clicks(button) {
                clicked_between(old(self).spec_grid()@, final(self).spec_grid()@, button, tile_pos)
            } else {
                final(self).spec_grid()@ == old(self).spec_grid()@
            },
            final(self).spec_cursor_pos() == old(self).spec_cursor_pos(),
            final(self).spec_keys() == old(self).spec_keys(),
            final(self).spec_modifiers() == old(self).spec_modifiers(),
    {
        if self.cursor_pos.is_none() {
            return ;
        }
        if let Some(drag) = self.drag {
            if button == drag.button {
                self.drag = None;
                if drag.past_threshold {
                    return ;
                }
            } else {
                return ;
            }
        }
        match button {
            MouseButton::Left => self.grid.reveal_at(tile_pos),
            MouseButton::Right => self.grid.toggle_flag(tile_pos),
            MouseButton::Middle => (),
            MouseButton::Other(_) => (),
        }
    }

    /// Returns the steps to the right, upward and inward that the held keys
    /// ask of the camera.
    #[verifier::when_used_as_spec(spec_keyboard_motion)]
    pub fn keyboard_motion(&self, layout: KeyLayout) -> (steps: (i8, i8, i8))
        ensures
            steps == self.spec_keyboard_motion(layout),
    {
        let mut dx: i8 = 0;
        let mut dy: i8 = 0;
        let mut dz: i8 = 0;
        if !self.modifiers.ctrl && !self.modifiers.alt && !self.modifiers.logo {
            if self.keys.index(layout.d) {
                dx += 1;
            }
            if self.keys.index(layout.a) {
                dx -= 1;
            }
            if self.keys.index(layout.w) {
                dy += 1;
            }
            if self.keys.index(layout.s) {
                dy -= 1;
            }
            if self.keys.index(layout.q) {
                dz += 1;
            }
            if self.keys.index(layout.z) || self.keys.index(layout.e) {
                dz -= 1;
            }
            if self.modifiers.shift {
                dx *= 2;
                dy *= 2;
                dz *= 2;
            }
        }
        (dx, dy, dz)
    }

    /// Returns whether a drag that scales is in progress.
    pub fn is_drag_scaling(&self) -> (scaling: bool)
        ensures
            scaling == (self.spec_drag() matches Some(drag) && drag.kind == DragKind::Scale),
    {
        if let Some(drag) = self.drag {
            drag.kind == DragKind::Scale
        } else {
            false
        }
    }
}

impl Default for Game {
    fn default() -> (game: Game)
        ensures
            game.spec_grid()@ == Map::<ChunkPos, ChunkView>::empty(),
            game.spec_cursor_pos() is None,
            game.spec_drag() is None,
            game.spec_keys() == (KeysView { scancodes: Set::empty(), virtual_keycodes: Set::empty() }),
            game.spec_modifiers() == Modifiers::spec_none(),
    {
        Game::new()
    }
}

} // verus!
