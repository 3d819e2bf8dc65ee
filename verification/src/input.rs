//! What the player's hands are doing: the mouse drag in progress, and the
//! keys that are held.

use std::collections::HashSet;
use vstd::prelude::*;
use vstd::std_specs::hash::*;

verus! {

broadcast use vstd::std_specs::hash::group_hash_axioms;

/// Distance in pixels, along either axis, from which a pressed mouse button
/// counts as a drag and no longer as a click.
pub const DRAG_THRESHOLD: u32 = 3;

/// What a drag does to the camera.
#[derive(Debug, Copy, Clone, PartialEq, Eq, Structural)]
pub enum DragKind {
    /// The grid follows the cursor.
    Pan,
    /// Moving the cursor up and down zooms in and out.
    Scale,
}

/// A button of the mouse.
#[derive(Debug, Copy, Clone, PartialEq, Eq, Hash, Structural)]
pub enum MouseButton {
    /// The left button.
    Left,
    /// The right button.
    Right,
    /// The middle button.
    Middle,
    /// Any other button, by its number.
    Other(u16),
}

impl MouseButton {
    /// The kind of drag that holding the button starts, if it starts one:
    /// the left and right buttons pan, the middle button scales.
    pub open spec fn spec_drag_kind(self) -> Option<DragKind> {
        match self {
            MouseButton::Left | MouseButton::Right => Some(DragKind::Pan),
            MouseButton::Middle => Some(DragKind::Scale),
            MouseButton::Other(_) => None,
        }
    }

    /// Returns the kind of drag that holding the button starts, if it
    /// starts one.
    #[verifier::when_used_as_spec(spec_drag_kind)]
    pub fn drag_kind(self) -> (kind: Option<DragKind>)
        ensures
            kind == self.spec_drag_kind(),
    {
        match self {
            MouseButton::Left | MouseButton::Right => Some(DragKind::Pan),
            MouseButton::Middle => Some(DragKind::Scale),
            MouseButton::Other(_) => None,
        }
    }
}

/// The distance between two pixel coordinates.
pub open spec fn pixel_distance(a: u32, b: u32) -> int {
    if a >= b {
        a - b
    } else {
        b - a
    }
}

/// Mouse drag in progress.
#[derive(Debug, Copy, Clone)]
pub struct Drag {
    /// The button that is held.
    pub button: MouseButton,
    /// Where the cursor was when the button went down.
    pub cursor_start: (u32, u32),
    /// Where the cursor is now.
    pub cursor_end: (u32, u32),
    /// Whether the cursor has ever been `DRAG_THRESHOLD` pixels or more
    /// away from its start, along either axis.
    pub past_threshold: bool,
    /// What the drag does.
    pub kind: DragKind,
}

impl Drag {
    /// Whether a cursor at `cursor` is far enough from the start of the
    /// drag to count as dragging.
    pub open spec fn far_from_start(self, cursor: (u32, u32)) -> bool {
        pixel_distance(self.cursor_start.0, cursor.0) >= DRAG_THRESHOLD || pixel_distance(
            self.cursor_start.1,
            cursor.1,
        ) >= DRAG_THRESHOLD
    }

    /// The drag after the cursor has moved to `cursor`: once past the
    /// threshold, it stays so.
    pub open spec fn moved_to(self, cursor: (u32, u32)) -> Drag {
        Drag {
            cursor_end: cursor,
            past_threshold: self.past_threshold || self.far_from_start(cursor),
            ..self
        }
    }

    /// Returns a drag that starts at `cursor`, not yet past the threshold.
    pub fn begin(button: MouseButton, kind: DragKind, cursor: (u32, u32)) -> (drag: Drag)
        ensures
            drag == (Drag {
                button,
                cursor_start: cursor,
                cursor_end: cursor,
                past_threshold: false,
                kind,
            }),
    {
        Drag { button, cursor_start: cursor, cursor_end: cursor, past_threshold: false, kind }
    }

    /// Records where the cursor is now, and whether the drag has passed the
    /// threshold.
    pub fn update_cursor_end(&mut self, cursor: (u32, u32))
        ensures
            *final(self) == old(self).moved_to(cursor),
    {
        let (x, y) = cursor;
        self.cursor_end = (x, y);
        let dx: u32 = if self.cursor_start.0 >= x {
            self.cursor_start.0 - x
        } else {
            x - self.cursor_start.0
        };
        let dy: u32 = if self.cursor_start.1 >= y {
            self.cursor_start.1 - y
        } else {
            y - self.cursor_start.1
        };
        if dx >= DRAG_THRESHOLD || dy >= DRAG_THRESHOLD {
            self.past_threshold = true;
        }
    }
}

/// The modifier keys that are held.
#[derive(Debug, Copy, Clone, PartialEq, Eq, Structural)]
pub struct Modifiers {
    /// Shift.
    pub shift: bool,
    /// Control.
    pub ctrl: bool,
    /// Alt.
    pub alt: bool,
    /// The logo key.
    pub logo: bool,
}

impl Modifiers {
    /// No modifier key held.
    pub open spec fn spec_none() -> Modifiers {
        Modifiers { shift: false, ctrl: false, alt: false, logo: false }
    }

    /// Returns the state with no modifier key held.
    pub fn none() -> (modifiers: Modifiers)
        ensures
            modifiers == Modifiers::spec_none(),
    {
        Modifiers { shift: false, ctrl: false, alt: false, logo: false }
    }

    /// Whether control is held and no other modifier key.
    pub open spec fn spec_only_ctrl(self) -> bool {
        self.ctrl && !self.shift && !self.alt && !self.logo
    }

    /// Returns whether control is held and no other modifier key.
    #[verifier::when_used_as_spec(spec_only_ctrl)]
    pub fn only_ctrl(self) -> (only: bool)
        ensures
            only == self.spec_only_ctrl(),
    {
        self.ctrl && !self.shift && !self.alt && !self.logo
    }
}

impl Default for Modifiers {
    fn default() -> (modifiers: Modifiers)
        ensures
            modifiers == Modifiers::spec_none(),
    {
        Modifiers::none()
    }
}

/// The scancodes of the keys that move the camera.
#[derive(Debug, Copy, Clone, PartialEq, Eq, Structural)]
pub struct KeyLayout {
    /// Pans up.
    pub w: u32,
    /// Pans left.
    pub a: u32,
    /// Pans down.
    pub s: u32,
    /// Pans right.
    pub d: u32,
    /// Zooms in.
    pub q: u32,
    /// Zooms out.
    pub e: u32,
    /// Zooms out as well.
    pub z: u32,
}

impl KeyLayout {
    /// Returns the scancodes of a PC keyboard.
    pub fn standard() -> (layout: KeyLayout)
        ensures
            layout == (KeyLayout { w: 17, a: 30, s: 31, d: 32, q: 16, e: 18, z: 44 }),
    {
        KeyLayout { w: 17, a: 30, s: 31, d: 32, q: 16, e: 18, z: 44 }
    }

    /// Returns the scancodes of a Mac keyboard.
    pub fn macos() -> (layout: KeyLayout)
        ensures
            layout == (KeyLayout { w: 13, a: 0, s: 1, d: 2, q: 12, e: 14, z: 6 }),
    {
        KeyLayout { w: 13, a: 0, s: 1, d: 2, q: 12, e: 14, z: 6 }
    }
}

/// The keys that are held, as sets.
pub struct KeysView {
    /// The scancodes of the keys that are held.
    pub scancodes: Set<u32>,
    /// The virtual keycodes of the keys that are held.
    pub virtual_keycodes: Set<u32>,
}

impl KeysView {
    /// The sets after the key with the given codes went down or up. A key
    /// without a virtual keycode changes the scancodes only.
    pub open spec fn updated(self, scancode: u32, virtual_keycode: Option<u32>, pressed: bool) -> KeysView {
        if pressed {
            KeysView {
                scancodes: self.scancodes.insert(scancode),
                virtual_keycodes: match virtual_keycode {
                    Some(code) => self.virtual_keycodes.insert(code),
                    None => self.virtual_keycodes,
                },
            }
        } else {
            KeysView {
                scancodes: self.scancodes.remove(scancode),
                virtual_keycodes: match virtual_keycode {
                    Some(code) => self.virtual_keycodes.remove(code),
                    None => self.virtual_keycodes,
                },
            }
        }
    }
}

/// Set of keys that are held.
#[derive(Debug)]
pub struct KeysPressed {
    /// Set of scancodes for keys that are held.
    scancodes: HashSet<u32>,
    /// Set of virtual keycodes for keys that are held.
    virtual_keycodes: HashSet<u32>,
}

impl View for KeysPressed {
    type V = KeysView;

    closed spec fn view(&self) -> KeysView {
        KeysView { scancodes: self.scancodes@, virtual_keycodes: self.virtual_keycodes@ }
    }
}

impl Default for KeysPressed {
    fn default() -> (keys: KeysPressed)
        ensures
            keys@ == (KeysView { scancodes: Set::empty(), virtual_keycodes: Set::empty() }),
    {
        KeysPressed::new()
    }
}

impl KeysPressed {
    /// Returns the state with no key held.
    pub fn new() -> (keys: KeysPressed)
        ensures
            keys@ == (KeysView { scancodes: Set::empty(), virtual_keycodes: Set::empty() }),
    {
        KeysPressed { scancodes: HashSet::new(), virtual_keycodes: HashSet::new() }
    }

    /// Updates internal key state for a key that went down or up.
    pub fn update(&mut self, scancode: u32, virtual_keycode: Option<u32>, pressed: bool)
        ensures
            final(self)@ == old(self)@.updated(scancode, virtual_keycode, pressed),
    {
        if pressed {
            self.scancodes.insert(scancode);
            if let Some(code) = virtual_keycode {
                self.virtual_keycodes.insert(code);
            }
        } else {
            self.scancodes.remove(&scancode);
            if let Some(code) = virtual_keycode {
                self.virtual_keycodes.remove(&code);
            }
        }
    }

    /// Returns whether the key with the given scancode is held.
    pub fn index(&self, scancode: u32) -> (held: bool)
        ensures
            held == self@.scancodes.contains(scancode),
    {
        self.scancodes.contains(&scancode)
    }

    /// Returns whether the key with the given virtual keycode is held.
    pub fn index_virtual(&self, virtual_keycode: u32) -> (held: bool)
        ensures
            held == self@.virtual_keycodes.contains(virtual_keycode),
    {
        self.virtual_keycodes.contains(&virtual_keycode)
    }
}

} // verus!
