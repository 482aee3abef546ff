use crate::particle::Kind;
use crate::sandbox::UserEvent;
use vstd::prelude::*;

verus! {

/// The brush size a session starts with.
pub const INITIAL_BRUSH_SIZE: u32 = 25;

/// What the pointer and keyboard have chosen: the kind to paint, the pointer's
/// cell, whether the button is held, and the brush size.
#[derive(Clone, Copy, PartialEq, Eq, Debug)]
pub struct GuiState {
    pub kind: Kind,
    pub x: i32,
    pub y: i32,
    pub down: bool,
    pub size: u32,
}

/// The kind that `key` selects, if any: `1` sand, `2` plant, `3` fire, `e`
/// nothing (an eraser).
pub open spec fn key_kind(key: char) -> Option<Kind> {
    if key == '1' {
        Some(Kind::Sand)
    } else if key == '2' {
        Some(Kind::Plant)
    } else if key == '3' {
        Some(Kind::Fire)
    } else if key == 'e' {
        Some(Kind::Empty)
    } else {
        None
    }
}

impl GuiState {
    /// Sand, at the origin, button up, with the initial brush size.
    pub fn new() -> (r: GuiState)
        ensures
            r.kind == Kind::Sand,
            r.x == 0,
            r.y == 0,
            !r.down,
            r.size == INITIAL_BRUSH_SIZE,
    {
        GuiState { kind: Kind::Sand, x: 0, y: 0, down: false, size: INITIAL_BRUSH_SIZE }
    }

    /// A key press: a kind key selects its kind (see `key_kind`); `+` grows the
    /// brush while it is below `max_size`; `-` shrinks it while it is above 1.
    /// Other keys change nothing.
    pub fn press_key(&mut self, key: char, max_size: u32)
        ensures
            key_kind(key) is Some ==> *final(self) == (GuiState { kind: key_kind(key)->0, ..*old(self) }),
            key == '+' ==> *final(self) == (GuiState {
                size: if old(self).size < max_size {
                    (old(self).size + 1) as u32
                } else {
                    old(self).size
                },
                ..*old(self)
            }),
            key == '-' ==> *final(self) == (GuiState {
                size: if old(self).size > 1 {
                    (old(self).size - 1) as u32
                } else {
                    old(self).size
                },
                ..*old(self)
            }),
            key_kind(key) is None && key != '+' && key != '-' ==> *final(self) == *old(self),
    {
        if key == '1' {
            self.kind = Kind::Sand;
        } else if key == '2' {
            self.kind = Kind::Plant;
        } else if key == '3' {
            self.kind = Kind::Fire;
        } else if key == 'e' {
            self.kind = Kind::Empty;
        } else if key == '+' {
            if self.size < max_size {
                self.size = self.size + 1;
            }
        } else if key == '-' {
            if self.size > 1 {
                self.size = self.size - 1;
            }
        }
    }

    /// The pointer moved to cell `(x, y)`.
    pub fn move_pointer(&mut self, x: i32, y: i32)
        ensures
            *final(self) == (GuiState { x, y, ..*old(self) }),
    {
        self.x = x;
        self.y = y;
    }

    /// The button was pressed (`true`) or released (`false`).
    pub fn set_down(&mut self, down: bool)
        ensures
            *final(self) == (GuiState { down, ..*old(self) }),
    {
        self.down = down;
    }

    /// The brush event for this tick: painting at the pointer with the chosen
    /// kind and size, when the button is held over the `width` by `height`
    /// grid; none otherwise.
    pub fn user_event(&self, width: i32, height: i32) -> (r: Option<UserEvent>)
        ensures
            r == if self.down && 0 <= self.x < width && 0 <= self.y < height {
                Some(UserEvent { x: self.x, y: self.y, kind: self.kind, size: self.size })
            } else {
                None
            },
    {
        if self.down && self.x >= 0 && self.x < width && self.y >= 0 && self.y < height {
            Some(UserEvent { x: self.x, y: self.y, kind: self.kind, size: self.size })
        } else {
            None
        }
    }
}

} // verus!
