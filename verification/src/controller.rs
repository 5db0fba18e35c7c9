//! Button-state snapshots from the host, with edge detection.
//!
//! `current` and `old` are bitmasks of the buttons held this frame and the
//! frame before; a button was "just pressed" when it is in
//! `current & !old`.
use vstd::prelude::*;

verus! {

pub const BTN_LEFT: u32 = 1u32 << 0u32;
pub const BTN_RIGHT: u32 = 1u32 << 1u32;
pub const BTN_UP: u32 = 1u32 << 2u32;
pub const BTN_DOWN: u32 = 1u32 << 3u32;
pub const BTN_START: u32 = 1u32 << 4u32;
pub const BTN_A: u32 = 1u32 << 5u32;
pub const BTN_B: u32 = 1u32 << 6u32;
pub const BTN_C: u32 = 1u32 << 7u32;

/// The input snapshot for one frame.
#[derive(Copy, Clone, Debug, PartialEq, Eq, Structural)]
pub struct Buttons {
    pub current: u32,
    pub old: u32,
}

impl Buttons {
    pub fn new() -> (r: Buttons)
        ensures
            r.current == 0u32,
            r.old == 0u32,
    {
        Buttons { current: 0, old: 0 }
    }

    /// True when any button of `pressed` is held this frame.
    pub fn has(self, pressed: u32) -> (r: bool)
        ensures
            r == (self.current & pressed != 0u32),
    {
        self.current & pressed != 0
    }

    /// True when any button of `pressed` was just pressed this frame.
    pub fn has_edge(self, pressed: u32) -> (r: bool)
        ensures
            r == ((self.current & !self.old) & pressed != 0u32),
    {
        (self.current & !self.old) & pressed != 0
    }

    pub fn left(self) -> (r: bool)
        ensures
            r == (self.current & BTN_LEFT != 0u32),
    {
        self.has(BTN_LEFT)
    }

    pub fn right(self) -> (r: bool)
        ensures
            r == (self.current & BTN_RIGHT != 0u32),
    {
        self.has(BTN_RIGHT)
    }

    pub fn up(self) -> (r: bool)
        ensures
            r == (self.current & BTN_UP != 0u32),
    {
        self.has(BTN_UP)
    }

    pub fn down(self) -> (r: bool)
        ensures
            r == (self.current & BTN_DOWN != 0u32),
    {
        self.has(BTN_DOWN)
    }

    pub fn start(self) -> (r: bool)
        ensures
            r == (self.current & BTN_START != 0u32),
    {
        self.has(BTN_START)
    }

    pub fn a(self) -> (r: bool)
        ensures
            r == (self.current & BTN_A != 0u32),
    {
        self.has(BTN_A)
    }

    pub fn b(self) -> (r: bool)
        ensures
            r == (self.current & BTN_B != 0u32),
    {
        self.has(BTN_B)
    }

    pub fn c(self) -> (r: bool)
        ensures
            r == (self.current & BTN_C != 0u32),
    {
        self.has(BTN_C)
    }

    pub fn a_edge(self) -> (r: bool)
        ensures
            r == ((self.current & !self.old) & BTN_A != 0u32),
    {
        self.has_edge(BTN_A)
    }

    pub fn b_edge(self) -> (r: bool)
        ensures
            r == ((self.current & !self.old) & BTN_B != 0u32),
    {
        self.has_edge(BTN_B)
    }

    pub fn c_edge(self) -> (r: bool)
        ensures
            r == ((self.current & !self.old) & BTN_C != 0u32),
    {
        self.has_edge(BTN_C)
    }
}

} // verus!
