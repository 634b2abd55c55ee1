//! The animated menu library's interface: screen size, inputs, and the
//! handle that records whether the library was initialized.

use vstd::prelude::*;

verus! {

/// Screen width in pixels.
pub const SCREEN_WIDTH: usize = 128;

/// Screen height in pixels.
pub const SCREEN_HEIGHT: usize = 64;

/// Input types of the menu library.
#[derive(Clone, Copy, Debug, PartialEq, Eq, Structural)]
pub enum WououiInput {
    NoInput,
    Up,
    Down,
    Left,
    Right,
    Click,
    Return,
}

/// The input code the menu library expects.
pub open spec fn wououi_input_code(i: WououiInput) -> u8 {
    match i {
        WououiInput::NoInput => 0,
        WououiInput::Up => 1,
        WououiInput::Down => 2,
        WououiInput::Left => 3,
        WououiInput::Right => 4,
        WououiInput::Click => 5,
        WououiInput::Return => 6,
    }
}

impl WououiInput {
    /// The input code the menu library expects.
    pub fn to_u8(&self) -> (r: u8)
        ensures
            r == wououi_input_code(*self),
    {
        match self {
            WououiInput::NoInput => 0,
            WououiInput::Up => 1,
            WououiInput::Down => 2,
            WououiInput::Left => 3,
            WououiInput::Right => 4,
            WououiInput::Click => 5,
            WououiInput::Return => 6,
        }
    }
}

/// Handle of the menu library; the library itself is initialized once.
pub struct WouoUI {
    initialized: bool,
}

impl WouoUI {
    /// Whether the library was initialized.
    pub closed spec fn spec_initialized(self) -> bool {
        self.initialized
    }

    /// A handle of a library not yet initialized.
    pub fn new() -> (r: Self)
        ensures
            !r.spec_initialized(),
    {
        Self { initialized: false }
    }

    /// Whether the library was initialized.
    pub fn is_initialized(&self) -> (r: bool)
        ensures
            r == self.spec_initialized(),
    {
        self.initialized
    }

    /// Record that the library was initialized.
    pub fn mark_initialized(&mut self)
        ensures
            final(self).spec_initialized(),
    {
        self.initialized = true;
    }
}

/// The codes sent to the menu library are those of its port header:
/// no input 0, up 1, down 2, left 3, right 4, click 5, return 6.
pub proof fn lemma_input_codes_match_port()
    ensures
        wououi_input_code(WououiInput::NoInput) == 0,
        wououi_input_code(WououiInput::Up) == 1,
        wououi_input_code(WououiInput::Down) == 2,
        wououi_input_code(WououiInput::Left) == 3,
        wououi_input_code(WououiInput::Right) == 4,
        wououi_input_code(WououiInput::Click) == 5,
        wououi_input_code(WououiInput::Return) == 6,
{
}

} // verus!
