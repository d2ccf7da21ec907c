//! The model of the physical input sources: named keys and mouse buttons,
//! their stable numeric identities, and the mouse event flag set.

pub mod keyboard;
pub mod mouse;

pub use keyboard::Key;
pub use mouse::Mouse;
pub use mouse::VirtualMouse;

use vstd::prelude::*;

verus! {

/// The class of a synthetic input event, with its stable numeric identity.
#[derive(Clone, Copy, Debug, PartialEq, Eq, Structural)]
pub enum InputType {
    Mouse,
    Keyboard,
    Hardware,
}

impl InputType {
    /// The numeric identity of the input class.
    pub open spec fn spec_value(self) -> u32 {
        match self {
            InputType::Mouse => 0,
            InputType::Keyboard => 1,
            InputType::Hardware => 2,
        }
    }

    /// Returns the numeric identity of the input class.
    pub fn value(self) -> (r: u32)
        ensures
            r == self.spec_value(),
    {
        match self {
            InputType::Mouse => 0,
            InputType::Keyboard => 1,
            InputType::Hardware => 2,
        }
    }
}

} // verus!
