//! The fixed set of named physical input sources: mouse buttons, letter keys,
//! navigation keys and Escape, each with a stable numeric identity.

use vstd::prelude::*;

verus! {

/// A named physical input source. The set is partitioned into mouse buttons
/// and keyboard keys; `is_mouse` is the classification.
#[derive(Clone, Copy, Debug, PartialEq, Eq, Hash, Structural)]
pub enum Key {
    MouseLeft,
    MouseRight,
    MouseMiddle,
    MouseX1,
    MouseX2,
    KeyboardLeft,
    KeyboardUp,
    KeyboardRight,
    KeyboardDown,
    A,
    B,
    C,
    D,
    E,
    F,
    G,
    H,
    I,
    J,
    K,
    L,
    M,
    N,
    O,
    P,
    Q,
    R,
    S,
    T,
    U,
    V,
    W,
    X,
    Y,
    Z,
    Escape,
}

impl Key {
    /// The stable numeric identity of the key.
    pub open spec fn spec_code(self) -> u8 {
        match self {
            Key::MouseLeft => 0x01,
            Key::MouseRight => 0x02,
            Key::MouseMiddle => 0x04,
            Key::MouseX1 => 0x05,
            Key::MouseX2 => 0x06,
            Key::KeyboardLeft => 0x25,
            Key::KeyboardUp => 0x26,
            Key::KeyboardRight => 0x27,
            Key::KeyboardDown => 0x28,
            Key::A => 0x41,
            Key::B => 0x42,
            Key::C => 0x43,
            Key::D => 0x44,
            Key::E => 0x45,
            Key::F => 0x46,
            Key::G => 0x47,
            Key::H => 0x48,
            Key::I => 0x49,
            Key::J => 0x4A,
            Key::K => 0x4B,
            Key::L => 0x4C,
            Key::M => 0x4D,
            Key::N => 0x4E,
            Key::O => 0x4F,
            Key::P => 0x50,
            Key::Q => 0x51,
            Key::R => 0x52,
            Key::S => 0x53,
            Key::T => 0x54,
            Key::U => 0x55,
            Key::V => 0x56,
            Key::W => 0x57,
            Key::X => 0x58,
            Key::Y => 0x59,
            Key::Z => 0x5A,
            Key::Escape => 0x1B,
        }
    }

    /// The key a numeric code stands for; `None` for the codes that no key of
    /// the set occupies.
    pub open spec fn spec_of_code(n: u8) -> Option<Key> {
        if n == 0x01 {
            Some(Key::MouseLeft)
        } else if n == 0x02 {
            Some(Key::MouseRight)
        } else if n == 0x04 {
            Some(Key::MouseMiddle)
        } else if n == 0x05 {
            Some(Key::MouseX1)
        } else if n == 0x06 {
            Some(Key::MouseX2)
        } else if n == 0x25 {
            Some(Key::KeyboardLeft)
        } else if n == 0x26 {
            Some(Key::KeyboardUp)
        } else if n == 0x27 {
            Some(Key::KeyboardRight)
        } else if n == 0x28 {
            Some(Key::KeyboardDown)
        } else if n == 0x41 {
            Some(Key::A)
        } else if n == 0x42 {
            Some(Key::B)
        } else if n == 0x43 {
            Some(Key::C)
        } else if n == 0x44 {
            Some(Key::D)
        } else if n == 0x45 {
            Some(Key::E)
        } else if n == 0x46 {
            Some(Key::F)
        } else if n == 0x47 {
            Some(Key::G)
        } else if n == 0x48 {
            Some(Key::H)
        } else if n == 0x49 {
            Some(Key::I)
        } else if n == 0x4A {
            Some(Key::J)
        } else if n == 0x4B {
            Some(Key::K)
        } else if n == 0x4C {
            Some(Key::L)
        } else if n == 0x4D {
            Some(Key::M)
        } else if n == 0x4E {
            Some(Key::N)
        } else if n == 0x4F {
            Some(Key::O)
        } else if n == 0x50 {
            Some(Key::P)
        } else if n == 0x51 {
            Some(Key::Q)
        } else if n == 0x52 {
            Some(Key::R)
        } else if n == 0x53 {
            Some(Key::S)
        } else if n == 0x54 {
            Some(Key::T)
        } else if n == 0x55 {
            Some(Key::U)
        } else if n == 0x56 {
            Some(Key::V)
        } else if n == 0x57 {
            Some(Key::W)
        } else if n == 0x58 {
            Some(Key::X)
        } else if n == 0x59 {
            Some(Key::Y)
        } else if n == 0x5A {
            Some(Key::Z)
        } else if n == 0x1B {
            Some(Key::Escape)
        } else {
            None
        }
    }

    /// Returns the key's numeric identity.
    pub fn code(self) -> (r: u8)
        ensures
            r == self.spec_code(),
    {
        match self {
            Key::MouseLeft => 0x01,
            Key::MouseRight => 0x02,
            Key::MouseMiddle => 0x04,
            Key::MouseX1 => 0x05,
            Key::MouseX2 => 0x06,
            Key::KeyboardLeft => 0x25,
            Key::KeyboardUp => 0x26,
            Key::KeyboardRight => 0x27,
            Key::KeyboardDown => 0x28,
            Key::A => 0x41,
            Key::B => 0x42,
            Key::C => 0x43,
            Key::D => 0x44,
            Key::E => 0x45,
            Key::F => 0x46,
            Key::G => 0x47,
            Key::H => 0x48,
            Key::I => 0x49,
            Key::J => 0x4A,
            Key::K => 0x4B,
            Key::L => 0x4C,
            Key::M => 0x4D,
            Key::N => 0x4E,
            Key::O => 0x4F,
            Key::P => 0x50,
            Key::Q => 0x51,
            Key::R => 0x52,
            Key::S => 0x53,
            Key::T => 0x54,
            Key::U => 0x55,
            Key::V => 0x56,
            Key::W => 0x57,
            Key::X => 0x58,
            Key::Y => 0x59,
            Key::Z => 0x5A,
            Key::Escape => 0x1B,
        }
    }

    /// Returns the key a numeric code stands for, or an error for a code that
    /// no key of the set occupies.
    pub fn try_from(n: u8) -> (r: Result<Key, ()>)
        ensures
            r matches Ok(k) ==> Key::spec_of_code(n) == Some(k),
            r is Err <==> Key::spec_of_code(n) is None,
    {
        match n {
            0x01 => Ok(Key::MouseLeft),
            0x02 => Ok(Key::MouseRight),
            0x04 => Ok(Key::MouseMiddle),
            0x05 => Ok(Key::MouseX1),
            0x06 => Ok(Key::MouseX2),
            0x25 => Ok(Key::KeyboardLeft),
            0x26 => Ok(Key::KeyboardUp),
            0x27 => Ok(Key::KeyboardRight),
            0x28 => Ok(Key::KeyboardDown),
            0x41 => Ok(Key::A),
            0x42 => Ok(Key::B),
            0x43 => Ok(Key::C),
            0x44 => Ok(Key::D),
            0x45 => Ok(Key::E),
            0x46 => Ok(Key::F),
            0x47 => Ok(Key::G),
            0x48 => Ok(Key::H),
            0x49 => Ok(Key::I),
            0x4A => Ok(Key::J),
            0x4B => Ok(Key::K),
            0x4C => Ok(Key::L),
            0x4D => Ok(Key::M),
            0x4E => Ok(Key::N),
            0x4F => Ok(Key::O),
            0x50 => Ok(Key::P),
            0x51 => Ok(Key::Q),
            0x52 => Ok(Key::R),
            0x53 => Ok(Key::S),
            0x54 => Ok(Key::T),
            0x55 => Ok(Key::U),
            0x56 => Ok(Key::V),
            0x57 => Ok(Key::W),
            0x58 => Ok(Key::X),
            0x59 => Ok(Key::Y),
            0x5A => Ok(Key::Z),
            0x1B => Ok(Key::Escape),
            _ => Err(()),
        }
    }

    /// Whether the key is a mouse button; the keyboard keys are exactly the
    /// others.
    pub open spec fn spec_is_mouse(&self) -> bool {
        match self {
            Key::MouseLeft | Key::MouseRight | Key::MouseMiddle | Key::MouseX1
                | Key::MouseX2 => true,
            _ => false,
        }
    }

    /// Classifies the key: `true` for the mouse buttons, `false` for every
    /// keyboard key.
    #[verifier::when_used_as_spec(spec_is_mouse)]
    pub fn is_mouse(&self) -> (r: bool)
        ensures
            r == self.spec_is_mouse(),
    {
        match self {
            Key::MouseLeft | Key::MouseRight | Key::MouseMiddle | Key::MouseX1
                | Key::MouseX2 => true,
            _ => false,
        }
    }
}

/// A key's numeric identity is its own: decoding the code of a key gives the
/// key back.
pub proof fn lemma_code_round_trip(k: Key)
    ensures
        Key::spec_of_code(k.spec_code()) == Some(k),
{
}

} // verus!
