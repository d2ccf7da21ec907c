//! The coordination message that the event grid publishes: a captured key
//! press, a pause toggle, or a shutdown request.

use vstd::prelude::*;

use crate::hardware::Key;

verus! {

/// An edge-triggered coordination event. Two reserved hotkeys never surface
/// as `Input`: the up key stands for `Pause`, the down key for `Shutdown`.
#[derive(Clone, Copy, Debug, PartialEq, Eq, Structural)]
pub enum Signal {
    Input(Key),
    Pause,
    Shutdown,
}

impl Signal {
    /// The signal a freshly pressed key gives rise to: the reserved hotkeys
    /// map to `Pause` and `Shutdown`, every other key to `Input`.
    pub open spec fn spec_of_key(key: Key) -> Signal {
        match key {
            Key::KeyboardUp => Signal::Pause,
            Key::KeyboardDown => Signal::Shutdown,
            _ => Signal::Input(key),
        }
    }
}

impl From<Key> for Signal {
    fn from(key: Key) -> (r: Self)
        ensures
            r == Signal::spec_of_key(key),
    {
        match key {
            Key::KeyboardUp => Signal::Pause,
            Key::KeyboardDown => Signal::Shutdown,
            _ => Signal::Input(key),
        }
    }
}

impl vstd::std_specs::convert::FromSpecImpl<Key> for Signal {
    open spec fn obeys_from_spec() -> bool {
        true
    }

    open spec fn from_spec(key: Key) -> Signal {
        Signal::spec_of_key(key)
    }
}

} // verus!
