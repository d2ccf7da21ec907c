//! The mouse event flag set and the click-storm state machine: the mode that
//! fires left clicks at the cursor position for as long as it is unpaused.

use vstd::prelude::*;

use crate::eventgrid::Signal;

verus! {

/// A mouse event flag, with its numeric identity in the flag word.
#[derive(Clone, Copy, Debug, PartialEq, Eq, Structural)]
pub enum Mouse {
    Move,
    LeftDown,
    LeftUp,
    RightDown,
    RightUp,
    MiddleDown,
    MiddleUp,
    XDown,
    XUp,
    Wheel,
    HWheel,
    MoveNoCoalesce,
    VirtualDesk,
    Absolute,
}

impl Mouse {
    /// The bit the flag occupies in the flag word.
    pub open spec fn spec_value(self) -> u32 {
        match self {
            Mouse::Move => 0x0001,
            Mouse::LeftDown => 0x0002,
            Mouse::LeftUp => 0x0004,
            Mouse::RightDown => 0x0008,
            Mouse::RightUp => 0x0010,
            Mouse::MiddleDown => 0x0020,
            Mouse::MiddleUp => 0x0040,
            Mouse::XDown => 0x0080,
            Mouse::XUp => 0x0100,
            Mouse::Wheel => 0x0800,
            Mouse::HWheel => 0x1000,
            Mouse::MoveNoCoalesce => 0x2000,
            Mouse::VirtualDesk => 0x4000,
            Mouse::Absolute => 0x8000,
        }
    }

    /// Returns the flag's bit in the flag word.
    pub fn value(self) -> (r: u32)
        ensures
            r == self.spec_value(),
    {
        match self {
            Mouse::Move => 0x0001,
            Mouse::LeftDown => 0x0002,
            Mouse::LeftUp => 0x0004,
            Mouse::RightDown => 0x0008,
            Mouse::RightUp => 0x0010,
            Mouse::MiddleDown => 0x0020,
            Mouse::MiddleUp => 0x0040,
            Mouse::XDown => 0x0080,
            Mouse::XUp => 0x0100,
            Mouse::Wheel => 0x0800,
            Mouse::HWheel => 0x1000,
            Mouse::MoveNoCoalesce => 0x2000,
            Mouse::VirtualDesk => 0x4000,
            Mouse::Absolute => 0x8000,
        }
    }

    /// The flag word of a sequence of flags, combined left to right.
    pub open spec fn spec_of(events: Seq<Mouse>) -> u32
        decreases events.len(),
    {
        if events.len() == 0 {
            0
        } else {
            Mouse::spec_of(events.drop_last()) | events.last().spec_value()
        }
    }

    /// Combines a set of flags into one flag word.
    pub fn of(events: &[Mouse]) -> (r: u32)
        ensures
            r == Mouse::spec_of(events@),
    {
        let mut acc: u32 = 0;
        let mut i: usize = 0;
        while i < events.len()
            invariant
                i <= events@.len(),
                acc == Mouse::spec_of(events@.take(i as int)),
            decreases events@.len() - i,
        {
            acc = acc | events[i].value();
            proof {
                assert(events@.take(i + 1 as int).drop_last() =~= events@.take(i as int));
                assert(events@.take(i + 1 as int).last() == events@[i as int]);
            }
            i = i + 1;
        }
        proof {
            assert(events@.take(events@.len() as int) =~= events@);
        }
        acc
    }
}

/// The click-storm mode as a state machine: it starts running and paused,
/// every `Pause` signal toggles fire mode, and a `Shutdown` signal or a lost
/// signal source stops it. While running and in fire mode, its worker clicks
/// the left button at the cursor position.
pub struct VirtualMouse {
    running: bool,
    fire: bool,
}

impl VirtualMouse {
    /// Whether the control loop should go on consuming signals.
    pub closed spec fn spec_running(&self) -> bool {
        self.running
    }

    /// Whether the worker should fire clicks at the cursor position.
    pub closed spec fn spec_firing(&self) -> bool {
        self.fire
    }

    /// Sets up the state machine: running, with fire mode off.
    pub fn new() -> (r: VirtualMouse)
        ensures
            r.spec_running(),
            !r.spec_firing(),
    {
        VirtualMouse { running: true, fire: false }
    }

    /// Whether the control loop should go on consuming signals.
    pub fn is_running(&self) -> (r: bool)
        ensures
            r == self.spec_running(),
    {
        self.running
    }

    /// Whether the worker should fire clicks at the cursor position.
    pub fn is_firing(&self) -> (r: bool)
        ensures
            r == self.spec_firing(),
    {
        self.fire
    }

    /// Consumes one signal, or the loss of the signal source (`None`):
    /// `Pause` toggles fire mode, `Shutdown` and a lost source stop the
    /// machine, and captured input is ignored.
    pub fn on_signal(&mut self, signal: Option<Signal>)
        ensures
            final(self).spec_running() == match signal {
                None | Some(Signal::Shutdown) => false,
                _ => old(self).spec_running(),
            },
            final(self).spec_firing() == if signal == Some(Signal::Pause) {
                !old(self).spec_firing()
            } else {
                old(self).spec_firing()
            },
    {
        match signal {
            None | Some(Signal::Shutdown) => {
                self.running = false;
            },
            Some(Signal::Pause) => {
                self.fire = !self.fire;
            },
            Some(Signal::Input(_)) => {},
        }
    }
}

} // verus!
