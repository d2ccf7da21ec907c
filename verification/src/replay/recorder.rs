//! The recorder: a two-state machine (idle, recording) that consumes
//! signals in publish order, appends captured input to a command buffer
//! while recording, and freezes the buffer into a script on shutdown.

use vstd::prelude::*;

use crate::eventgrid::Signal;
use crate::hardware::Key;
use crate::replay::command::Command;
use crate::replay::command::Commands;
use crate::replay::command::Loops;

verus! {

/// The command a captured key press turns into: a mouse button becomes a
/// mouse command at the cursor position of the moment of capture, every
/// other key a keyboard command; both repeat once.
pub open spec fn spec_command_of(key: Key, x: i32, y: i32) -> Command {
    if key.spec_is_mouse() {
        Command::MouseCommand { key, loops: Loops::Amount(1), x, y }
    } else {
        Command::KeyboardCommand { key, loops: Loops::Amount(1) }
    }
}

/// The recording state machine. It starts idle; every `Pause` signal toggles
/// between idle and recording; captured input is appended while recording
/// and discarded while idle; `Shutdown` ends consumption, after which the
/// buffer is flushed into a script.
pub struct Recorder {
    recording: bool,
    records: Vec<Command>,
}

impl Recorder {
    /// Whether the machine is recording rather than idle.
    pub closed spec fn spec_recording(&self) -> bool {
        self.recording
    }

    /// The ordered buffer of commands captured so far.
    pub closed spec fn spec_records(&self) -> Seq<Command> {
        self.records@
    }

    /// Sets up a recorder: idle, with an empty buffer.
    pub fn new() -> (r: Recorder)
        ensures
            !r.spec_recording(),
            r.spec_records() == Seq::<Command>::empty(),
    {
        let records: Vec<Command> = Vec::new();
        proof {
            assert(records@ =~= Seq::<Command>::empty());
        }
        Recorder { recording: false, records }
    }

    /// Whether the machine is recording rather than idle.
    pub fn is_recording(&self) -> (r: bool)
        ensures
            r == self.spec_recording(),
    {
        self.recording
    }

    /// The ordered buffer of commands captured so far.
    pub fn records(&self) -> (r: &Vec<Command>)
        ensures
            r@ == self.spec_records(),
    {
        &self.records
    }

    /// Appends the command a captured key stands for: a mouse button with
    /// the cursor position sampled at the moment of capture, or a keyboard
    /// key on its own.
    pub fn record(&mut self, key: Key, x: i32, y: i32)
        ensures
            final(self).spec_recording() == old(self).spec_recording(),
            final(self).spec_records() == old(self).spec_records().push(
                spec_command_of(key, x, y),
            ),
    {
        if key.is_mouse() {
            self.records.push(Command::MouseCommand { key, loops: Loops::Amount(1), x, y });
        } else {
            self.records.push(Command::KeyboardCommand { key, loops: Loops::Amount(1) });
        }
    }

    /// Consumes one signal: input is recorded while recording and discarded
    /// while idle, `Pause` toggles the state, and `Shutdown` asks the caller
    /// to stop consuming and flush. For a mouse capture, `x` and `y` carry
    /// the cursor position sampled at the moment of capture.
    pub fn on_signal(&mut self, signal: Signal, x: i32, y: i32) -> (stop: bool)
        ensures
            stop == (signal == Signal::Shutdown),
            final(self).spec_recording() == if signal == Signal::Pause {
                !old(self).spec_recording()
            } else {
                old(self).spec_recording()
            },
            final(self).spec_records() == match signal {
                Signal::Input(key) => if old(self).spec_recording() {
                    old(self).spec_records().push(spec_command_of(key, x, y))
                } else {
                    old(self).spec_records()
                },
                _ => old(self).spec_records(),
            },
    {
        match signal {
            Signal::Input(key) => {
                if self.recording {
                    self.record(key, x, y);
                }
                false
            },
            Signal::Pause => {
                self.recording = !self.recording;
                false
            },
            Signal::Shutdown => true,
        }
    }

    /// Freezes the buffer into a script that runs the captured commands
    /// once, emptying the buffer. The caller persists the script in a single
    /// write.
    pub fn flush(&mut self) -> (r: Commands)
        ensures
            r@.loops == Loops::Amount(1usize),
            r@.commands == old(self).spec_records(),
            final(self).spec_records() == Seq::<Command>::empty(),
            final(self).spec_recording() == old(self).spec_recording(),
    {
        Commands::from(&mut self.records)
    }
}

} // verus!
