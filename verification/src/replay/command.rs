//! The command model: a repeat count, one recorded action, and a whole
//! script — an ordered command list with an outer repeat count.

use vstd::prelude::*;

use crate::hardware::Key;

verus! {

/// A repeat count: a finite bound, or unbounded repetition.
#[derive(Clone, Copy, Debug, PartialEq, Eq, Structural)]
pub enum Loops {
    Infinite,
    Amount(usize),
}

/// The index the repeat sequence of `l` yields at position `k`:
/// `Amount(n)` yields exactly the indices below `n`, in order;
/// `Infinite` yields an index at every position, increasing until it
/// saturates at the machine's word width.
pub open spec fn spec_yields_at(l: Loops, k: int) -> Option<usize> {
    if k < 0 {
        None
    } else {
        match l {
            Loops::Amount(n) => if k < n {
                Some(k as usize)
            } else {
                None
            },
            Loops::Infinite => if k < usize::MAX {
                Some(k as usize)
            } else {
                Some(usize::MAX)
            },
        }
    }
}

impl Loops {
    /// Starts the repeat sequence over: an iterator at position zero.
    pub fn iter(&self) -> (r: LoopsIter)
        ensures
            r.spec_loops() == *self,
            r.spec_position() == 0,
    {
        LoopsIter { loops: *self, position: 0 }
    }
}

impl Default for Loops {
    /// A command repeats once when no count is given.
    fn default() -> (r: Loops)
        ensures
            r == Loops::Amount(1usize),
    {
        Loops::Amount(1)
    }
}

/// The lazily produced index sequence of a repeat count.
pub struct LoopsIter {
    loops: Loops,
    position: usize,
}

impl LoopsIter {
    /// The repeat count the sequence was started from.
    pub closed spec fn spec_loops(&self) -> Loops {
        self.loops
    }

    /// How many indices were yielded so far.
    pub closed spec fn spec_position(&self) -> usize {
        self.position
    }

    /// Yields the next index of the repeat sequence, or `None` when a finite
    /// count is exhausted.
    pub fn next(&mut self) -> (r: Option<usize>)
        ensures
            final(self).spec_loops() == old(self).spec_loops(),
            r == spec_yields_at(old(self).spec_loops(), old(self).spec_position() as int),
            final(self).spec_position() as int == if r is Some && old(self).spec_position()
                < usize::MAX {
                old(self).spec_position() + 1
            } else {
                old(self).spec_position() as int
            },
    {
        match self.loops {
            Loops::Amount(n) => {
                if self.position < n {
                    let i = self.position;
                    self.position = self.position + 1;
                    Some(i)
                } else {
                    None
                }
            },
            Loops::Infinite => {
                let i = self.position;
                if self.position < usize::MAX {
                    self.position = self.position + 1;
                }
                Some(i)
            },
        }
    }
}

/// A finite count yields precisely the indices below its bound — the index at
/// every position inside the bound is the position itself, and nothing is
/// yielded at or past the bound. An unbounded count yields an index at every
/// position.
pub proof fn lemma_loops_yields(n: usize, k: int)
    ensures
        0 <= k < n ==> spec_yields_at(Loops::Amount(n), k) == Some(k as usize),
        !(0 <= k < n) ==> spec_yields_at(Loops::Amount(n), k) is None,
        k >= 0 ==> spec_yields_at(Loops::Infinite, k) is Some,
{
}

/// One recorded, replayable action with its own repeat count: a mouse click
/// at a position, a key stroke, or a timed sleep.
#[derive(Clone, Copy, Debug, PartialEq, Eq, Structural)]
pub enum Command {
    MouseCommand { key: Key, loops: Loops, x: i32, y: i32 },
    KeyboardCommand { key: Key, loops: Loops },
    SleepCommand { millis: u64 },
}

impl Command {
    /// Key-kind matches command-kind: a mouse command carries a mouse button,
    /// a keyboard command a keyboard key; a sleep carries no key and is
    /// always valid.
    pub open spec fn spec_is_valid(&self) -> bool {
        match self {
            Command::MouseCommand { key, .. } => key.spec_is_mouse(),
            Command::KeyboardCommand { key, .. } => !key.spec_is_mouse(),
            Command::SleepCommand { .. } => true,
        }
    }

    /// Checks the key-kind/command-kind pairing.
    #[verifier::when_used_as_spec(spec_is_valid)]
    pub fn is_valid(&self) -> (r: bool)
        ensures
            r == self.spec_is_valid(),
    {
        match self {
            Command::MouseCommand { key, .. } => key.is_mouse(),
            Command::KeyboardCommand { key, .. } => !key.is_mouse(),
            Command::SleepCommand { .. } => true,
        }
    }

    /// The command's own repeat count; a sleep runs once.
    pub open spec fn spec_loops(&self) -> Loops {
        match self {
            Command::MouseCommand { loops, .. } => *loops,
            Command::KeyboardCommand { loops, .. } => *loops,
            Command::SleepCommand { .. } => Loops::Amount(1),
        }
    }

    /// Returns the command's own repeat count; a sleep runs once.
    pub fn loops_of(&self) -> (r: Loops)
        ensures
            r == self.spec_loops(),
    {
        match self {
            Command::MouseCommand { loops, .. } => *loops,
            Command::KeyboardCommand { loops, .. } => *loops,
            Command::SleepCommand { .. } => Loops::Amount(1),
        }
    }

    /// Starts the command's repeat sequence.
    pub fn iter(&self) -> (r: LoopsIter)
        ensures
            r.spec_loops() == self.spec_loops(),
            r.spec_position() == 0,
    {
        match self {
            Command::MouseCommand { loops, .. } => loops.iter(),
            Command::KeyboardCommand { loops, .. } => loops.iter(),
            Command::SleepCommand { .. } => Loops::default().iter(),
        }
    }
}

/// A command is valid exactly when its key fits its kind: a mouse command
/// holds a mouse button, a keyboard command holds a keyboard key, and a sleep
/// carries no key and is valid whatever its fields hold.
pub proof fn lemma_is_valid_characterization(key: Key, loops: Loops, x: i32, y: i32, millis: u64)
    ensures
        (Command::MouseCommand { key, loops, x, y }).spec_is_valid() == key.spec_is_mouse(),
        (Command::KeyboardCommand { key, loops }).spec_is_valid() == !key.spec_is_mouse(),
        (Command::SleepCommand { millis }).spec_is_valid(),
{
}

/// The mathematical shape of a script: its outer repeat count and its
/// ordered command sequence.
pub ghost struct ScriptView {
    pub loops: Loops,
    pub commands: Seq<Command>,
}

/// Every command of the sequence passes the key-kind check.
pub open spec fn spec_all_valid(commands: Seq<Command>) -> bool {
    forall|i: int| 0 <= i < commands.len() ==> commands[i].spec_is_valid()
}

/// A whole script: an ordered command list, and an outer repeat count for
/// the list as a whole.
pub struct Commands {
    loops: Loops,
    commands: Vec<Command>,
}

impl View for Commands {
    type V = ScriptView;

    closed spec fn view(&self) -> ScriptView {
        ScriptView { loops: self.loops, commands: self.commands@ }
    }
}

impl Commands {
    /// Builds a script from its parts.
    pub fn new(loops: Loops, commands: Vec<Command>) -> (r: Commands)
        ensures
            r@.loops == loops,
            r@.commands == commands@,
    {
        Commands { loops, commands }
    }

    /// Freezes an accumulated command buffer into a script that runs once,
    /// draining the buffer.
    pub fn from(records: &mut Vec<Command>) -> (r: Commands)
        ensures
            r@.loops == Loops::Amount(1usize),
            r@.commands == old(records)@,
            final(records)@ == Seq::<Command>::empty(),
    {
        let mut commands: Vec<Command> = Vec::new();
        let mut i: usize = 0;
        while i < records.len()
            invariant
                i <= records@.len(),
                records@ == old(records)@,
                commands@ == old(records)@.take(i as int),
            decreases records@.len() - i,
        {
            commands.push(records[i]);
            i = i + 1;
        }
        proof {
            assert(old(records)@.take(records@.len() as int) =~= old(records)@);
        }
        records.clear();
        proof {
            assert(records@ =~= Seq::<Command>::empty());
        }
        Commands { loops: Loops::Amount(1), commands }
    }

    /// The outer repeat count of the script.
    pub fn loops(&self) -> (r: Loops)
        ensures
            r == self@.loops,
    {
        self.loops
    }

    /// Starts the outer repeat sequence of the script.
    pub fn iter_loop(&self) -> (r: LoopsIter)
        ensures
            r.spec_loops() == self@.loops,
            r.spec_position() == 0,
    {
        self.loops.iter()
    }

    /// The ordered command list.
    pub fn iter_commands(&self) -> (r: &Vec<Command>)
        ensures
            r@ == self@.commands,
    {
        &self.commands
    }

    /// Returns the position of the first command that fails the key-kind
    /// check, or `None` when the whole script is valid.
    pub fn first_invalid(&self) -> (r: Option<usize>)
        ensures
            r matches Some(i) ==> 0 <= i < self@.commands.len()
                && !self@.commands[i as int].spec_is_valid()
                && forall|j: int| 0 <= j < i ==> self@.commands[j].spec_is_valid(),
            r is None <==> spec_all_valid(self@.commands),
    {
        let mut i: usize = 0;
        while i < self.commands.len()
            invariant
                i <= self.commands@.len(),
                forall|j: int| 0 <= j < i ==> self.commands@[j].spec_is_valid(),
            decreases self.commands@.len() - i,
        {
            if !self.commands[i].is_valid() {
                return Some(i);
            }
            i = i + 1;
        }
        None
    }
}

impl PartialEq for Commands {
    /// Two scripts are equal when their outer counts and their command lists
    /// are.
    fn eq(&self, other: &Commands) -> (r: bool) {
        if !(self.loops == other.loops) {
            return false;
        }
        if self.commands.len() != other.commands.len() {
            return false;
        }
        let mut i: usize = 0;
        while i < self.commands.len()
            invariant
                i <= self.commands@.len(),
                self.commands@.len() == other.commands@.len(),
                self@.loops == other@.loops,
                forall|j: int| 0 <= j < i ==> self.commands@[j] == other.commands@[j],
            decreases self.commands@.len() - i,
        {
            if !(self.commands[i] == other.commands[i]) {
                return false;
            }
            i = i + 1;
        }
        proof {
            assert(self.commands@ =~= other.commands@);
        }
        true
    }
}

impl vstd::std_specs::cmp::PartialEqSpecImpl for Commands {
    open spec fn obeys_eq_spec() -> bool {
        true
    }

    open spec fn eq_spec(&self, other: &Commands) -> bool {
        self@ == other@
    }
}

} // verus!
