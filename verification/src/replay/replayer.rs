//! The replayer: executes a loaded script deterministically. The playback
//! cursor walks the outer repeat sequence; within each pass it walks the
//! ordered command list, and within each command its own repeat sequence.
//! The machine hands the caller one action at a time, so playback stays
//! pausable and cancellable between any two actions.

use vstd::prelude::*;

use crate::eventgrid::Signal;
use crate::hardware::Key;
use crate::replay::command::Command;
use crate::replay::command::Commands;
use crate::replay::command::Loops;
use crate::replay::command::ScriptView;

verus! {

/// One physical step of playback: a click of a mouse button at an absolute
/// position, a key stroke (press then release), or a timed sleep.
/// `Unsupported` stands for a mouse command whose key playback cannot drive
/// (only the left and right buttons are implemented): the caller logs it and
/// performs nothing.
#[derive(Clone, Copy, Debug, PartialEq, Eq, Structural)]
pub enum Action {
    ClickLeft { x: i32, y: i32 },
    ClickRight { x: i32, y: i32 },
    KeyStroke { key: Key },
    SleepMillis { millis: u64 },
    Unsupported { key: Key },
}

/// The action one repetition of a command performs.
pub open spec fn spec_action_of(c: Command) -> Action {
    match c {
        Command::MouseCommand { key, loops, x, y } => match key {
            Key::MouseLeft => Action::ClickLeft { x, y },
            Key::MouseRight => Action::ClickRight { x, y },
            _ => Action::Unsupported { key },
        },
        Command::KeyboardCommand { key, loops } => Action::KeyStroke { key },
        Command::SleepCommand { millis } => Action::SleepMillis { millis },
    }
}

/// Returns the action one repetition of a command performs.
pub fn action_of(c: &Command) -> (r: Action)
    ensures
        r == spec_action_of(*c),
{
    match c {
        Command::MouseCommand { key, loops, x, y } => match key {
            Key::MouseLeft => Action::ClickLeft { x: *x, y: *y },
            Key::MouseRight => Action::ClickRight { x: *x, y: *y },
            _ => Action::Unsupported { key: *key },
        },
        Command::KeyboardCommand { key, loops } => Action::KeyStroke { key: *key },
        Command::SleepCommand { millis } => Action::SleepMillis { millis: *millis },
    }
}

/// Whether a command contributes at least one repetition to a pass.
pub open spec fn spec_runs(c: Command) -> bool {
    match c.spec_loops() {
        Loops::Amount(n) => n > 0,
        Loops::Infinite => true,
    }
}

/// The position of the first command at or after `i` that contributes a
/// repetition, or the list length when there is none.
pub open spec fn spec_first_active(commands: Seq<Command>, i: int) -> int
    decreases commands.len() - i,
{
    if i < 0 {
        0
    } else if i >= commands.len() {
        commands.len() as int
    } else if spec_runs(commands[i]) {
        i
    } else {
        spec_first_active(commands, i + 1)
    }
}

/// What `spec_first_active` finds: the nearest contributing position, with
/// nothing contributing before it.
pub proof fn lemma_first_active(commands: Seq<Command>, i: int)
    requires
        0 <= i <= commands.len(),
    ensures
        i <= spec_first_active(commands, i) <= commands.len(),
        spec_first_active(commands, i) < commands.len() ==> spec_runs(
            commands[spec_first_active(commands, i)],
        ),
        forall|j: int| i <= j < spec_first_active(commands, i) ==> !spec_runs(commands[j]),
    decreases commands.len() - i,
{
    if i < commands.len() && !spec_runs(commands[i]) {
        lemma_first_active(commands, i + 1);
    }
}

/// The mathematical state of the playback cursor.
pub ghost struct ReplayerView {
    /// The loaded script.
    pub script: ScriptView,
    /// Playback starts paused and must be explicitly resumed.
    pub paused: bool,
    /// No further action will be handed out.
    pub finished: bool,
    /// The position of the command being replayed.
    pub cmd_index: usize,
    /// Repetitions of the current command already handed out.
    pub reps_done: usize,
    /// Completed passes over the command list.
    pub passes_done: usize,
}

impl ReplayerView {
    /// A cursor is either finished or parked on a command with repetitions
    /// left.
    pub open spec fn well_formed(self) -> bool {
        self.finished || (self.cmd_index < self.script.commands.len()
            && match self.script.commands[self.cmd_index as int].spec_loops() {
            Loops::Amount(n) => self.reps_done < n,
            Loops::Infinite => true,
        })
    }

    /// The action the cursor will hand out next, `None` once playback is
    /// complete.
    pub open spec fn spec_head(self) -> Option<Action> {
        if self.finished {
            None
        } else {
            Some(spec_action_of(self.script.commands[self.cmd_index as int]))
        }
    }

    /// Whether another pass begins after `passes` complete ones.
    pub open spec fn spec_more_passes(self, passes: usize) -> bool {
        match self.script.loops {
            Loops::Amount(m) => passes < m,
            Loops::Infinite => true,
        }
    }

    /// The cursor after handing out one action: the next repetition of the
    /// same command, or the next contributing command of the pass, or the
    /// first contributing command of a new pass, or the finished cursor when
    /// the outer repeat count is exhausted. A pass that contributes no
    /// action ends playback.
    pub open spec fn spec_advance(self) -> ReplayerView {
        let reps1: usize = if self.reps_done < usize::MAX {
            (self.reps_done + 1) as usize
        } else {
            self.reps_done
        };
        match self.script.commands[self.cmd_index as int].spec_loops() {
            Loops::Infinite => ReplayerView { reps_done: reps1, ..self },
            Loops::Amount(n) => if reps1 < n {
                ReplayerView { reps_done: reps1, ..self }
            } else {
                let j = spec_first_active(self.script.commands, self.cmd_index + 1);
                if j < self.script.commands.len() {
                    ReplayerView { cmd_index: j as usize, reps_done: 0, ..self }
                } else {
                    let passes1: usize = if self.passes_done < usize::MAX {
                        (self.passes_done + 1) as usize
                    } else {
                        self.passes_done
                    };
                    let k = spec_first_active(self.script.commands, 0);
                    if self.spec_more_passes(passes1) && k < self.script.commands.len() {
                        ReplayerView {
                            cmd_index: k as usize,
                            reps_done: 0,
                            passes_done: passes1,
                            ..self
                        }
                    } else {
                        ReplayerView { finished: true, reps_done: reps1, passes_done: passes1, ..self }
                    }
                }
            },
        }
    }

    /// The cursor a freshly loaded script starts from: parked on the first
    /// contributing command of the first pass, or already finished when the
    /// outer count is zero or no command contributes.
    pub open spec fn spec_initial(script: ScriptView) -> ReplayerView {
        let k = spec_first_active(script.commands, 0);
        let base = ReplayerView {
            script,
            paused: true,
            finished: false,
            cmd_index: 0,
            reps_done: 0,
            passes_done: 0,
        };
        if base.spec_more_passes(0) && k < script.commands.len() {
            ReplayerView { cmd_index: k as usize, ..base }
        } else {
            ReplayerView { finished: true, ..base }
        }
    }
}

/// The playback engine: holds the loaded script, the shared pause flag, and
/// the cursor. The control loop feeds it signals; the worker asks it for one
/// action at a time and performs it.
pub struct Replayer {
    commands: Commands,
    paused: bool,
    finished: bool,
    cmd_index: usize,
    reps_done: usize,
    passes_done: usize,
}

impl View for Replayer {
    type V = ReplayerView;

    closed spec fn view(&self) -> ReplayerView {
        ReplayerView {
            script: self.commands@,
            paused: self.paused,
            finished: self.finished,
            cmd_index: self.cmd_index,
            reps_done: self.reps_done,
            passes_done: self.passes_done,
        }
    }
}

impl Replayer {
    /// Loads a script: the cursor parks on the first contributing command,
    /// and playback starts paused.
    pub fn new(commands: Commands) -> (r: Replayer)
        ensures
            r@ == ReplayerView::spec_initial(commands@),
            r@.well_formed(),
    {
        let more = match commands.loops() {
            Loops::Amount(m) => m > 0,
            Loops::Infinite => true,
        };
        let len = commands.iter_commands().len();
        let k = first_active_from(commands.iter_commands(), 0);
        proof {
            lemma_first_active(commands@.commands, 0);
        }
        if more && k < len {
            Replayer {
                commands,
                paused: true,
                finished: false,
                cmd_index: k,
                reps_done: 0,
                passes_done: 0,
            }
        } else {
            Replayer {
                commands,
                paused: true,
                finished: true,
                cmd_index: 0,
                reps_done: 0,
                passes_done: 0,
            }
        }
    }

    /// Whether playback is paused; the worker performs no action while this
    /// holds.
    pub fn is_paused(&self) -> (r: bool)
        ensures
            r == self@.paused,
    {
        self.paused
    }

    /// Whether playback has handed out its last action.
    pub fn is_finished(&self) -> (r: bool)
        ensures
            r == self@.finished,
    {
        self.finished
    }

    /// Consumes one signal of the control loop: `Pause` toggles the shared
    /// pause flag, `Shutdown` asks the caller to cancel playback, and
    /// captured input is ignored.
    pub fn on_signal(&mut self, signal: Signal) -> (stop: bool)
        ensures
            stop == (signal == Signal::Shutdown),
            final(self)@ == (ReplayerView {
                paused: if signal == Signal::Pause {
                    !old(self)@.paused
                } else {
                    old(self)@.paused
                },
                ..old(self)@
            }),
    {
        match signal {
            Signal::Pause => {
                self.paused = !self.paused;
                false
            },
            Signal::Shutdown => true,
            Signal::Input(_) => false,
        }
    }

    /// Hands out the next action of playback and advances the cursor, or
    /// returns `None` once the script is exhausted. Pausing is the caller's
    /// duty: it performs no action while the pause flag holds, and asks
    /// again once resumed.
    pub fn next_action(&mut self) -> (r: Option<Action>)
        requires
            old(self)@.well_formed(),
        ensures
            r == old(self)@.spec_head(),
            final(self)@ == if old(self)@.finished {
                old(self)@
            } else {
                old(self)@.spec_advance()
            },
            final(self)@.well_formed(),
    {
        if self.finished {
            return None;
        }
        let current = self.commands.iter_commands()[self.cmd_index];
        let action = action_of(&current);
        if self.reps_done < usize::MAX {
            self.reps_done = self.reps_done + 1;
        }
        let exhausted = match current.loops_of() {
            Loops::Amount(n) => self.reps_done >= n,
            Loops::Infinite => false,
        };
        if exhausted {
            let len = self.commands.iter_commands().len();
            let j = first_active_from(self.commands.iter_commands(), self.cmd_index + 1);
            proof {
                lemma_first_active(self.commands@.commands, self.cmd_index + 1);
            }
            if j < len {
                self.cmd_index = j;
                self.reps_done = 0;
            } else {
                if self.passes_done < usize::MAX {
                    self.passes_done = self.passes_done + 1;
                }
                let more = match self.commands.loops() {
                    Loops::Amount(m) => self.passes_done < m,
                    Loops::Infinite => true,
                };
                let k = first_active_from(self.commands.iter_commands(), 0);
                proof {
                    lemma_first_active(self.commands@.commands, 0);
                }
                if more && k < len {
                    self.cmd_index = k;
                    self.reps_done = 0;
                } else {
                    self.finished = true;
                }
            }
        }
        Some(action)
    }
}

// What follows states and proves the playback law for scripts whose repeat
// counts are all finite: starting from a freshly loaded script, the cursor
// hands out exactly the script's action sequence — the outer count many
// passes, each replaying the ordered command list once, each command its own
// count many times — and then reports completion.
/// `n` repetitions of one action.
pub open spec fn repeat_action(a: Action, n: nat) -> Seq<Action> {
    Seq::new(n, |i: int| a)
}

/// Whether every repeat count of the script is a finite bound, so that the
/// whole playback is one finite action sequence.
pub open spec fn spec_finite(script: ScriptView) -> bool {
    &&& script.loops is Amount
    &&& forall|i: int|
        0 <= i < script.commands.len() ==> (#[trigger] script.commands[i].spec_loops()) is Amount
}

/// The repetitions a bounded command contributes to one pass.
pub open spec fn spec_reps(c: Command) -> nat {
    match c.spec_loops() {
        Loops::Amount(n) => n as nat,
        Loops::Infinite => 0,
    }
}

/// The outer pass count of a finite script.
pub open spec fn spec_outer(script: ScriptView) -> nat {
    match script.loops {
        Loops::Amount(m) => m as nat,
        Loops::Infinite => 0,
    }
}

/// The actions of the rest of one pass, from position `i` on.
pub open spec fn spec_pass_from(commands: Seq<Command>, i: int) -> Seq<Action>
    decreases commands.len() - i,
{
    if i < 0 || i >= commands.len() {
        Seq::empty()
    } else {
        repeat_action(spec_action_of(commands[i]), spec_reps(commands[i])) + spec_pass_from(
            commands,
            i + 1,
        )
    }
}

/// The actions of `n` whole passes over the command list.
pub open spec fn spec_passes(commands: Seq<Command>, n: nat) -> Seq<Action>
    decreases n,
{
    if n == 0 {
        Seq::empty()
    } else {
        spec_pass_from(commands, 0) + spec_passes(commands, (n - 1) as nat)
    }
}

/// The deterministic action sequence of a finite script.
pub open spec fn spec_script_actions(script: ScriptView) -> Seq<Action> {
    spec_passes(script.commands, spec_outer(script))
}

/// The actions a cursor still has to hand out: the repetitions left of the
/// current command, the rest of its pass, and the passes after it.
pub open spec fn spec_remaining(v: ReplayerView) -> Seq<Action> {
    if v.finished {
        Seq::empty()
    } else {
        let cur = v.script.commands[v.cmd_index as int];
        let later = if v.passes_done + 1 <= spec_outer(v.script) {
            spec_passes(v.script.commands, (spec_outer(v.script) - v.passes_done - 1) as nat)
        } else {
            Seq::empty()
        };
        repeat_action(spec_action_of(cur), (spec_reps(cur) - v.reps_done) as nat) + spec_pass_from(
            v.script.commands,
            v.cmd_index + 1,
        ) + later
    }
}

/// A cursor playback can reach: well formed, and not past the outer count.
pub open spec fn spec_on_track(v: ReplayerView) -> bool {
    v.well_formed() && (v.finished || v.spec_more_passes(v.passes_done))
}

/// Commands that contribute nothing add nothing to a pass: the rest of a
/// pass is the rest from its first contributing command.
proof fn lemma_pass_from_skips(commands: Seq<Command>, i: int)
    requires
        0 <= i <= commands.len(),
    ensures
        spec_pass_from(commands, i) == spec_pass_from(commands, spec_first_active(commands, i)),
    decreases commands.len() - i,
{
    if i < commands.len() && !spec_runs(commands[i]) {
        assert(repeat_action(spec_action_of(commands[i]), spec_reps(commands[i])) =~= Seq::<
            Action,
        >::empty());
        assert(spec_pass_from(commands, i) =~= spec_pass_from(commands, i + 1));
        lemma_pass_from_skips(commands, i + 1);
    }
}

/// Passes over a list that contributes no action are themselves empty.
proof fn lemma_passes_of_empty_pass(commands: Seq<Command>, n: nat)
    requires
        spec_pass_from(commands, 0) == Seq::<Action>::empty(),
    ensures
        spec_passes(commands, n) == Seq::<Action>::empty(),
    decreases n,
{
    if n > 0 {
        lemma_passes_of_empty_pass(commands, (n - 1) as nat);
        assert(spec_passes(commands, n) =~= Seq::<Action>::empty());
    }
}

/// Where playback of a finite script starts: the freshly loaded cursor is on
/// track and still owes exactly the script's whole action sequence.
pub proof fn lemma_playback_start(script: ScriptView)
    requires
        spec_finite(script),
        script.commands.len() <= usize::MAX,
    ensures
        spec_on_track(ReplayerView::spec_initial(script)),
        spec_remaining(ReplayerView::spec_initial(script)) == spec_script_actions(script),
{
    let v = ReplayerView::spec_initial(script);
    let commands = script.commands;
    let m = spec_outer(script);
    let k = spec_first_active(commands, 0);
    lemma_first_active(commands, 0);
    lemma_pass_from_skips(commands, 0);
    if m > 0 && k < commands.len() {
        let head = repeat_action(spec_action_of(commands[k]), spec_reps(commands[k]));
        assert(v.cmd_index == k);
        assert(!v.finished);
        assert(spec_script_actions(script) == spec_pass_from(commands, 0) + spec_passes(
            commands,
            (m - 1) as nat,
        ));
        assert(spec_pass_from(commands, k) == head + spec_pass_from(commands, k + 1));
        assert(spec_remaining(v) == head + spec_pass_from(commands, k + 1) + spec_passes(
            commands,
            (m - 1) as nat,
        ));
        assert(spec_remaining(v) =~= spec_script_actions(script));
    } else if m == 0 {
        assert(v.finished);
        assert(spec_remaining(v) =~= spec_script_actions(script));
    } else {
        assert(v.finished);
        assert(spec_pass_from(commands, 0) =~= Seq::<Action>::empty());
        lemma_passes_of_empty_pass(commands, m);
        assert(spec_remaining(v) =~= spec_script_actions(script));
    }
}

/// How playback of a finite script advances: an unfinished cursor owes at
/// least one action, its head is the first of them, and advancing drops
/// exactly that one and stays on track. With `lemma_playback_start` and the
/// contract of `next_action`, the actions handed out over a whole run are
/// precisely the script's action sequence, in order.
pub proof fn lemma_playback_step(v: ReplayerView)
    requires
        spec_finite(v.script),
        v.script.commands.len() <= usize::MAX,
        spec_on_track(v),
        !v.finished,
    ensures
        spec_remaining(v).len() > 0,
        v.spec_head() == Some(spec_remaining(v)[0]),
        spec_remaining(v.spec_advance()) == spec_remaining(v).drop_first(),
        spec_on_track(v.spec_advance()),
{
    let commands = v.script.commands;
    let len = commands.len() as int;
    let m = spec_outer(v.script);
    let cur = commands[v.cmd_index as int];
    let a = spec_action_of(cur);
    let n = spec_reps(cur);
    let v2 = v.spec_advance();
    assert(cur.spec_loops() is Amount);
    assert(v.reps_done < n);
    assert(v.passes_done < m);
    let reps_left = (n - v.reps_done) as nat;
    let later = spec_passes(commands, (m - v.passes_done - 1) as nat);
    let tail = spec_pass_from(commands, v.cmd_index + 1) + later;
    assert(spec_remaining(v) == repeat_action(a, reps_left) + spec_pass_from(
        commands,
        v.cmd_index + 1,
    ) + later);
    assert(repeat_action(a, reps_left)[0] == a);
    assert(spec_remaining(v)[0] == a);
    let reps1 = v.reps_done + 1;
    if reps1 < n {
        assert(v2 == (ReplayerView { reps_done: (v.reps_done + 1) as usize, ..v }));
        assert(spec_remaining(v2) == repeat_action(a, (reps_left - 1) as nat) + spec_pass_from(
            commands,
            v.cmd_index + 1,
        ) + later);
        assert(spec_remaining(v2) =~= spec_remaining(v).drop_first());
    } else {
        assert(v.reps_done == n - 1);
        assert(reps_left == 1);
        assert(spec_remaining(v) =~= seq![a] + tail);
        assert((seq![a] + tail).drop_first() =~= tail);
        let j = spec_first_active(commands, v.cmd_index + 1);
        lemma_first_active(commands, v.cmd_index + 1);
        lemma_pass_from_skips(commands, v.cmd_index + 1);
        if j < len {
            let head_j = repeat_action(spec_action_of(commands[j]), spec_reps(commands[j]));
            assert(spec_pass_from(commands, j) == head_j + spec_pass_from(commands, j + 1));
            assert(v2 == (ReplayerView { cmd_index: j as usize, reps_done: 0, ..v }));
            assert(spec_remaining(v2) == head_j + spec_pass_from(commands, j + 1) + later);
            assert(spec_remaining(v2) =~= tail);
        } else {
            assert(spec_pass_from(commands, v.cmd_index + 1) =~= Seq::<Action>::empty());
            let passes1 = v.passes_done + 1;
            let k = spec_first_active(commands, 0);
            lemma_first_active(commands, 0);
            assert(spec_runs(cur));
            assert(k <= v.cmd_index < len);
            lemma_pass_from_skips(commands, 0);
            if passes1 < m {
                let head_k = repeat_action(spec_action_of(commands[k]), spec_reps(commands[k]));
                assert(spec_pass_from(commands, k) == head_k + spec_pass_from(commands, k + 1));
                assert(later == spec_pass_from(commands, 0) + spec_passes(
                    commands,
                    (m - passes1 - 1) as nat,
                ));
                assert(v2 == (ReplayerView {
                    cmd_index: k as usize,
                    reps_done: 0,
                    passes_done: passes1 as usize,
                    ..v
                }));
                assert(spec_remaining(v2) == head_k + spec_pass_from(commands, k + 1)
                    + spec_passes(commands, (m - passes1 - 1) as nat));
                assert(spec_remaining(v2) =~= tail);
            } else {
                assert(passes1 == m);
                assert(later =~= Seq::<Action>::empty());
                assert(tail =~= Seq::<Action>::empty());
                assert(v2.finished);
                assert(spec_remaining(v2) =~= tail);
            }
        }
        assert(spec_remaining(v2) == spec_remaining(v).drop_first());
    }
}

/// Returns the position of the first command at or after `i` that
/// contributes a repetition, or the list length when there is none.
fn first_active_from(commands: &Vec<Command>, i: usize) -> (r: usize)
    requires
        i <= commands@.len(),
    ensures
        r == spec_first_active(commands@, i as int),
        i <= r <= commands@.len(),
{
    let mut j = i;
    while j < commands.len()
        invariant
            i <= j <= commands@.len(),
            spec_first_active(commands@, i as int) == spec_first_active(commands@, j as int),
        decreases commands@.len() - j,
    {
        let runs = match commands[j] {
            Command::MouseCommand { loops: Loops::Amount(n), .. } => n > 0,
            Command::KeyboardCommand { loops: Loops::Amount(n), .. } => n > 0,
            _ => true,
        };
        if runs {
            return j;
        }
        j = j + 1;
    }
    j
}

} // verus!
