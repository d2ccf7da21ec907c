//! The edge-triggered input detector. On every poll tick it is handed the
//! full pressed-state table of the 256 addressable key codes, remembers per
//! key whether it already saw it down, and emits exactly one signal per
//! discrete press, however many ticks the key stays held.

pub mod signal;

pub use signal::Signal;

use vstd::prelude::*;

use crate::hardware::Key;

verus! {

/// The number of addressable key codes in a pressed-state table.
pub const TABLE_SIZE: usize = 256;

/// A table entry above this threshold counts as pressed-and-held.
pub const PRESS_THRESHOLD: u8 = 1;

/// Whether the table entry at `i` reads as pressed.
pub open spec fn pressed(states: Seq<u8>, i: int) -> bool {
    states[i] > PRESS_THRESHOLD
}

/// The signal one tick emits for the key code `i`, given the memory of keys
/// already seen down: a mapped key that reads pressed and is not remembered
/// emits once; everything else is silent.
pub open spec fn emits_at(memory: Seq<bool>, states: Seq<u8>, i: int) -> Option<Signal> {
    match Key::spec_of_code(i as u8) {
        Some(key) => if pressed(states, i) && !memory[i] {
            Some(Signal::spec_of_key(key))
        } else {
            None
        },
        None => None,
    }
}

/// The signals one tick emits for the key codes below `n`, in table-scan
/// order.
pub open spec fn signals_up_to(memory: Seq<bool>, states: Seq<u8>, n: int) -> Seq<Signal>
    decreases n,
{
    if n <= 0 {
        Seq::empty()
    } else {
        signals_up_to(memory, states, n - 1) + (match emits_at(memory, states, n - 1) {
            Some(s) => seq![s],
            None => Seq::<Signal>::empty(),
        })
    }
}

/// All signals one tick emits, in table-scan order.
pub open spec fn tick_signals(memory: Seq<bool>, states: Seq<u8>) -> Seq<Signal> {
    signals_up_to(memory, states, TABLE_SIZE as int)
}

/// The memory after one tick: a mapped key is remembered exactly while its
/// table entry reads as pressed; entries of unmapped codes are left alone.
pub open spec fn memory_after(memory: Seq<bool>, states: Seq<u8>) -> Seq<bool> {
    Seq::new(
        TABLE_SIZE as nat,
        |i: int| match Key::spec_of_code(i as u8) {
            Some(_) => pressed(states, i),
            None => memory[i],
        },
    )
}

/// The edge detector: converts the level-triggered pressed-state table into
/// edge-triggered signals, one per discrete press.
pub struct EventGrid {
    memory: Vec<bool>,
}

impl EventGrid {
    /// The memory of keys already seen down.
    pub closed spec fn spec_memory(&self) -> Seq<bool> {
        self.memory@
    }

    /// The per-key memory covers the whole table.
    pub open spec fn well_formed(&self) -> bool {
        self.spec_memory().len() == TABLE_SIZE
    }

    /// Sets up a detector that remembers no key as down.
    pub fn new() -> (r: EventGrid)
        ensures
            r.well_formed(),
            r.spec_memory() =~= Seq::new(TABLE_SIZE as nat, |i: int| false),
    {
        let mut memory: Vec<bool> = Vec::new();
        let mut i: usize = 0;
        while i < TABLE_SIZE
            invariant
                i <= TABLE_SIZE,
                memory@.len() == i,
                forall|j: int| 0 <= j < i ==> !memory@[j],
            decreases TABLE_SIZE - i,
        {
            memory.push(false);
            i = i + 1;
        }
        EventGrid { memory }
    }

    /// Consumes one sampled pressed-state table and returns the signals of
    /// this tick, in table-scan order: one per mapped key that went down
    /// since it was last remembered up. The memory is brought up to date, so
    /// a key held across many ticks emits only on the first.
    pub fn tick(&mut self, states: &Vec<u8>) -> (signals: Vec<Signal>)
        requires
            old(self).well_formed(),
            states@.len() == TABLE_SIZE,
        ensures
            final(self).well_formed(),
            final(self).spec_memory() == memory_after(old(self).spec_memory(), states@),
            signals@ == tick_signals(old(self).spec_memory(), states@),
    {
        let ghost memory0 = self.memory@;
        let mut signals: Vec<Signal> = Vec::new();
        let mut i: usize = 0;
        while i < TABLE_SIZE
            invariant
                i <= TABLE_SIZE,
                states@.len() == TABLE_SIZE,
                self.memory@.len() == TABLE_SIZE,
                forall|j: int| 0 <= j < i ==> self.memory@[j] == memory_after(memory0, states@)[j],
                forall|j: int| i <= j < TABLE_SIZE ==> self.memory@[j] == memory0[j],
                signals@ == signals_up_to(memory0, states@, i as int),
            decreases TABLE_SIZE - i,
        {
            match Key::try_from(i as u8) {
                Ok(key) => {
                    let state = states[i];
                    if state > PRESS_THRESHOLD && !self.memory[i] {
                        signals.push(Signal::from(key));
                        self.memory.set(i, true);
                    } else if state <= PRESS_THRESHOLD {
                        self.memory.set(i, false);
                    }
                },
                Err(_) => {},
            }
            i = i + 1;
        }
        proof {
            assert(self.memory@ =~= memory_after(memory0, states@));
        }
        signals
    }
}

// What follows states and proves the detector's one-signal-per-press law:
// over any run of ticks, a key contributes exactly one signal per discrete
// press, however many ticks it stays held.
/// How often the detector emits a signal for the key at code `c` over a run
/// of consecutive pressed-state tables.
pub open spec fn key_emissions(memory: Seq<bool>, tables: Seq<Seq<u8>>, c: int) -> nat
    decreases tables.len(),
{
    if tables.len() == 0 {
        0
    } else {
        (if emits_at(memory, tables[0], c) is Some {
            1nat
        } else {
            0nat
        }) + key_emissions(memory_after(memory, tables[0]), tables.drop_first(), c)
    }
}

/// How often a single-key edge detector fires over a run of per-tick held
/// states, starting from the memory bit `down`: it fires when the key reads
/// held and the memory bit is clear, and the memory bit then tracks the held
/// state.
pub open spec fn detector_emissions(down: bool, held: Seq<bool>) -> nat
    decreases held.len(),
{
    if held.len() == 0 {
        0
    } else {
        (if held[0] && !down {
            1nat
        } else {
            0nat
        }) + detector_emissions(held[0], held.drop_first())
    }
}

/// One press-release cycle as the detector samples it: the key reads held
/// for `hold` consecutive ticks, then released for `release` ticks.
pub open spec fn spec_cycle(hold: nat, release: nat) -> Seq<bool> {
    Seq::new(hold, |i: int| true) + Seq::new(release, |i: int| false)
}

/// A run of press-release cycles with the given hold and release durations.
pub open spec fn spec_cycles(durations: Seq<(nat, nat)>) -> Seq<bool>
    decreases durations.len(),
{
    if durations.len() == 0 {
        Seq::empty()
    } else {
        spec_cycle(durations[0].0, durations[0].1) + spec_cycles(durations.drop_first())
    }
}

/// Every cycle holds the key for at least one tick and releases it for at
/// least one tick.
pub open spec fn spec_durations_positive(durations: Seq<(nat, nat)>) -> bool {
    forall|i: int| 0 <= i < durations.len() ==> durations[i].0 >= 1 && durations[i].1 >= 1
}

/// A stretch of held ticks fires the detector at most once: once at its
/// start if the memory bit was clear, and never again while held.
proof fn lemma_held_stretch(down: bool, hold: nat, rest: Seq<bool>)
    ensures
        detector_emissions(down, Seq::new(hold, |i: int| true) + rest) == (if hold > 0 && !down {
            1nat
        } else {
            0nat
        }) + detector_emissions(if hold > 0 { true } else { down }, rest),
    decreases hold,
{
    let held = Seq::new(hold, |i: int| true) + rest;
    if hold == 0 {
        assert(held =~= rest);
    } else {
        assert(held[0]);
        assert(held.drop_first() =~= Seq::new((hold - 1) as nat, |i: int| true) + rest);
        lemma_held_stretch(true, (hold - 1) as nat, rest);
    }
}

/// A stretch of released ticks never fires the detector and clears the
/// memory bit.
proof fn lemma_released_stretch(down: bool, release: nat, rest: Seq<bool>)
    ensures
        detector_emissions(down, Seq::new(release, |i: int| false) + rest) == detector_emissions(
            if release > 0 { false } else { down },
            rest,
        ),
    decreases release,
{
    let held = Seq::new(release, |i: int| false) + rest;
    if release == 0 {
        assert(held =~= rest);
    } else {
        assert(!held[0]);
        assert(held.drop_first() =~= Seq::new((release - 1) as nat, |i: int| false) + rest);
        lemma_released_stretch(false, (release - 1) as nat, rest);
    }
}

/// The one-signal-per-press law at the level of one key's samples: over any
/// run of press-release cycles, however long each press is held and however
/// many ticks pass while it is, the detector fires exactly once per cycle.
pub proof fn lemma_one_signal_per_press(durations: Seq<(nat, nat)>)
    requires
        spec_durations_positive(durations),
    ensures
        detector_emissions(false, spec_cycles(durations)) == durations.len(),
    decreases durations.len(),
{
    if durations.len() > 0 {
        let hold = durations[0].0;
        let release = durations[0].1;
        let rest = spec_cycles(durations.drop_first());
        assert(spec_cycles(durations) =~= Seq::new(hold, |i: int| true) + (Seq::new(
            release,
            |i: int| false,
        ) + rest));
        lemma_held_stretch(false, hold, Seq::new(release, |i: int| false) + rest);
        lemma_released_stretch(true, release, rest);
        lemma_one_signal_per_press(durations.drop_first());
    }
}

/// Projecting a run of ticks onto one mapped key gives exactly the
/// single-key detector: the signals the grid emits for the key at code `c`
/// are those of its own held-state trace.
pub proof fn lemma_run_projects_to_key(memory: Seq<bool>, tables: Seq<Seq<u8>>, c: int)
    requires
        0 <= c < TABLE_SIZE,
        memory.len() == TABLE_SIZE,
        Key::spec_of_code(c as u8) is Some,
        forall|t: int| 0 <= t < tables.len() ==> (#[trigger] tables[t]).len() == TABLE_SIZE,
    ensures
        key_emissions(memory, tables, c) == detector_emissions(
            memory[c],
            Seq::new(tables.len(), |t: int| pressed(tables[t], c)),
        ),
    decreases tables.len(),
{
    let held = Seq::new(tables.len(), |t: int| pressed(tables[t], c));
    if tables.len() > 0 {
        let memory1 = memory_after(memory, tables[0]);
        assert(memory1[c] == pressed(tables[0], c));
        assert(held.drop_first() =~= Seq::new(
            tables.drop_first().len(),
            |t: int| pressed(tables.drop_first()[t], c),
        ));
        lemma_run_projects_to_key(memory1, tables.drop_first(), c);
    }
}

/// The one-signal-per-press law for the event grid itself: starting with the
/// key at code `c` not remembered down, a run of ticks whose samples of that
/// key form press-release cycles emits exactly one signal per cycle for it.
pub proof fn lemma_grid_one_signal_per_press(
    memory: Seq<bool>,
    tables: Seq<Seq<u8>>,
    c: int,
    durations: Seq<(nat, nat)>,
)
    requires
        0 <= c < TABLE_SIZE,
        memory.len() == TABLE_SIZE,
        !memory[c],
        Key::spec_of_code(c as u8) is Some,
        forall|t: int| 0 <= t < tables.len() ==> (#[trigger] tables[t]).len() == TABLE_SIZE,
        Seq::new(tables.len(), |t: int| pressed(tables[t], c)) == spec_cycles(durations),
        spec_durations_positive(durations),
    ensures
        key_emissions(memory, tables, c) == durations.len(),
{
    lemma_run_projects_to_key(memory, tables, c);
    lemma_one_signal_per_press(durations);
}

} // verus!
