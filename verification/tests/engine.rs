//! Tests of the engines: the edge-triggered detector, the recorder, the
//! replayer, and the click-storm state machine.

use clicker_bot::eventgrid::EventGrid;
use clicker_bot::eventgrid::Signal;
use clicker_bot::hardware::Key;
use clicker_bot::hardware::Mouse;
use clicker_bot::hardware::VirtualMouse;
use clicker_bot::replay::Command;
use clicker_bot::replay::Commands;
use clicker_bot::replay::Loops;
use clicker_bot::replay::Recorder;
use clicker_bot::replay::Replayer;
use clicker_bot::replay::replayer::Action;

fn table(pressed: &[(u8, u8)]) -> Vec<u8> {
    let mut states = vec![0u8; 256];
    for &(code, state) in pressed {
        states[code as usize] = state;
    }
    states
}

#[test]
fn one_signal_per_press() {
    let mut grid = EventGrid::new();
    // A press held across many poll ticks emits exactly once.
    let held = table(&[(0x41, 0xFF)]);
    assert_eq!(vec![Signal::Input(Key::A)], grid.tick(&held));
    assert_eq!(Vec::<Signal>::new(), grid.tick(&held));
    assert_eq!(Vec::<Signal>::new(), grid.tick(&held));
    // Release emits nothing and re-arms the key.
    let released = table(&[]);
    assert_eq!(Vec::<Signal>::new(), grid.tick(&released));
    // A second press-release cycle emits exactly once more.
    assert_eq!(vec![Signal::Input(Key::A)], grid.tick(&held));
    assert_eq!(Vec::<Signal>::new(), grid.tick(&held));
}

#[test]
fn debounce_threshold_filters_weak_states() {
    let mut grid = EventGrid::new();
    // A state at the threshold does not count as pressed.
    assert_eq!(Vec::<Signal>::new(), grid.tick(&table(&[(0x41, 1)])));
    assert_eq!(vec![Signal::Input(Key::A)], grid.tick(&table(&[(0x41, 2)])));
}

#[test]
fn simultaneous_presses_come_in_table_order() {
    let mut grid = EventGrid::new();
    let both = table(&[(0x41, 0xFF), (0x01, 0xFF)]);
    assert_eq!(
        vec![Signal::Input(Key::MouseLeft), Signal::Input(Key::A)],
        grid.tick(&both)
    );
}

#[test]
fn reserved_hotkeys_become_pause_and_shutdown() {
    let mut grid = EventGrid::new();
    assert_eq!(vec![Signal::Pause], grid.tick(&table(&[(0x26, 0xFF)])));
    let mut grid2 = EventGrid::new();
    assert_eq!(vec![Signal::Shutdown], grid2.tick(&table(&[(0x28, 0xFF)])));
    assert_eq!(Signal::Pause, Signal::from(Key::KeyboardUp));
    assert_eq!(Signal::Shutdown, Signal::from(Key::KeyboardDown));
    assert_eq!(Signal::Input(Key::A), Signal::from(Key::A));
}

#[test]
fn unmapped_codes_are_ignored() {
    let mut grid = EventGrid::new();
    assert_eq!(Vec::<Signal>::new(), grid.tick(&table(&[(0x03, 0xFF), (0xF0, 0xFF)])));
}

#[test]
fn recorder_scenario() {
    let mut recorder = Recorder::new();
    // The recorder starts idle: input before any pause is discarded.
    assert!(!recorder.is_recording());
    assert!(!recorder.on_signal(Signal::Input(Key::A), 0, 0));
    assert!(recorder.records().is_empty());
    // One pause starts recording; the next input appends one keyboard
    // command.
    assert!(!recorder.on_signal(Signal::Pause, 0, 0));
    assert!(recorder.is_recording());
    assert!(!recorder.on_signal(Signal::Input(Key::A), 0, 0));
    assert_eq!(
        vec![Command::KeyboardCommand { key: Key::A, loops: Loops::Amount(1) }],
        recorder.records().clone()
    );
    // Shutdown stops consumption; the flush holds exactly that one command.
    assert!(recorder.on_signal(Signal::Shutdown, 0, 0));
    let script = recorder.flush();
    assert_eq!(1, script.iter_commands().len());
    assert!(recorder.records().is_empty());
    let text = clicker_bot::replay::codec::to_yaml(&script);
    assert_eq!(
        "loops: {Amount: 1}\ncommands:\n- {type: keyboard, key: A, loops: {Amount: 1}}\n",
        text.as_str()
    );
}

#[test]
fn recorder_captures_cursor_position_for_mouse_keys() {
    let mut recorder = Recorder::new();
    recorder.on_signal(Signal::Pause, 0, 0);
    recorder.on_signal(Signal::Input(Key::MouseLeft), 17, -4);
    recorder.on_signal(Signal::Input(Key::B), 99, 99);
    assert_eq!(
        vec![
            Command::MouseCommand { key: Key::MouseLeft, loops: Loops::Amount(1), x: 17, y: -4 },
            Command::KeyboardCommand { key: Key::B, loops: Loops::Amount(1) },
        ],
        recorder.records().clone()
    );
    // A second pause suspends recording again.
    recorder.on_signal(Signal::Pause, 0, 0);
    recorder.on_signal(Signal::Input(Key::C), 0, 0);
    assert_eq!(2, recorder.records().len());
}

#[test]
fn replayer_scenario() {
    let script = Commands::new(
        Loops::Amount(2),
        vec![Command::KeyboardCommand { key: Key::A, loops: Loops::Amount(1) }],
    );
    let mut replayer = Replayer::new(script);
    // Playback starts paused and must be explicitly resumed.
    assert!(replayer.is_paused());
    assert!(!replayer.on_signal(Signal::Pause));
    assert!(!replayer.is_paused());
    // The key-press action runs exactly twice before the worker completes.
    assert_eq!(Some(Action::KeyStroke { key: Key::A }), replayer.next_action());
    assert_eq!(Some(Action::KeyStroke { key: Key::A }), replayer.next_action());
    assert_eq!(None, replayer.next_action());
    assert!(replayer.is_finished());
}

#[test]
fn replayer_actions_cover_every_command_kind() {
    let script = Commands::new(
        Loops::Amount(1),
        vec![
            Command::MouseCommand { key: Key::MouseLeft, loops: Loops::Amount(1), x: 3, y: 4 },
            Command::MouseCommand { key: Key::MouseRight, loops: Loops::Amount(1), x: -1, y: 0 },
            Command::MouseCommand { key: Key::MouseMiddle, loops: Loops::Amount(1), x: 0, y: 0 },
            Command::SleepCommand { millis: 250 },
        ],
    );
    let mut replayer = Replayer::new(script);
    assert_eq!(Some(Action::ClickLeft { x: 3, y: 4 }), replayer.next_action());
    assert_eq!(Some(Action::ClickRight { x: -1, y: 0 }), replayer.next_action());
    assert_eq!(Some(Action::Unsupported { key: Key::MouseMiddle }), replayer.next_action());
    assert_eq!(Some(Action::SleepMillis { millis: 250 }), replayer.next_action());
    assert_eq!(None, replayer.next_action());
}

#[test]
fn replayer_honors_per_command_repeats() {
    let script = Commands::new(
        Loops::Amount(1),
        vec![
            Command::KeyboardCommand { key: Key::A, loops: Loops::Amount(0) },
            Command::KeyboardCommand { key: Key::B, loops: Loops::Amount(3) },
        ],
    );
    let mut replayer = Replayer::new(script);
    for _ in 0..3 {
        assert_eq!(Some(Action::KeyStroke { key: Key::B }), replayer.next_action());
    }
    assert_eq!(None, replayer.next_action());
}

#[test]
fn replayer_finishes_at_once_on_an_empty_pass() {
    let mut empty = Replayer::new(Commands::new(Loops::Infinite, Vec::new()));
    assert_eq!(None, empty.next_action());
    let mut zero = Replayer::new(Commands::new(Loops::Amount(0), vec![
        Command::KeyboardCommand { key: Key::A, loops: Loops::Amount(1) },
    ]));
    assert_eq!(None, zero.next_action());
}

#[test]
fn replayer_shutdown_stops_the_control_loop() {
    let script = Commands::new(Loops::Infinite, vec![Command::SleepCommand { millis: 1 }]);
    let mut replayer = Replayer::new(script);
    assert!(!replayer.on_signal(Signal::Input(Key::A)));
    assert!(replayer.on_signal(Signal::Shutdown));
    // An unbounded outer count keeps handing actions out until cancelled.
    for _ in 0..10 {
        assert_eq!(Some(Action::SleepMillis { millis: 1 }), replayer.next_action());
    }
}

#[test]
fn of() {
    vec![
        (0x0000, Mouse::of(&[])),
        (0x8000, Mouse::of(&[Mouse::Absolute])),
        (0x8000, Mouse::of(&[Mouse::Absolute, Mouse::Absolute])),
        (0x8001, Mouse::of(&[Mouse::Absolute, Mouse::Move])),
    ]
    .into_iter()
    .for_each(|(expected, flags)| assert_eq!(expected, flags));
}

#[test]
fn virtual_mouse_toggles_and_stops() {
    let mut mouse = VirtualMouse::new();
    assert!(mouse.is_running());
    assert!(!mouse.is_firing());
    mouse.on_signal(Some(Signal::Pause));
    assert!(mouse.is_firing());
    mouse.on_signal(Some(Signal::Input(Key::A)));
    assert!(mouse.is_firing());
    mouse.on_signal(Some(Signal::Pause));
    assert!(!mouse.is_firing());
    mouse.on_signal(Some(Signal::Shutdown));
    assert!(!mouse.is_running());
    let mut orphaned = VirtualMouse::new();
    orphaned.on_signal(None);
    assert!(!orphaned.is_running());
}
