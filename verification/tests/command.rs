//! Tests of the command model: validity, repeat sequences, and freezing a
//! recorded buffer into a script.

use clicker_bot::hardware::Key;
use clicker_bot::replay::Command;
use clicker_bot::replay::Commands;
use clicker_bot::replay::Loops;
use clicker_bot::replay::codec::from_yaml;
use clicker_bot::replay::command::LoopsIter;

fn skip_then_next(mut iter: LoopsIter, cap: usize) -> Option<usize> {
    let mut skipped: usize = 0;
    while skipped < cap {
        iter.next();
        skipped += 1;
    }
    iter.next()
}

#[test]
fn deserialization() {
    let yaml = "loops: {Amount: 1}\n\
                commands:\n\
                - {type: mouse, key: MouseLeft, loops: {Amount: 1}, x: 100, y: 200}\n\
                - {type: keyboard, key: A, loops: {Amount: 1}}\n\
                - {type: sleep, millis: 500}\n";
    let result = from_yaml(yaml);
    assert!(result.is_ok(), "{:?}", result.err().unwrap());
    assert_eq!(3, result.unwrap().iter_commands().len());
}

#[test]
fn is_valid() {
    vec![
        (true, Command::MouseCommand { key: Key::MouseLeft, loops: Loops::Infinite, x: 0, y: 0 }),
        (false, Command::MouseCommand { key: Key::A, loops: Loops::Infinite, x: 0, y: 0 }),
        (true, Command::KeyboardCommand { key: Key::A, loops: Loops::Infinite }),
        (false, Command::KeyboardCommand { key: Key::MouseMiddle, loops: Loops::Infinite }),
        (true, Command::SleepCommand { millis: 0 }),
    ]
    .into_iter()
    .enumerate()
    .for_each(|(case, (expected, sample))| {
        assert_eq!(expected, sample.is_valid(), "case {}", case)
    });
}

#[test]
fn iter_loop_infinite() {
    (10..100)
        .map(|i: usize| (i, Commands::new(Loops::Infinite, Vec::new()).iter_loop()))
        .for_each(|(cap, iter)| {
            assert!(skip_then_next(iter, cap).is_some());
        });
}

#[test]
fn iter_loop_amount() {
    (10..100)
        .map(|i: usize| (i, Commands::new(Loops::Amount(i), Vec::new()).iter_loop()))
        .for_each(|(cap, iter)| {
            assert!(skip_then_next(iter, cap).is_none());
        });
}

#[test]
fn from() {
    let mut records = vec![
        Command::MouseCommand { key: Key::MouseLeft, loops: Loops::Infinite, x: 0, y: 0 },
        Command::SleepCommand { millis: 0 },
    ];
    let result: Commands = Commands::from(&mut records);
    assert!(records.is_empty());
    assert_eq!(2, result.iter_commands().len());
}

#[test]
fn amount_yields_the_indices_below_the_bound() {
    let mut iter = Loops::Amount(3).iter();
    assert_eq!(Some(0), iter.next());
    assert_eq!(Some(1), iter.next());
    assert_eq!(Some(2), iter.next());
    assert_eq!(None, iter.next());
    assert_eq!(None, iter.next());
    let mut empty = Loops::Amount(0).iter();
    assert_eq!(None, empty.next());
}

#[test]
fn default_loops_runs_once() {
    assert_eq!(Loops::Amount(1), Loops::default());
    let mut iter = Command::SleepCommand { millis: 7 }.iter();
    assert_eq!(Some(0), iter.next());
    assert_eq!(None, iter.next());
}

#[test]
fn first_invalid_finds_the_first_offender() {
    let valid = Commands::new(
        Loops::Amount(1),
        vec![
            Command::KeyboardCommand { key: Key::A, loops: Loops::Amount(1) },
            Command::SleepCommand { millis: 1 },
        ],
    );
    assert_eq!(None, valid.first_invalid());
    let mixed = Commands::new(
        Loops::Amount(1),
        vec![
            Command::SleepCommand { millis: 1 },
            Command::MouseCommand { key: Key::B, loops: Loops::Amount(1), x: 0, y: 0 },
            Command::KeyboardCommand { key: Key::MouseLeft, loops: Loops::Amount(1) },
        ],
    );
    assert_eq!(Some(1), mixed.first_invalid());
}

#[test]
fn is_mouse_partitions_the_keys() {
    assert!(Key::MouseLeft.is_mouse());
    assert!(Key::MouseX2.is_mouse());
    assert!(!Key::A.is_mouse());
    assert!(!Key::Escape.is_mouse());
    assert!(!Key::KeyboardUp.is_mouse());
}

#[test]
fn key_codes_round_trip() {
    let keys = [
        Key::MouseLeft,
        Key::MouseRight,
        Key::MouseMiddle,
        Key::MouseX1,
        Key::MouseX2,
        Key::KeyboardLeft,
        Key::KeyboardUp,
        Key::KeyboardRight,
        Key::KeyboardDown,
        Key::A,
        Key::M,
        Key::Z,
        Key::Escape,
    ];
    for key in keys {
        assert_eq!(Ok(key), Key::try_from(key.code()));
    }
    assert_eq!(Err(()), Key::try_from(0x00));
    assert_eq!(Err(()), Key::try_from(0x03));
    assert_eq!(Err(()), Key::try_from(0xFF));
}
