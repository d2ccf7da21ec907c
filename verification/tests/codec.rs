//! Tests of the script text codec: exact writings, the round-trip law on
//! concrete scripts, hand-edited shorthand, and refused documents.

use clicker_bot::decimal::u64_to_string;
use clicker_bot::hardware::Key;
use clicker_bot::replay::Command;
use clicker_bot::replay::Commands;
use clicker_bot::replay::Loops;
use clicker_bot::replay::codec::from_yaml;
use clicker_bot::replay::codec::to_yaml;

fn sample_script() -> Commands {
    Commands::new(
        Loops::Amount(2),
        vec![
            Command::MouseCommand { key: Key::MouseLeft, loops: Loops::Amount(1), x: 10, y: 20 },
            Command::MouseCommand { key: Key::MouseRight, loops: Loops::Infinite, x: -7, y: -2147483648 },
            Command::KeyboardCommand { key: Key::Escape, loops: Loops::Amount(3) },
            Command::SleepCommand { millis: 18446744073709551615 },
        ],
    )
}

#[test]
fn writing_is_exact() {
    let text = to_yaml(&sample_script());
    assert_eq!(
        "loops: {Amount: 2}\n\
         commands:\n\
         - {type: mouse, key: MouseLeft, loops: {Amount: 1}, x: 10, y: 20}\n\
         - {type: mouse, key: MouseRight, loops: Infinite, x: -7, y: -2147483648}\n\
         - {type: keyboard, key: Escape, loops: {Amount: 3}}\n\
         - {type: sleep, millis: 18446744073709551615}\n",
        text.as_str()
    );
}

#[test]
fn round_trip_returns_the_script() {
    let script = sample_script();
    let text = to_yaml(&script);
    let read = from_yaml(text.as_str()).expect("the written script reads back");
    assert!(script == read);
}

#[test]
fn round_trip_of_an_empty_script() {
    let script = Commands::new(Loops::Infinite, Vec::new());
    let read = from_yaml(to_yaml(&script).as_str()).expect("the written script reads back");
    assert!(script == read);
}

#[test]
fn omitted_loops_default_to_running_once() {
    let text = "loops: Infinite\n\
                commands:\n\
                - {type: keyboard, key: Q}\n\
                - {type: mouse, key: MouseX1, x: 5, y: 6}\n";
    let read = from_yaml(text).expect("shorthand records read");
    let expected = Commands::new(
        Loops::Infinite,
        vec![
            Command::KeyboardCommand { key: Key::Q, loops: Loops::Amount(1) },
            Command::MouseCommand { key: Key::MouseX1, loops: Loops::Amount(1), x: 5, y: 6 },
        ],
    );
    assert!(expected == read);
}

#[test]
fn every_key_name_reads_back() {
    let keys = [
        Key::MouseLeft,
        Key::MouseRight,
        Key::MouseMiddle,
        Key::MouseX1,
        Key::MouseX2,
        Key::KeyboardLeft,
        Key::KeyboardUp,
        Key::KeyboardRight,
        Key::KeyboardDown,
        Key::A,
        Key::B,
        Key::C,
        Key::D,
        Key::E,
        Key::F,
        Key::G,
        Key::H,
        Key::I,
        Key::J,
        Key::K,
        Key::L,
        Key::M,
        Key::N,
        Key::O,
        Key::P,
        Key::Q,
        Key::R,
        Key::S,
        Key::T,
        Key::U,
        Key::V,
        Key::W,
        Key::X,
        Key::Y,
        Key::Z,
        Key::Escape,
    ];
    for key in keys {
        let command = if key.is_mouse() {
            Command::MouseCommand { key, loops: Loops::Amount(1), x: 1, y: 2 }
        } else {
            Command::KeyboardCommand { key, loops: Loops::Amount(1) }
        };
        let script = Commands::new(Loops::Amount(1), vec![command]);
        let read = from_yaml(to_yaml(&script).as_str()).expect("the key name reads back");
        assert!(script == read);
    }
}

#[test]
fn refused_documents() {
    let refused = [
        // no document at all
        "",
        // missing header
        "commands:\n",
        // unknown key name
        "loops: Infinite\ncommands:\n- {type: keyboard, key: Enter}\n",
        // unknown record type
        "loops: Infinite\ncommands:\n- {type: wheel, key: A}\n",
        // unclosed record
        "loops: Infinite\ncommands:\n- {type: keyboard, key: A\n",
        // repeat count too large for a machine word
        "loops: {Amount: 99999999999999999999}\ncommands:\n",
        // sleep length too large
        "loops: Infinite\ncommands:\n- {type: sleep, millis: 18446744073709551616}\n",
        // coordinate out of range
        "loops: Infinite\ncommands:\n- {type: mouse, key: MouseLeft, x: 2147483648, y: 0}\n",
        // trailing text after the records
        "loops: Infinite\ncommands:\n- {type: sleep, millis: 1}\nrest\n",
    ];
    for text in refused {
        assert!(from_yaml(text).is_err(), "accepted: {}", text);
    }
}

#[test]
fn decimal_writings_are_exact() {
    assert_eq!("0", u64_to_string(0).as_str());
    assert_eq!("7", u64_to_string(7).as_str());
    assert_eq!("1234567890", u64_to_string(1234567890).as_str());
    assert_eq!("18446744073709551615", u64_to_string(18446744073709551615).as_str());
}
