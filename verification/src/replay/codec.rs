//! The script text codec. A script is persisted as a small human-editable
//! document: a `loops` line with the outer repeat count, a `commands:` line,
//! and one record per command, e.g.
//!
//! ```text
//! loops: {Amount: 1}
//! commands:
//! - {type: mouse, key: MouseLeft, loops: {Amount: 1}, x: 10, y: 20}
//! - {type: keyboard, key: A, loops: {Amount: 2}}
//! - {type: sleep, millis: 250}
//! ```
//!
//! The repeat count of a record may be left out when editing by hand; it
//! then defaults to running once. Writing and reading are both verified, and
//! reading a written script gives the script back — the round-trip law at
//! the end of this module.

use vstd::prelude::*;
use vstd::string::StrSliceExecFns;
use vstd::string::StringExecFns;

use crate::decimal::lemma_decimal_round_trip;
use crate::decimal::lemma_parse_u64_of_decimal;
use crate::decimal::spec_decimal;
use crate::decimal::spec_is_digit;
use crate::decimal::spec_parse_u64;
use crate::decimal::parse_u64_at;
use crate::decimal::u64_to_string;
use crate::hardware::Key;
use crate::replay::command::Command;
use crate::replay::command::Commands;
use crate::replay::command::Loops;
use crate::replay::command::ScriptView;

verus! {

/// The textual name of a key: the name of its variant.
pub open spec fn spec_key_name(k: Key) -> Seq<char> {
    match k {
        Key::MouseLeft => "MouseLeft"@,
        Key::MouseRight => "MouseRight"@,
        Key::MouseMiddle => "MouseMiddle"@,
        Key::MouseX1 => "MouseX1"@,
        Key::MouseX2 => "MouseX2"@,
        Key::KeyboardLeft => "KeyboardLeft"@,
        Key::KeyboardUp => "KeyboardUp"@,
        Key::KeyboardRight => "KeyboardRight"@,
        Key::KeyboardDown => "KeyboardDown"@,
        Key::A => "A"@,
        Key::B => "B"@,
        Key::C => "C"@,
        Key::D => "D"@,
        Key::E => "E"@,
        Key::F => "F"@,
        Key::G => "G"@,
        Key::H => "H"@,
        Key::I => "I"@,
        Key::J => "J"@,
        Key::K => "K"@,
        Key::L => "L"@,
        Key::M => "M"@,
        Key::N => "N"@,
        Key::O => "O"@,
        Key::P => "P"@,
        Key::Q => "Q"@,
        Key::R => "R"@,
        Key::S => "S"@,
        Key::T => "T"@,
        Key::U => "U"@,
        Key::V => "V"@,
        Key::W => "W"@,
        Key::X => "X"@,
        Key::Y => "Y"@,
        Key::Z => "Z"@,
        Key::Escape => "Escape"@,
    }
}

/// Returns the textual name of a key.
pub fn key_name(k: Key) -> (r: &'static str)
    ensures
        r@ == spec_key_name(k),
{
    match k {
        Key::MouseLeft => "MouseLeft",
        Key::MouseRight => "MouseRight",
        Key::MouseMiddle => "MouseMiddle",
        Key::MouseX1 => "MouseX1",
        Key::MouseX2 => "MouseX2",
        Key::KeyboardLeft => "KeyboardLeft",
        Key::KeyboardUp => "KeyboardUp",
        Key::KeyboardRight => "KeyboardRight",
        Key::KeyboardDown => "KeyboardDown",
        Key::A => "A",
        Key::B => "B",
        Key::C => "C",
        Key::D => "D",
        Key::E => "E",
        Key::F => "F",
        Key::G => "G",
        Key::H => "H",
        Key::I => "I",
        Key::J => "J",
        Key::K => "K",
        Key::L => "L",
        Key::M => "M",
        Key::N => "N",
        Key::O => "O",
        Key::P => "P",
        Key::Q => "Q",
        Key::R => "R",
        Key::S => "S",
        Key::T => "T",
        Key::U => "U",
        Key::V => "V",
        Key::W => "W",
        Key::X => "X",
        Key::Y => "Y",
        Key::Z => "Z",
        Key::Escape => "Escape",
    }
}

/// The writing of a repeat count: the tag for running forever, or the
/// structured run-n-times value.
pub open spec fn spec_emit_loops(l: Loops) -> Seq<char> {
    match l {
        Loops::Infinite => "Infinite"@,
        Loops::Amount(n) => "{Amount: "@ + spec_decimal(n as int) + "}"@,
    }
}

/// The writing of a signed coordinate.
pub open spec fn spec_emit_i32(x: int) -> Seq<char> {
    if x < 0 {
        "-"@ + spec_decimal(-x)
    } else {
        spec_decimal(x)
    }
}

/// The writing of one command record, tagged with its type.
pub open spec fn spec_emit_record(c: Command) -> Seq<char> {
    match c {
        Command::MouseCommand { key, loops, x, y } => "- {type: mouse, key: "@ + spec_key_name(key)
            + ", loops: "@ + spec_emit_loops(loops) + ", x: "@ + spec_emit_i32(x as int) + ", y: "@
            + spec_emit_i32(y as int) + "}\n"@,
        Command::KeyboardCommand { key, loops } => "- {type: keyboard, key: "@ + spec_key_name(key)
            + ", loops: "@ + spec_emit_loops(loops) + "}\n"@,
        Command::SleepCommand { millis } => "- {type: sleep, millis: "@ + spec_decimal(
            millis as int,
        ) + "}\n"@,
    }
}

/// The writing of an ordered command list, one record per line.
pub open spec fn spec_emit_records(commands: Seq<Command>) -> Seq<char>
    decreases commands.len(),
{
    if commands.len() == 0 {
        Seq::empty()
    } else {
        spec_emit_record(commands[0]) + spec_emit_records(commands.drop_first())
    }
}

/// The writing of a whole script.
pub open spec fn spec_emit_script(script: ScriptView) -> Seq<char> {
    "loops: "@ + spec_emit_loops(script.loops) + "\ncommands:\n"@ + spec_emit_records(
        script.commands,
    )
}

/// Appending one more command extends the written list by its record.
proof fn lemma_emit_records_snoc(commands: Seq<Command>, c: Command)
    ensures
        spec_emit_records(commands.push(c)) == spec_emit_records(commands) + spec_emit_record(c),
    decreases commands.len(),
{
    reveal_with_fuel(spec_emit_records, 2);
    if commands.len() == 0 {
        assert(commands.push(c).drop_first() =~= Seq::<Command>::empty());
        assert(spec_emit_records(commands.push(c)) =~= spec_emit_records(commands)
            + spec_emit_record(c));
    } else {
        assert(commands.push(c).drop_first() =~= commands.drop_first().push(c));
        lemma_emit_records_snoc(commands.drop_first(), c);
        assert(spec_emit_records(commands.push(c)) =~= spec_emit_records(commands)
            + spec_emit_record(c));
    }
}

/// Appends the writing of a repeat count.
fn append_loops(s: &mut String, l: Loops)
    ensures
        final(s)@ == old(s)@ + spec_emit_loops(l),
{
    match l {
        Loops::Infinite => {
            s.append("Infinite");
        },
        Loops::Amount(n) => {
            s.append("{Amount: ");
            let num = u64_to_string(n as u64);
            s.append(num.as_str());
            s.append("}");
            proof {
                assert(s@ =~= old(s)@ + spec_emit_loops(l));
            }
        },
    }
}

/// Appends the writing of a signed coordinate.
fn append_i32(s: &mut String, x: i32)
    ensures
        final(s)@ == old(s)@ + spec_emit_i32(x as int),
{
    if x < 0 {
        s.append("-");
        let magnitude: i64 = -(x as i64);
        let num = u64_to_string(magnitude as u64);
        s.append(num.as_str());
        proof {
            assert(magnitude as int == -(x as int));
            assert(s@ =~= old(s)@ + spec_emit_i32(x as int));
        }
    } else {
        let num = u64_to_string(x as u64);
        s.append(num.as_str());
    }
}

/// Appends the record of one command.
fn append_record(s: &mut String, c: &Command)
    ensures
        final(s)@ == old(s)@ + spec_emit_record(*c),
{
    match c {
        Command::MouseCommand { key, loops, x, y } => {
            s.append("- {type: mouse, key: ");
            s.append(key_name(*key));
            s.append(", loops: ");
            append_loops(s, *loops);
            s.append(", x: ");
            append_i32(s, *x);
            s.append(", y: ");
            append_i32(s, *y);
            s.append("}\n");
            proof {
                assert(s@ =~= old(s)@ + spec_emit_record(*c));
            }
        },
        Command::KeyboardCommand { key, loops } => {
            s.append("- {type: keyboard, key: ");
            s.append(key_name(*key));
            s.append(", loops: ");
            append_loops(s, *loops);
            s.append("}\n");
            proof {
                assert(s@ =~= old(s)@ + spec_emit_record(*c));
            }
        },
        Command::SleepCommand { millis } => {
            s.append("- {type: sleep, millis: ");
            let num = u64_to_string(*millis);
            s.append(num.as_str());
            s.append("}\n");
            proof {
                assert(s@ =~= old(s)@ + spec_emit_record(*c));
            }
        },
    }
}

/// Writes a script as its persisted text.
pub fn to_yaml(commands: &Commands) -> (r: String)
    ensures
        r@ == spec_emit_script(commands@),
{
    let ghost script = commands@;
    let mut s = String::new();
    s.append("loops: ");
    append_loops(&mut s, commands.loops());
    s.append("\ncommands:\n");
    let ghost header = "loops: "@ + spec_emit_loops(script.loops) + "\ncommands:\n"@;
    proof {
        assert(s@ =~= header);
    }
    let list = commands.iter_commands();
    let mut i: usize = 0;
    while i < list.len()
        invariant
            i <= list@.len(),
            list@ == commands@.commands,
            commands@ == script,
            s@ == header + spec_emit_records(list@.take(i as int)),
        decreases list@.len() - i,
    {
        append_record(&mut s, &list[i]);
        proof {
            assert(list@.take(i as int + 1) =~= list@.take(i as int).push(list@[i as int]));
            lemma_emit_records_snoc(list@.take(i as int), list@[i as int]);
            assert(s@ =~= header + spec_emit_records(list@.take(i as int + 1)));
        }
        i = i + 1;
    }
    proof {
        assert(list@.take(list@.len() as int) =~= list@);
        assert(s@ =~= spec_emit_script(script));
    }
    s
}

/// Whether the text carries the given token at position `i`.
pub open spec fn spec_match_at(s: Seq<char>, i: int, tok: Seq<char>) -> bool {
    0 <= i && i + tok.len() <= s.len() && s.subrange(i, i + tok.len()) == tok
}

/// Reading a repeat count bounded by the machine's word width.
pub open spec fn spec_parse_usize(s: Seq<char>, i: int) -> Option<(usize, int)> {
    match spec_parse_u64(s, i) {
        Some((v, j)) => if v <= usize::MAX {
            Some((v as usize, j))
        } else {
            None
        },
        None => None,
    }
}

/// Reading a repeat count: the tag for running forever, or the structured
/// run-n-times value.
pub open spec fn spec_parse_loops(s: Seq<char>, i: int) -> Option<(Loops, int)> {
    if spec_match_at(s, i, "Infinite"@) {
        Some((Loops::Infinite, i + "Infinite"@.len()))
    } else if spec_match_at(s, i, "{Amount: "@) {
        match spec_parse_usize(s, i + "{Amount: "@.len()) {
            Some((v, j)) => if spec_match_at(s, j, "}"@) {
                Some((Loops::Amount(v), j + "}"@.len()))
            } else {
                None
            },
            None => None,
        }
    } else {
        None
    }
}

/// Reading a signed coordinate.
pub open spec fn spec_parse_i32(s: Seq<char>, i: int) -> Option<(i32, int)> {
    if spec_match_at(s, i, "-"@) {
        match spec_parse_u64(s, i + "-"@.len()) {
            Some((v, j)) => if v <= 0x8000_0000u64 {
                Some(((-(v as int)) as i32, j))
            } else {
                None
            },
            None => None,
        }
    } else {
        match spec_parse_u64(s, i) {
            Some((v, j)) => if v <= 0x7FFF_FFFFu64 {
                Some((v as i32, j))
            } else {
                None
            },
            None => None,
        }
    }
}

/// The characters that end a key name in a record.
pub open spec fn spec_is_name_end(c: char) -> bool {
    c == ',' || c == '}'
}

/// Where the key name that starts at `i` ends: the first comma or closing
/// brace at or after `i`, or the end of the text.
pub open spec fn name_end(s: Seq<char>, i: int) -> int
    decreases s.len() - i,
{
    if i < 0 {
        i
    } else if i >= s.len() {
        s.len() as int
    } else if spec_is_name_end(s[i]) {
        i
    } else {
        name_end(s, i + 1)
    }
}

/// The key a textual name stands for, `None` for any other text.
pub open spec fn spec_key_of_name(t: Seq<char>) -> Option<Key> {
    if t.len() == 1 {
        if t[0] == 'A' {
            Some(Key::A)
        } else if t[0] == 'B' {
            Some(Key::B)
        } else if t[0] == 'C' {
            Some(Key::C)
        } else if t[0] == 'D' {
            Some(Key::D)
        } else if t[0] == 'E' {
            Some(Key::E)
        } else if t[0] == 'F' {
            Some(Key::F)
        } else if t[0] == 'G' {
            Some(Key::G)
        } else if t[0] == 'H' {
            Some(Key::H)
        } else if t[0] == 'I' {
            Some(Key::I)
        } else if t[0] == 'J' {
            Some(Key::J)
        } else if t[0] == 'K' {
            Some(Key::K)
        } else if t[0] == 'L' {
            Some(Key::L)
        } else if t[0] == 'M' {
            Some(Key::M)
        } else if t[0] == 'N' {
            Some(Key::N)
        } else if t[0] == 'O' {
            Some(Key::O)
        } else if t[0] == 'P' {
            Some(Key::P)
        } else if t[0] == 'Q' {
            Some(Key::Q)
        } else if t[0] == 'R' {
            Some(Key::R)
        } else if t[0] == 'S' {
            Some(Key::S)
        } else if t[0] == 'T' {
            Some(Key::T)
        } else if t[0] == 'U' {
            Some(Key::U)
        } else if t[0] == 'V' {
            Some(Key::V)
        } else if t[0] == 'W' {
            Some(Key::W)
        } else if t[0] == 'X' {
            Some(Key::X)
        } else if t[0] == 'Y' {
            Some(Key::Y)
        } else if t[0] == 'Z' {
            Some(Key::Z)
        } else {
            None
        }
    } else if t == "MouseLeft"@ {
        Some(Key::MouseLeft)
    } else if t == "MouseRight"@ {
        Some(Key::MouseRight)
    } else if t == "MouseMiddle"@ {
        Some(Key::MouseMiddle)
    } else if t == "MouseX1"@ {
        Some(Key::MouseX1)
    } else if t == "MouseX2"@ {
        Some(Key::MouseX2)
    } else if t == "KeyboardLeft"@ {
        Some(Key::KeyboardLeft)
    } else if t == "KeyboardUp"@ {
        Some(Key::KeyboardUp)
    } else if t == "KeyboardRight"@ {
        Some(Key::KeyboardRight)
    } else if t == "KeyboardDown"@ {
        Some(Key::KeyboardDown)
    } else if t == "Escape"@ {
        Some(Key::Escape)
    } else {
        None
    }
}

/// Reading a key name: the text up to the next comma or closing brace,
/// looked up among the key names.
pub open spec fn spec_parse_key(s: Seq<char>, i: int) -> Option<(Key, int)> {
    if 0 <= i <= s.len() {
        let j = name_end(s, i);
        match spec_key_of_name(s.subrange(i, j)) {
            Some(k) => Some((k, j)),
            None => None,
        }
    } else {
        None
    }
}

/// Reading the positioned tail of a mouse record: the two coordinates and
/// the closing brace.
pub open spec fn spec_parse_mouse_tail(s: Seq<char>, i: int, key: Key, loops: Loops) -> Option<
    (Command, int),
> {
    if spec_match_at(s, i, ", x: "@) {
        match spec_parse_i32(s, i + ", x: "@.len()) {
            Some((x, j)) => if spec_match_at(s, j, ", y: "@) {
                match spec_parse_i32(s, j + ", y: "@.len()) {
                    Some((y, j2)) => if spec_match_at(s, j2, "}\n"@) {
                        Some((Command::MouseCommand { key, loops, x, y }, j2 + "}\n"@.len()))
                    } else {
                        None
                    },
                    None => None,
                }
            } else {
                None
            },
            None => None,
        }
    } else {
        None
    }
}

/// Reading one record: a tagged mouse, keyboard or sleep line. The repeat
/// count may be left out and then defaults to running once.
pub open spec fn spec_parse_record(s: Seq<char>, i: int) -> Option<(Command, int)> {
    if spec_match_at(s, i, "- {type: mouse, key: "@) {
        match spec_parse_key(s, i + "- {type: mouse, key: "@.len()) {
            Some((key, j)) => if spec_match_at(s, j, ", loops: "@) {
                match spec_parse_loops(s, j + ", loops: "@.len()) {
                    Some((loops, j2)) => spec_parse_mouse_tail(s, j2, key, loops),
                    None => None,
                }
            } else {
                spec_parse_mouse_tail(s, j, key, Loops::Amount(1))
            },
            None => None,
        }
    } else if spec_match_at(s, i, "- {type: keyboard, key: "@) {
        match spec_parse_key(s, i + "- {type: keyboard, key: "@.len()) {
            Some((key, j)) => if spec_match_at(s, j, ", loops: "@) {
                match spec_parse_loops(s, j + ", loops: "@.len()) {
                    Some((loops, j2)) => if spec_match_at(s, j2, "}\n"@) {
                        Some((Command::KeyboardCommand { key, loops }, j2 + "}\n"@.len()))
                    } else {
                        None
                    },
                    None => None,
                }
            } else if spec_match_at(s, j, "}\n"@) {
                Some((Command::KeyboardCommand { key, loops: Loops::Amount(1) }, j + "}\n"@.len()))
            } else {
                None
            },
            None => None,
        }
    } else if spec_match_at(s, i, "- {type: sleep, millis: "@) {
        match spec_parse_u64(s, i + "- {type: sleep, millis: "@.len()) {
            Some((millis, j)) => if spec_match_at(s, j, "}\n"@) {
                Some((Command::SleepCommand { millis }, j + "}\n"@.len()))
            } else {
                None
            },
            None => None,
        }
    } else {
        None
    }
}

/// Reading the records from `i` to the end of the text.
pub open spec fn spec_parse_records(s: Seq<char>, i: int) -> Option<Seq<Command>>
    decreases s.len() - i,
{
    if i == s.len() {
        Some(Seq::empty())
    } else if 0 <= i < s.len() {
        match spec_parse_record(s, i) {
            Some((c, j)) => if i < j <= s.len() {
                match spec_parse_records(s, j) {
                    Some(rest) => Some(seq![c] + rest),
                    None => None,
                }
            } else {
                None
            },
            None => None,
        }
    } else {
        None
    }
}

/// Reading a whole script document.
pub open spec fn spec_parse_script(s: Seq<char>) -> Option<ScriptView> {
    if spec_match_at(s, 0, "loops: "@) {
        match spec_parse_loops(s, "loops: "@.len() as int) {
            Some((loops, j)) => if spec_match_at(s, j, "\ncommands:\n"@) {
                match spec_parse_records(s, j + "\ncommands:\n"@.len()) {
                    Some(commands) => Some(ScriptView { loops, commands }),
                    None => None,
                }
            } else {
                None
            },
            None => None,
        }
    } else {
        None
    }
}

/// Checks whether the text carries the token at position `i`.
fn match_at(s: &str, n: usize, i: usize, tok: &str) -> (r: bool)
    requires
        n == s@.len(),
        i <= n,
    ensures
        r == spec_match_at(s@, i as int, tok@),
{
    let tn = tok.unicode_len();
    if tn > n - i {
        return false;
    }
    let mut k: usize = 0;
    while k < tn
        invariant
            n == s@.len(),
            tn == tok@.len(),
            i + tn <= n,
            k <= tn,
            forall|m: int| 0 <= m < k ==> s@[i + m] == tok@[m],
        decreases tn - k,
    {
        if s.get_char(i + k) != tok.get_char(k) {
            proof {
                if spec_match_at(s@, i as int, tok@) {
                    assert(s@.subrange(i as int, i as int + tn as int)[k as int] == s@[i + k]);
                }
            }
            return false;
        }
        k = k + 1;
    }
    proof {
        assert(s@.subrange(i as int, i as int + tn as int) =~= tok@);
    }
    true
}

/// Checks whether the whole text equals the token.
fn str_equals(t: &str, tn: usize, tok: &str) -> (r: bool)
    requires
        tn == t@.len(),
    ensures
        r == (t@ == tok@),
{
    let n = tok.unicode_len();
    if tn != n {
        proof {
            if t@ == tok@ {
                assert(t@.len() == tok@.len());
            }
        }
        return false;
    }
    let r = match_at(t, tn, 0, tok);
    proof {
        if r {
            assert(t@.subrange(0, tn as int) =~= t@);
        }
        if t@ == tok@ {
            assert(t@.subrange(0, tn as int) =~= tok@);
        }
    }
    r
}

/// Reads a repeat count bounded by the machine's word width.
fn parse_usize_at(s: &str, n: usize, i: usize) -> (r: Option<(usize, usize)>)
    requires
        n == s@.len(),
        i <= n,
    ensures
        r matches Some((v, j)) ==> spec_parse_usize(s@, i as int) == Some((v, j as int)) && i < j
            <= n,
        r is None <==> spec_parse_usize(s@, i as int) is None,
{
    match parse_u64_at(s, n, i) {
        Some((v, j)) => {
            if v <= usize::MAX as u64 {
                Some((v as usize, j))
            } else {
                None
            }
        },
        None => None,
    }
}

/// Reads a repeat count: the tag for running forever, or the structured
/// run-n-times value.
fn parse_loops_at(s: &str, n: usize, i: usize) -> (r: Option<(Loops, usize)>)
    requires
        n == s@.len(),
        i <= n,
    ensures
        r matches Some((l, j)) ==> spec_parse_loops(s@, i as int) == Some((l, j as int)) && i < j
            <= n,
        r is None <==> spec_parse_loops(s@, i as int) is None,
{
    proof {
        reveal_strlit("Infinite");
        reveal_strlit("{Amount: ");
        reveal_strlit("}");
    }
    if match_at(s, n, i, "Infinite") {
        Some((Loops::Infinite, i + 8))
    } else if match_at(s, n, i, "{Amount: ") {
        match parse_usize_at(s, n, i + 9) {
            Some((v, j)) => {
                if match_at(s, n, j, "}") {
                    Some((Loops::Amount(v), j + 1))
                } else {
                    None
                }
            },
            None => None,
        }
    } else {
        None
    }
}

/// Reads a signed coordinate.
fn parse_i32_at(s: &str, n: usize, i: usize) -> (r: Option<(i32, usize)>)
    requires
        n == s@.len(),
        i <= n,
    ensures
        r matches Some((v, j)) ==> spec_parse_i32(s@, i as int) == Some((v, j as int)) && i < j
            <= n,
        r is None <==> spec_parse_i32(s@, i as int) is None,
{
    proof {
        reveal_strlit("-");
    }
    if match_at(s, n, i, "-") {
        match parse_u64_at(s, n, i + 1) {
            Some((v, j)) => {
                if v <= 0x8000_0000u64 {
                    let wide: i64 = -(v as i64);
                    let narrow: i32 = wide as i32;
                    proof {
                        assert(narrow as int == -(v as int));
                    }
                    Some((narrow, j))
                } else {
                    None
                }
            },
            None => None,
        }
    } else {
        match parse_u64_at(s, n, i) {
            Some((v, j)) => {
                if v <= 0x7FFF_FFFFu64 {
                    Some((v as i32, j))
                } else {
                    None
                }
            },
            None => None,
        }
    }
}

/// Finds where the key name that starts at `i` ends.
fn name_end_from(s: &str, n: usize, i: usize) -> (r: usize)
    requires
        n == s@.len(),
        i <= n,
    ensures
        r == name_end(s@, i as int),
        i <= r <= n,
{
    let mut j = i;
    while j < n
        invariant
            n == s@.len(),
            i <= j <= n,
            name_end(s@, i as int) == name_end(s@, j as int),
        decreases n - j,
    {
        let c = s.get_char(j);
        if c == ',' || c == '}' {
            return j;
        }
        j = j + 1;
    }
    j
}

/// Looks a textual name up among the key names.
fn key_of_token(t: &str) -> (r: Option<Key>)
    ensures
        r == spec_key_of_name(t@),
{
    let tn = t.unicode_len();
    if tn == 1 {
        let c = t.get_char(0);
        if c == 'A' {
            Some(Key::A)
        } else if c == 'B' {
            Some(Key::B)
        } else if c == 'C' {
            Some(Key::C)
        } else if c == 'D' {
            Some(Key::D)
        } else if c == 'E' {
            Some(Key::E)
        } else if c == 'F' {
            Some(Key::F)
        } else if c == 'G' {
            Some(Key::G)
        } else if c == 'H' {
            Some(Key::H)
        } else if c == 'I' {
            Some(Key::I)
        } else if c == 'J' {
            Some(Key::J)
        } else if c == 'K' {
            Some(Key::K)
        } else if c == 'L' {
            Some(Key::L)
        } else if c == 'M' {
            Some(Key::M)
        } else if c == 'N' {
            Some(Key::N)
        } else if c == 'O' {
            Some(Key::O)
        } else if c == 'P' {
            Some(Key::P)
        } else if c == 'Q' {
            Some(Key::Q)
        } else if c == 'R' {
            Some(Key::R)
        } else if c == 'S' {
            Some(Key::S)
        } else if c == 'T' {
            Some(Key::T)
        } else if c == 'U' {
            Some(Key::U)
        } else if c == 'V' {
            Some(Key::V)
        } else if c == 'W' {
            Some(Key::W)
        } else if c == 'X' {
            Some(Key::X)
        } else if c == 'Y' {
            Some(Key::Y)
        } else if c == 'Z' {
            Some(Key::Z)
        } else {
            None
        }
    } else if str_equals(t, tn, "MouseLeft") {
        Some(Key::MouseLeft)
    } else if str_equals(t, tn, "MouseRight") {
        Some(Key::MouseRight)
    } else if str_equals(t, tn, "MouseMiddle") {
        Some(Key::MouseMiddle)
    } else if str_equals(t, tn, "MouseX1") {
        Some(Key::MouseX1)
    } else if str_equals(t, tn, "MouseX2") {
        Some(Key::MouseX2)
    } else if str_equals(t, tn, "KeyboardLeft") {
        Some(Key::KeyboardLeft)
    } else if str_equals(t, tn, "KeyboardUp") {
        Some(Key::KeyboardUp)
    } else if str_equals(t, tn, "KeyboardRight") {
        Some(Key::KeyboardRight)
    } else if str_equals(t, tn, "KeyboardDown") {
        Some(Key::KeyboardDown)
    } else if str_equals(t, tn, "Escape") {
        Some(Key::Escape)
    } else {
        None
    }
}

/// Reads a key name.
fn parse_key_at(s: &str, n: usize, i: usize) -> (r: Option<(Key, usize)>)
    requires
        n == s@.len(),
        i <= n,
    ensures
        r matches Some((k, j)) ==> spec_parse_key(s@, i as int) == Some((k, j as int)) && i <= j
            <= n,
        r is None <==> spec_parse_key(s@, i as int) is None,
{
    let j = name_end_from(s, n, i);
    let token = s.substring_char(i, j);
    match key_of_token(token) {
        Some(k) => Some((k, j)),
        None => None,
    }
}

/// Reads the positioned tail of a mouse record.
fn parse_mouse_tail_at(s: &str, n: usize, i: usize, key: Key, loops: Loops) -> (r: Option<
    (Command, usize),
>)
    requires
        n == s@.len(),
        i <= n,
    ensures
        r matches Some((c, j)) ==> spec_parse_mouse_tail(s@, i as int, key, loops) == Some(
            (c, j as int),
        ) && i < j <= n,
        r is None <==> spec_parse_mouse_tail(s@, i as int, key, loops) is None,
{
    proof {
        reveal_strlit(", x: ");
        reveal_strlit(", y: ");
        reveal_strlit("}\n");
    }
    if !match_at(s, n, i, ", x: ") {
        return None;
    }
    match parse_i32_at(s, n, i + 5) {
        None => None,
        Some((x, j)) => {
            if !match_at(s, n, j, ", y: ") {
                return None;
            }
            match parse_i32_at(s, n, j + 5) {
                None => None,
                Some((y, j2)) => {
                    if match_at(s, n, j2, "}\n") {
                        Some((Command::MouseCommand { key, loops, x, y }, j2 + 2))
                    } else {
                        None
                    }
                },
            }
        },
    }
}

/// Reads one record.
fn parse_record_at(s: &str, n: usize, i: usize) -> (r: Option<(Command, usize)>)
    requires
        n == s@.len(),
        i <= n,
    ensures
        r matches Some((c, j)) ==> spec_parse_record(s@, i as int) == Some((c, j as int)) && i < j
            <= n,
        r is None <==> spec_parse_record(s@, i as int) is None,
{
    proof {
        reveal_strlit("- {type: mouse, key: ");
        reveal_strlit("- {type: keyboard, key: ");
        reveal_strlit("- {type: sleep, millis: ");
        reveal_strlit(", loops: ");
        reveal_strlit("}\n");
    }
    if match_at(s, n, i, "- {type: mouse, key: ") {
        match parse_key_at(s, n, i + 21) {
            None => None,
            Some((key, j)) => {
                if match_at(s, n, j, ", loops: ") {
                    match parse_loops_at(s, n, j + 9) {
                        None => None,
                        Some((loops, j2)) => parse_mouse_tail_at(s, n, j2, key, loops),
                    }
                } else {
                    parse_mouse_tail_at(s, n, j, key, Loops::Amount(1))
                }
            },
        }
    } else if match_at(s, n, i, "- {type: keyboard, key: ") {
        match parse_key_at(s, n, i + 24) {
            None => None,
            Some((key, j)) => {
                if match_at(s, n, j, ", loops: ") {
                    match parse_loops_at(s, n, j + 9) {
                        None => None,
                        Some((loops, j2)) => {
                            if match_at(s, n, j2, "}\n") {
                                Some((Command::KeyboardCommand { key, loops }, j2 + 2))
                            } else {
                                None
                            }
                        },
                    }
                } else if match_at(s, n, j, "}\n") {
                    Some((Command::KeyboardCommand { key, loops: Loops::Amount(1) }, j + 2))
                } else {
                    None
                }
            },
        }
    } else if match_at(s, n, i, "- {type: sleep, millis: ") {
        match parse_u64_at(s, n, i + 24) {
            None => None,
            Some((millis, j)) => {
                if match_at(s, n, j, "}\n") {
                    Some((Command::SleepCommand { millis }, j + 2))
                } else {
                    None
                }
            },
        }
    } else {
        None
    }
}

/// Reads the records from `i` to the end of the text.
fn parse_records_at(s: &str, n: usize, i: usize) -> (r: Option<Vec<Command>>)
    requires
        n == s@.len(),
        i <= n,
    ensures
        r matches Some(v) ==> spec_parse_records(s@, i as int) == Some(v@),
        r is None <==> spec_parse_records(s@, i as int) is None,
{
    let mut acc: Vec<Command> = Vec::new();
    let mut pos = i;
    loop
        invariant
            n == s@.len(),
            i <= pos <= n,
            spec_parse_records(s@, pos as int) matches Some(rest) ==> spec_parse_records(
                s@,
                i as int,
            ) == Some(acc@ + rest),
            spec_parse_records(s@, pos as int) is None ==> spec_parse_records(
                s@,
                i as int,
            ) is None,
        ensures
            pos == n,
            spec_parse_records(s@, i as int) == Some(acc@ + Seq::<Command>::empty()),
        decreases n - pos,
    {
        if pos >= n {
            break ;
        }
        match parse_record_at(s, n, pos) {
            None => {
                return None;
            },
            Some((c, j)) => {
                proof {
                    match spec_parse_records(s@, j as int) {
                        Some(rest) => {
                            assert(spec_parse_records(s@, pos as int) == Some(seq![c] + rest));
                            assert(acc@ + (seq![c] + rest) =~= acc@.push(c) + rest);
                        },
                        None => {},
                    }
                }
                acc.push(c);
                pos = j;
            },
        }
    }
    proof {
        assert(acc@ + Seq::<Command>::empty() =~= acc@);
    }
    Some(acc)
}

/// Why a script text was refused: it does not follow the document shape this
/// codec writes.
#[derive(Clone, Copy, Debug, PartialEq, Eq, Structural)]
pub struct ParseError;

/// Reads a script from its persisted text: the exact inverse of `to_yaml`,
/// also accepting records whose repeat count is left out.
pub fn from_yaml(s: &str) -> (r: Result<Commands, ParseError>)
    ensures
        r matches Ok(c) ==> spec_parse_script(s@) == Some(c@),
        r is Err <==> spec_parse_script(s@) is None,
{
    proof {
        reveal_strlit("loops: ");
        reveal_strlit("\ncommands:\n");
    }
    let n = s.unicode_len();
    if !match_at(s, n, 0, "loops: ") {
        return Err(ParseError);
    }
    match parse_loops_at(s, n, 7) {
        None => Err(ParseError),
        Some((loops, j)) => {
            if !match_at(s, n, j, "\ncommands:\n") {
                return Err(ParseError);
            }
            match parse_records_at(s, n, j + 11) {
                None => Err(ParseError),
                Some(commands) => {
                    let r = Commands::new(loops, commands);
                    proof {
                        assert(spec_parse_script(s@) == Some(r@));
                    }
                    Ok(r)
                },
            }
        },
    }
}

// What follows proves the round-trip law: reading a written script gives the
// script back, field for field and in order.
/// Splitting a known stretch of text: when the text carries `t + u` at `i`,
/// it carries `t` at `i` and `u` right after.
proof fn lemma_split_at(s: Seq<char>, i: int, t: Seq<char>, u: Seq<char>)
    requires
        0 <= i,
        i + t.len() + u.len() <= s.len(),
        s.subrange(i, i + t.len() + u.len()) == t + u,
    ensures
        s.subrange(i, i + t.len()) == t,
        s.subrange(i + t.len(), i + t.len() + u.len()) == u,
{
    assert forall|m: int| 0 <= m < t.len() implies s.subrange(i, i + t.len())[m] == t[m] by {
        assert(s.subrange(i, i + t.len() + u.len())[m] == s[i + m]);
        assert(s.subrange(i, i + t.len())[m] == s[i + m]);
        assert((t + u)[m] == t[m]);
    }
    assert(s.subrange(i, i + t.len()) =~= t);
    assert forall|m: int| 0 <= m < u.len() implies s.subrange(
        i + t.len(),
        i + t.len() + u.len(),
    )[m] == u[m] by {
        assert(s.subrange(i, i + t.len() + u.len())[t.len() + m] == s[i + t.len() + m]);
        assert((t + u)[t.len() + m] == u[m]);
        assert(s.subrange(i + t.len(), i + t.len() + u.len())[m] == s[i + t.len() + m]);
    }
    assert(s.subrange(i + t.len(), i + t.len() + u.len()) =~= u);
}

/// A stretch without name-end characters followed by one is exactly the key
/// name the reader takes.
proof fn lemma_name_end_exact(s: Seq<char>, i: int, j: int)
    requires
        0 <= i <= j < s.len(),
        forall|m: int| i <= m < j ==> !spec_is_name_end(s[m]),
        spec_is_name_end(s[j]),
    ensures
        name_end(s, i) == j,
    decreases j - i,
{
    if i < j {
        lemma_name_end_exact(s, i + 1, j);
    }
}

/// No key name is empty or holds a character that ends a name.
proof fn lemma_key_name_clean(k: Key)
    ensures
        spec_key_name(k).len() >= 1,
        forall|m: int| 0 <= m < spec_key_name(k).len() ==> !spec_is_name_end(
            #[trigger] spec_key_name(k)[m],
        ),
{
    reveal_strlit("MouseLeft");
    reveal_strlit("MouseRight");
    reveal_strlit("MouseMiddle");
    reveal_strlit("MouseX1");
    reveal_strlit("MouseX2");
    reveal_strlit("KeyboardLeft");
    reveal_strlit("KeyboardUp");
    reveal_strlit("KeyboardRight");
    reveal_strlit("KeyboardDown");
    reveal_strlit("A");
    reveal_strlit("B");
    reveal_strlit("C");
    reveal_strlit("D");
    reveal_strlit("E");
    reveal_strlit("F");
    reveal_strlit("G");
    reveal_strlit("H");
    reveal_strlit("I");
    reveal_strlit("J");
    reveal_strlit("K");
    reveal_strlit("L");
    reveal_strlit("M");
    reveal_strlit("N");
    reveal_strlit("O");
    reveal_strlit("P");
    reveal_strlit("Q");
    reveal_strlit("R");
    reveal_strlit("S");
    reveal_strlit("T");
    reveal_strlit("U");
    reveal_strlit("V");
    reveal_strlit("W");
    reveal_strlit("X");
    reveal_strlit("Y");
    reveal_strlit("Z");
    reveal_strlit("Escape");
}

/// Looking a key's own name up gives the key back.
proof fn lemma_key_of_name_round_trip(k: Key)
    ensures
        spec_key_of_name(spec_key_name(k)) == Some(k),
{
    reveal_strlit("MouseLeft");
    reveal_strlit("MouseRight");
    reveal_strlit("MouseMiddle");
    reveal_strlit("MouseX1");
    reveal_strlit("MouseX2");
    reveal_strlit("KeyboardLeft");
    reveal_strlit("KeyboardUp");
    reveal_strlit("KeyboardRight");
    reveal_strlit("KeyboardDown");
    reveal_strlit("A");
    reveal_strlit("B");
    reveal_strlit("C");
    reveal_strlit("D");
    reveal_strlit("E");
    reveal_strlit("F");
    reveal_strlit("G");
    reveal_strlit("H");
    reveal_strlit("I");
    reveal_strlit("J");
    reveal_strlit("K");
    reveal_strlit("L");
    reveal_strlit("M");
    reveal_strlit("N");
    reveal_strlit("O");
    reveal_strlit("P");
    reveal_strlit("Q");
    reveal_strlit("R");
    reveal_strlit("S");
    reveal_strlit("T");
    reveal_strlit("U");
    reveal_strlit("V");
    reveal_strlit("W");
    reveal_strlit("X");
    reveal_strlit("Y");
    reveal_strlit("Z");
    reveal_strlit("Escape");
    assert("MouseX2"@ != "MouseX1"@) by {
        if "MouseX2"@ == "MouseX1"@ {
            assert("MouseX2"@[6] == "MouseX1"@[6]);
        }
    }
    assert("KeyboardUp"@ != "MouseRight"@) by {
        if "KeyboardUp"@ == "MouseRight"@ {
            assert("KeyboardUp"@[0] == "MouseRight"@[0]);
        }
    }
    assert("KeyboardDown"@ != "KeyboardLeft"@) by {
        if "KeyboardDown"@ == "KeyboardLeft"@ {
            assert("KeyboardDown"@[8] == "KeyboardLeft"@[8]);
        }
    }
}

/// Reading at a key name that a name-end character follows gives the key and
/// stops at that character.
proof fn lemma_parse_key_of_emit(s: Seq<char>, i: int, k: Key)
    requires
        0 <= i,
        i + spec_key_name(k).len() < s.len(),
        s.subrange(i, i + spec_key_name(k).len()) == spec_key_name(k),
        spec_is_name_end(s[i + spec_key_name(k).len()]),
    ensures
        spec_parse_key(s, i) == Some((k, i + spec_key_name(k).len())),
{
    let name = spec_key_name(k);
    let l = name.len() as int;
    lemma_key_name_clean(k);
    assert forall|m: int| i <= m < i + l implies !spec_is_name_end(s[m]) by {
        assert(s.subrange(i, i + l)[m - i] == s[m]);
        assert(name[m - i] == s[m]);
    }
    lemma_name_end_exact(s, i, i + l);
    lemma_key_of_name_round_trip(k);
}

/// Reading at a written repeat count gives the count and stops after it.
proof fn lemma_parse_loops_of_emit(s: Seq<char>, i: int, l: Loops)
    requires
        0 <= i,
        i + spec_emit_loops(l).len() <= s.len(),
        s.subrange(i, i + spec_emit_loops(l).len()) == spec_emit_loops(l),
    ensures
        spec_parse_loops(s, i) == Some((l, i + spec_emit_loops(l).len())),
{
    reveal_strlit("Infinite");
    reveal_strlit("{Amount: ");
    reveal_strlit("}");
    match l {
        Loops::Infinite => {
            assert(spec_match_at(s, i, "Infinite"@));
        },
        Loops::Amount(n) => {
            let dec = spec_decimal(n as int);
            lemma_split_at(s, i, "{Amount: "@ + dec, "}"@);
            lemma_split_at(s, i, "{Amount: "@, dec);
            assert(s.subrange(i, i + 9)[0] == s[i]);
            assert(s[i] == '{');
            assert(!spec_match_at(s, i, "Infinite"@)) by {
                if spec_match_at(s, i, "Infinite"@) {
                    assert(s.subrange(i, i + 8)[0] == s[i]);
                }
            }
            assert(spec_match_at(s, i, "{Amount: "@));
            assert(s.subrange(i + 9 + dec.len(), i + 9 + dec.len() + 1)[0] == s[i + 9
                + dec.len()]);
            assert(s[i + 9 + dec.len()] == '}');
            assert(spec_decimal((n as u64) as int) == dec);
            lemma_parse_u64_of_decimal(s, i + 9, n as u64);
            assert(spec_match_at(s, i + 9 + dec.len(), "}"@));
        },
    }
}

/// Reading at a written coordinate that a non-digit follows gives the
/// coordinate and stops after its digits.
proof fn lemma_parse_i32_of_emit(s: Seq<char>, i: int, x: i32)
    requires
        0 <= i,
        i + spec_emit_i32(x as int).len() < s.len(),
        s.subrange(i, i + spec_emit_i32(x as int).len()) == spec_emit_i32(x as int),
        !spec_is_digit(s[i + spec_emit_i32(x as int).len()]),
    ensures
        spec_parse_i32(s, i) == Some((x, i + spec_emit_i32(x as int).len())),
{
    reveal_strlit("-");
    if x < 0 {
        let magnitude = -(x as int);
        let dec = spec_decimal(magnitude);
        lemma_split_at(s, i, "-"@, dec);
        assert(spec_match_at(s, i, "-"@));
        assert(spec_decimal((magnitude as u64) as int) == dec);
        lemma_parse_u64_of_decimal(s, i + 1, magnitude as u64);
    } else {
        let dec = spec_decimal(x as int);
        lemma_decimal_round_trip(x as int);
        assert(s.subrange(i, i + dec.len())[0] == s[i]);
        assert(spec_is_digit(s[i]));
        assert(!spec_match_at(s, i, "-"@)) by {
            if spec_match_at(s, i, "-"@) {
                assert(s.subrange(i, i + 1)[0] == s[i]);
            }
        }
        assert(spec_decimal((x as u64) as int) == dec);
        lemma_parse_u64_of_decimal(s, i, x as u64);
    }
}

/// Reading at a written record gives the command and stops after its line.
proof fn lemma_parse_record_of_emit(s: Seq<char>, i: int, c: Command)
    requires
        0 <= i,
        i + spec_emit_record(c).len() <= s.len(),
        s.subrange(i, i + spec_emit_record(c).len()) == spec_emit_record(c),
    ensures
        spec_parse_record(s, i) == Some((c, i + spec_emit_record(c).len())),
{
    reveal_strlit("- {type: mouse, key: ");
    reveal_strlit("- {type: keyboard, key: ");
    reveal_strlit("- {type: sleep, millis: ");
    reveal_strlit(", loops: ");
    reveal_strlit(", x: ");
    reveal_strlit(", y: ");
    reveal_strlit("}\n");
    let p_end = "}\n"@;
    match c {
        Command::MouseCommand { key, loops, x, y } => {
            let p_m = "- {type: mouse, key: "@;
            let p_loops = ", loops: "@;
            let p_x = ", x: "@;
            let p_y = ", y: "@;
            let name = spec_key_name(key);
            let el = spec_emit_loops(loops);
            let ex = spec_emit_i32(x as int);
            let ey = spec_emit_i32(y as int);
            let a1 = p_m + name;
            let a2 = a1 + p_loops;
            let a3 = a2 + el;
            let a4 = a3 + p_x;
            let a5 = a4 + ex;
            let a6 = a5 + p_y;
            let a7 = a6 + ey;
            lemma_split_at(s, i, a7, p_end);
            lemma_split_at(s, i, a6, ey);
            lemma_split_at(s, i, a5, p_y);
            lemma_split_at(s, i, a4, ex);
            lemma_split_at(s, i, a3, p_x);
            lemma_split_at(s, i, a2, el);
            lemma_split_at(s, i, a1, p_loops);
            lemma_split_at(s, i, p_m, name);
            assert(spec_match_at(s, i, p_m));
            assert(s.subrange(i + a1.len(), i + a2.len())[0] == s[i + a1.len()]);
            assert(s[i + a1.len()] == ',');
            lemma_parse_key_of_emit(s, i + p_m.len(), key);
            assert(spec_match_at(s, i + a1.len(), p_loops));
            lemma_parse_loops_of_emit(s, i + a2.len(), loops);
            assert(spec_match_at(s, i + a3.len(), p_x));
            assert(s.subrange(i + a5.len(), i + a6.len())[0] == s[i + a5.len()]);
            assert(s[i + a5.len()] == ',');
            lemma_parse_i32_of_emit(s, i + a4.len(), x);
            assert(spec_match_at(s, i + a5.len(), p_y));
            assert(s.subrange(i + a7.len(), i + a7.len() + p_end.len())[0] == s[i + a7.len()]);
            assert(s[i + a7.len()] == '}');
            lemma_parse_i32_of_emit(s, i + a6.len(), y);
            assert(spec_match_at(s, i + a7.len(), p_end));
        },
        Command::KeyboardCommand { key, loops } => {
            let p_m = "- {type: mouse, key: "@;
            let p_k = "- {type: keyboard, key: "@;
            let p_loops = ", loops: "@;
            let name = spec_key_name(key);
            let el = spec_emit_loops(loops);
            let a1 = p_k + name;
            let a2 = a1 + p_loops;
            let a3 = a2 + el;
            lemma_split_at(s, i, a3, p_end);
            lemma_split_at(s, i, a2, el);
            lemma_split_at(s, i, a1, p_loops);
            lemma_split_at(s, i, p_k, name);
            assert(s.subrange(i, i + p_k.len())[9] == s[i + 9]);
            assert(s[i + 9] == 'k');
            assert(!spec_match_at(s, i, p_m)) by {
                if spec_match_at(s, i, p_m) {
                    assert(s.subrange(i, i + p_m.len())[9] == s[i + 9]);
                }
            }
            assert(spec_match_at(s, i, p_k));
            assert(s.subrange(i + a1.len(), i + a2.len())[0] == s[i + a1.len()]);
            assert(s[i + a1.len()] == ',');
            lemma_parse_key_of_emit(s, i + p_k.len(), key);
            assert(spec_match_at(s, i + a1.len(), p_loops));
            lemma_parse_loops_of_emit(s, i + a2.len(), loops);
            assert(spec_match_at(s, i + a3.len(), p_end));
        },
        Command::SleepCommand { millis } => {
            let p_m = "- {type: mouse, key: "@;
            let p_k = "- {type: keyboard, key: "@;
            let p_s = "- {type: sleep, millis: "@;
            let dec = spec_decimal(millis as int);
            let a1 = p_s + dec;
            lemma_split_at(s, i, a1, p_end);
            lemma_split_at(s, i, p_s, dec);
            assert(s.subrange(i, i + p_s.len())[9] == s[i + 9]);
            assert(s[i + 9] == 's');
            assert(!spec_match_at(s, i, p_m)) by {
                if spec_match_at(s, i, p_m) {
                    assert(s.subrange(i, i + p_m.len())[9] == s[i + 9]);
                }
            }
            assert(!spec_match_at(s, i, p_k)) by {
                if spec_match_at(s, i, p_k) {
                    assert(s.subrange(i, i + p_k.len())[9] == s[i + 9]);
                }
            }
            assert(spec_match_at(s, i, p_s));
            assert(s.subrange(i + a1.len(), i + a1.len() + p_end.len())[0] == s[i + a1.len()]);
            assert(s[i + a1.len()] == '}');
            lemma_parse_u64_of_decimal(s, i + p_s.len(), millis);
            assert(spec_match_at(s, i + a1.len(), p_end));
        },
    }
}

/// Reading records to the end of written records gives the command list
/// back.
proof fn lemma_parse_records_of_emit(s: Seq<char>, i: int, commands: Seq<Command>)
    requires
        0 <= i <= s.len(),
        s.subrange(i, s.len() as int) == spec_emit_records(commands),
    ensures
        spec_parse_records(s, i) == Some(commands),
    decreases commands.len(),
{
    reveal_strlit("}\n");
    if commands.len() == 0 {
        assert(spec_emit_records(commands) == Seq::<char>::empty());
        assert(s.subrange(i, s.len() as int).len() == s.len() - i);
        assert(s.len() - i == 0);
    } else {
        let c0 = commands[0];
        let rec = spec_emit_record(c0);
        let rest = spec_emit_records(commands.drop_first());
        assert(spec_emit_records(commands) == rec + rest);
        lemma_split_at(s, i, rec, rest);
        assert(rec.len() >= 2);
        lemma_parse_record_of_emit(s, i, c0);
        lemma_parse_records_of_emit(s, i + rec.len(), commands.drop_first());
        assert(seq![c0] + commands.drop_first() =~= commands);
    }
}

/// The round-trip law of the script codec: reading a written script gives
/// the script back, equal in structure and field order — the outer repeat
/// count and every command, in order, with every field.
pub proof fn lemma_yaml_round_trip(script: ScriptView)
    ensures
        spec_parse_script(spec_emit_script(script)) == Some(script),
{
    let s = spec_emit_script(script);
    let p_h = "loops: "@;
    let el = spec_emit_loops(script.loops);
    let p_c = "\ncommands:\n"@;
    let recs = spec_emit_records(script.commands);
    reveal_strlit("loops: ");
    reveal_strlit("\ncommands:\n");
    assert(s.subrange(0, s.len() as int) =~= s);
    lemma_split_at(s, 0, (p_h + el) + p_c, recs);
    lemma_split_at(s, 0, p_h + el, p_c);
    lemma_split_at(s, 0, p_h, el);
    assert(spec_match_at(s, 0, p_h));
    lemma_parse_loops_of_emit(s, p_h.len() as int, script.loops);
    assert(spec_match_at(s, (p_h.len() + el.len()) as int, p_c));
    lemma_parse_records_of_emit(s, (p_h.len() + el.len() + p_c.len()) as int, script.commands);
}

} // verus!
