//! Tests of the run configuration: the output-path rule and the derived
//! file name. The rule reads nothing itself: each case hands it what the
//! filesystem would report for the original path.

use clicker_bot::config::OutFileError;
use clicker_bot::config::ParentProbe;
use clicker_bot::config::PathProbe;
use clicker_bot::config::RecordCommand;
use clicker_bot::config::is_valid_out_file;

fn probe(is_dir: bool, is_file: bool, parent: Option<(bool, bool)>) -> PathProbe {
    PathProbe {
        is_dir,
        is_file,
        parent: parent.map(|(is_dir, is_relative)| ParentProbe { is_dir, is_relative }),
    }
}

#[test]
fn valid_out_files() {
    vec![
        // "test.yaml": no such file, parent is the empty relative path
        ("test.yaml", probe(false, false, Some((false, true)))),
        // "test/test.yaml": no such file, parent directory exists
        ("test/test.yaml", probe(false, false, Some((true, true)))),
    ]
    .into_iter()
    .map(|(_, p)| is_valid_out_file(&p))
    .enumerate()
    .for_each(|(case, result)| {
        assert!(result.is_ok(), "case {} - {:?}", case, result.err().unwrap())
    });
}

#[test]
fn invalid_out_files() {
    vec![
        // "Cargo.toml": an existing file
        ("Cargo.toml", probe(false, true, Some((false, true)))),
        // "test/commands.yaml": an existing file
        ("test/commands.yaml", probe(false, true, Some((true, true)))),
        // ".": an existing directory
        (".", probe(true, false, Some((false, true)))),
        // "test": an existing directory
        ("test", probe(true, false, Some((false, true)))),
    ]
    .into_iter()
    .map(|(_, p)| is_valid_out_file(&p))
    .enumerate()
    .for_each(|(case, result)| assert!(result.is_err(), "case {}", case));
}

#[test]
fn default_filename() {
    let filename = RecordCommand::default_filename();
    let s = filename.as_str();
    assert!(s.ends_with(".yaml"), "{} does not end with .yaml", s);
    assert!(!s.starts_with(".yaml"), "{} has no epoch seconds", s);
}

#[test]
fn out_file_scenarios() {
    // An existing file, a directory, and a path whose parent directory does
    // not exist are rejected, each with its own error.
    assert_eq!(
        Err(OutFileError::IsDirectory),
        is_valid_out_file(&probe(true, false, None))
    );
    assert_eq!(
        Err(OutFileError::AlreadyExists),
        is_valid_out_file(&probe(false, true, Some((true, true))))
    );
    assert_eq!(
        Err(OutFileError::MissingParent),
        is_valid_out_file(&probe(false, false, Some((false, false))))
    );
    // A new file is accepted in an existing directory, in a relative-implied
    // one, and at a path without a parent.
    assert_eq!(Ok(()), is_valid_out_file(&probe(false, false, Some((true, false)))));
    assert_eq!(Ok(()), is_valid_out_file(&probe(false, false, Some((false, true)))));
    assert_eq!(Ok(()), is_valid_out_file(&probe(false, false, None)));
}

#[test]
fn configured_out_file_is_kept() {
    let record = RecordCommand::new(Some(String::from("session.yaml")));
    assert_eq!("session.yaml", record.out_file().as_str());
    let derived = RecordCommand::new(None).out_file();
    assert!(derived.as_str().ends_with(".yaml"));
}
