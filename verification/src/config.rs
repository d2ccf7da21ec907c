//! The run configuration: the three operating modes, the recording output
//! path with its validity rule, and the default file name.

use vstd::prelude::*;

use crate::decimal::spec_decimal;
use crate::decimal::u64_to_string;

verus! {

/// What a run of the program does.
pub struct Configuration {
    pub subcommand: SubCommand,
}

/// The three operating modes: a click storm at the cursor position,
/// recording to a file, and replaying from a file.
pub enum SubCommand {
    Click,
    Record(RecordCommand),
    Replay(ReplayCommand),
}

/// The recording mode's settings: an optional output path; a time-stamped
/// name is derived when none is given.
pub struct RecordCommand {
    out_file: Option<String>,
}

/// The replay mode's settings: the path of the script to load.
pub struct ReplayCommand {
    file: String,
}

/// The derived output file name for a recording started at `secs` seconds
/// since the epoch.
pub open spec fn spec_yaml_name(secs: int) -> Seq<char> {
    spec_decimal(secs) + ".yaml"@
}

/// Relies on std::time::SystemTime::now: the seconds since the Unix epoch,
/// zero if the clock reads before it. Nothing can be promised of the
/// clock's value.
#[verifier::external_body]
fn epoch_seconds() -> u64 {
    std::time::SystemTime::now()
        .duration_since(std::time::SystemTime::UNIX_EPOCH)
        .unwrap_or_default()
        .as_secs()
}

impl RecordCommand {
    /// The configured output path, `None` when a name is to be derived.
    pub closed spec fn spec_out_file(&self) -> Option<Seq<char>> {
        match self.out_file {
            Some(path) => Some(path@),
            None => None,
        }
    }

    /// Builds the settings from an optional output path.
    pub fn new(out_file: Option<String>) -> (r: RecordCommand)
        ensures
            r.spec_out_file() == match out_file {
                Some(path) => Some(path@),
                None => None::<Seq<char>>,
            },
    {
        RecordCommand { out_file }
    }

    /// The output path for this recording: the configured one, or a
    /// time-stamped default name.
    pub fn out_file(&self) -> (r: String)
        ensures
            match self.spec_out_file() {
                Some(path) => r@ == path,
                None => exists|secs: u64| r@ == spec_yaml_name(secs as int),
            },
    {
        match &self.out_file {
            Some(path) => path.clone(),
            None => Self::default_filename(),
        }
    }

    /// Derives the default output name from the clock: the seconds since the
    /// epoch, with the script suffix.
    pub fn default_filename() -> (r: String)
        ensures
            exists|secs: u64| r@ == spec_yaml_name(secs as int),
    {
        let secs = epoch_seconds();
        let mut name = u64_to_string(secs);
        name.append(".yaml");
        proof {
            assert(name@ == spec_yaml_name(secs as int));
        }
        name
    }
}

impl ReplayCommand {
    /// The path of the script to load.
    pub closed spec fn spec_file(&self) -> Seq<char> {
        self.file@
    }

    /// Builds the settings from the script path.
    pub fn new(file: String) -> (r: ReplayCommand)
        ensures
            r.spec_file() == file@,
    {
        ReplayCommand { file }
    }

    /// The path of the script to load.
    pub fn file(&self) -> (r: &String)
        ensures
            r@ == self.spec_file(),
    {
        &self.file
    }
}

/// What the filesystem reports of the parent directory of a path.
#[derive(Clone, Copy, Debug, PartialEq, Eq, Structural)]
pub struct ParentProbe {
    /// The parent exists and is a directory.
    pub is_dir: bool,
    /// The parent is a relative path, taken as implied under the working
    /// directory.
    pub is_relative: bool,
}

/// What the filesystem reports of a candidate output path. The caller probes
/// the filesystem and hands the findings in; the rule itself reads nothing.
#[derive(Clone, Copy, Debug, PartialEq, Eq, Structural)]
pub struct PathProbe {
    /// The path names an existing directory.
    pub is_dir: bool,
    /// The path names an existing file.
    pub is_file: bool,
    /// The parent of the path, `None` when it has none.
    pub parent: Option<ParentProbe>,
}

/// Why a candidate output path is refused.
#[derive(Clone, Copy, Debug, PartialEq, Eq, Structural)]
pub enum OutFileError {
    /// The path names an existing directory.
    IsDirectory,
    /// The path names an existing file; recording never overwrites.
    AlreadyExists,
    /// The folder the file would land in does not exist.
    MissingParent,
}

/// The output-path rule: an existing directory and an existing file are
/// refused, as is a path whose parent directory neither exists nor is
/// relative-implied; everything else is accepted.
pub open spec fn spec_validate_out_file(probe: PathProbe) -> Result<(), OutFileError> {
    if probe.is_dir {
        Err(OutFileError::IsDirectory)
    } else if probe.is_file {
        Err(OutFileError::AlreadyExists)
    } else {
        match probe.parent {
            None => Ok(()),
            Some(parent) => if parent.is_dir || parent.is_relative {
                Ok(())
            } else {
                Err(OutFileError::MissingParent)
            },
        }
    }
}

/// Decides whether a recording may be written at the probed path: rejects an
/// existing file, an existing directory, and a path whose parent directory
/// is missing; accepts a new file in an existing or relative-implied
/// directory.
pub fn is_valid_out_file(probe: &PathProbe) -> (r: Result<(), OutFileError>)
    ensures
        r == spec_validate_out_file(*probe),
{
    if probe.is_dir {
        Err(OutFileError::IsDirectory)
    } else if probe.is_file {
        Err(OutFileError::AlreadyExists)
    } else {
        match probe.parent {
            None => Ok(()),
            Some(parent) => if parent.is_dir || parent.is_relative {
                Ok(())
            } else {
                Err(OutFileError::MissingParent)
            },
        }
    }
}

} // verus!
