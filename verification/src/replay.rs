//! The script model and the two engines over it: the recorder that turns
//! signals into a script, and the replayer that executes a script.

pub mod codec;
pub mod command;
pub mod recorder;
pub mod replayer;

pub use command::Command;
pub use command::Commands;
pub use command::Loops;
pub use recorder::Recorder;
pub use replayer::Replayer;
