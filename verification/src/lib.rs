//! A keyboard/mouse macro engine: capture a sequence of key and mouse
//! activations as a script, persist it as human-editable text, and replay it
//! deterministically, with hotkeys that pause or stop either mode.
//!
//! The library holds the verified logic: the key and command model, the
//! edge-triggered input detector, the recorder and replayer state machines,
//! the script text codec, and the configuration checks. The operating-system
//! input layer, threads, channels and file handling live outside the library
//! and hand it plain values.

pub mod config;
pub mod decimal;
pub mod eventgrid;
pub mod hardware;
pub mod replay;

pub use config::Configuration;
pub use eventgrid::Signal;
pub use hardware::Key;
pub use replay::Command;
pub use replay::Commands;
pub use replay::Loops;
pub use replay::Recorder;
pub use replay::Replayer;
