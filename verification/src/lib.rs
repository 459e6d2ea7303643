//! Core of a desktop dictation front end: a line-oriented JSON bridge to a
//! long-lived helper process, and a debounced gesture classifier for a single
//! global modifier key.
//!
//! Everything here is pure logic over plain values. Process spawning, pipe
//! I/O, timers and the OS event tap live in the surrounding application,
//! which drives these state machines and codecs with the events it observes.

pub mod bridge;
pub mod codec_laws;
pub mod commands;
pub mod decode;
pub mod errors;
pub mod hotkey;
pub mod json;
pub mod logger;
pub mod permissions;
pub mod protocol;
pub mod util;
