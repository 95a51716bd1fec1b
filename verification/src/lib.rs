//! The decisions of a Russian-speaking voice assistant: how a recognised command is parsed
//! and what is done for it, when a listener takes a command and what it asks the outside
//! world to do, which recording is played for a phrase, and when recording stops.

pub mod commands;
pub mod console;
pub mod session;
pub mod text;
pub mod voiceinput;
pub mod voiceoutput;
