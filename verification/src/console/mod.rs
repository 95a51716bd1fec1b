pub mod commands;
pub mod voiceinput;
