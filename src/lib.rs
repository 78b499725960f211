//! Locating Bash scripts and running them line by line.
//!
//! The library decides; its caller does the I/O. [`script::ScriptRun`] reads
//! a script's text and says, step by step, which command to run in which
//! directory, keeping its own working-directory cursor across `cd` lines.
//! [`backend`] says which program runs a line on each platform, [`locate`]
//! finds scripts in a directory listing, and [`command`] reads what is typed
//! at the prompt.
pub mod backend;
pub mod command;
pub mod config;
pub mod locate;
pub mod paths;
pub mod script;
pub mod text;
