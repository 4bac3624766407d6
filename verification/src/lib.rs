//! The decisions of a program that watches paths and runs a command on their events.
//!
//! - [`args`]: the settings of a run, their defaults, and what they ask for;
//! - [`event`], [`path`]: events, how they compare, and the lines that report them;
//! - [`globs`], [`filter`]: which events are of interest;
//! - [`watcher`]: what to do with what the file system reports and the channel delivers;
//! - [`handler`], [`process`]: what is done with the events, and how a process is started;
//! - [`session`]: the exchange between a handler and the system that does its work;
//! - [`error`], [`text`]: messages.
pub mod args;
pub mod error;
pub mod event;
pub mod filter;
pub mod globs;
pub mod handler;
pub mod path;
pub mod process;
pub mod session;
pub mod text;
pub mod watcher;
