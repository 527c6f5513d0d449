//! Verified core of an infrared remote-control bridge.
//!
//! A button press on an infrared remote arrives as a 64-bit code. The code is
//! looked up in a table of configured actions and, on a match, the action's
//! script is handed to a smart-home server for execution. This crate holds the
//! rules of that bridge as pure functions and small state machines; reading the
//! receiver, talking to the server and touching the file system are left to
//! the program that drives them.

pub mod action;
pub mod config;
pub mod daemon;
pub mod remote;
pub mod scanner;
pub mod text;
pub mod trace;
