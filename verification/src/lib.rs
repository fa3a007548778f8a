//! Homebrew Manager: the verified core of a GUI for the `brew` command line.
//!
//! `brew` describes the commands that are run and reads their output,
//! `manager` holds the state of the program and decides what each event and
//! each request of the user does, `text` provides the line and word rules
//! the parsers are built from, and `laws` states what holds across calls.
pub mod brew;
pub mod laws;
pub mod manager;
pub mod text;
