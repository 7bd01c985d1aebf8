//! A contact book kept in a tree of groups and entries: looking entries up, listing and
//! searching them, editing them with change tracking, writing them out as vCards, and
//! the commands of an interactive shell that does all this.
//!
//! The library decides and computes; it neither reads nor writes anything. A command
//! is answered with lines to show and with what is to be done outside: writing the
//! store back, writing a file, or running the editor for notes.

pub mod actions;
pub mod browse;
pub mod command;
pub mod details;
pub mod entry;
pub mod notes;
pub mod session;
pub mod text;
pub mod tree;
pub mod vcard;
