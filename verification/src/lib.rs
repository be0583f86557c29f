//! Batch renaming of the entries of one directory.
//!
//! A run picks one [`Command`], turns every scanned name into a proposed new
//! name, previews the names that change, asks for confirmation and then
//! renames entry by entry. This crate holds the text transformations, the
//! planner, the confirmation rule and the state machine of a run, each with
//! a machine-checked contract; the program around it does the file-system
//! and terminal work.

pub mod command;
pub mod confirm;
pub mod pattern;
pub mod plan;
pub mod session;
pub mod substitution;
pub mod text;
pub mod trace;
pub mod transform;

pub use command::Command;
pub use plan::{build_plan, Entry, PlannedRename};
pub use session::{Action, Event, Outcome, Session, Stage};
