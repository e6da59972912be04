//! Chronicle gathers what happened in repositories, checklist files and note
//! directories into a dated report, and reports nothing twice.
//!
//! The heart of the library is the classification of what a run observes
//! against the record that the previous run left: each branch, checklist
//! item and note is new, modified or unchanged, and each source leaves a new
//! record for the next run. The [`collectors`] hold one classifier per kind
//! of source, [`state`] the record, [`models`] what is reported,
//! [`renderer`] the report as Markdown, and [`cli`] the sequence of a run.
//!
//! Nothing here reads a file, a repository, the clock or the environment: a
//! caller hands in what it read, and writes what it is handed back.

pub mod cli;
pub mod collectors;
pub mod config;
pub mod display;
pub mod error;
pub mod models;
pub mod paths;
pub mod renderer;
pub mod state;
pub mod string_map;
pub mod text;
pub mod time;
