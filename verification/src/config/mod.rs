//! The settings of a run.

pub mod types;

pub use types::{Config, Display, Limits};
