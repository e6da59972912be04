//! How a report is shown on a terminal.

pub mod terminal;

pub use terminal::should_use_colors;
