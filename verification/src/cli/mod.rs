//! What the commands decide, apart from what they read and write.

pub mod gen;
pub mod show;
