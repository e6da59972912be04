//! The entities that a run observes and reports.

pub mod chronicle;
pub mod source;

pub use chronicle::{Chronicle, ChronicleStats, ChronicleView};
pub use source::{
    Branch, BranchView, ChangeKind, Commit, CommitView, Note, NoteView, Repository,
    RepositoryView, Todo, TodoStatus, TodoView,
};
