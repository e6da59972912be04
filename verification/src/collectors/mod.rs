//! The classifiers, one per kind of source.

pub mod git;
pub mod git_proofs;
pub mod notes;
pub mod notes_proofs;
pub mod todo;
pub mod todo_proofs;

pub use git::{GitCollector, Head, ObservedBranch, RawCommit, RepositoryObservation};
pub use notes::{NoteFile, NotesCollector, NotesDirectory};
pub use todo::{TodoCollector, TodoFile};
