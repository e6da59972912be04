use vstd::prelude::*;

use crate::models::source::{
    ChangeKind, Note, NoteView, Repository, RepositoryView, Todo, TodoView,
};
use crate::time::{Date, Timestamp};

verus! {

/// What one run reports: the activity since a cutoff, for one date.
#[derive(Debug)]
pub struct Chronicle {
    /// The date that the report is for.
    pub date: Date,
    /// The cutoff: only what happened at or after it is reported.
    pub since: Timestamp,
    /// When the report was made.
    pub generated_at: Timestamp,
    pub repositories: Vec<Repository>,
    pub todos: Vec<Todo>,
    pub notes: Vec<Note>,
}

/// The mathematical value of a [`Chronicle`].
pub ghost struct ChronicleView {
    pub date: Date,
    pub since: Timestamp,
    pub generated_at: Timestamp,
    pub repositories: Seq<RepositoryView>,
    pub todos: Seq<TodoView>,
    pub notes: Seq<NoteView>,
}

impl View for Chronicle {
    type V = ChronicleView;

    open spec fn view(&self) -> ChronicleView {
        ChronicleView {
            date: self.date,
            since: self.since,
            generated_at: self.generated_at,
            repositories: self.repositories.deep_view(),
            todos: self.todos.deep_view(),
            notes: self.notes.deep_view(),
        }
    }
}

/// The counts that head a report.
#[derive(Debug, Clone, Copy, PartialEq, Eq, Structural)]
pub struct ChronicleStats {
    /// The number of repositories with activity.
    pub repo_count: usize,
    /// The number of commits in all repositories.
    pub commit_count: usize,
    /// The number of new branches in all repositories.
    pub new_branch_count: usize,
    /// The number of new checklist items.
    pub todos_new: usize,
    /// The number of checklist items that have just been completed.
    pub todos_completed: usize,
    /// The number of notes.
    pub notes_count: usize,
}

/// The number of commits in all of `repositories`.
pub open spec fn commits_in(repositories: Seq<RepositoryView>) -> nat
    decreases repositories.len(),
{
    if repositories.len() == 0 {
        0
    } else {
        commits_in(repositories.drop_last()) + repositories.last().commit_count()
    }
}

/// The number of new branches in all of `repositories`.
pub open spec fn new_branches_in(repositories: Seq<RepositoryView>) -> nat
    decreases repositories.len(),
{
    if repositories.len() == 0 {
        0
    } else {
        new_branches_in(repositories.drop_last()) + repositories.last().new_branch_count()
    }
}

/// The number of `todos` that are new.
pub open spec fn count_new_todos(todos: Seq<TodoView>) -> nat
    decreases todos.len(),
{
    if todos.len() == 0 {
        0
    } else {
        count_new_todos(todos.drop_last()) + if todos.last().change == ChangeKind::New {
            1nat
        } else {
            0nat
        }
    }
}

/// The number of `todos` that have just been completed.
pub open spec fn count_completed_todos(todos: Seq<TodoView>) -> nat
    decreases todos.len(),
{
    if todos.len() == 0 {
        0
    } else {
        count_completed_todos(todos.drop_last()) + if todos.last().was_completed() {
            1nat
        } else {
            0nat
        }
    }
}

pub proof fn lemma_commits_in_monotone(repositories: Seq<RepositoryView>, n: int)
    requires
        0 <= n <= repositories.len(),
    ensures
        commits_in(repositories.take(n)) <= commits_in(repositories),
    decreases repositories.len() - n,
{
    if n < repositories.len() {
        lemma_commits_in_monotone(repositories, n + 1);
        assert(repositories.take(n + 1).drop_last() == repositories.take(n));
    } else {
        assert(repositories.take(n) == repositories);
    }
}

pub proof fn lemma_new_branches_in_monotone(repositories: Seq<RepositoryView>, n: int)
    requires
        0 <= n <= repositories.len(),
    ensures
        new_branches_in(repositories.take(n)) <= new_branches_in(repositories),
    decreases repositories.len() - n,
{
    if n < repositories.len() {
        lemma_new_branches_in_monotone(repositories, n + 1);
        assert(repositories.take(n + 1).drop_last() == repositories.take(n));
    } else {
        assert(repositories.take(n) == repositories);
    }
}

impl ChronicleView {
    /// The counts of commits and of new branches fit the machine's integers.
    pub open spec fn counts_fit(self) -> bool {
        commits_in(self.repositories) <= usize::MAX && new_branches_in(self.repositories)
            <= usize::MAX
    }

    /// The counts that head the report.
    pub open spec fn stats(self) -> ChronicleStats {
        ChronicleStats {
            repo_count: self.repositories.len() as usize,
            commit_count: commits_in(self.repositories) as usize,
            new_branch_count: new_branches_in(self.repositories) as usize,
            todos_new: count_new_todos(self.todos) as usize,
            todos_completed: count_completed_todos(self.todos) as usize,
            notes_count: self.notes.len() as usize,
        }
    }

    /// There is something to report.
    pub open spec fn has_activity(self) -> bool {
        self.repositories.len() > 0 || self.todos.len() > 0 || self.notes.len() > 0
    }
}

impl Chronicle {
    /// Whether the counts of commits and of new branches fit the machine's
    /// integers.
    pub fn counts_fit(&self) -> (fit: bool)
        ensures
            fit == self@.counts_fit(),
    {
        let mut commits: usize = 0;
        let mut branches: usize = 0;
        let ghost all = self.repositories.deep_view();
        let mut i: usize = 0;
        while i < self.repositories.len()
            invariant
                i <= self.repositories.len(),
                all == self.repositories.deep_view(),
                commits == commits_in(all.take(i as int)),
                branches == new_branches_in(all.take(i as int)),
            decreases self.repositories.len() - i,
        {
            proof {
                assert(all.take(i + 1).drop_last() == all.take(i as int));
                assert(all.take(i + 1).last() == self.repositories[i as int]@);
                lemma_commits_in_monotone(all, i + 1);
                lemma_new_branches_in_monotone(all, i + 1);
            }
            let repository = &self.repositories[i];
            let in_repository = match repository.checked_commit_count() {
                Some(n) => n,
                None => {
                    return false;
                },
            };
            if in_repository > usize::MAX - commits {
                return false;
            }
            let new_in_repository = repository.new_branch_count();
            if new_in_repository > usize::MAX - branches {
                return false;
            }
            commits = commits + in_repository;
            branches = branches + new_in_repository;
            i += 1;
        }
        assert(all.take(self.repositories.len() as int) == all);
        true
    }

    /// The counts that head the report.
    pub fn stats(&self) -> (stats: ChronicleStats)
        requires
            self@.counts_fit(),
        ensures
            stats == self@.stats(),
            stats.repo_count == self@.repositories.len(),
            stats.commit_count == commits_in(self@.repositories),
            stats.new_branch_count == new_branches_in(self@.repositories),
            stats.todos_new == count_new_todos(self@.todos),
            stats.todos_completed == count_completed_todos(self@.todos),
            stats.notes_count == self@.notes.len(),
    {
        let mut commit_count: usize = 0;
        let mut new_branch_count: usize = 0;
        let ghost all = self.repositories.deep_view();
        let mut i: usize = 0;
        while i < self.repositories.len()
            invariant
                i <= self.repositories.len(),
                all == self.repositories.deep_view(),
                commits_in(all) <= usize::MAX,
                new_branches_in(all) <= usize::MAX,
                commit_count == commits_in(all.take(i as int)),
                new_branch_count == new_branches_in(all.take(i as int)),
            decreases self.repositories.len() - i,
        {
            proof {
                assert(all.take(i + 1).drop_last() == all.take(i as int));
                assert(all.take(i + 1).last() == self.repositories[i as int]@);
                lemma_commits_in_monotone(all, i + 1);
                lemma_new_branches_in_monotone(all, i + 1);
            }
            commit_count = commit_count + self.repositories[i].commit_count();
            new_branch_count = new_branch_count + self.repositories[i].new_branch_count();
            i += 1;
        }
        assert(all.take(self.repositories.len() as int) == all);
        let mut todos_new: usize = 0;
        let mut todos_completed: usize = 0;
        let ghost items = self.todos.deep_view();
        let mut j: usize = 0;
        while j < self.todos.len()
            invariant
                j <= self.todos.len(),
                items == self.todos.deep_view(),
                todos_new <= j,
                todos_completed <= j,
                todos_new == count_new_todos(items.take(j as int)),
                todos_completed == count_completed_todos(items.take(j as int)),
            decreases self.todos.len() - j,
        {
            proof {
                assert(items.take(j + 1).drop_last() == items.take(j as int));
                assert(items.take(j + 1).last() == self.todos[j as int]@);
            }
            if self.todos[j].change == ChangeKind::New {
                todos_new = todos_new + 1;
            }
            if self.todos[j].was_completed() {
                todos_completed = todos_completed + 1;
            }
            j += 1;
        }
        assert(items.take(self.todos.len() as int) == items);
        ChronicleStats {
            repo_count: self.repositories.len(),
            commit_count,
            new_branch_count,
            todos_new,
            todos_completed,
            notes_count: self.notes.len(),
        }
    }

    /// Whether there is something to report.
    pub fn has_activity(&self) -> (b: bool)
        ensures
            b == self@.has_activity(),
    {
        self.repositories.len() > 0 || self.todos.len() > 0 || self.notes.len() > 0
    }
}

} // verus!
