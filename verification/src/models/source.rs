use vstd::prelude::*;

use crate::text::{distinct_strings, lemma_distinct};
use crate::time::Timestamp;

verus! {

/// Whether an item is new, modified or unchanged since the previous run.
#[derive(Debug, Clone, Copy, PartialEq, Eq, Structural)]
pub enum ChangeKind {
    New,
    Modified,
    Unchanged,
}

/// The status of a checklist item.
#[derive(Debug, Clone, Copy, PartialEq, Eq, Structural)]
pub enum TodoStatus {
    /// `- [ ]`
    Pending,
    /// `- [x]`
    Done,
    /// `- [~]`
    InProgress,
}

/// A checklist item.
#[derive(Debug)]
pub struct Todo {
    pub content: String,
    pub status: TodoStatus,
    pub change: ChangeKind,
    /// The status the item had before, where a status change was detected.
    pub previous_status: Option<TodoStatus>,
    /// The file the item stands in.
    pub file: String,
    /// The line of the item in its file, counted from one.
    pub line: usize,
}

/// The mathematical value of a [`Todo`].
pub ghost struct TodoView {
    pub content: Seq<char>,
    pub status: TodoStatus,
    pub change: ChangeKind,
    pub previous_status: Option<TodoStatus>,
    pub file: Seq<char>,
    pub line: nat,
}

impl View for Todo {
    type V = TodoView;

    open spec fn view(&self) -> TodoView {
        TodoView {
            content: self.content@,
            status: self.status,
            change: self.change,
            previous_status: self.previous_status,
            file: self.file@,
            line: self.line as nat,
        }
    }
}

impl DeepView for Todo {
    type V = TodoView;

    open spec fn deep_view(&self) -> TodoView {
        self@
    }
}

impl Clone for Todo {
    fn clone(&self) -> (out: Todo)
        ensures
            out@ == self@,
    {
        Todo {
            content: self.content.clone(),
            status: self.status,
            change: self.change,
            previous_status: self.previous_status,
            file: self.file.clone(),
            line: self.line,
        }
    }
}

impl TodoView {
    /// The item has just been completed: it is done now and was something else before.
    pub open spec fn was_completed(self) -> bool {
        self.status == TodoStatus::Done && self.previous_status is Some && self.previous_status
            != Some(TodoStatus::Done)
    }
}

impl Todo {
    /// Whether this item has just been completed.
    pub fn was_completed(&self) -> (b: bool)
        ensures
            b == self@.was_completed(),
    {
        match self.status {
            TodoStatus::Done => match self.previous_status {
                Some(TodoStatus::Done) => false,
                Some(_) => true,
                None => false,
            },
            _ => false,
        }
    }
}

/// A copy of `v` that holds the same texts.
pub fn clone_strings(v: &Vec<String>) -> (out: Vec<String>)
    ensures
        out.deep_view() == v.deep_view(),
{
    let mut out: Vec<String> = Vec::new();
    let mut i: usize = 0;
    while i < v.len()
        invariant
            i <= v.len(),
            out.deep_view() == v.deep_view().take(i as int),
        decreases v.len() - i,
    {
        out.push(v[i].clone());
        assert(out.deep_view() == v.deep_view().take(i as int).push(v[i as int]@));
        i += 1;
    }
    assert(v.deep_view().take(v.len() as int) == v.deep_view());
    out
}

/// A single commit.
#[derive(Debug)]
pub struct Commit {
    /// The abbreviated commit hash.
    pub hash: String,
    /// The first line of the commit message.
    pub message: String,
    pub author: String,
    pub timestamp: Timestamp,
    /// The files that the commit changed.
    pub files: Vec<String>,
}

/// The mathematical value of a [`Commit`].
pub ghost struct CommitView {
    pub hash: Seq<char>,
    pub message: Seq<char>,
    pub author: Seq<char>,
    pub timestamp: Timestamp,
    pub files: Seq<Seq<char>>,
}

impl View for Commit {
    type V = CommitView;

    open spec fn view(&self) -> CommitView {
        CommitView {
            hash: self.hash@,
            message: self.message@,
            author: self.author@,
            timestamp: self.timestamp,
            files: self.files.deep_view(),
        }
    }
}

impl DeepView for Commit {
    type V = CommitView;

    open spec fn deep_view(&self) -> CommitView {
        self@
    }
}

impl Clone for Commit {
    fn clone(&self) -> (out: Commit)
        ensures
            out@ == self@,
    {
        Commit {
            hash: self.hash.clone(),
            message: self.message.clone(),
            author: self.author.clone(),
            timestamp: self.timestamp,
            files: clone_strings(&self.files),
        }
    }
}

/// A copy of `v` that holds the same commits.
pub fn clone_commits(v: &Vec<Commit>) -> (out: Vec<Commit>)
    ensures
        out.deep_view() == v.deep_view(),
{
    let mut out: Vec<Commit> = Vec::new();
    let mut i: usize = 0;
    while i < v.len()
        invariant
            i <= v.len(),
            out.deep_view() == v.deep_view().take(i as int),
        decreases v.len() - i,
    {
        out.push(v[i].clone());
        assert(out.deep_view() == v.deep_view().take(i as int).push(v[i as int]@));
        i += 1;
    }
    assert(v.deep_view().take(v.len() as int) == v.deep_view());
    out
}

/// A branch with the commits observed on it, newest first.
#[derive(Debug)]
pub struct Branch {
    pub name: String,
    pub change: ChangeKind,
    /// Commits on this branch that the default branch lacks.
    pub ahead: usize,
    /// Commits on the default branch that this branch lacks.
    pub behind: usize,
    pub commits: Vec<Commit>,
}

/// The mathematical value of a [`Branch`].
pub ghost struct BranchView {
    pub name: Seq<char>,
    pub change: ChangeKind,
    pub ahead: nat,
    pub behind: nat,
    pub commits: Seq<CommitView>,
}

impl View for Branch {
    type V = BranchView;

    open spec fn view(&self) -> BranchView {
        BranchView {
            name: self.name@,
            change: self.change,
            ahead: self.ahead as nat,
            behind: self.behind as nat,
            commits: self.commits.deep_view(),
        }
    }
}

impl DeepView for Branch {
    type V = BranchView;

    open spec fn deep_view(&self) -> BranchView {
        self@
    }
}

impl Clone for Branch {
    fn clone(&self) -> (out: Branch)
        ensures
            out@ == self@,
    {
        Branch {
            name: self.name.clone(),
            change: self.change,
            ahead: self.ahead,
            behind: self.behind,
            commits: clone_commits(&self.commits),
        }
    }
}

/// A repository with the branches that a run reports.
#[derive(Debug)]
pub struct Repository {
    pub path: String,
    /// The last component of the path.
    pub name: String,
    pub default_branch: String,
    pub branches: Vec<Branch>,
}

/// The mathematical value of a [`Repository`].
pub ghost struct RepositoryView {
    pub path: Seq<char>,
    pub name: Seq<char>,
    pub default_branch: Seq<char>,
    pub branches: Seq<BranchView>,
}

impl View for Repository {
    type V = RepositoryView;

    open spec fn view(&self) -> RepositoryView {
        RepositoryView {
            path: self.path@,
            name: self.name@,
            default_branch: self.default_branch@,
            branches: self.branches.deep_view(),
        }
    }
}

impl DeepView for Repository {
    type V = RepositoryView;

    open spec fn deep_view(&self) -> RepositoryView {
        self@
    }
}

/// The number of commits on all of `branches` together.
pub open spec fn total_commits(branches: Seq<BranchView>) -> nat
    decreases branches.len(),
{
    if branches.len() == 0 {
        0
    } else {
        total_commits(branches.drop_last()) + branches.last().commits.len()
    }
}

/// The number of `branches` that are new.
pub open spec fn count_new_branches(branches: Seq<BranchView>) -> nat
    decreases branches.len(),
{
    if branches.len() == 0 {
        0
    } else {
        count_new_branches(branches.drop_last()) + if branches.last().change == ChangeKind::New {
            1nat
        } else {
            0nat
        }
    }
}

/// The files that the commits of `commits` changed, each listed once per mention.
pub open spec fn files_of_commits(commits: Seq<CommitView>) -> Seq<Seq<char>>
    decreases commits.len(),
{
    if commits.len() == 0 {
        Seq::empty()
    } else {
        files_of_commits(commits.drop_last()) + commits.last().files
    }
}

/// The files that the commits of `branches` changed, each listed once per mention.
pub open spec fn files_of_branches(branches: Seq<BranchView>) -> Seq<Seq<char>>
    decreases branches.len(),
{
    if branches.len() == 0 {
        Seq::empty()
    } else {
        files_of_branches(branches.drop_last()) + files_of_commits(branches.last().commits)
    }
}

pub proof fn lemma_total_commits_monotone(branches: Seq<BranchView>, n: int)
    requires
        0 <= n <= branches.len(),
    ensures
        total_commits(branches.take(n)) <= total_commits(branches),
    decreases branches.len() - n,
{
    if n < branches.len() {
        lemma_total_commits_monotone(branches, n + 1);
        assert(branches.take(n + 1).drop_last() == branches.take(n));
    } else {
        assert(branches.take(n) == branches);
    }
}

impl RepositoryView {
    /// The number of commits on all branches together.
    pub open spec fn commit_count(self) -> nat {
        total_commits(self.branches)
    }

    /// The number of new branches.
    pub open spec fn new_branch_count(self) -> nat {
        count_new_branches(self.branches)
    }

    /// The files changed by any commit on any branch.
    pub open spec fn changed_files(self) -> Set<Seq<char>> {
        files_of_branches(self.branches).to_set()
    }
}

impl Branch {
    /// The files that the commits of this branch changed, each listed once
    /// per mention.
    pub fn all_files(&self) -> (files: Vec<String>)
        ensures
            files.deep_view() == files_of_commits(self@.commits),
    {
        let mut files: Vec<String> = Vec::new();
        let mut i: usize = 0;
        while i < self.commits.len()
            invariant
                i <= self.commits.len(),
                files.deep_view() == files_of_commits(self.commits.deep_view().take(i as int)),
            decreases self.commits.len() - i,
        {
            proof {
                let all = self.commits.deep_view();
                assert(all.take(i + 1).drop_last() == all.take(i as int));
                assert(all.take(i + 1).last() == self.commits[i as int]@);
            }
            let ghost so_far = files.deep_view();
            let mut more = clone_strings(&self.commits[i].files);
            let ghost added = more.deep_view();
            files.append(&mut more);
            assert(files.deep_view() == so_far + added);
            i += 1;
        }
        assert(self.commits.deep_view().take(self.commits.len() as int)
            == self.commits.deep_view());
        files
    }
}

impl Repository {
    /// The number of different files that the commits of all branches
    /// changed.
    pub fn files_changed(&self) -> (n: usize)
        ensures
            n == self@.changed_files().len(),
            self@.changed_files().finite(),
    {
        let mut files: Vec<String> = Vec::new();
        let mut i: usize = 0;
        while i < self.branches.len()
            invariant
                i <= self.branches.len(),
                files.deep_view() == files_of_branches(self.branches.deep_view().take(i as int)),
            decreases self.branches.len() - i,
        {
            proof {
                let all = self.branches.deep_view();
                assert(all.take(i + 1).drop_last() == all.take(i as int));
                assert(all.take(i + 1).last() == self.branches[i as int]@);
            }
            let ghost so_far = files.deep_view();
            let mut more = self.branches[i].all_files();
            let ghost added = more.deep_view();
            files.append(&mut more);
            assert(files.deep_view() == so_far + added);
            i += 1;
        }
        assert(self.branches.deep_view().take(self.branches.len() as int)
            == self.branches.deep_view());
        let different = distinct_strings(&files);
        proof {
            lemma_distinct(files.deep_view());
            different.deep_view().unique_seq_to_set();
            vstd::seq_lib::seq_to_set_is_finite(different.deep_view());
        }
        different.len()
    }

    /// The number of commits on all branches together.
    pub fn commit_count(&self) -> (n: usize)
        requires
            self@.commit_count() <= usize::MAX,
        ensures
            n == self@.commit_count(),
    {
        let mut n: usize = 0;
        let mut i: usize = 0;
        while i < self.branches.len()
            invariant
                i <= self.branches.len(),
                n == total_commits(self.branches.deep_view().take(i as int)),
                total_commits(self.branches.deep_view()) <= usize::MAX,
            decreases self.branches.len() - i,
        {
            proof {
                let all = self.branches.deep_view();
                lemma_total_commits_monotone(all, i + 1);
                assert(all.take(i + 1).drop_last() == all.take(i as int));
            }
            n = n + self.branches[i].commits.len();
            i += 1;
        }
        assert(self.branches.deep_view().take(self.branches.len() as int)
            == self.branches.deep_view());
        n
    }

    /// The number of commits on all branches together, if it fits the
    /// machine's integers.
    pub fn checked_commit_count(&self) -> (count: Option<usize>)
        ensures
            match count {
                Some(n) => n == self@.commit_count(),
                None => self@.commit_count() > usize::MAX,
            },
    {
        let mut n: usize = 0;
        let ghost all = self.branches.deep_view();
        let mut i: usize = 0;
        while i < self.branches.len()
            invariant
                i <= self.branches.len(),
                all == self.branches.deep_view(),
                n == total_commits(all.take(i as int)),
            decreases self.branches.len() - i,
        {
            proof {
                lemma_total_commits_monotone(all, i + 1);
                assert(all.take(i + 1).drop_last() == all.take(i as int));
            }
            let more = self.branches[i].commits.len();
            if more > usize::MAX - n {
                return None;
            }
            n = n + more;
            i += 1;
        }
        assert(all.take(self.branches.len() as int) == all);
        Some(n)
    }

    /// The number of new branches.
    pub fn new_branch_count(&self) -> (n: usize)
        ensures
            n == self@.new_branch_count(),
    {
        let mut n: usize = 0;
        let mut i: usize = 0;
        while i < self.branches.len()
            invariant
                i <= self.branches.len(),
                n <= i,
                n == count_new_branches(self.branches.deep_view().take(i as int)),
            decreases self.branches.len() - i,
        {
            proof {
                let all = self.branches.deep_view();
                assert(all.take(i + 1).drop_last() == all.take(i as int));
            }
            if self.branches[i].change == ChangeKind::New {
                n = n + 1;
            }
            i += 1;
        }
        assert(self.branches.deep_view().take(self.branches.len() as int)
            == self.branches.deep_view());
        n
    }
}

/// A note file that changed.
#[derive(Debug)]
pub struct Note {
    pub path: String,
    pub change: ChangeKind,
    /// When the file was last modified.
    pub modified_at: Timestamp,
    /// The beginning of the note.
    pub excerpt: String,
}

/// The mathematical value of a [`Note`].
pub ghost struct NoteView {
    pub path: Seq<char>,
    pub change: ChangeKind,
    pub modified_at: Timestamp,
    pub excerpt: Seq<char>,
}

impl View for Note {
    type V = NoteView;

    open spec fn view(&self) -> NoteView {
        NoteView {
            path: self.path@,
            change: self.change,
            modified_at: self.modified_at,
            excerpt: self.excerpt@,
        }
    }
}

impl DeepView for Note {
    type V = NoteView;

    open spec fn deep_view(&self) -> NoteView {
        self@
    }
}

impl Clone for Note {
    fn clone(&self) -> (out: Note)
        ensures
            out@ == self@,
    {
        Note {
            path: self.path.clone(),
            change: self.change,
            modified_at: self.modified_at,
            excerpt: self.excerpt.clone(),
        }
    }
}

} // verus!
