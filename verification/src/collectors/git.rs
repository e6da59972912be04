//! Repositories: which branches a run reports, and as what.
//!
//! Reading a repository is not done here. A run is handed, for each
//! repository, what was read of it: where `HEAD` points, and for each local
//! branch its name, the commits observed on it and its distance from the
//! default branch. A branch is reported when it has a commit in the window;
//! it is new when the record of the previous run does not know its name,
//! and modified otherwise.

use vstd::prelude::*;
use vstd::string::StringExecFns;

use crate::config::Config;
use crate::error::{ChronicleError, ChronicleErrorView};
use crate::models::source::{clone_commits, files_of_commits};
use crate::models::{Branch, BranchView, ChangeKind, Commit, CommitView, Repository, RepositoryView};
use crate::paths::{file_name, file_name_of};
use crate::state::{
    get_source, update_source, BranchState, BranchStateView, SourceState, SourceStateView, State,
    StateView,
};
use crate::string_map::StringMap;
use crate::text::{
    first_line, first_line_of, is_listed, prefix_of_length, same_text, truncated,
};
use crate::time::{is_utc_instant, Timestamp};

verus! {

/// What was read of `HEAD`.
#[derive(Debug)]
pub struct Head {
    /// Whether `HEAD` points to a branch.
    pub is_branch: bool,
    /// The short name of what `HEAD` points to, where it has one.
    pub shorthand: Option<String>,
}

/// The mathematical value of a [`Head`].
pub ghost struct HeadView {
    pub is_branch: bool,
    pub shorthand: Option<Seq<char>>,
}

impl View for Head {
    type V = HeadView;

    open spec fn view(&self) -> HeadView {
        HeadView {
            is_branch: self.is_branch,
            shorthand: match self.shorthand {
                Some(s) => Some(s@),
                None => None,
            },
        }
    }
}

/// A commit as it was read, before anything is cut to size.
#[derive(Debug)]
pub struct RawCommit {
    /// The full hexadecimal name of the commit.
    pub id: String,
    /// The commit message, where it is valid text.
    pub message: Option<String>,
    /// The author's name, where it is valid text.
    pub author: Option<String>,
    /// The commit time in seconds since 1970-01-01 00:00:00 UTC.
    pub seconds: i64,
    /// The paths that the commit changed, in the order of its diff.
    pub files: Vec<String>,
}

/// The mathematical value of a [`RawCommit`].
pub ghost struct RawCommitView {
    pub id: Seq<char>,
    pub message: Option<Seq<char>>,
    pub author: Option<Seq<char>>,
    pub seconds: int,
    pub files: Seq<Seq<char>>,
}

impl View for RawCommit {
    type V = RawCommitView;

    open spec fn view(&self) -> RawCommitView {
        RawCommitView {
            id: self.id@,
            message: match self.message {
                Some(m) => Some(m@),
                None => None,
            },
            author: match self.author {
                Some(a) => Some(a@),
                None => None,
            },
            seconds: self.seconds as int,
            files: self.files.deep_view(),
        }
    }
}

impl DeepView for RawCommit {
    type V = RawCommitView;

    open spec fn deep_view(&self) -> RawCommitView {
        self@
    }
}

/// A local branch as it was observed.
#[derive(Debug)]
pub struct ObservedBranch {
    pub name: String,
    /// The commits of the window, newest first.
    pub commits: Vec<Commit>,
    /// Commits on this branch that the default branch lacks.
    pub ahead: usize,
    /// Commits on the default branch that this branch lacks.
    pub behind: usize,
}

/// The mathematical value of an [`ObservedBranch`].
pub ghost struct ObservedBranchView {
    pub name: Seq<char>,
    pub commits: Seq<CommitView>,
    pub ahead: nat,
    pub behind: nat,
}

impl View for ObservedBranch {
    type V = ObservedBranchView;

    open spec fn view(&self) -> ObservedBranchView {
        ObservedBranchView {
            name: self.name@,
            commits: self.commits.deep_view(),
            ahead: self.ahead as nat,
            behind: self.behind as nat,
        }
    }
}

impl DeepView for ObservedBranch {
    type V = ObservedBranchView;

    open spec fn deep_view(&self) -> ObservedBranchView {
        self@
    }
}

/// What was read of one repository.
#[derive(Debug)]
pub struct RepositoryObservation {
    /// The path that identifies the repository.
    pub path: String,
    pub head: Head,
    /// The local branches, in the order in which they were listed.
    pub branches: Vec<ObservedBranch>,
}

/// The mathematical value of a [`RepositoryObservation`].
pub ghost struct RepositoryObservationView {
    pub path: Seq<char>,
    pub head: HeadView,
    pub branches: Seq<ObservedBranchView>,
}

impl View for RepositoryObservation {
    type V = RepositoryObservationView;

    open spec fn view(&self) -> RepositoryObservationView {
        RepositoryObservationView {
            path: self.path@,
            head: self.head@,
            branches: self.branches.deep_view(),
        }
    }
}

impl DeepView for RepositoryObservation {
    type V = RepositoryObservationView;

    open spec fn deep_view(&self) -> RepositoryObservationView {
        self@
    }
}

/// The name of the default branch: the short name of `HEAD` where `HEAD`
/// points to a branch and has one, and `main` otherwise.
pub open spec fn default_branch_of(head: HeadView) -> Seq<char> {
    if head.is_branch {
        match head.shorthand {
            Some(name) => name,
            None => "main"@,
        }
    } else {
        "main"@
    }
}

/// The name of a repository: the last component of its path, or `unknown`
/// where the path has none.
pub open spec fn repository_name(path: Seq<char>) -> Seq<char> {
    match file_name_of(path) {
        Some(name) => name,
        None => "unknown"@,
    }
}

/// The abbreviated hash of the commit named `id`: its first seven characters.
pub open spec fn short_hash(id: Seq<char>) -> Seq<char> {
    prefix_of_length(id, 7)
}

/// The summary of a commit message: at most the first 72 characters of its
/// first line. A commit without a readable message is summarised as
/// `(no message)`.
pub open spec fn summary(message: Option<Seq<char>>) -> Seq<char> {
    prefix_of_length(
        first_line(
            match message {
                Some(m) => m,
                None => "(no message)"@,
            },
        ),
        72,
    )
}

/// The author's name, or `Unknown` where it could not be read.
pub open spec fn author_name(author: Option<Seq<char>>) -> Seq<char> {
    match author {
        Some(a) => a,
        None => "Unknown"@,
    }
}

/// Those of `paths` that join the files seen so far, in order. A path joins
/// when fewer than `limit` files have been seen and it is not one of them.
pub open spec fn new_files(paths: Seq<Seq<char>>, seen: Seq<Seq<char>>, limit: nat) -> Seq<
    Seq<char>,
>
    decreases paths.len(),
{
    if paths.len() == 0 {
        Seq::empty()
    } else {
        let before = new_files(paths.drop_last(), seen, limit);
        let path = paths.last();
        if seen.len() + before.len() < limit && !seen.contains(path) && !before.contains(path) {
            before.push(path)
        } else {
            before
        }
    }
}

/// The walk over `history` stops at the commit `raw`: its time is no
/// instant, or it was made before `since`.
pub open spec fn stops_walk(raw: RawCommitView, since: Timestamp) -> bool {
    !is_utc_instant(raw.seconds, 0) || Timestamp::at(raw.seconds, 0).precedes(since)
}

/// The place of the first commit of `history` that stops the walk, or the
/// length of `history` if none does.
pub open spec fn first_stop(history: Seq<RawCommitView>, since: Timestamp) -> int
    decreases history.len(),
{
    if history.len() == 0 || stops_walk(history[0], since) {
        0
    } else {
        1 + first_stop(history.drop_first(), since)
    }
}

/// The number of commits that the walk takes: those before the first that
/// stops it, and at most `max_commits`.
pub open spec fn window_len(
    history: Seq<RawCommitView>,
    since: Timestamp,
    max_commits: nat,
) -> int {
    if first_stop(history, since) < max_commits {
        first_stop(history, since)
    } else {
        max_commits as int
    }
}

/// The walk fails: before it has taken `max_commits` commits it comes to
/// one whose time is no instant.
pub open spec fn walk_fails(
    history: Seq<RawCommitView>,
    since: Timestamp,
    max_commits: nat,
) -> bool {
    let stop = first_stop(history, since);
    0 <= stop < history.len() && stop < max_commits && !is_utc_instant(history[stop].seconds, 0)
}

/// The commit that is reported for `raw`, given the files seen so far.
pub open spec fn commit_of(raw: RawCommitView, seen: Seq<Seq<char>>, limit: nat) -> CommitView {
    CommitView {
        hash: short_hash(raw.id),
        message: summary(raw.message),
        author: author_name(raw.author),
        timestamp: Timestamp::at(raw.seconds, 0),
        files: new_files(raw.files, seen, limit),
    }
}

/// The commits reported for the first `n` commits of `history`. Each file is
/// listed with the first commit that changed it, and at most `limit` files
/// are listed in all.
pub open spec fn collected_commits(history: Seq<RawCommitView>, n: nat, limit: nat) -> Seq<
    CommitView,
>
    decreases n,
{
    if n == 0 || n > history.len() {
        Seq::empty()
    } else {
        let before = collected_commits(history, (n - 1) as nat, limit);
        before.push(commit_of(history[n - 1], files_of_commits(before), limit))
    }
}

/// The branches that the previous run recorded for the repository `path`,
/// if `state` holds a repository record under that name.
pub open spec fn prior_branches(state: StateView, path: Seq<char>) -> Option<
    Map<Seq<char>, BranchStateView>,
> {
    if state.sources.contains_key(path) {
        match state.sources[path] {
            SourceStateView::Git { branches, .. } => Some(branches),
            _ => None,
        }
    } else {
        None
    }
}

/// A branch is new when the previous run recorded no branch of its name,
/// and modified otherwise.
pub open spec fn branch_change(
    name: Seq<char>,
    prior: Option<Map<Seq<char>, BranchStateView>>,
) -> ChangeKind {
    match prior {
        Some(branches) => if branches.contains_key(name) {
            ChangeKind::Modified
        } else {
            ChangeKind::New
        },
        None => ChangeKind::New,
    }
}

/// A branch is evaluated when it has a commit in the window, and the
/// default branch in any case.
pub open spec fn is_evaluated(branch: ObservedBranchView, default_branch: Seq<char>) -> bool {
    branch.commits.len() > 0 || branch.name == default_branch
}

/// The branch `branch` as evaluated: new or modified, and with its distance
/// from the default branch, which is zero for the default branch itself.
pub open spec fn evaluated_branch(
    branch: ObservedBranchView,
    default_branch: Seq<char>,
    prior: Option<Map<Seq<char>, BranchStateView>>,
) -> BranchView {
    BranchView {
        name: branch.name,
        change: branch_change(branch.name, prior),
        ahead: if branch.name != default_branch {
            branch.ahead
        } else {
            0
        },
        behind: if branch.name != default_branch {
            branch.behind
        } else {
            0
        },
        commits: branch.commits,
    }
}

/// The evaluated branches of `observed`, in order.
pub open spec fn evaluated_branches(
    observed: Seq<ObservedBranchView>,
    default_branch: Seq<char>,
    prior: Option<Map<Seq<char>, BranchStateView>>,
) -> Seq<BranchView>
    decreases observed.len(),
{
    if observed.len() == 0 {
        Seq::empty()
    } else {
        let before = evaluated_branches(observed.drop_last(), default_branch, prior);
        if is_evaluated(observed.last(), default_branch) {
            before.push(evaluated_branch(observed.last(), default_branch, prior))
        } else {
            before
        }
    }
}

/// Those of `branches` that have a commit, in order.
pub open spec fn with_commits(branches: Seq<BranchView>) -> Seq<BranchView>
    decreases branches.len(),
{
    if branches.len() == 0 {
        Seq::empty()
    } else if branches.last().commits.len() > 0 {
        with_commits(branches.drop_last()).push(branches.last())
    } else {
        with_commits(branches.drop_last())
    }
}

/// The branches that a run reports of `observation`.
pub open spec fn reported_branches(observation: RepositoryObservationView, state: StateView) -> Seq<
    BranchView,
> {
    with_commits(
        evaluated_branches(
            observation.branches,
            default_branch_of(observation.head),
            prior_branches(state, observation.path),
        ),
    )
}

/// What is remembered of `branch` after a run at `now`: its newest commit,
/// `now` as the time it was last seen, and the time it was first seen. A new
/// branch was first seen `now`; a known branch keeps what the previous run
/// recorded.
pub open spec fn branch_record(
    branch: BranchView,
    prior: Option<Map<Seq<char>, BranchStateView>>,
    now: Timestamp,
) -> BranchStateView {
    BranchStateView {
        last_commit: if branch.commits.len() > 0 {
            branch.commits[0].hash
        } else {
            Seq::empty()
        },
        last_seen: now,
        first_seen: if branch.change == ChangeKind::New {
            Some(now)
        } else {
            match prior {
                Some(known) => if known.contains_key(branch.name) {
                    known[branch.name].first_seen
                } else {
                    None
                },
                None => None,
            }
        },
    }
}

/// The records of `branches` by name. Of two branches of one name the later
/// is recorded.
pub open spec fn branch_records(
    branches: Seq<BranchView>,
    prior: Option<Map<Seq<char>, BranchStateView>>,
    now: Timestamp,
) -> Map<Seq<char>, BranchStateView>
    decreases branches.len(),
{
    if branches.len() == 0 {
        Map::empty()
    } else {
        branch_records(branches.drop_last(), prior, now).insert(
            branches.last().name,
            branch_record(branches.last(), prior, now),
        )
    }
}

/// The state after `branches` of the repository `path` were recorded at `now`.
pub open spec fn state_with_branches(
    state: StateView,
    path: Seq<char>,
    default_branch: Seq<char>,
    branches: Seq<BranchView>,
    now: Timestamp,
) -> StateView {
    StateView {
        sources: state.sources.insert(
            path,
            SourceStateView::Git {
                last_checked: now,
                default_branch,
                branches: branch_records(branches, prior_branches(state, path), now),
            },
        ),
        ..state
    }
}

/// What a run reports of one repository: nothing where no branch has a
/// commit in the window.
pub open spec fn repository_report(
    observation: RepositoryObservationView,
    state: StateView,
) -> Option<RepositoryView> {
    let branches = reported_branches(observation, state);
    if branches.len() == 0 {
        None
    } else {
        Some(
            RepositoryView {
                path: observation.path,
                name: repository_name(observation.path),
                default_branch: default_branch_of(observation.head),
                branches,
            },
        )
    }
}

/// The state that a run at `now` leaves after one repository: unchanged
/// where nothing is reported of it.
pub open spec fn state_after_repository(
    observation: RepositoryObservationView,
    state: StateView,
    now: Timestamp,
) -> StateView {
    let branches = reported_branches(observation, state);
    if branches.len() == 0 {
        state
    } else {
        state_with_branches(
            state,
            observation.path,
            default_branch_of(observation.head),
            branches,
            now,
        )
    }
}

/// The state that a run at `now` leaves after `observations`, in order.
pub open spec fn state_after_repositories(
    observations: Seq<RepositoryObservationView>,
    state: StateView,
    now: Timestamp,
) -> StateView
    decreases observations.len(),
{
    if observations.len() == 0 {
        state
    } else {
        state_after_repository(
            observations.last(),
            state_after_repositories(observations.drop_last(), state, now),
            now,
        )
    }
}

/// What a run reports of `observations`: the report of each repository of
/// which there is one, in order, each against the state that the
/// repositories before it left.
pub open spec fn repositories_report(
    observations: Seq<RepositoryObservationView>,
    state: StateView,
    now: Timestamp,
) -> Seq<RepositoryView>
    decreases observations.len(),
{
    if observations.len() == 0 {
        Seq::empty()
    } else {
        let before = repositories_report(observations.drop_last(), state, now);
        match repository_report(
            observations.last(),
            state_after_repositories(observations.drop_last(), state, now),
        ) {
            Some(repository) => before.push(repository),
            None => before,
        }
    }
}

/// The walk stops first at `at` when no earlier commit stops it and either
/// `at` is the length of the history or the commit at `at` stops it.
pub proof fn lemma_first_stop_is(history: Seq<RawCommitView>, since: Timestamp, at: int)
    requires
        0 <= at <= history.len(),
        forall|j: int| 0 <= j < at ==> !stops_walk(#[trigger] history[j], since),
        at < history.len() ==> stops_walk(history[at], since),
    ensures
        first_stop(history, since) == at,
    decreases history.len(),
{
    if history.len() == 0 || stops_walk(history[0], since) {
        if at > 0 {
            assert(!stops_walk(history[0], since));
        }
    } else {
        let rest = history.drop_first();
        assert forall|j: int| 0 <= j < at - 1 implies !stops_walk(#[trigger] rest[j], since) by {
            assert(rest[j] == history[j + 1]);
        }
        lemma_first_stop_is(rest, since, at - 1);
    }
}

/// The walk stops no earlier than `at` when no commit before `at` stops it.
pub proof fn lemma_first_stop_at_least(history: Seq<RawCommitView>, since: Timestamp, at: int)
    requires
        0 <= at <= history.len(),
        forall|j: int| 0 <= j < at ==> !stops_walk(#[trigger] history[j], since),
    ensures
        at <= first_stop(history, since) <= history.len(),
    decreases history.len(),
{
    if history.len() == 0 || stops_walk(history[0], since) {
        if at > 0 {
            assert(!stops_walk(history[0], since));
        }
    } else {
        let rest = history.drop_first();
        if at > 0 {
            assert forall|j: int| 0 <= j < at - 1 implies !stops_walk(#[trigger] rest[j], since) by {
                assert(rest[j] == history[j + 1]);
            }
            lemma_first_stop_at_least(rest, since, at - 1);
        } else {
            lemma_first_stop_at_least(rest, since, 0);
        }
    }
}

/// Reads what was observed of repositories and tells which branches changed.
pub struct GitCollector<'a> {
    config: &'a Config,
}

impl<'a> GitCollector<'a> {
    pub fn new(config: &'a Config) -> (collector: Self)
        ensures
            collector.config() == config,
    {
        Self { config }
    }

    /// The settings that the collector was made with.
    pub closed spec fn config(self) -> &'a Config {
        self.config
    }

    /// Goes through `observations` in order: reports each repository that
    /// has a branch with a commit in the window, and leaves in `state` the
    /// record of each reported repository.
    pub fn collect(
        &self,
        observations: &Vec<RepositoryObservation>,
        state: &mut State,
        now: Timestamp,
    ) -> (result: Result<Vec<Repository>, ChronicleError>)
        ensures
            result matches Ok(repositories) && repositories.deep_view() == repositories_report(
                observations.deep_view(),
                old(state)@,
                now,
            ),
            final(state)@ == state_after_repositories(observations.deep_view(), old(state)@, now),
    {
        let mut repositories: Vec<Repository> = Vec::new();
        let ghost before = state@;
        let ghost observed = observations.deep_view();
        let mut i: usize = 0;
        while i < observations.len()
            invariant
                i <= observations.len(),
                observed == observations.deep_view(),
                repositories.deep_view() == repositories_report(
                    observed.take(i as int),
                    before,
                    now,
                ),
                state@ == state_after_repositories(observed.take(i as int), before, now),
            decreases observations.len() - i,
        {
            proof {
                assert(observed.take(i + 1).drop_last() == observed.take(i as int));
                assert(observed.take(i + 1).last() == observations[i as int]@);
            }
            let ghost so_far = repositories.deep_view();
            match self.collect_repository(&observations[i], state, now) {
                Some(repository) => {
                    let ghost added = repository@;
                    repositories.push(repository);
                    assert(repositories.deep_view() == so_far.push(added));
                },
                None => {},
            }
            i += 1;
        }
        assert(observed.take(observations.len() as int) == observed);
        Ok(repositories)
    }

    /// Reports one repository, unless no branch of it has a commit in the
    /// window, and leaves in `state` the record of a reported repository.
    pub fn collect_repository(
        &self,
        observation: &RepositoryObservation,
        state: &mut State,
        now: Timestamp,
    ) -> (report: Option<Repository>)
        ensures
            match report {
                Some(repository) => repository_report(observation@, old(state)@) == Some(
                    repository@,
                ),
                None => repository_report(observation@, old(state)@) is None,
            },
            final(state)@ == state_after_repository(observation@, old(state)@, now),
    {
        let repo_name = match file_name(observation.path.as_str()) {
            Some(name) => name,
            None => String::from_str("unknown"),
        };
        let default_branch = self.default_branch(&observation.head);
        let evaluated = self.collect_branches(
            &observation.branches,
            default_branch.as_str(),
            state,
            observation.path.as_str(),
        );
        let mut branches: Vec<Branch> = Vec::new();
        let mut i: usize = 0;
        while i < evaluated.len()
            invariant
                i <= evaluated.len(),
                branches.deep_view() == with_commits(evaluated.deep_view().take(i as int)),
            decreases evaluated.len() - i,
        {
            proof {
                let all = evaluated.deep_view();
                assert(all.take(i + 1).drop_last() == all.take(i as int));
            }
            if evaluated[i].commits.len() > 0 {
                let ghost so_far = branches.deep_view();
                branches.push(evaluated[i].clone());
                assert(branches.deep_view() == so_far.push(evaluated[i as int]@));
            }
            i += 1;
        }
        assert(evaluated.deep_view().take(evaluated.len() as int) == evaluated.deep_view());
        if branches.len() == 0 {
            return None;
        }
        self.update_state(
            state,
            observation.path.as_str(),
            default_branch.as_str(),
            &branches,
            now,
        );
        Some(
            Repository {
                path: observation.path.clone(),
                name: repo_name,
                default_branch,
                branches,
            },
        )
    }

    /// The name of the default branch, from what was read of `HEAD`.
    pub fn default_branch(&self, head: &Head) -> (name: String)
        ensures
            name@ == default_branch_of(head@),
    {
        if head.is_branch {
            match &head.shorthand {
                Some(name) => name.clone(),
                None => String::from_str("main"),
            }
        } else {
            String::from_str("main")
        }
    }

    /// Whether a branch of this name with this many commits in the window is
    /// evaluated.
    pub fn evaluates(&self, name: &str, default_branch: &str, commit_count: usize) -> (b: bool)
        ensures
            b == (commit_count > 0 || name@ == default_branch@),
    {
        commit_count > 0 || same_text(name, default_branch)
    }

    /// Evaluates the observed branches: leaves out each branch without a
    /// commit in the window, but for the default branch, and tells of each
    /// other whether it is new.
    pub fn collect_branches(
        &self,
        observed: &Vec<ObservedBranch>,
        default_branch: &str,
        state: &State,
        repo_path: &str,
    ) -> (branches: Vec<Branch>)
        ensures
            branches.deep_view() == evaluated_branches(
                observed.deep_view(),
                default_branch@,
                prior_branches(state@, repo_path@),
            ),
    {
        let branch_states = match get_source(state, repo_path) {
            Some(SourceState::Git { branches, .. }) => Some(branches),
            _ => None,
        };
        let ghost prior = prior_branches(state@, repo_path@);
        assert(prior == match branch_states {
            Some(known) => Some(known@),
            None => None,
        });
        let mut branches: Vec<Branch> = Vec::new();
        let mut i: usize = 0;
        while i < observed.len()
            invariant
                i <= observed.len(),
                prior == match branch_states {
                    Some(known) => Some(known@),
                    None => None,
                },
                branches.deep_view() == evaluated_branches(
                    observed.deep_view().take(i as int),
                    default_branch@,
                    prior,
                ),
            decreases observed.len() - i,
        {
            proof {
                let all = observed.deep_view();
                assert(all.take(i + 1).drop_last() == all.take(i as int));
                assert(all.take(i + 1).last() == observed[i as int]@);
            }
            let branch = &observed[i];
            if self.evaluates(branch.name.as_str(), default_branch, branch.commits.len()) {
                let change = self.determine_branch_change(branch.name.as_str(), branch_states);
                let is_default = same_text(branch.name.as_str(), default_branch);
                let (ahead, behind) = if !is_default {
                    (branch.ahead, branch.behind)
                } else {
                    (0, 0)
                };
                let ghost so_far = branches.deep_view();
                let evaluated = Branch {
                    name: branch.name.clone(),
                    change,
                    ahead,
                    behind,
                    commits: clone_commits(&branch.commits),
                };
                let ghost added = evaluated@;
                branches.push(evaluated);
                assert(branches.deep_view() == so_far.push(added));
            }
            i += 1;
        }
        assert(observed.deep_view().take(observed.len() as int) == observed.deep_view());
        branches
    }

    /// The commits of the window: those of `history`, which lists the
    /// commits of a branch from the newest on, up to the first that was made
    /// before `since`, and at most as many as the settings allow. Fails where
    /// the walk comes to a commit whose time is no instant.
    pub fn collect_commits(&self, history: &Vec<RawCommit>, since: Timestamp) -> (result: Result<
        Vec<Commit>,
        ChronicleError,
    >)
        ensures
            match result {
                Ok(commits) => !walk_fails(
                    history.deep_view(),
                    since,
                    self.config().limits.max_commits as nat,
                ) && commits.deep_view() == collected_commits(
                    history.deep_view(),
                    window_len(
                        history.deep_view(),
                        since,
                        self.config().limits.max_commits as nat,
                    ) as nat,
                    self.config().limits.max_changed_files as nat,
                ),
                Err(e) => walk_fails(
                    history.deep_view(),
                    since,
                    self.config().limits.max_commits as nat,
                ) && e@ == ChronicleErrorView::Collector("Invalid commit timestamp"@),
            },
    {
        let mut commits: Vec<Commit> = Vec::new();
        let mut seen_files: Vec<String> = Vec::new();
        let ghost raw = history.deep_view();
        let ghost limit = self.config().limits.max_changed_files as nat;
        let max_commits = self.config.limits.max_commits;
        let mut i: usize = 0;
        while i < history.len()
            invariant
                i <= history.len(),
                i <= max_commits,
                raw == history.deep_view(),
                limit == self.config().limits.max_changed_files as nat,
                max_commits == self.config().limits.max_commits,
                forall|j: int| 0 <= j < i ==> !stops_walk(#[trigger] raw[j], since),
                commits.len() == i,
                commits.deep_view() == collected_commits(raw, i as nat, limit),
                seen_files.deep_view() == files_of_commits(commits.deep_view()),
            decreases history.len() - i,
        {
            if commits.len() >= max_commits {
                proof {
                    lemma_first_stop_at_least(raw, since, i as int);
                }
                return Ok(commits);
            }
            let git_commit = &history[i];
            assert(raw[i as int] == history[i as int]@);
            let commit_time = match Timestamp::from_unix(git_commit.seconds, 0) {
                Some(time) => time,
                None => {
                    proof {
                        lemma_first_stop_is(raw, since, i as int);
                    }
                    return Err(
                        ChronicleError::Collector(String::from_str("Invalid commit timestamp")),
                    );
                },
            };
            if commit_time.is_before(&since) {
                proof {
                    lemma_first_stop_is(raw, since, i as int);
                }
                return Ok(commits);
            }
            let hash = truncated(git_commit.id.as_str(), 7);
            let full_message = match &git_commit.message {
                Some(m) => m.clone(),
                None => String::from_str("(no message)"),
            };
            let line = first_line_of(full_message.as_str());
            let message = truncated(line.as_str(), 72);
            let author = match &git_commit.author {
                Some(a) => a.clone(),
                None => String::from_str("Unknown"),
            };
            let ghost seen_before = seen_files.deep_view();
            let ghost so_far = commits.deep_view();
            let files = self.collect_commit_files(&git_commit.files, &mut seen_files);
            let commit = Commit { hash, message, author, timestamp: commit_time, files };
            proof {
                assert(commit@ == commit_of(raw[i as int], seen_before, limit));
            }
            commits.push(commit);
            proof {
                assert(commits.deep_view() == so_far.push(
                    commit_of(raw[i as int], seen_before, limit),
                ));
                assert(commits.deep_view().drop_last() == so_far);
            }
            i += 1;
        }
        proof {
            lemma_first_stop_at_least(raw, since, i as int);
        }
        Ok(commits)
    }

    /// The files of one commit that were not seen before, in the order of
    /// `paths`; they join `seen_files`. Once `seen_files` holds as many files
    /// as the settings allow, none joins.
    pub fn collect_commit_files(&self, paths: &Vec<String>, seen_files: &mut Vec<String>) -> (files:
        Vec<String>)
        ensures
            files.deep_view() == new_files(
                paths.deep_view(),
                old(seen_files).deep_view(),
                self.config().limits.max_changed_files as nat,
            ),
            final(seen_files).deep_view() == old(seen_files).deep_view() + files.deep_view(),
    {
        let mut files: Vec<String> = Vec::new();
        let ghost seen = seen_files.deep_view();
        let ghost limit = self.config().limits.max_changed_files as nat;
        let max_files = self.config.limits.max_changed_files;
        let mut i: usize = 0;
        assert(seen_files.deep_view() == seen + files.deep_view());
        while i < paths.len()
            invariant
                i <= paths.len(),
                limit == max_files,
                files.deep_view() == new_files(paths.deep_view().take(i as int), seen, limit),
                seen_files.deep_view() == seen + files.deep_view(),
            decreases paths.len() - i,
        {
            proof {
                let all = paths.deep_view();
                assert(all.take(i + 1).drop_last() == all.take(i as int));
                assert(all.take(i + 1).last() == paths[i as int]@);
            }
            let ghost added = files.deep_view();
            if seen_files.len() < max_files && !is_listed(seen_files, paths[i].as_str()) {
                proof {
                    let path = paths[i as int]@;
                    assert(!(seen + added).contains(path));
                    if seen.contains(path) {
                        let k = choose|k: int| 0 <= k < seen.len() && seen[k] == path;
                        assert((seen + added)[k] == path);
                    }
                    if added.contains(path) {
                        let k = choose|k: int| 0 <= k < added.len() && added[k] == path;
                        assert((seen + added)[seen.len() + k] == path);
                    }
                }
                let ghost seen_so_far = seen_files.deep_view();
                seen_files.push(paths[i].clone());
                files.push(paths[i].clone());
                assert(files.deep_view() == added.push(paths[i as int]@));
                assert(seen_files.deep_view() == seen_so_far.push(paths[i as int]@));
                assert((seen + added).push(paths[i as int]@) == seen + added.push(
                    paths[i as int]@,
                ));
            } else {
                proof {
                    let path = paths[i as int]@;
                    if seen_files.len() < max_files {
                        assert((seen + added).contains(path));
                        let k = choose|k: int| 0 <= k < (seen + added).len() && (seen + added)[k]
                            == path;
                        if k < seen.len() {
                            assert(seen[k] == path);
                        } else {
                            assert(added[k - seen.len()] == path);
                        }
                    }
                }
            }
            i += 1;
        }
        assert(paths.deep_view().take(paths.len() as int) == paths.deep_view());
        files
    }

    /// A branch is new when the previous run recorded no branch of its name,
    /// and modified otherwise.
    pub fn determine_branch_change(
        &self,
        branch_name: &str,
        branch_states: Option<&StringMap<BranchState>>,
    ) -> (change: ChangeKind)
        ensures
            change == branch_change(
                branch_name@,
                match branch_states {
                    Some(known) => Some(known@),
                    None => None,
                },
            ),
    {
        match branch_states {
            Some(states) => {
                if states.contains_key(branch_name) {
                    ChangeKind::Modified
                } else {
                    ChangeKind::New
                }
            },
            None => ChangeKind::New,
        }
    }

    /// Stores the records of `branches` as the record of the repository
    /// `repo_path`, in place of the record that the repository had.
    pub fn update_state(
        &self,
        state: &mut State,
        repo_path: &str,
        default_branch: &str,
        branches: &Vec<Branch>,
        now: Timestamp,
    )
        ensures
            final(state)@ == state_with_branches(
                old(state)@,
                repo_path@,
                default_branch@,
                branches.deep_view(),
                now,
            ),
    {
        let ghost prior = prior_branches(state@, repo_path@);
        let mut branch_states: StringMap<BranchState> = StringMap::new();
        {
            let known_branches = match get_source(state, repo_path) {
                Some(SourceState::Git { branches, .. }) => Some(branches),
                _ => None,
            };
            let mut i: usize = 0;
            while i < branches.len()
                invariant
                    i <= branches.len(),
                    prior == match known_branches {
                        Some(known) => Some(known@),
                        None => None,
                    },
                    branch_states@ == branch_records(
                        branches.deep_view().take(i as int),
                        prior,
                        now,
                    ),
                decreases branches.len() - i,
            {
                proof {
                    let all = branches.deep_view();
                    assert(all.take(i + 1).drop_last() == all.take(i as int));
                    assert(all.take(i + 1).last() == branches[i as int]@);
                }
                let branch = &branches[i];
                let last_commit = if branch.commits.len() > 0 {
                    branch.commits[0].hash.clone()
                } else {
                    String::new()
                };
                let first_seen = if branch.change == ChangeKind::New {
                    Some(now)
                } else {
                    match known_branches {
                        Some(known) => match known.get(branch.name.as_str()) {
                            Some(record) => record.first_seen,
                            None => None,
                        },
                        None => None,
                    }
                };
                branch_states.insert(
                    branch.name.clone(),
                    BranchState { last_commit, last_seen: now, first_seen },
                );
                i += 1;
            }
            assert(branches.deep_view().take(branches.len() as int) == branches.deep_view());
        }
        let source_state = SourceState::Git {
            last_checked: now,
            default_branch: String::from_str(default_branch),
            branches: branch_states,
        };
        update_source(state, String::from_str(repo_path), source_state);
    }
}

} // verus!
