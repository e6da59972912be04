//! What holds of the evaluation of branches, proved from its definition.

use vstd::prelude::*;

use crate::collectors::git::{
    branch_change, branch_records, default_branch_of, evaluated_branches, first_stop, new_files,
    prior_branches, reported_branches, repository_report, state_after_repositories,
    state_after_repository, stops_walk, window_len, with_commits, ObservedBranchView,
    RawCommitView, RepositoryObservationView,
};
use crate::models::{BranchView, ChangeKind};
use crate::state::{BranchStateView, StateView};
use crate::time::Timestamp;

verus! {

/// The walk stops within the history or at its end; where it stops within,
/// that commit stops it, and no earlier commit does.
pub proof fn lemma_first_stop_bounds(history: Seq<RawCommitView>, since: Timestamp)
    ensures
        0 <= first_stop(history, since) <= history.len(),
        first_stop(history, since) < history.len() ==> stops_walk(
            history[first_stop(history, since)],
            since,
        ),
        forall|j: int|
            0 <= j < first_stop(history, since) ==> !stops_walk(#[trigger] history[j], since),
    decreases history.len(),
{
    if history.len() == 0 || stops_walk(history[0], since) {
    } else {
        let rest = history.drop_first();
        lemma_first_stop_bounds(rest, since);
        assert forall|j: int| 0 <= j < first_stop(history, since) implies !stops_walk(
            #[trigger] history[j],
            since,
        ) by {
            if j > 0 {
                assert(history[j] == rest[j - 1]);
            }
        }
    }
}

/// The walk takes the newest commits only: no more than allowed, each with a
/// time that is an instant at or after the cutoff, and it takes every commit
/// unless the limit or a commit that stops it comes first.
pub proof fn lemma_window_holds_recent_commits(
    history: Seq<RawCommitView>,
    since: Timestamp,
    max_commits: nat,
)
    ensures
        0 <= window_len(history, since, max_commits) <= history.len(),
        window_len(history, since, max_commits) <= max_commits,
        forall|j: int|
            0 <= j < window_len(history, since, max_commits) ==> !stops_walk(
                #[trigger] history[j],
                since,
            ),
        window_len(history, since, max_commits) < history.len() ==> window_len(
            history,
            since,
            max_commits,
        ) == max_commits || stops_walk(history[window_len(history, since, max_commits)], since),
{
    lemma_first_stop_bounds(history, since);
}

/// The files seen after a commit are listed once each if they were before,
/// and no file joins once as many as the limit are listed.
pub proof fn lemma_new_files_are_new(paths: Seq<Seq<char>>, seen: Seq<Seq<char>>, limit: nat)
    requires
        seen.no_duplicates(),
    ensures
        (seen + new_files(paths, seen, limit)).no_duplicates(),
        new_files(paths, seen, limit).len() > 0 ==> seen.len() + new_files(
            paths,
            seen,
            limit,
        ).len() <= limit,
        forall|i: int|
            0 <= i < new_files(paths, seen, limit).len() ==> paths.contains(
                #[trigger] new_files(paths, seen, limit)[i],
            ),
    decreases paths.len(),
{
    if paths.len() > 0 {
        let rest = paths.drop_last();
        let before = new_files(rest, seen, limit);
        let all = new_files(paths, seen, limit);
        lemma_new_files_are_new(rest, seen, limit);
        assert forall|i: int| 0 <= i < all.len() implies paths.contains(#[trigger] all[i]) by {
            if i < before.len() {
                assert(all[i] == before[i]);
                assert(rest.contains(before[i]));
                let k = choose|k: int| 0 <= k < rest.len() && rest[k] == before[i];
                assert(paths[k] == before[i]);
            } else {
                assert(paths[paths.len() - 1] == all[i]);
            }
        }
        if all.len() > before.len() {
            let path = paths.last();
            assert(seen + all == (seen + before).push(path));
            assert(!(seen + before).contains(path)) by {
                if (seen + before).contains(path) {
                    let k = choose|k: int| 0 <= k < (seen + before).len() && (seen + before)[k]
                        == path;
                    if k < seen.len() {
                        assert(seen[k] == path);
                    } else {
                        assert(before[k - seen.len()] == path);
                    }
                }
            }
            assert forall|i: int, j: int|
                0 <= i < (seen + all).len() && 0 <= j < (seen + all).len() && i != j implies (seen
                + all)[i] != (seen + all)[j] by {
                let joined = seen + before;
                if i < joined.len() && j < joined.len() {
                    assert((seen + all)[i] == joined[i] && (seen + all)[j] == joined[j]);
                } else if i < joined.len() {
                    assert((seen + all)[i] == joined[i]);
                    assert(joined.contains(joined[i]));
                } else {
                    assert((seen + all)[j] == joined[j]);
                    assert(joined.contains(joined[j]));
                }
            }
        }
    } else {
        assert(seen + new_files(paths, seen, limit) == seen);
    }
}

/// `a` and `b` list the same branches with the same commits and distances;
/// they may differ in what they say of each branch's change.
pub open spec fn same_branches(a: Seq<BranchView>, b: Seq<BranchView>) -> bool {
    &&& a.len() == b.len()
    &&& forall|i: int|
        0 <= i < a.len() ==> (#[trigger] a[i]).name == b[i].name && a[i].commits == b[i].commits
            && a[i].ahead == b[i].ahead && a[i].behind == b[i].behind
}

/// Each evaluated branch is new or modified by the record of the previous
/// run alone, and the default branch is at distance zero from itself.
pub proof fn lemma_evaluated_branches(
    observed: Seq<ObservedBranchView>,
    default_branch: Seq<char>,
    prior: Option<Map<Seq<char>, BranchStateView>>,
)
    ensures
        forall|i: int|
            0 <= i < evaluated_branches(observed, default_branch, prior).len() ==> {
                let branch = #[trigger] evaluated_branches(observed, default_branch, prior)[i];
                &&& branch.change == branch_change(branch.name, prior)
                &&& branch.change != ChangeKind::Unchanged
                &&& branch.name == default_branch ==> branch.ahead == 0 && branch.behind == 0
                &&& branch.commits.len() > 0 || branch.name == default_branch
            },
    decreases observed.len(),
{
    if observed.len() > 0 {
        lemma_evaluated_branches(observed.drop_last(), default_branch, prior);
    }
}

/// Every branch kept by `with_commits` is one of the given branches and has
/// a commit.
pub proof fn lemma_with_commits(branches: Seq<BranchView>)
    ensures
        forall|i: int|
            0 <= i < with_commits(branches).len() ==> branches.contains(
                #[trigger] with_commits(branches)[i],
            ) && with_commits(branches)[i].commits.len() > 0,
    decreases branches.len(),
{
    if branches.len() > 0 {
        let rest = branches.drop_last();
        lemma_with_commits(rest);
        assert forall|i: int| 0 <= i < with_commits(branches).len() implies branches.contains(
            #[trigger] with_commits(branches)[i],
        ) && with_commits(branches)[i].commits.len() > 0 by {
            if i < with_commits(rest).len() {
                let kept = with_commits(rest)[i];
                assert(rest.contains(kept));
                let k = choose|k: int| 0 <= k < rest.len() && rest[k] == kept;
                assert(branches[k] == kept);
            } else {
                assert(branches[branches.len() - 1] == with_commits(branches)[i]);
            }
        }
    }
}

proof fn lemma_evaluated_same_branches(
    observed: Seq<ObservedBranchView>,
    default_branch: Seq<char>,
    first: Option<Map<Seq<char>, BranchStateView>>,
    second: Option<Map<Seq<char>, BranchStateView>>,
)
    ensures
        same_branches(
            evaluated_branches(observed, default_branch, first),
            evaluated_branches(observed, default_branch, second),
        ),
    decreases observed.len(),
{
    if observed.len() > 0 {
        lemma_evaluated_same_branches(observed.drop_last(), default_branch, first, second);
    }
}

proof fn lemma_with_commits_same_branches(a: Seq<BranchView>, b: Seq<BranchView>)
    requires
        same_branches(a, b),
    ensures
        same_branches(with_commits(a), with_commits(b)),
    decreases a.len(),
{
    if a.len() > 0 {
        assert(a[a.len() - 1].commits == b[a.len() - 1].commits);
        assert(same_branches(a.drop_last(), b.drop_last())) by {
            assert forall|i: int| 0 <= i < a.drop_last().len() implies (#[trigger] a.drop_last()[i]).name
                == b.drop_last()[i].name && a.drop_last()[i].commits == b.drop_last()[i].commits
                && a.drop_last()[i].ahead == b.drop_last()[i].ahead && a.drop_last()[i].behind
                == b.drop_last()[i].behind by {
                assert(a.drop_last()[i] == a[i]);
                assert(b.drop_last()[i] == b[i]);
            }
        }
        lemma_with_commits_same_branches(a.drop_last(), b.drop_last());
    }
}

/// Every recorded branch is found in the record under its name.
pub proof fn lemma_branch_records_know_names(
    branches: Seq<BranchView>,
    prior: Option<Map<Seq<char>, BranchStateView>>,
    now: Timestamp,
)
    ensures
        forall|i: int|
            0 <= i < branches.len() ==> branch_records(branches, prior, now).contains_key(
                (#[trigger] branches[i]).name,
            ),
    decreases branches.len(),
{
    if branches.len() > 0 {
        let rest = branches.drop_last();
        lemma_branch_records_know_names(rest, prior, now);
        assert forall|i: int| 0 <= i < branches.len() implies branch_records(
            branches,
            prior,
            now,
        ).contains_key((#[trigger] branches[i]).name) by {
            if i < rest.len() {
                assert(rest[i] == branches[i]);
            }
        }
    }
}

/// A reported branch is new if the record of the previous run holds no
/// branch of its name, and modified otherwise. It has a commit in the
/// window, and the default branch is reported at distance zero.
pub proof fn lemma_reported_branch_is_new_or_modified(
    observation: RepositoryObservationView,
    state: StateView,
    i: int,
)
    requires
        0 <= i < reported_branches(observation, state).len(),
    ensures
        ({
            let branch = reported_branches(observation, state)[i];
            let prior = prior_branches(state, observation.path);
            &&& branch.change == if prior is Some && prior->0.contains_key(branch.name) {
                ChangeKind::Modified
            } else {
                ChangeKind::New
            }
            &&& branch.commits.len() > 0
            &&& branch.name == default_branch_of(observation.head) ==> branch.ahead == 0
                && branch.behind == 0
        }),
{
    let default_branch = default_branch_of(observation.head);
    let prior = prior_branches(state, observation.path);
    let evaluated = evaluated_branches(observation.branches, default_branch, prior);
    lemma_evaluated_branches(observation.branches, default_branch, prior);
    lemma_with_commits(evaluated);
    let branch = reported_branches(observation, state)[i];
    assert(evaluated.contains(branch));
    let k = choose|k: int| 0 <= k < evaluated.len() && evaluated[k] == branch;
    assert(evaluated[k].change == branch_change(evaluated[k].name, prior));
}

/// A second run over a repository that did not change reports the same
/// branches with the same commits, and none of them as new.
pub proof fn lemma_second_run_has_no_new_branch(
    observation: RepositoryObservationView,
    state: StateView,
    first: Timestamp,
)
    ensures
        same_branches(
            reported_branches(observation, state),
            reported_branches(observation, state_after_repository(observation, state, first)),
        ),
        forall|i: int|
            0 <= i < reported_branches(
                observation,
                state_after_repository(observation, state, first),
            ).len() ==> (#[trigger] reported_branches(
                observation,
                state_after_repository(observation, state, first),
            )[i]).change == ChangeKind::Modified,
{
    let default_branch = default_branch_of(observation.head);
    let prior = prior_branches(state, observation.path);
    let after = state_after_repository(observation, state, first);
    let prior_after = prior_branches(after, observation.path);
    let once = reported_branches(observation, state);
    let twice = reported_branches(observation, after);
    lemma_evaluated_same_branches(observation.branches, default_branch, prior, prior_after);
    lemma_with_commits_same_branches(
        evaluated_branches(observation.branches, default_branch, prior),
        evaluated_branches(observation.branches, default_branch, prior_after),
    );
    assert forall|i: int| 0 <= i < twice.len() implies (#[trigger] twice[i]).change
        == ChangeKind::Modified by {
        lemma_reported_branch_is_new_or_modified(observation, after, i);
        lemma_branch_records_know_names(once, prior, first);
        assert(once[i].name == twice[i].name);
        assert(prior_after == Some(branch_records(once, prior, first)));
    }
}

/// A run leaves the record of every source that is none of the repositories
/// it observed as it was, and with it the version and the time of the state.
pub proof fn lemma_unobserved_sources_keep_their_records(
    observations: Seq<RepositoryObservationView>,
    state: StateView,
    now: Timestamp,
    source: Seq<char>,
)
    requires
        forall|i: int|
            0 <= i < observations.len() ==> (#[trigger] observations[i]).path != source,
    ensures
        state_after_repositories(observations, state, now).sources.contains_key(source)
            == state.sources.contains_key(source),
        state_after_repositories(observations, state, now).sources[source]
            == state.sources[source],
        state_after_repositories(observations, state, now).version == state.version,
        state_after_repositories(observations, state, now).last_updated == state.last_updated,
    decreases observations.len(),
{
    if observations.len() > 0 {
        let rest = observations.drop_last();
        assert forall|i: int| 0 <= i < rest.len() implies (#[trigger] rest[i]).path != source by {
            assert(rest[i] == observations[i]);
        }
        lemma_unobserved_sources_keep_their_records(rest, state, now, source);
        assert(observations[observations.len() - 1].path != source);
    }
}

/// A run that observes no commit in the window reports nothing of the
/// repository and leaves the state as it was.
pub proof fn lemma_no_commits_no_report(
    observation: RepositoryObservationView,
    state: StateView,
    now: Timestamp,
)
    requires
        forall|j: int|
            0 <= j < observation.branches.len() ==> (#[trigger] observation.branches[j]).commits.len()
                == 0,
    ensures
        repository_report(observation, state) is None,
        state_after_repository(observation, state, now) == state,
{
    let default_branch = default_branch_of(observation.head);
    let prior = prior_branches(state, observation.path);
    let evaluated = evaluated_branches(observation.branches, default_branch, prior);
    lemma_with_commits(evaluated);
    lemma_evaluated_no_commits(observation.branches, default_branch, prior);
    if with_commits(evaluated).len() > 0 {
        let kept = with_commits(evaluated)[0];
        assert(evaluated.contains(kept));
    }
}

proof fn lemma_evaluated_no_commits(
    observed: Seq<ObservedBranchView>,
    default_branch: Seq<char>,
    prior: Option<Map<Seq<char>, BranchStateView>>,
)
    requires
        forall|j: int| 0 <= j < observed.len() ==> (#[trigger] observed[j]).commits.len() == 0,
    ensures
        forall|i: int|
            0 <= i < evaluated_branches(observed, default_branch, prior).len()
                ==> (#[trigger] evaluated_branches(observed, default_branch, prior)[i]).commits.len()
                == 0,
    decreases observed.len(),
{
    if observed.len() > 0 {
        let rest = observed.drop_last();
        assert forall|j: int| 0 <= j < rest.len() implies (#[trigger] rest[j]).commits.len()
            == 0 by {
            assert(rest[j] == observed[j]);
        }
        lemma_evaluated_no_commits(rest, default_branch, prior);
        assert(observed[observed.len() - 1].commits.len() == 0);
    }
}

} // verus!
