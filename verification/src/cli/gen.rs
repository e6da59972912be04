//! One run: what it is asked to do, and what comes of what was read.
//!
//! A run has three steps. [`plan`] settles the date of the report, the
//! cutoff and the kinds of source to read. The caller then reads the
//! sources. [`run`] goes through what was read, kind by kind, updates the
//! state and lays out the report.

use vstd::prelude::*;
use vstd::string::StringExecFns;

use crate::collectors::git::{
    repositories_report, state_after_repositories, GitCollector, RepositoryObservation,
    RepositoryObservationView,
};
use crate::collectors::notes::{
    notes_report, state_after_directories, NotesCollector, NotesDirectory, NotesDirectoryView,
};
use crate::collectors::todo::{
    files_report, state_after_files, TodoCollector, TodoFile, TodoFileView,
};
use crate::config::Config;
use crate::error::{ChronicleError, ChronicleErrorView};
use crate::models::{Chronicle, ChronicleView, Note, Repository, Todo};
use crate::renderer::{report_text, Renderer};
use crate::state::{State, StateView};
use crate::text::{contains, contains_text};
use crate::time::{is_utc_instant, parsed_date, parsed_instant, Date, Timestamp};

verus! {

/// What a run is to do.
#[derive(Debug)]
pub struct RunPlan {
    /// The date that the report is for.
    pub date: Date,
    /// The cutoff: only what happened at or after it is reported.
    pub since: Timestamp,
    /// Whether repositories are read.
    pub run_git: bool,
    /// Whether checklist files are read.
    pub run_todos: bool,
    /// Whether note directories are read.
    pub run_notes: bool,
}

/// What was read for a run, by kind of source. A source that could not be
/// read is not listed.
#[derive(Debug)]
pub struct Observations {
    pub repositories: Vec<RepositoryObservation>,
    pub todo_files: Vec<TodoFile>,
    pub notes_dirs: Vec<NotesDirectory>,
}

/// The mathematical value of [`Observations`].
pub ghost struct ObservationsView {
    pub repositories: Seq<RepositoryObservationView>,
    pub todo_files: Seq<TodoFileView>,
    pub notes_dirs: Seq<NotesDirectoryView>,
}

impl View for Observations {
    type V = ObservationsView;

    open spec fn view(&self) -> ObservationsView {
        ObservationsView {
            repositories: self.repositories.deep_view(),
            todo_files: self.todo_files.deep_view(),
            notes_dirs: self.notes_dirs.deep_view(),
        }
    }
}

/// What is to be done at the end of a run.
#[derive(Debug)]
pub enum RunOutcome {
    /// There is nothing to report. Nothing is written, and the state is not
    /// saved.
    NoActivity,
    /// A trial run: the report is shown. Nothing is written, and the state
    /// is not saved.
    Print { markdown: String },
    /// The report is written to the file `file_name` of the output
    /// directory, and the state is saved.
    Write { file_name: String, markdown: String },
}

/// The mathematical value of a [`RunOutcome`].
pub ghost enum RunOutcomeView {
    NoActivity,
    Print { markdown: Seq<char> },
    Write { file_name: Seq<char>, markdown: Seq<char> },
}

impl View for RunOutcome {
    type V = RunOutcomeView;

    open spec fn view(&self) -> RunOutcomeView {
        match *self {
            RunOutcome::NoActivity => RunOutcomeView::NoActivity,
            RunOutcome::Print { markdown } => RunOutcomeView::Print { markdown: markdown@ },
            RunOutcome::Write { file_name, markdown } => RunOutcomeView::Write {
                file_name: file_name@,
                markdown: markdown@,
            },
        }
    }
}

/// Whether a kind of source is read: every kind is, unless `only` is given
/// and does not contain the kind's name.
pub open spec fn selects(only: Option<Seq<char>>, kind: Seq<char>) -> bool {
    match only {
        Some(kinds) => contains_text(kinds, kind),
        None => true,
    }
}

/// The seconds of the cutoff where none is asked for: 24 hours before `now`.
pub open spec fn default_cutoff_seconds(now: Timestamp) -> int {
    now.unix_seconds() - 24 * 3600
}

/// There is an instant 24 hours before `now`.
pub open spec fn has_default_cutoff(now: Timestamp) -> bool {
    default_cutoff_seconds(now) >= i64::MIN && is_utc_instant(
        default_cutoff_seconds(now),
        now.subsec_nanos(),
    )
}

/// The name of the file that the report for `date` is written to.
pub open spec fn report_file_name(date: Date) -> Seq<char> {
    "chronicle-"@ + date.text() + ".md"@
}

/// The state after the repositories of a run, if they are read.
pub open spec fn state_after_git(
    plan: RunPlan,
    observations: ObservationsView,
    state: StateView,
    now: Timestamp,
) -> StateView {
    if plan.run_git {
        state_after_repositories(observations.repositories, state, now)
    } else {
        state
    }
}

/// The state after the repositories and the checklist files of a run, as far
/// as they are read.
pub open spec fn state_after_todos(
    plan: RunPlan,
    observations: ObservationsView,
    state: StateView,
    now: Timestamp,
) -> StateView {
    if plan.run_todos {
        state_after_files(
            observations.todo_files,
            state_after_git(plan, observations, state, now),
            now,
        )
    } else {
        state_after_git(plan, observations, state, now)
    }
}

/// The state after a run.
pub open spec fn state_after_run(
    config: Config,
    plan: RunPlan,
    observations: ObservationsView,
    state: StateView,
    now: Timestamp,
) -> StateView {
    if plan.run_notes {
        state_after_directories(
            observations.notes_dirs,
            state_after_todos(plan, observations, state, now),
            plan.since,
            config.limits.max_chars_per_item as nat,
            now,
        )
    } else {
        state_after_todos(plan, observations, state, now)
    }
}

/// What a run reports: of each kind of source that is read, what its
/// classifier reports against the state that the kinds before it left.
pub open spec fn run_chronicle(
    config: Config,
    plan: RunPlan,
    observations: ObservationsView,
    state: StateView,
    now: Timestamp,
) -> ChronicleView {
    ChronicleView {
        date: plan.date,
        since: plan.since,
        generated_at: now,
        repositories: if plan.run_git {
            repositories_report(observations.repositories, state, now)
        } else {
            Seq::empty()
        },
        todos: if plan.run_todos {
            files_report(
                observations.todo_files,
                state_after_git(plan, observations, state, now),
                now,
            )
        } else {
            Seq::empty()
        },
        notes: if plan.run_notes {
            notes_report(
                observations.notes_dirs,
                state_after_todos(plan, observations, state, now),
                plan.since,
                config.limits.max_chars_per_item as nat,
                config.limits.max_note_files as nat,
                now,
            )
        } else {
            Seq::empty()
        },
    }
}

/// What is to be done with the report `chronicle`.
pub open spec fn outcome_of(config: Config, chronicle: ChronicleView, dry_run: bool) -> Result<
    RunOutcomeView,
    ChronicleErrorView,
> {
    if !chronicle.has_activity() {
        Ok(RunOutcomeView::NoActivity)
    } else if !chronicle.counts_fit() {
        Err(ChronicleErrorView::Renderer("Too many commits or branches to count"@))
    } else {
        let markdown = report_text(
            chronicle,
            config.display.show_authors,
            config.limits.max_changed_files as nat,
        );
        if dry_run {
            Ok(RunOutcomeView::Print { markdown })
        } else {
            Ok(RunOutcomeView::Write { file_name: report_file_name(chronicle.date), markdown })
        }
    }
}

/// Whether a kind of source is read.
pub fn selects_kind(only: Option<&str>, kind: &str) -> (b: bool)
    ensures
        b == selects(
            match only {
                Some(kinds) => Some(kinds@),
                None => None,
            },
            kind@,
        ),
{
    match only {
        Some(kinds) => contains(kinds, kind),
        None => true,
    }
}

/// The name of the file that the report for `date` is written to.
pub fn output_file_name(date: &Date) -> (name: String)
    ensures
        name@ == report_file_name(*date),
{
    let mut name = String::from_str("chronicle-");
    name.append(date.format().as_str());
    name.append(".md");
    name
}

/// Settles what a run is to do. The report is for `date`, given as year,
/// month and day, or for `today`. The cutoff is `since`, given in the
/// notation of RFC 3339, or 24 hours before `now`. Every kind of source is
/// read unless `only` is given: then those kinds are read whose names,
/// `git`, `todos` and `notes`, stand in it.
///
/// Fails on a date or a cutoff that cannot be read, the date first, and
/// where no cutoff is given and there is no instant 24 hours before `now`.
pub fn plan(
    date: Option<&str>,
    since: Option<&str>,
    only: Option<&str>,
    today: Date,
    now: Timestamp,
) -> (result: Result<RunPlan, ChronicleError>)
    ensures
        match result {
            Ok(plan) => {
                &&& match date {
                    Some(text) => parsed_date(text@) == Ok::<(int, int, int), Seq<char>>(
                        (
                            plan.date.year_number(),
                            plan.date.month_number(),
                            plan.date.day_number(),
                        ),
                    ),
                    None => plan.date == today,
                }
                &&& match since {
                    Some(text) => parsed_instant(text@) == Ok::<(int, int), Seq<char>>(
                        (plan.since.unix_seconds(), plan.since.subsec_nanos()),
                    ),
                    None => has_default_cutoff(now) && plan.since == Timestamp::at(
                        default_cutoff_seconds(now),
                        now.subsec_nanos(),
                    ),
                }
                &&& plan.run_git == selects(
                    match only {
                        Some(kinds) => Some(kinds@),
                        None => None,
                    },
                    "git"@,
                )
                &&& plan.run_todos == selects(
                    match only {
                        Some(kinds) => Some(kinds@),
                        None => None,
                    },
                    "todos"@,
                )
                &&& plan.run_notes == selects(
                    match only {
                        Some(kinds) => Some(kinds@),
                        None => None,
                    },
                    "notes"@,
                )
            },
            Err(e) => {
                if date is Some && parsed_date(date->0@) is Err {
                    e@ == ChronicleErrorView::Config(
                        "Invalid date format: "@ + parsed_date(date->0@)->Err_0,
                    )
                } else if since is Some {
                    parsed_instant(since->0@) is Err && e@ == ChronicleErrorView::Config(
                        "Invalid since timestamp: "@ + parsed_instant(since->0@)->Err_0,
                    )
                } else {
                    !has_default_cutoff(now) && e@ == ChronicleErrorView::Config(
                        "Invalid since timestamp: out of range"@,
                    )
                }
            },
        },
{
    let chronicle_date = match date {
        Some(date_str) => match Date::parse(date_str) {
            Ok(parsed) => parsed,
            Err(e) => {
                return Err(e);
            },
        },
        None => today,
    };
    let since_time = match since {
        Some(since_str) => match Timestamp::parse(since_str) {
            Ok(parsed) => parsed,
            Err(e) => {
                return Err(e);
            },
        },
        None => match now.hours_before(24) {
            Some(earlier) => earlier,
            None => {
                return Err(
                    ChronicleError::Config(
                        String::from_str("Invalid since timestamp: out of range"),
                    ),
                );
            },
        },
    };
    Ok(
        RunPlan {
            date: chronicle_date,
            since: since_time,
            run_git: selects_kind(only, "git"),
            run_todos: selects_kind(only, "todos"),
            run_notes: selects_kind(only, "notes"),
        },
    )
}

/// Goes through what was read, kind by kind: repositories, checklist
/// files, note directories. Each source is classified against `state` as
/// the sources before it left it, and leaves its record there. Says then
/// what is to be done with the report.
pub fn run(
    config: &Config,
    plan: &RunPlan,
    observations: &Observations,
    state: &mut State,
    now: Timestamp,
    dry_run: bool,
) -> (result: Result<RunOutcome, ChronicleError>)
    ensures
        final(state)@ == state_after_run(*config, *plan, observations@, old(state)@, now),
        match result {
            Ok(outcome) => outcome_of(
                *config,
                run_chronicle(*config, *plan, observations@, old(state)@, now),
                dry_run,
            ) == Ok::<RunOutcomeView, ChronicleErrorView>(outcome@),
            Err(e) => outcome_of(
                *config,
                run_chronicle(*config, *plan, observations@, old(state)@, now),
                dry_run,
            ) == Err::<RunOutcomeView, ChronicleErrorView>(e@),
        },
{
    let repositories: Vec<Repository> = if plan.run_git {
        let collector = GitCollector::new(config);
        match collector.collect(&observations.repositories, state, now) {
            Ok(found) => found,
            Err(e) => {
                return Err(e);
            },
        }
    } else {
        Vec::new()
    };
    let todos: Vec<Todo> = if plan.run_todos {
        let collector = TodoCollector::new(config);
        match collector.collect(&observations.todo_files, state, now) {
            Ok(found) => found,
            Err(e) => {
                return Err(e);
            },
        }
    } else {
        Vec::new()
    };
    let notes: Vec<Note> = if plan.run_notes {
        let collector = NotesCollector::new(config);
        match collector.collect(&observations.notes_dirs, state, plan.since, now) {
            Ok(found) => found,
            Err(e) => {
                return Err(e);
            },
        }
    } else {
        Vec::new()
    };
    let chronicle = Chronicle {
        date: plan.date,
        since: plan.since,
        generated_at: now,
        repositories,
        todos,
        notes,
    };
    proof {
        let expected = run_chronicle(*config, *plan, observations@, old(state)@, now);
        assert(chronicle@.repositories =~= expected.repositories);
        assert(chronicle@.todos =~= expected.todos);
        assert(chronicle@.notes =~= expected.notes);
    }
    if !chronicle.has_activity() {
        return Ok(RunOutcome::NoActivity);
    }
    if !chronicle.counts_fit() {
        return Err(
            ChronicleError::Renderer(String::from_str("Too many commits or branches to count")),
        );
    }
    let renderer = Renderer::new(config);
    let markdown = renderer.render(&chronicle);
    if dry_run {
        Ok(RunOutcome::Print { markdown })
    } else {
        Ok(RunOutcome::Write { file_name: output_file_name(&chronicle.date), markdown })
    }
}

} // verus!
