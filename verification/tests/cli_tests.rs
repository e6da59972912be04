use chronicle::cli::gen::{output_file_name, plan, run, selects_kind, Observations, RunOutcome, RunPlan};
use chronicle::cli::show::{find_latest_chronicle, is_chronicle_file};
use chronicle::collectors::{
    Head, NoteFile, NotesDirectory, ObservedBranch, RepositoryObservation, TodoFile,
};
use chronicle::config::Config;
use chronicle::display::should_use_colors;
use chronicle::error::ChronicleError;
use chronicle::models::Commit;
use chronicle::state::State;
use chronicle::time::{Date, Timestamp};

fn at(seconds: i64) -> Timestamp {
    Timestamp::from_unix(seconds, 0).unwrap()
}

fn today() -> Date {
    Date::from_ymd(2024, 1, 15).unwrap()
}

fn names(items: &[&str]) -> Vec<String> {
    items.iter().map(|s| s.to_string()).collect()
}

fn observations() -> Observations {
    Observations {
        repositories: vec![RepositoryObservation {
            path: "/work/repo".to_string(),
            head: Head { is_branch: true, shorthand: Some("main".to_string()) },
            branches: vec![ObservedBranch {
                name: "main".to_string(),
                commits: vec![Commit {
                    hash: "abc1234".to_string(),
                    message: "Update file".to_string(),
                    author: "Test User".to_string(),
                    timestamp: at(1_705_312_000),
                    files: vec!["test.txt".to_string()],
                }],
                ahead: 0,
                behind: 0,
            }],
        }],
        todo_files: vec![TodoFile {
            path: "todo.md".to_string(),
            content: "# My TODOs\n- [ ] Task 1\n- [x] Task 2\n- [~] Task 3\n".to_string(),
        }],
        notes_dirs: vec![NotesDirectory {
            path: "/notes".to_string(),
            files: vec![NoteFile {
                path: "/notes/idea.md".to_string(),
                modified_at: at(1_705_312_100),
                content: "An idea.".to_string(),
            }],
        }],
    }
}

fn full_plan() -> RunPlan {
    plan(None, None, None, today(), at(1_705_312_800)).unwrap()
}

#[test]
fn test_no_color_disables() {
    assert_eq!(should_use_colors(true, None, None, true), false);
}

#[test]
fn test_clicolor_force_enables() {
    assert_eq!(should_use_colors(false, Some("1"), None, false), true);
}

#[test]
fn test_no_color_overrides_force() {
    assert_eq!(should_use_colors(true, Some("1"), None, true), false);
}

#[test]
fn test_clicolor_zero_disables() {
    assert_eq!(should_use_colors(false, None, Some("0"), true), false);
}

#[test]
fn colours_follow_the_terminal_where_nothing_else_decides() {
    assert_eq!(should_use_colors(false, None, None, true), true);
    assert_eq!(should_use_colors(false, None, None, false), false);
    assert_eq!(should_use_colors(false, Some("0"), None, true), true);
    assert_eq!(should_use_colors(false, Some("0"), None, false), false);
    assert_eq!(should_use_colors(false, Some("0"), Some("0"), true), false);
    assert_eq!(should_use_colors(false, Some(""), Some("0"), false), true);
    assert_eq!(should_use_colors(false, None, Some("1"), false), false);
    assert_eq!(should_use_colors(false, None, Some("00"), true), true);
}

#[test]
fn plan_defaults_to_today_the_last_day_and_every_kind() {
    let planned = plan(None, None, None, today(), at(1_705_312_800)).unwrap();
    assert_eq!(planned.date, today());
    assert_eq!(planned.since, at(1_705_312_800 - 86_400));
    assert!(planned.run_git && planned.run_todos && planned.run_notes);
}

#[test]
fn plan_reads_date_cutoff_and_kinds() {
    let planned = plan(
        Some("2023-12-31"),
        Some("2023-12-30T08:00:00+01:00"),
        Some("git,notes"),
        today(),
        at(1_705_312_800),
    )
    .unwrap();
    assert_eq!(planned.date, Date::from_ymd(2023, 12, 31).unwrap());
    assert_eq!(planned.since, at(1_703_919_600));
    assert!(planned.run_git);
    assert!(!planned.run_todos);
    assert!(planned.run_notes);
    assert!(selects_kind(Some("todos"), "todos"));
    assert!(!selects_kind(Some("todo"), "todos"));
    assert!(selects_kind(Some("xgitx"), "git"));
    assert!(!selects_kind(Some(""), "git"));
    assert!(selects_kind(None, "git"));
}

#[test]
fn plan_fails_on_a_bad_date_before_a_bad_cutoff() {
    match plan(Some("15.01.2024"), Some("never"), None, today(), at(0)) {
        Err(ChronicleError::Config(message)) => {
            assert_eq!(message, "Invalid date format: input contains invalid characters")
        }
        _ => panic!("expected a configuration error"),
    }
    match plan(Some("2024-01-15"), Some("never"), None, today(), at(0)) {
        Err(ChronicleError::Config(message)) => {
            assert_eq!(message, "Invalid since timestamp: premature end of input")
        }
        _ => panic!("expected a configuration error"),
    }
}

#[test]
fn report_file_is_named_by_its_date() {
    assert_eq!(output_file_name(&today()), "chronicle-2024-01-15.md");
}

#[test]
fn run_writes_the_report_of_all_kinds_and_records_every_source() {
    let config = Config::default();
    let mut state = State::new(at(0));

    let outcome =
        run(&config, &full_plan(), &observations(), &mut state, at(1_705_312_800), false).unwrap();

    match outcome {
        RunOutcome::Write { file_name, markdown } => {
            assert_eq!(file_name, "chronicle-2024-01-15.md");
            assert!(markdown.starts_with("# Chronicle: 2024-01-15\n\n**Generated:** 2024-01-15 10:00:00 UTC\n**Since:** 2024-01-14 10:00:00 UTC\n\n## Summary\n"));
            assert!(markdown.contains("| Repositories | 1 |"));
            assert!(markdown.contains("| New TODOs | 3 |"));
            assert!(markdown.contains("| Note Updates | 1 |"));
            assert!(markdown.contains("## Git Activity"));
            assert!(markdown.contains("`abc1234` Update file"));
            assert!(markdown.contains("## TODOs"));
            assert!(markdown.contains("Task 1"));
            assert!(markdown.contains("Task 2"));
            assert!(markdown.contains("Task 3"));
            assert!(markdown.contains("## Notes"));
            assert!(markdown.ends_with("An idea."));
        }
        _ => panic!("expected a report to write"),
    }
    assert_eq!(state.sources.len(), 3);
    assert!(state.sources.contains_key("/work/repo"));
    assert!(state.sources.contains_key("todo.md"));
    assert!(state.sources.contains_key("/notes"));
}

#[test]
fn trial_run_shows_the_report() {
    let config = Config::default();
    let mut state = State::new(at(0));

    let outcome =
        run(&config, &full_plan(), &observations(), &mut state, at(1_705_312_800), true).unwrap();

    assert!(matches!(outcome, RunOutcome::Print { .. }));
}

#[test]
fn run_reads_the_chosen_kinds_only() {
    let config = Config::default();
    let mut state = State::new(at(0));
    let planned = plan(None, None, Some("todos"), today(), at(1_705_312_800)).unwrap();

    let outcome = run(&config, &planned, &observations(), &mut state, at(1_705_312_800), true).unwrap();

    match outcome {
        RunOutcome::Print { markdown } => {
            assert!(!markdown.contains("## Git Activity"));
            assert!(markdown.contains("## TODOs"));
            assert!(!markdown.contains("## Notes"));
        }
        _ => panic!("expected a report to show"),
    }
    assert_eq!(state.sources.len(), 1);
}

#[test]
fn run_without_activity_reports_nothing() {
    let config = Config::default();
    let mut state = State::new(at(0));
    let nothing =
        Observations { repositories: vec![], todo_files: vec![], notes_dirs: vec![] };

    let outcome = run(&config, &full_plan(), &nothing, &mut state, at(1_705_312_800), false).unwrap();

    assert!(matches!(outcome, RunOutcome::NoActivity));
}

#[test]
fn second_run_reports_known_branches_and_no_todo() {
    let config = Config::default();
    let mut state = State::new(at(0));
    let mut seen = observations();
    seen.notes_dirs.clear();
    run(&config, &full_plan(), &seen, &mut state, at(1_705_312_800), false).unwrap();

    let outcome = run(&config, &full_plan(), &seen, &mut state, at(1_705_312_900), true).unwrap();

    match outcome {
        RunOutcome::Print { markdown } => {
            assert!(markdown.contains("| New Branches | 0 |"));
            assert!(markdown.contains("| New TODOs | 0 |"));
            assert!(markdown.contains("#### `main`\n"));
            assert!(!markdown.contains("## TODOs"));
        }
        _ => panic!("expected a report to show"),
    }
}

#[test]
fn latest_report_is_the_last_by_name() {
    let found = find_latest_chronicle(&names(&[
        "chronicle-2024-01-15.md",
        "notes.md",
        "chronicle-2024-02-01.md",
        "chronicle-2023-12-31.md",
        "chronicle-2024-03-01.txt",
        "Chronicle-2025-01-01.md",
    ]));
    assert_eq!(found.unwrap(), "chronicle-2024-02-01.md");
    assert!(is_chronicle_file("chronicle-.md"));
    assert!(!is_chronicle_file("chronicle-.m"));
    assert!(!is_chronicle_file("chronicle.md"));
}

#[test]
fn no_report_is_a_configuration_error() {
    match find_latest_chronicle(&names(&["readme.md", "chronicle-2024"])) {
        Err(ChronicleError::Config(message)) => {
            assert_eq!(message, "No chronicle files found. Run 'chronicle gen' first.")
        }
        _ => panic!("expected a configuration error"),
    }
    assert!(find_latest_chronicle(&Vec::new()).is_err());
}
