use vstd::prelude::*;
use vstd::string::StringExecFns;

verus! {

/// What to collect, where to write, and how much.
#[derive(Debug)]
pub struct Config {
    /// The directory that reports are written to.
    pub output_dir: String,
    /// The file that holds the record of the previous run.
    pub state_file: String,
    /// The repositories to track.
    pub repos: Vec<String>,
    /// The checklist files to parse.
    pub todo_files: Vec<String>,
    /// The directories that hold note files.
    pub notes_dirs: Vec<String>,
    pub limits: Limits,
    pub display: Display,
}

/// Upper bounds on what a run collects.
#[derive(Debug, Clone, Copy, PartialEq, Eq, Structural)]
pub struct Limits {
    /// The most commits collected per branch.
    pub max_commits: usize,
    /// The most changed files collected per branch, and listed per branch.
    pub max_changed_files: usize,
    /// The most note files reported.
    pub max_note_files: usize,
    /// The most bytes of a note that its excerpt is taken from.
    pub max_chars_per_item: usize,
}

/// How a report is laid out.
#[derive(Debug, Clone, Copy, PartialEq, Eq, Structural)]
pub struct Display {
    /// Whether each commit is listed with its author.
    pub show_authors: bool,
}

impl Default for Limits {
    fn default() -> (limits: Self)
        ensures
            limits.max_commits == 50,
            limits.max_changed_files == 80,
            limits.max_note_files == 30,
            limits.max_chars_per_item == 2000,
    {
        Limits {
            max_commits: 50,
            max_changed_files: 80,
            max_note_files: 30,
            max_chars_per_item: 2000,
        }
    }
}

impl Default for Display {
    fn default() -> (display: Self)
        ensures
            display.show_authors,
    {
        Display { show_authors: true }
    }
}

impl Default for Config {
    fn default() -> (config: Self)
        ensures
            config.output_dir@ == "./chronicles"@,
            config.state_file@ == "./.chronicle-state.json"@,
            config.repos.deep_view() == seq!["."@],
            config.todo_files@.len() == 0,
            config.notes_dirs@.len() == 0,
            config.limits.max_commits == 50,
            config.limits.max_changed_files == 80,
            config.limits.max_note_files == 30,
            config.limits.max_chars_per_item == 2000,
            config.display.show_authors,
    {
        let mut repos: Vec<String> = Vec::new();
        repos.push(String::from_str("."));
        assert(repos.deep_view() == seq!["."@]);
        Config {
            output_dir: String::from_str("./chronicles"),
            state_file: String::from_str("./.chronicle-state.json"),
            repos,
            todo_files: Vec::new(),
            notes_dirs: Vec::new(),
            limits: Limits::default(),
            display: Display::default(),
        }
    }
}

} // verus!
