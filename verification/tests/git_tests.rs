use chronicle::collectors::{GitCollector, Head, ObservedBranch, RawCommit, RepositoryObservation};
use chronicle::config::Config;
use chronicle::error::ChronicleError;
use chronicle::models::{Branch, ChangeKind, Commit};
use chronicle::state::{get_source, update_source, BranchState, SourceState, State};
use chronicle::string_map::StringMap;
use chronicle::time::Timestamp;

fn at(seconds: i64) -> Timestamp {
    Timestamp::from_unix(seconds, 0).unwrap()
}

fn commit(hash: &str, seconds: i64) -> Commit {
    Commit {
        hash: hash.to_string(),
        message: "Initial commit".to_string(),
        author: "Test User".to_string(),
        timestamp: at(seconds),
        files: vec!["test.txt".to_string()],
    }
}

fn observed(name: &str, commits: Vec<Commit>, ahead: usize, behind: usize) -> ObservedBranch {
    ObservedBranch { name: name.to_string(), commits, ahead, behind }
}

fn head(name: &str) -> Head {
    Head { is_branch: true, shorthand: Some(name.to_string()) }
}

fn raw(id: &str, message: &str, seconds: i64, files: &[&str]) -> RawCommit {
    RawCommit {
        id: id.to_string(),
        message: Some(message.to_string()),
        author: Some("Alice".to_string()),
        seconds,
        files: files.iter().map(|f| f.to_string()).collect(),
    }
}

fn branch_record<'a>(state: &'a State, repo: &str, branch: &str) -> Option<&'a BranchState> {
    match get_source(state, repo) {
        Some(SourceState::Git { branches, .. }) => branches.get(branch),
        _ => None,
    }
}

#[test]
fn git_test_collect_from_empty_config() {
    let config = Config::default();
    let collector = GitCollector::new(&config);
    let mut state = State::new(at(0));

    let result = collector.collect(&Vec::new(), &mut state, at(10));
    assert!(result.is_ok());
    assert_eq!(result.unwrap().len(), 0);
}

#[test]
fn test_collect_repository_with_commits() {
    let config = Config::default();
    let collector = GitCollector::new(&config);
    let mut state = State::new(at(0));

    let observations = vec![RepositoryObservation {
        path: "/tmp/work/repo".to_string(),
        head: head("master"),
        branches: vec![observed("master", vec![commit("abc1234", 100)], 0, 0)],
    }];
    let result = collector.collect(&observations, &mut state, at(200));
    assert!(result.is_ok());

    let repos = result.unwrap();
    assert_eq!(repos.len(), 1);
    assert_eq!(repos[0].branches.len(), 1);
    assert!(!repos[0].branches[0].commits.is_empty());
}

#[test]
fn default_branch_alone_with_one_commit_is_reported_at_distance_zero() {
    let config = Config::default();
    let collector = GitCollector::new(&config);
    let mut state = State::new(at(0));

    let observations = vec![RepositoryObservation {
        path: "/home/me/project".to_string(),
        head: head("main"),
        // What was counted for the default branch is not used.
        branches: vec![observed("main", vec![commit("abc1234", 100)], 5, 7)],
    }];
    let repos = collector.collect(&observations, &mut state, at(200)).unwrap();

    assert_eq!(repos.len(), 1);
    assert_eq!(repos[0].name, "project");
    assert_eq!(repos[0].path, "/home/me/project");
    assert_eq!(repos[0].default_branch, "main");
    assert_eq!(repos[0].branches.len(), 1);
    assert_eq!(repos[0].branches[0].name, "main");
    assert_eq!(repos[0].branches[0].change, ChangeKind::New);
    assert_eq!(repos[0].branches[0].ahead, 0);
    assert_eq!(repos[0].branches[0].behind, 0);
    assert_eq!(repos[0].branches[0].commits.len(), 1);
    assert_eq!(repos[0].branches[0].commits[0].hash, "abc1234");
}

#[test]
fn branch_is_new_without_record_and_modified_with_one() {
    let config = Config::default();
    let collector = GitCollector::new(&config);

    assert_eq!(collector.determine_branch_change("main", None), ChangeKind::New);

    let mut known: StringMap<BranchState> = StringMap::new();
    known.insert(
        "main".to_string(),
        BranchState { last_commit: "abc1234".to_string(), last_seen: at(1), first_seen: None },
    );
    assert_eq!(collector.determine_branch_change("main", Some(&known)), ChangeKind::Modified);
    assert_eq!(collector.determine_branch_change("Main", Some(&known)), ChangeKind::New);
    assert_eq!(collector.determine_branch_change("feature", Some(&known)), ChangeKind::New);
}

#[test]
fn branches_without_commits_are_left_out_but_the_default_branch_is_evaluated() {
    let config = Config::default();
    let collector = GitCollector::new(&config);
    let state = State::new(at(0));

    let branches = collector.collect_branches(
        &vec![
            observed("idle", vec![], 3, 1),
            observed("main", vec![], 0, 0),
            observed("feature", vec![commit("def5678", 50)], 2, 4),
        ],
        "main",
        &state,
        "/repo",
    );

    assert_eq!(branches.len(), 2);
    assert_eq!(branches[0].name, "main");
    assert_eq!(branches[0].commits.len(), 0);
    assert_eq!(branches[1].name, "feature");
    assert_eq!(branches[1].ahead, 2);
    assert_eq!(branches[1].behind, 4);
    assert_eq!(branches[1].change, ChangeKind::New);
    assert!(collector.evaluates("main", "main", 0));
    assert!(collector.evaluates("feature", "main", 1));
    assert!(!collector.evaluates("idle", "main", 0));
}

#[test]
fn repository_without_commits_is_not_reported_and_leaves_the_state() {
    let config = Config::default();
    let collector = GitCollector::new(&config);
    let mut state = State::new(at(0));

    let observation = RepositoryObservation {
        path: "/repo".to_string(),
        head: head("main"),
        branches: vec![observed("main", vec![], 0, 0), observed("idle", vec![], 1, 1)],
    };
    let report = collector.collect_repository(&observation, &mut state, at(9));

    assert!(report.is_none());
    assert_eq!(state.sources.len(), 0);
}

#[test]
fn second_run_reports_known_branches_as_modified_and_keeps_first_seen() {
    let config = Config::default();
    let collector = GitCollector::new(&config);
    let mut state = State::new(at(0));
    let observations = vec![RepositoryObservation {
        path: "/repo".to_string(),
        head: head("main"),
        branches: vec![
            observed("main", vec![commit("aaa1111", 100)], 0, 0),
            observed("feature", vec![commit("bbb2222", 90), commit("ccc3333", 80)], 2, 0),
        ],
    }];

    let first = collector.collect(&observations, &mut state, at(200)).unwrap();
    assert_eq!(first[0].branches[0].change, ChangeKind::New);
    assert_eq!(first[0].branches[1].change, ChangeKind::New);
    let recorded = branch_record(&state, "/repo", "feature").unwrap();
    assert_eq!(recorded.last_commit, "bbb2222");
    assert_eq!(recorded.last_seen, at(200));
    assert_eq!(recorded.first_seen, Some(at(200)));

    let second = collector.collect(&observations, &mut state, at(300)).unwrap();
    assert_eq!(second[0].branches.len(), 2);
    assert_eq!(second[0].branches[0].change, ChangeKind::Modified);
    assert_eq!(second[0].branches[1].change, ChangeKind::Modified);
    let recorded = branch_record(&state, "/repo", "feature").unwrap();
    assert_eq!(recorded.last_seen, at(300));
    assert_eq!(recorded.first_seen, Some(at(200)));
    match get_source(&state, "/repo") {
        Some(SourceState::Git { last_checked, default_branch, branches }) => {
            assert_eq!(*last_checked, at(300));
            assert_eq!(default_branch, "main");
            assert_eq!(branches.len(), 2);
        }
        _ => panic!("no repository record"),
    }
}

#[test]
fn record_holds_reported_branches_only() {
    let config = Config::default();
    let collector = GitCollector::new(&config);
    let mut state = State::new(at(0));
    let mut known: StringMap<BranchState> = StringMap::new();
    known.insert(
        "gone".to_string(),
        BranchState { last_commit: "0000000".to_string(), last_seen: at(1), first_seen: Some(at(1)) },
    );
    known.insert(
        "old".to_string(),
        BranchState { last_commit: "1111111".to_string(), last_seen: at(1), first_seen: None },
    );
    update_source(
        &mut state,
        "/repo".to_string(),
        SourceState::Git { last_checked: at(1), default_branch: "main".to_string(), branches: known },
    );

    let branches = vec![
        Branch {
            name: "old".to_string(),
            change: ChangeKind::Modified,
            ahead: 0,
            behind: 0,
            commits: vec![commit("2222222", 5)],
        },
        Branch { name: "bare".to_string(), change: ChangeKind::New, ahead: 0, behind: 0, commits: vec![] },
    ];
    collector.update_state(&mut state, "/repo", "trunk", &branches, at(7));

    assert!(branch_record(&state, "/repo", "gone").is_none());
    let old = branch_record(&state, "/repo", "old").unwrap();
    assert_eq!(old.last_commit, "2222222");
    assert_eq!(old.last_seen, at(7));
    assert_eq!(old.first_seen, None);
    let bare = branch_record(&state, "/repo", "bare").unwrap();
    assert_eq!(bare.last_commit, "");
    assert_eq!(bare.first_seen, Some(at(7)));
    match get_source(&state, "/repo") {
        Some(SourceState::Git { default_branch, .. }) => assert_eq!(default_branch, "trunk"),
        _ => panic!("no repository record"),
    }
}

#[test]
fn default_branch_falls_back_to_main() {
    let config = Config::default();
    let collector = GitCollector::new(&config);

    assert_eq!(collector.default_branch(&head("develop")), "develop");
    assert_eq!(collector.default_branch(&Head { is_branch: true, shorthand: None }), "main");
    assert_eq!(
        collector.default_branch(&Head { is_branch: false, shorthand: Some("abc1234".to_string()) }),
        "main"
    );
}

#[test]
fn repository_name_is_the_last_component_of_its_path() {
    let config = Config::default();
    let collector = GitCollector::new(&config);
    let mut state = State::new(at(0));
    let observe = |path: &str| RepositoryObservation {
        path: path.to_string(),
        head: head("main"),
        branches: vec![observed("main", vec![commit("abc1234", 1)], 0, 0)],
    };

    let named = collector.collect_repository(&observe("/test/repo/"), &mut state, at(2)).unwrap();
    assert_eq!(named.name, "repo");
    let unnamed = collector.collect_repository(&observe(".."), &mut state, at(2)).unwrap();
    assert_eq!(unnamed.name, "unknown");
}

#[test]
fn commits_are_cut_to_size() {
    let config = Config::default();
    let collector = GitCollector::new(&config);
    let long = "x".repeat(80);
    let history = vec![
        raw("0123456789abcdef0123456789abcdef01234567", "Fix bug\n\nLong story", 300, &["a.rs"]),
        raw("abc", &long, 250, &["a.rs", "b.rs"]),
        RawCommit {
            id: "fedcba9876543210".to_string(),
            message: None,
            author: None,
            seconds: 200,
            files: vec!["b.rs".to_string(), "c.rs".to_string(), "c.rs".to_string()],
        },
        raw("1111111aaaa", "", 150, &[]),
    ];

    let commits = collector.collect_commits(&history, at(100)).unwrap();

    assert_eq!(commits.len(), 4);
    assert_eq!(commits[0].hash, "0123456");
    assert_eq!(commits[0].message, "Fix bug");
    assert_eq!(commits[0].author, "Alice");
    assert_eq!(commits[0].timestamp, at(300));
    assert_eq!(commits[0].files, vec!["a.rs"]);
    assert_eq!(commits[1].hash, "abc");
    assert_eq!(commits[1].message, "x".repeat(72));
    assert_eq!(commits[1].files, vec!["b.rs"]);
    assert_eq!(commits[2].hash, "fedcba9");
    assert_eq!(commits[2].message, "(no message)");
    assert_eq!(commits[2].author, "Unknown");
    assert_eq!(commits[2].files, vec!["c.rs"]);
    assert_eq!(commits[3].message, "");
    assert!(commits[3].files.is_empty());
}

#[test]
fn walk_stops_at_the_first_commit_before_the_cutoff() {
    let config = Config::default();
    let collector = GitCollector::new(&config);
    let history = vec![
        raw("a", "new", 300, &[]),
        raw("b", "at the cutoff", 200, &[]),
        raw("c", "old", 199, &[]),
        raw("d", "new again", 400, &[]),
    ];

    let commits = collector.collect_commits(&history, at(200)).unwrap();
    assert_eq!(commits.len(), 2);
    assert_eq!(commits[1].message, "at the cutoff");

    let cutoff = Timestamp::from_unix(200, 1).unwrap();
    assert_eq!(collector.collect_commits(&history, cutoff).unwrap().len(), 1);
}

#[test]
fn walk_takes_no_more_commits_than_allowed() {
    let mut config = Config::default();
    config.limits.max_commits = 2;
    let collector = GitCollector::new(&config);
    let history = vec![
        raw("a", "1", 300, &[]),
        raw("b", "2", 290, &[]),
        raw("c", "3", i64::MAX, &[]),
    ];

    let commits = collector.collect_commits(&history, at(0)).unwrap();
    assert_eq!(commits.len(), 2);

    config.limits.max_commits = 0;
    let collector = GitCollector::new(&config);
    assert_eq!(collector.collect_commits(&history, at(0)).unwrap().len(), 0);
}

#[test]
fn commit_time_that_is_no_instant_fails_the_walk() {
    let config = Config::default();
    let collector = GitCollector::new(&config);
    let history = vec![raw("a", "1", 300, &[]), raw("b", "2", i64::MAX, &[])];

    let result = collector.collect_commits(&history, at(0));
    match result {
        Err(ChronicleError::Collector(message)) => assert_eq!(message, "Invalid commit timestamp"),
        _ => panic!("expected a collector error"),
    }

    // A commit before the cutoff ends the walk before the bad one is read.
    let history = vec![raw("a", "1", 10, &[]), raw("b", "2", i64::MAX, &[])];
    assert_eq!(collector.collect_commits(&history, at(100)).unwrap().len(), 0);
}

#[test]
fn files_are_listed_once_and_up_to_the_limit() {
    let mut config = Config::default();
    config.limits.max_changed_files = 3;
    let collector = GitCollector::new(&config);
    let mut seen = vec!["a".to_string()];

    let paths: Vec<String> = ["b", "a", "b", "c", "d"].iter().map(|p| p.to_string()).collect();
    let files = collector.collect_commit_files(&paths, &mut seen);

    assert_eq!(files, vec!["b", "c"]);
    assert_eq!(seen, vec!["a", "b", "c"]);
    assert!(collector.collect_commit_files(&paths, &mut seen).is_empty());
}
