use chronicle::models::{
    Branch, ChangeKind, Chronicle, ChronicleStats, Commit, Note, Repository, Todo, TodoStatus,
};
use chronicle::time::{Date, Timestamp};

fn now() -> Timestamp {
    Timestamp::from_unix(1_705_312_800, 0).unwrap()
}

fn commit(hash: &str, message: &str, author: &str, files: &[&str]) -> Commit {
    Commit {
        hash: hash.to_string(),
        message: message.to_string(),
        author: author.to_string(),
        timestamp: now(),
        files: files.iter().map(|f| f.to_string()).collect(),
    }
}

fn branch(name: &str, change: ChangeKind, ahead: usize, commits: Vec<Commit>) -> Branch {
    Branch { name: name.to_string(), change, ahead, behind: 0, commits }
}

fn repository(path: &str, name: &str, branches: Vec<Branch>) -> Repository {
    Repository {
        path: path.to_string(),
        name: name.to_string(),
        default_branch: "main".to_string(),
        branches,
    }
}

fn todo(
    content: &str,
    status: TodoStatus,
    change: ChangeKind,
    previous_status: Option<TodoStatus>,
    line: usize,
) -> Todo {
    Todo {
        content: content.to_string(),
        status,
        change,
        previous_status,
        file: "todo.txt".to_string(),
        line,
    }
}

fn empty_chronicle() -> Chronicle {
    Chronicle {
        date: Date::from_ymd(2024, 1, 15).unwrap(),
        since: now(),
        generated_at: now(),
        repositories: vec![],
        todos: vec![],
        notes: vec![],
    }
}

#[test]
fn test_repository_commit_count() {
    let repo = repository(
        "/test/repo",
        "test-repo",
        vec![
            branch(
                "main",
                ChangeKind::Modified,
                0,
                vec![
                    commit("abc1234", "First commit", "Test Author", &[]),
                    commit("def5678", "Second commit", "Test Author", &[]),
                ],
            ),
            branch(
                "feature",
                ChangeKind::New,
                1,
                vec![commit("ghi9012", "Feature commit", "Test Author", &[])],
            ),
        ],
    );

    assert_eq!(repo.commit_count(), 3);
    assert_eq!(repo.checked_commit_count(), Some(3));
}

#[test]
fn test_repository_new_branch_count() {
    let repo = repository(
        "/test/repo",
        "test-repo",
        vec![
            branch("main", ChangeKind::Modified, 0, vec![]),
            branch("feature1", ChangeKind::New, 1, vec![]),
            branch("feature2", ChangeKind::New, 2, vec![]),
        ],
    );

    assert_eq!(repo.new_branch_count(), 2);
}

#[test]
fn test_repository_files_changed() {
    let repo = repository(
        "/test/repo",
        "test-repo",
        vec![branch(
            "main",
            ChangeKind::Modified,
            0,
            vec![
                commit("abc1234", "First commit", "Test Author", &["file1.rs", "file2.rs"]),
                commit("def5678", "Second commit", "Test Author", &["file2.rs", "file3.rs"]),
            ],
        )],
    );

    assert_eq!(repo.files_changed(), 3);
}

#[test]
fn files_changed_counts_a_file_once_over_all_branches() {
    let repo = repository(
        "/r",
        "r",
        vec![
            branch("main", ChangeKind::Modified, 0, vec![commit("a", "m", "x", &["f", "g", "f"])]),
            branch("side", ChangeKind::New, 1, vec![commit("b", "m", "x", &["g", "h"])]),
            branch("bare", ChangeKind::New, 0, vec![]),
        ],
    );
    assert_eq!(repo.files_changed(), 3);
    assert_eq!(repo.branches[0].all_files(), vec!["f", "g", "f"]);
    assert_eq!(repository("/e", "e", vec![]).files_changed(), 0);
    assert_eq!(repository("/e", "e", vec![]).commit_count(), 0);
}

#[test]
fn test_todo_was_completed() {
    let completed_todo =
        todo("Test task", TodoStatus::Done, ChangeKind::Modified, Some(TodoStatus::Pending), 1);
    assert!(completed_todo.was_completed());

    let already_done_todo =
        todo("Test task", TodoStatus::Done, ChangeKind::Unchanged, Some(TodoStatus::Done), 1);
    assert!(!already_done_todo.was_completed());

    let new_done_todo = todo("Test task", TodoStatus::Done, ChangeKind::New, None, 1);
    assert!(!new_done_todo.was_completed());
}

#[test]
fn only_an_item_that_is_done_now_was_completed() {
    assert!(todo("t", TodoStatus::Done, ChangeKind::Modified, Some(TodoStatus::InProgress), 1)
        .was_completed());
    assert!(!todo("t", TodoStatus::Pending, ChangeKind::Modified, Some(TodoStatus::Done), 1)
        .was_completed());
    assert!(!todo("t", TodoStatus::InProgress, ChangeKind::Modified, Some(TodoStatus::Pending), 1)
        .was_completed());
}

#[test]
fn test_chronicle_stats_empty() {
    let chronicle = empty_chronicle();

    let stats = chronicle.stats();
    assert_eq!(stats.repo_count, 0);
    assert_eq!(stats.commit_count, 0);
    assert_eq!(stats.new_branch_count, 0);
    assert_eq!(stats.todos_new, 0);
    assert_eq!(stats.todos_completed, 0);
    assert_eq!(stats.notes_count, 0);
}

#[test]
fn test_chronicle_stats_with_data() {
    let mut chronicle = empty_chronicle();
    chronicle.repositories = vec![
        repository(
            "/test/repo1",
            "repo1",
            vec![
                branch(
                    "main",
                    ChangeKind::Modified,
                    0,
                    vec![
                        commit("abc1234", "Commit 1", "Author", &[]),
                        commit("def5678", "Commit 2", "Author", &[]),
                    ],
                ),
                branch("feature", ChangeKind::New, 1, vec![commit("ghi9012", "Feature", "Author", &[])]),
            ],
        ),
        repository(
            "/test/repo2",
            "repo2",
            vec![branch(
                "main",
                ChangeKind::Modified,
                0,
                vec![commit("jkl3456", "Another commit", "Author", &[])],
            )],
        ),
    ];
    chronicle.todos = vec![
        todo("New task", TodoStatus::Pending, ChangeKind::New, None, 1),
        todo("Completed task", TodoStatus::Done, ChangeKind::Modified, Some(TodoStatus::Pending), 2),
        todo("Existing task", TodoStatus::Pending, ChangeKind::Unchanged, Some(TodoStatus::Pending), 3),
    ];
    chronicle.notes = vec![
        Note {
            path: "note1.md".to_string(),
            change: ChangeKind::New,
            modified_at: now(),
            excerpt: "New note".to_string(),
        },
        Note {
            path: "note2.md".to_string(),
            change: ChangeKind::Modified,
            modified_at: now(),
            excerpt: "Modified note".to_string(),
        },
    ];

    let stats = chronicle.stats();
    assert_eq!(stats.repo_count, 2);
    assert_eq!(stats.commit_count, 4);
    assert_eq!(stats.new_branch_count, 1);
    assert_eq!(stats.todos_new, 1);
    assert_eq!(stats.todos_completed, 1);
    assert_eq!(stats.notes_count, 2);
    assert!(chronicle.counts_fit());
    assert_eq!(
        stats,
        ChronicleStats {
            repo_count: 2,
            commit_count: 4,
            new_branch_count: 1,
            todos_new: 1,
            todos_completed: 1,
            notes_count: 2,
        }
    );
}

#[test]
fn test_chronicle_has_activity() {
    let empty = empty_chronicle();
    assert!(!empty.has_activity());

    let mut chronicle_with_repos = empty_chronicle();
    chronicle_with_repos.repositories = vec![repository("/test/repo", "test", vec![])];
    assert!(chronicle_with_repos.has_activity());

    let mut chronicle_with_todos = empty_chronicle();
    chronicle_with_todos.todos = vec![todo("Task", TodoStatus::Pending, ChangeKind::New, None, 1)];
    assert!(chronicle_with_todos.has_activity());
}

#[test]
fn a_note_alone_is_activity() {
    let mut chronicle = empty_chronicle();
    chronicle.notes = vec![Note {
        path: "n.md".to_string(),
        change: ChangeKind::Modified,
        modified_at: now(),
        excerpt: String::new(),
    }];
    assert!(chronicle.has_activity());
}

#[test]
fn clones_hold_the_same_values() {
    let source = branch("b", ChangeKind::New, 2, vec![commit("h", "m", "a", &["f"])]);
    let copy = source.clone();
    assert_eq!(copy.name, "b");
    assert_eq!(copy.change, ChangeKind::New);
    assert_eq!(copy.ahead, 2);
    assert_eq!(copy.commits[0].hash, "h");
    assert_eq!(copy.commits[0].files, vec!["f"]);
    let item = todo("c", TodoStatus::Done, ChangeKind::Modified, Some(TodoStatus::Pending), 4);
    let copy = item.clone();
    assert_eq!(copy.content, "c");
    assert_eq!(copy.previous_status, Some(TodoStatus::Pending));
    assert_eq!(copy.line, 4);
}
