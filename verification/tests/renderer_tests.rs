use chronicle::config::Config;
use chronicle::models::{
    Branch, ChangeKind, Chronicle, Commit, Note, Repository, Todo, TodoStatus,
};
use chronicle::renderer::Renderer;
use chronicle::time::{Date, Timestamp};

fn now() -> Timestamp {
    Timestamp::from_unix(1_705_312_800, 0).unwrap()
}

fn create_test_config() -> Config {
    Config::default()
}

fn commit(hash: &str, message: &str, author: &str, files: &[&str]) -> Commit {
    Commit {
        hash: hash.to_string(),
        message: message.to_string(),
        author: author.to_string(),
        timestamp: now(),
        files: files.iter().map(|f| f.to_string()).collect(),
    }
}

fn todo(content: &str, status: TodoStatus, change: ChangeKind, file: &str) -> Todo {
    Todo {
        content: content.to_string(),
        status,
        change,
        previous_status: None,
        file: file.to_string(),
        line: 1,
    }
}

fn empty_chronicle() -> Chronicle {
    Chronicle {
        date: Date::from_ymd(2024, 1, 15).unwrap(),
        since: Timestamp::from_unix(1_705_312_800 - 24 * 3600, 0).unwrap(),
        generated_at: now(),
        repositories: vec![],
        todos: vec![],
        notes: vec![],
    }
}

#[test]
fn test_render_header() {
    let config = create_test_config();
    let renderer = Renderer::new(&config);

    let date = Date::from_ymd(2024, 1, 15).unwrap();
    let generated_at = now();
    let since = Timestamp::from_unix(1_705_312_800 - 24 * 3600, 0).unwrap();

    let output = renderer.render_header(&date, generated_at, since);

    assert!(output.contains("# Chronicle: 2024-01-15"));
    assert!(output.contains("**Generated:**"));
    assert!(output.contains("**Since:**"));
    assert_eq!(
        output,
        "# Chronicle: 2024-01-15\n\n**Generated:** 2024-01-15 10:00:00 UTC\n**Since:** 2024-01-14 10:00:00 UTC"
    );
}

#[test]
fn test_render_summary() {
    let config = create_test_config();
    let renderer = Renderer::new(&config);

    let chronicle = empty_chronicle();

    let output = renderer.render_summary(&chronicle);

    assert!(output.contains("## Summary"));
    assert!(output.contains("| Repositories | 0 |"));
    assert!(output.contains("| Commits | 0 |"));
    assert_eq!(
        output,
        "## Summary\n\n| Category | Count |\n|----------|-------|\n| Repositories | 0 |\n| Commits | 0 |\n| New Branches | 0 |\n| New TODOs | 0 |\n| Completed TODOs | 0 |\n| Note Updates | 0 |"
    );
}

#[test]
fn test_render_todo() {
    let config = create_test_config();
    let renderer = Renderer::new(&config);

    let todo = Todo {
        content: "Buy milk".to_string(),
        status: TodoStatus::Pending,
        change: ChangeKind::New,
        previous_status: None,
        file: "todo.md".to_string(),
        line: 1,
    };

    let output = renderer.render_todo(&todo);

    assert!(output.contains("- [ ] Buy milk"));
    assert!(output.contains("← NEW"));
    assert_eq!(output, "- [ ] Buy milk ← NEW  \n");
}

#[test]
fn test_render_todo_completed() {
    let config = create_test_config();
    let renderer = Renderer::new(&config);

    let todo = Todo {
        content: "Buy milk".to_string(),
        status: TodoStatus::Done,
        change: ChangeKind::Modified,
        previous_status: Some(TodoStatus::Pending),
        file: "todo.md".to_string(),
        line: 1,
    };

    let output = renderer.render_todo(&todo);

    assert!(output.contains("- [x] Buy milk"));
    assert!(output.contains("← DONE"));
    assert_eq!(output, "- [x] Buy milk ← DONE  \n");
}

#[test]
fn todo_markers_follow_status_and_change() {
    let config = create_test_config();
    let renderer = Renderer::new(&config);

    let mut item = todo("Task", TodoStatus::InProgress, ChangeKind::Modified, "f");
    item.previous_status = Some(TodoStatus::Pending);
    assert_eq!(renderer.render_todo(&item), "- [~] Task ← MODIFIED  \n");
    let mut item = todo("Task", TodoStatus::Done, ChangeKind::Modified, "f");
    item.previous_status = Some(TodoStatus::Done);
    assert_eq!(renderer.render_todo(&item), "- [x] Task ← MODIFIED  \n");
    let item = todo("Task", TodoStatus::Done, ChangeKind::Unchanged, "f");
    assert_eq!(renderer.render_todo(&item), "- [x] Task  \n");
}

#[test]
fn test_render_note() {
    let config = create_test_config();
    let renderer = Renderer::new(&config);

    let note = Note {
        path: "notes/idea.md".to_string(),
        change: ChangeKind::New,
        modified_at: now(),
        excerpt: "This is a great idea.".to_string(),
    };

    let output = renderer.render_note(&note);

    assert!(output.contains("### `notes/idea.md`"));
    assert!(output.contains("← new"));
    assert!(output.contains("This is a great idea."));
    assert_eq!(
        output,
        "### `notes/idea.md` ← new\n\n*Modified: 2024-01-15 10:00:00 UTC*\n\nThis is a great idea.\n"
    );
}

#[test]
fn test_render_branch() {
    let config = create_test_config();
    let renderer = Renderer::new(&config);

    let branch = Branch {
        name: "feature".to_string(),
        change: ChangeKind::New,
        ahead: 2,
        behind: 0,
        commits: vec![commit("abc1234", "Add feature", "Test Author", &[])],
    };

    let output = renderer.render_branch(&branch, "main");

    assert!(output.contains("#### `feature`"));
    assert!(output.contains("← NEW"));
    assert!(output.contains("ahead 2"));
    assert!(output.contains("`abc1234` Add feature"));
    assert_eq!(
        output,
        "#### `feature` (ahead 2, behind 0) ← NEW\n\n- `abc1234` Add feature — *Test Author*  \n"
    );
}

#[test]
fn test_render_with_author() {
    let mut config = create_test_config();
    config.display.show_authors = true;
    let renderer = Renderer::new(&config);

    let branch = Branch {
        name: "main".to_string(),
        change: ChangeKind::Modified,
        ahead: 0,
        behind: 0,
        commits: vec![commit("abc1234", "Fix bug", "Alice", &[])],
    };

    let output = renderer.render_branch(&branch, "main");

    assert!(output.contains("— *Alice*"));
}

#[test]
fn test_render_without_author() {
    let mut config = create_test_config();
    config.display.show_authors = false;
    let renderer = Renderer::new(&config);

    let branch = Branch {
        name: "main".to_string(),
        change: ChangeKind::Modified,
        ahead: 0,
        behind: 0,
        commits: vec![commit("abc1234", "Fix bug", "Alice", &[])],
    };

    let output = renderer.render_branch(&branch, "main");

    assert!(!output.contains("Alice"));
    assert_eq!(output, "#### `main`\n\n- `abc1234` Fix bug  \n");
}

#[test]
fn branch_lists_each_changed_file_once() {
    let mut config = create_test_config();
    config.display.show_authors = false;
    let renderer = Renderer::new(&config);

    let branch = Branch {
        name: "main".to_string(),
        change: ChangeKind::Modified,
        ahead: 3,
        behind: 1,
        commits: vec![
            commit("1111111", "One", "A", &["b.rs", "a.rs"]),
            commit("2222222", "Two", "A", &["a.rs", "c.rs"]),
        ],
    };

    assert_eq!(
        renderer.render_branch(&branch, "main"),
        "#### `main`\n\n- `1111111` One  \n- `2222222` Two  \n\n<details>\n<summary>Changed files (3)</summary>\n\n- `b.rs`\n- `a.rs`\n- `c.rs`\n\n</details>\n"
    );
    assert!(renderer.render_branch(&branch, "trunk").starts_with("#### `main` (ahead 3, behind 1)\n\n"));
}

#[test]
fn changed_files_beyond_the_limit_are_counted() {
    let mut config = create_test_config();
    config.limits.max_changed_files = 2;
    let renderer = Renderer::new(&config);
    let files: Vec<String> = ["a", "b", "c", "d", "e"].iter().map(|f| f.to_string()).collect();

    assert_eq!(
        renderer.render_changed_files(&files),
        "<details>\n<summary>Changed files (5)</summary>\n\n- `a`\n- `b`\n\n*... and 3 more files*\n\n</details>\n"
    );
    assert_eq!(
        renderer.render_changed_files(&files[..2].to_vec()),
        "<details>\n<summary>Changed files (2)</summary>\n\n- `a`\n- `b`\n\n</details>\n"
    );
    assert_eq!(
        renderer.render_changed_files(&Vec::new()),
        "<details>\n<summary>Changed files (0)</summary>\n\n\n</details>\n"
    );
}

#[test]
fn todos_are_grouped_by_file_in_order_of_first_item() {
    let config = create_test_config();
    let renderer = Renderer::new(&config);
    let todos = vec![
        todo("One", TodoStatus::Pending, ChangeKind::New, "b.md"),
        todo("Two", TodoStatus::Done, ChangeKind::New, "a.md"),
        todo("Three", TodoStatus::InProgress, ChangeKind::New, "b.md"),
    ];

    assert_eq!(
        renderer.render_todos(&todos),
        "## TODOs\n\n### `b.md`\n\n- [ ] One ← NEW  \n- [~] Three ← NEW  \n\n### `a.md`\n\n- [x] Two ← NEW  \n"
    );
    assert_eq!(renderer.render_todos(&Vec::new()), "## TODOs\n");
}

#[test]
fn repository_lists_the_default_branch_first_then_by_commits() {
    let mut config = create_test_config();
    config.display.show_authors = false;
    let renderer = Renderer::new(&config);
    let branch = |name: &str, commits: usize| Branch {
        name: name.to_string(),
        change: ChangeKind::Modified,
        ahead: 0,
        behind: 0,
        commits: (0..commits).map(|_| commit("abc1234", "m", "a", &[])).collect(),
    };
    let repo = Repository {
        path: "/work/repo".to_string(),
        name: "repo".to_string(),
        default_branch: "main".to_string(),
        branches: vec![branch("one", 1), branch("three", 3), branch("main", 2), branch("uno", 1)],
    };

    let ordered = renderer.order_branches(&repo);
    let names: Vec<&str> = ordered.iter().map(|b| b.name.as_str()).collect();
    assert_eq!(names, vec!["main", "three", "one", "uno"]);

    let output = renderer.render_repository(&repo);
    assert!(output.starts_with("### repo\n\n**Path:** `/work/repo`\n\n#### `main`\n\n"));
    let main_at = output.find("#### `main`").unwrap();
    let three_at = output.find("#### `three`").unwrap();
    let one_at = output.find("#### `one`").unwrap();
    let uno_at = output.find("#### `uno`").unwrap();
    assert!(main_at < three_at && three_at < one_at && one_at < uno_at);
    assert!(output.ends_with("- `abc1234` m  \n\n"));
}

#[test]
fn whole_report_has_the_sections_that_hold_something() {
    let mut config = create_test_config();
    config.display.show_authors = false;
    let renderer = Renderer::new(&config);
    let mut chronicle = empty_chronicle();
    chronicle.todos = vec![todo("Buy milk", TodoStatus::Pending, ChangeKind::New, "todo.md")];

    assert_eq!(
        renderer.render(&chronicle),
        "# Chronicle: 2024-01-15\n\n**Generated:** 2024-01-15 10:00:00 UTC\n**Since:** 2024-01-14 10:00:00 UTC\n\n## Summary\n\n| Category | Count |\n|----------|-------|\n| Repositories | 0 |\n| Commits | 0 |\n| New Branches | 0 |\n| New TODOs | 1 |\n| Completed TODOs | 0 |\n| Note Updates | 0 |\n\n## TODOs\n\n### `todo.md`\n\n- [ ] Buy milk ← NEW"
    );

    chronicle.repositories = vec![Repository {
        path: "/r".to_string(),
        name: "r".to_string(),
        default_branch: "main".to_string(),
        branches: vec![Branch {
            name: "main".to_string(),
            change: ChangeKind::New,
            ahead: 0,
            behind: 0,
            commits: vec![commit("abc1234", "Start", "A", &[])],
        }],
    }];
    chronicle.notes = vec![Note {
        path: "n.md".to_string(),
        change: ChangeKind::Modified,
        modified_at: now(),
        excerpt: "Text".to_string(),
    }];
    let output = renderer.render(&chronicle);
    assert!(output.contains("| Repositories | 1 |\n| Commits | 1 |\n| New Branches | 1 |"));
    assert!(output.contains(
        "\n\n## Git Activity\n\n### r\n\n**Path:** `/r`\n\n#### `main` ← NEW\n\n- `abc1234` Start  \n\n\n\n## TODOs\n"
    ));
    assert!(output.ends_with(
        "## Notes\n\n### `n.md` ← modified\n\n*Modified: 2024-01-15 10:00:00 UTC*\n\nText"
    ));
    assert_eq!(
        renderer.render_git_activity(&Vec::new()),
        "## Git Activity\n"
    );
    assert_eq!(renderer.render_notes(&Vec::new()), "## Notes\n\n");
}
