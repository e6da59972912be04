use chronicle::config::{Config, Display, Limits};
use chronicle::error::ChronicleError;
use chronicle::state::{get_source, update_source, SourceState, State};
use chronicle::string_map::StringMap;
use chronicle::time::Timestamp;

fn now() -> Timestamp {
    Timestamp::from_unix(1_705_312_800, 0).unwrap()
}

#[test]
fn test_config_default() {
    let config = Config::default();
    assert_eq!(config.output_dir, "./chronicles");
    assert_eq!(config.repos, vec![".".to_string()]);
    assert_eq!(config.limits.max_commits, 50);
    assert_eq!(config.limits.max_changed_files, 80);
    assert_eq!(config.limits.max_note_files, 30);
    assert_eq!(config.limits.max_chars_per_item, 2000);
    assert_eq!(config.display.show_authors, true);
}

#[test]
fn default_config_names_state_file_and_no_sources_but_the_current_directory() {
    let config = Config::default();
    assert_eq!(config.state_file, "./.chronicle-state.json");
    assert!(config.todo_files.is_empty());
    assert!(config.notes_dirs.is_empty());
}

#[test]
fn test_limits_default() {
    let limits = Limits::default();
    assert_eq!(limits.max_commits, 50);
    assert_eq!(limits.max_changed_files, 80);
    assert_eq!(limits.max_note_files, 30);
    assert_eq!(limits.max_chars_per_item, 2000);
}

#[test]
fn test_display_default() {
    let display = Display::default();
    assert_eq!(display.show_authors, true);
}

#[test]
fn test_error_display_config() {
    let err = ChronicleError::Config("test error".to_string());
    assert_eq!(err.to_string(), "Configuration error: test error");
}

#[test]
fn test_error_display_state() {
    let err = ChronicleError::State("test state error".to_string());
    assert_eq!(err.to_string(), "State file error: test state error");
}

#[test]
fn test_error_display_collector() {
    let err = ChronicleError::Collector("test collector error".to_string());
    assert_eq!(err.to_string(), "Collector error: test collector error");
}

#[test]
fn test_error_display_renderer() {
    let err = ChronicleError::Renderer("test renderer error".to_string());
    assert_eq!(err.to_string(), "Renderer error: test renderer error");
}

#[test]
fn errors_from_outside_are_shown_with_their_kind() {
    assert_eq!(ChronicleError::Io("gone".to_string()).to_string(), "IO error: gone");
    assert_eq!(ChronicleError::Git("bad ref".to_string()).to_string(), "Git error: bad ref");
    assert_eq!(
        ChronicleError::TomlParse("line 1".to_string()).to_string(),
        "TOML parsing error: line 1"
    );
    assert_eq!(ChronicleError::Json("eof".to_string()).to_string(), "JSON error: eof");
}

#[test]
fn test_state_default() {
    let state = State::new(now());
    assert_eq!(state.version, "1.0");
    assert_eq!(state.sources.len(), 0);
    assert_eq!(state.last_updated, now());
}

#[test]
fn test_get_source() {
    let mut state = State::new(now());

    let git_state = SourceState::Git {
        last_checked: now(),
        default_branch: "main".to_string(),
        branches: StringMap::new(),
    };

    update_source(&mut state, "test-repo".to_string(), git_state);

    let retrieved = get_source(&state, "test-repo");
    assert!(retrieved.is_some());

    let missing = get_source(&state, "missing-repo");
    assert!(missing.is_none());
}

#[test]
fn test_update_source() {
    let mut state = State::new(now());
    assert_eq!(state.sources.len(), 0);

    let todo_state = SourceState::Todo {
        last_checked: now(),
        last_modified: now(),
        item_hashes: vec!["hash1".to_string()],
    };

    update_source(&mut state, "todo.txt".to_string(), todo_state);
    assert_eq!(state.sources.len(), 1);
    assert!(state.sources.contains_key("todo.txt"));
}

#[test]
fn update_source_replaces_the_record_of_a_known_source() {
    let mut state = State::new(now());
    update_source(
        &mut state,
        "a".to_string(),
        SourceState::Todo { last_checked: now(), last_modified: now(), item_hashes: vec![] },
    );
    update_source(
        &mut state,
        "b".to_string(),
        SourceState::Notes { last_checked: now(), files: StringMap::new() },
    );
    update_source(
        &mut state,
        "a".to_string(),
        SourceState::Todo {
            last_checked: now(),
            last_modified: now(),
            item_hashes: vec!["h".to_string()],
        },
    );

    assert_eq!(state.sources.len(), 2);
    match get_source(&state, "a") {
        Some(SourceState::Todo { item_hashes, .. }) => assert_eq!(item_hashes.len(), 1),
        _ => panic!("expected the checklist record"),
    }
    assert!(matches!(get_source(&state, "b"), Some(SourceState::Notes { .. })));
    assert_eq!(state.version, "1.0");
}

#[test]
fn source_names_are_case_sensitive() {
    let mut state = State::new(now());
    update_source(
        &mut state,
        "Repo".to_string(),
        SourceState::Notes { last_checked: now(), files: StringMap::new() },
    );
    assert!(get_source(&state, "repo").is_none());
    assert!(get_source(&state, "Repo").is_some());
}

#[test]
fn string_map_keeps_insertion_order_and_latest_value() {
    let mut map: StringMap<Timestamp> = StringMap::new();
    assert_eq!(map.len(), 0);
    assert!(map.get("x").is_none());
    map.insert("x".to_string(), Timestamp::from_unix(1, 0).unwrap());
    map.insert("y".to_string(), Timestamp::from_unix(2, 0).unwrap());
    map.insert("x".to_string(), Timestamp::from_unix(3, 0).unwrap());

    assert_eq!(map.len(), 2);
    assert_eq!(map.key_at(0), "x");
    assert_eq!(map.key_at(1), "y");
    assert_eq!(map.value_at(0).seconds(), 3);
    assert_eq!(map.get("y").unwrap().seconds(), 2);
    assert!(map.contains_key("x"));
    assert!(!map.contains_key("z"));
}
