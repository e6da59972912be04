//! Checklist files: parsing their items and telling which of them changed.
//!
//! An item is remembered from run to run by its hash, the text
//! `status:file:line:content`. An item whose hash stands in the record of the
//! previous run is unchanged. Otherwise the record is searched for a hash
//! that contains the item's key, `file:line:content`: if one is found the
//! item is modified, and the status that the found hash begins with is the
//! item's previous status. An item that matches nothing is new.

use vstd::prelude::*;
use vstd::string::StringExecFns;

use crate::config::Config;
use crate::error::ChronicleError;
use crate::models::{ChangeKind, Todo, TodoStatus, TodoView};
use crate::state::{get_source, update_source, SourceState, SourceStateView, State, StateView};
use crate::text::{
    contains, contains_text, decimal, is_listed, lines, push_decimal, split_lines, starts_with,
    strip_prefix, trim, trimmed,
};
use crate::time::Timestamp;

verus! {

/// A checklist file as it was read: its path and its text.
#[derive(Debug)]
pub struct TodoFile {
    pub path: String,
    pub content: String,
}

/// The mathematical value of a [`TodoFile`].
pub ghost struct TodoFileView {
    pub path: Seq<char>,
    pub content: Seq<char>,
}

impl View for TodoFile {
    type V = TodoFileView;

    open spec fn view(&self) -> TodoFileView {
        TodoFileView { path: self.path@, content: self.content@ }
    }
}

impl DeepView for TodoFile {
    type V = TodoFileView;

    open spec fn deep_view(&self) -> TodoFileView {
        self@
    }
}

/// The name under which a status stands at the head of a hash.
pub open spec fn status_name(status: TodoStatus) -> Seq<char> {
    match status {
        TodoStatus::Pending => "Pending"@,
        TodoStatus::Done => "Done"@,
        TodoStatus::InProgress => "InProgress"@,
    }
}

/// The key of an item: where it stands and what it says, without its status.
pub open spec fn content_key(file: Seq<char>, line: nat, content: Seq<char>) -> Seq<char> {
    file + ":"@ + decimal(line) + ":"@ + content
}

/// The hash of an item: its status, then its key.
pub open spec fn item_hash(
    status: TodoStatus,
    file: Seq<char>,
    line: nat,
    content: Seq<char>,
) -> Seq<char> {
    status_name(status) + ":"@ + content_key(file, line, content)
}

/// The status that `hash` begins with, if it begins with one.
pub open spec fn status_of_hash(hash: Seq<char>) -> Option<TodoStatus> {
    if "Pending:"@.is_prefix_of(hash) {
        Some(TodoStatus::Pending)
    } else if "Done:"@.is_prefix_of(hash) {
        Some(TodoStatus::Done)
    } else if "InProgress:"@.is_prefix_of(hash) {
        Some(TodoStatus::InProgress)
    } else {
        None
    }
}

impl TodoView {
    /// The key of this item.
    pub open spec fn key(self) -> Seq<char> {
        content_key(self.file, self.line, self.content)
    }

    /// The hash of this item.
    pub open spec fn hash(self) -> Seq<char> {
        item_hash(self.status, self.file, self.line, self.content)
    }
}

/// The item that the line `line` states, if it states one. A line states an
/// item when it begins with `- [ ] ` (pending), `- [x] ` (done) or `- [~] `
/// (in progress); what follows is the item's content.
pub open spec fn parse_line(line: Seq<char>, file: Seq<char>, line_num: nat) -> Option<TodoView> {
    let status = if "- [ ] "@.is_prefix_of(line) {
        Some(TodoStatus::Pending)
    } else if "- [x] "@.is_prefix_of(line) {
        Some(TodoStatus::Done)
    } else if "- [~] "@.is_prefix_of(line) {
        Some(TodoStatus::InProgress)
    } else {
        None
    };
    match status {
        Some(status) => Some(
            TodoView {
                content: line.skip("- [ ] "@.len() as int),
                status,
                change: ChangeKind::New,
                previous_status: None,
                file,
                line: line_num,
            },
        ),
        None => None,
    }
}

/// The items that `all_lines` state, in order. Each line is read without its
/// leading and trailing whitespace; lines are counted from one.
pub open spec fn parse_lines(all_lines: Seq<Seq<char>>, file: Seq<char>) -> Seq<TodoView>
    decreases all_lines.len(),
{
    if all_lines.len() == 0 {
        Seq::empty()
    } else {
        let before = parse_lines(all_lines.drop_last(), file);
        match parse_line(trim(all_lines.last()), file, all_lines.len()) {
            Some(item) => before.push(item),
            None => before,
        }
    }
}

/// The items of a checklist file with the text `content`.
pub open spec fn parse_text(content: Seq<char>, file: Seq<char>) -> Seq<TodoView> {
    parse_lines(lines(content), file)
}

/// The place of the first of `hashes` that contains `key`, or the number of
/// `hashes` if none does.
pub open spec fn first_match(hashes: Seq<Seq<char>>, key: Seq<char>) -> int
    decreases hashes.len(),
{
    if hashes.len() == 0 || contains_text(hashes[0], key) {
        0
    } else {
        1 + first_match(hashes.drop_first(), key)
    }
}

/// The item `item` as classified against the hashes of the previous run;
/// `None` stands for a file that the previous run did not record.
pub open spec fn classify(item: TodoView, prior: Option<Seq<Seq<char>>>) -> TodoView {
    match prior {
        None => TodoView { change: ChangeKind::New, ..item },
        Some(hashes) => {
            if hashes.contains(item.hash()) {
                TodoView { change: ChangeKind::Unchanged, ..item }
            } else {
                let at = first_match(hashes, item.key());
                if 0 <= at < hashes.len() {
                    TodoView {
                        change: ChangeKind::Modified,
                        previous_status: match status_of_hash(hashes[at]) {
                            Some(status) => Some(status),
                            None => item.previous_status,
                        },
                        ..item
                    }
                } else {
                    TodoView { change: ChangeKind::New, ..item }
                }
            }
        },
    }
}

/// Each of `items`, classified against the hashes of the previous run.
pub open spec fn classify_all(items: Seq<TodoView>, prior: Option<Seq<Seq<char>>>) -> Seq<
    TodoView,
> {
    Seq::new(items.len(), |i: int| classify(items[i], prior))
}

/// The hashes of `items`, in order.
pub open spec fn hashes_of(items: Seq<TodoView>) -> Seq<Seq<char>> {
    Seq::new(items.len(), |i: int| items[i].hash())
}

/// Those of `items` that are not unchanged, in order.
pub open spec fn changed_items(items: Seq<TodoView>) -> Seq<TodoView>
    decreases items.len(),
{
    if items.len() == 0 {
        Seq::empty()
    } else if items.last().change == ChangeKind::Unchanged {
        changed_items(items.drop_last())
    } else {
        changed_items(items.drop_last()).push(items.last())
    }
}

/// The hashes that `state` holds for the checklist file `file`, if it holds
/// a checklist record under that name.
pub open spec fn prior_hashes(state: StateView, file: Seq<char>) -> Option<Seq<Seq<char>>> {
    if state.sources.contains_key(file) {
        match state.sources[file] {
            SourceStateView::Todo { item_hashes, .. } => Some(item_hashes),
            _ => None,
        }
    } else {
        None
    }
}

/// The record that a run at `now` leaves for a checklist file with `items`.
pub open spec fn record_of(items: Seq<TodoView>, now: Timestamp) -> SourceStateView {
    SourceStateView::Todo { last_checked: now, last_modified: now, item_hashes: hashes_of(items) }
}

/// The items of `file` as one run classifies them against `state`.
pub open spec fn classified_items(file: TodoFileView, state: StateView) -> Seq<TodoView> {
    classify_all(parse_text(file.content, file.path), prior_hashes(state, file.path))
}

/// What one run reports of `file`: its items that are not unchanged.
pub open spec fn file_report(file: TodoFileView, state: StateView) -> Seq<TodoView> {
    changed_items(classified_items(file, state))
}

/// The state that one run at `now` leaves after reading `file`.
pub open spec fn state_after_file(
    file: TodoFileView,
    state: StateView,
    now: Timestamp,
) -> StateView {
    StateView {
        sources: state.sources.insert(file.path, record_of(classified_items(file, state), now)),
        ..state
    }
}

/// The state that one run at `now` leaves after reading `files` in order.
pub open spec fn state_after_files(
    files: Seq<TodoFileView>,
    state: StateView,
    now: Timestamp,
) -> StateView
    decreases files.len(),
{
    if files.len() == 0 {
        state
    } else {
        state_after_file(files.last(), state_after_files(files.drop_last(), state, now), now)
    }
}

/// What one run reports of `files`: the report of each file, in order, each
/// against the state that the files before it left.
pub open spec fn files_report(files: Seq<TodoFileView>, state: StateView, now: Timestamp) -> Seq<
    TodoView,
>
    decreases files.len(),
{
    if files.len() == 0 {
        Seq::empty()
    } else {
        files_report(files.drop_last(), state, now) + file_report(
            files.last(),
            state_after_files(files.drop_last(), state, now),
        )
    }
}

/// The first match is at `at` when no earlier hash contains the key and
/// either `at` is the number of hashes or the hash at `at` contains it.
pub proof fn lemma_first_match_is(hashes: Seq<Seq<char>>, key: Seq<char>, at: int)
    requires
        0 <= at <= hashes.len(),
        forall|j: int| 0 <= j < at ==> !contains_text(#[trigger] hashes[j], key),
        at < hashes.len() ==> contains_text(hashes[at], key),
    ensures
        first_match(hashes, key) == at,
    decreases hashes.len(),
{
    if hashes.len() == 0 || contains_text(hashes[0], key) {
        if at > 0 {
            assert(!contains_text(hashes[0], key));
        }
    } else {
        let rest = hashes.drop_first();
        assert forall|j: int| 0 <= j < at - 1 implies !contains_text(#[trigger] rest[j], key) by {
            assert(rest[j] == hashes[j + 1]);
        }
        lemma_first_match_is(rest, key, at - 1);
    }
}

/// The first match lies within the hashes or just past them; where it lies
/// within, that hash contains the key, and no earlier hash does.
pub proof fn lemma_first_match_bounds(hashes: Seq<Seq<char>>, key: Seq<char>)
    ensures
        0 <= first_match(hashes, key) <= hashes.len(),
        first_match(hashes, key) < hashes.len() ==> contains_text(
            hashes[first_match(hashes, key)],
            key,
        ),
        forall|j: int|
            0 <= j < first_match(hashes, key) ==> !contains_text(#[trigger] hashes[j], key),
    decreases hashes.len(),
{
    if hashes.len() == 0 || contains_text(hashes[0], key) {
    } else {
        let rest = hashes.drop_first();
        lemma_first_match_bounds(rest, key);
        assert forall|j: int| 0 <= j < first_match(hashes, key) implies !contains_text(
            #[trigger] hashes[j],
            key,
        ) by {
            if j > 0 {
                assert(hashes[j] == rest[j - 1]);
            }
        }
    }
}

/// Reads checklist files and tells which of their items changed.
pub struct TodoCollector<'a> {
    config: &'a Config,
}

impl<'a> TodoCollector<'a> {
    pub fn new(config: &'a Config) -> (collector: Self)
        ensures
            collector.config() == config,
    {
        Self { config }
    }

    /// The settings that the collector was made with.
    pub closed spec fn config(self) -> &'a Config {
        self.config
    }

    /// Reads `files` in order: reports the items of each that are new or
    /// modified, and leaves in `state` the record of each file.
    pub fn collect(&self, files: &Vec<TodoFile>, state: &mut State, now: Timestamp) -> (result:
        Result<Vec<Todo>, ChronicleError>)
        ensures
            result matches Ok(todos) && todos.deep_view() == files_report(
                files.deep_view(),
                old(state)@,
                now,
            ),
            final(state)@ == state_after_files(files.deep_view(), old(state)@, now),
    {
        let mut all_todos: Vec<Todo> = Vec::new();
        let ghost before = state@;
        let ghost observed = files.deep_view();
        let mut i: usize = 0;
        while i < files.len()
            invariant
                i <= files.len(),
                observed == files.deep_view(),
                all_todos.deep_view() == files_report(observed.take(i as int), before, now),
                state@ == state_after_files(observed.take(i as int), before, now),
            decreases files.len() - i,
        {
            proof {
                assert(observed.take(i + 1).drop_last() == observed.take(i as int));
                assert(observed.take(i + 1).last() == files[i as int]@);
            }
            let ghost so_far = all_todos.deep_view();
            match self.collect_file(&files[i], state, now) {
                Ok(mut todos) => {
                    let ghost added = todos.deep_view();
                    all_todos.append(&mut todos);
                    assert(all_todos.deep_view() == so_far + added);
                },
                Err(_) => {},
            }
            i += 1;
        }
        assert(observed.take(files.len() as int) == observed);
        Ok(all_todos)
    }

    /// Reads one file: reports its items that are new or modified, and
    /// leaves in `state` the hashes of all its items as the file's record.
    pub fn collect_file(&self, file: &TodoFile, state: &mut State, now: Timestamp) -> (result:
        Result<Vec<Todo>, ChronicleError>)
        ensures
            result matches Ok(todos) && todos.deep_view() == file_report(file@, old(state)@),
            final(state)@ == state_after_file(file@, old(state)@, now),
    {
        let mut todos = match self.parse_todos(file.content.as_str(), file.path.as_str()) {
            Ok(todos) => todos,
            Err(e) => {
                return Err(e);
            },
        };
        self.detect_changes(&mut todos, state, file.path.as_str());
        self.update_state_for_file(state, file.path.as_str(), &todos, now);
        let mut changed: Vec<Todo> = Vec::new();
        let mut i: usize = 0;
        while i < todos.len()
            invariant
                i <= todos.len(),
                changed.deep_view() == changed_items(todos.deep_view().take(i as int)),
            decreases todos.len() - i,
        {
            proof {
                let all = todos.deep_view();
                assert(all.take(i + 1).drop_last() == all.take(i as int));
            }
            if todos[i].change != ChangeKind::Unchanged {
                let ghost so_far = changed.deep_view();
                changed.push(todos[i].clone());
                assert(changed.deep_view() == so_far.push(todos[i as int]@));
            }
            i += 1;
        }
        assert(todos.deep_view().take(todos.len() as int) == todos.deep_view());
        Ok(changed)
    }

    /// The items that the text `content` of the file `file_path` states.
    pub fn parse_todos(&self, content: &str, file_path: &str) -> (result: Result<
        Vec<Todo>,
        ChronicleError,
    >)
        ensures
            result matches Ok(todos) && todos.deep_view() == parse_text(content@, file_path@),
    {
        let mut todos: Vec<Todo> = Vec::new();
        let all_lines = split_lines(content);
        let mut i: usize = 0;
        while i < all_lines.len()
            invariant
                i <= all_lines.len(),
                all_lines.deep_view() == lines(content@),
                todos.deep_view() == parse_lines(all_lines.deep_view().take(i as int), file_path@),
            decreases all_lines.len() - i,
        {
            proof {
                let all = all_lines.deep_view();
                assert(all.take(i + 1).drop_last() == all.take(i as int));
                assert(all.take(i + 1).last() == all_lines[i as int]@);
            }
            let line = trimmed(all_lines[i].as_str());
            match self.parse_todo_line(line.as_str(), file_path, i + 1) {
                Ok(Some(todo)) => {
                    let ghost so_far = todos.deep_view();
                    let ghost item = todo@;
                    todos.push(todo);
                    assert(todos.deep_view() == so_far.push(item));
                },
                Ok(None) => {},
                Err(e) => {
                    return Err(e);
                },
            }
            i += 1;
        }
        assert(all_lines.deep_view().take(all_lines.len() as int) == all_lines.deep_view());
        Ok(todos)
    }

    /// The item that `line` states, if it states one.
    pub fn parse_todo_line(&self, line: &str, file_path: &str, line_num: usize) -> (result: Result<
        Option<Todo>,
        ChronicleError,
    >)
        ensures
            result matches Ok(parsed) && match parsed {
                Some(todo) => parse_line(line@, file_path@, line_num as nat) == Some(todo@),
                None => parse_line(line@, file_path@, line_num as nat) is None,
            },
    {
        proof {
            reveal_strlit("- [ ] ");
            reveal_strlit("- [x] ");
            reveal_strlit("- [~] ");
        }
        let (status, content) = match strip_prefix(line, "- [ ] ") {
            Some(content) => (TodoStatus::Pending, content),
            None => match strip_prefix(line, "- [x] ") {
                Some(content) => (TodoStatus::Done, content),
                None => match strip_prefix(line, "- [~] ") {
                    Some(content) => (TodoStatus::InProgress, content),
                    None => {
                        return Ok(None);
                    },
                },
            },
        };
        Ok(
            Some(
                Todo {
                    content,
                    status,
                    change: ChangeKind::New,
                    previous_status: None,
                    file: String::from_str(file_path),
                    line: line_num,
                },
            ),
        )
    }

    /// Classifies each of `todos` against the record that `state` holds for
    /// the file `file_path`. Nothing but the change, and for a modified item
    /// its previous status, is touched.
    pub fn detect_changes(&self, todos: &mut Vec<Todo>, state: &State, file_path: &str)
        ensures
            final(todos).len() == old(todos).len(),
            final(todos).deep_view() == classify_all(
                old(todos).deep_view(),
                prior_hashes(state@, file_path@),
            ),
    {
        let previous_hashes = match get_source(state, file_path) {
            Some(SourceState::Todo { item_hashes, .. }) => Some(item_hashes),
            _ => None,
        };
        let ghost before = todos.deep_view();
        let ghost prior = prior_hashes(state@, file_path@);
        assert(prior == match previous_hashes {
            Some(hashes) => Some(hashes.deep_view()),
            None => None,
        });
        let mut i: usize = 0;
        while i < todos.len()
            invariant
                i <= todos.len(),
                todos.len() == before.len(),
                prior == match previous_hashes {
                    Some(hashes) => Some(hashes.deep_view()),
                    None => None,
                },
                forall|k: int| 0 <= k < i ==> todos[k]@ == classify(before[k], prior),
                forall|k: int| i <= k < todos.len() ==> todos[k]@ == before[k],
            decreases todos.len() - i,
        {
            match previous_hashes {
                Some(prev_hashes) => {
                    let hash = self.hash_todo(&todos[i]);
                    if is_listed(prev_hashes, hash.as_str()) {
                        todos[i].change = ChangeKind::Unchanged;
                    } else {
                        let key = self.hash_todo_content(
                            todos[i].content.as_str(),
                            todos[i].file.as_str(),
                            todos[i].line,
                        );
                        let at = self.find_previous(prev_hashes, key.as_str());
                        if at < prev_hashes.len() {
                            todos[i].change = ChangeKind::Modified;
                            match self.extract_status_from_hash(prev_hashes[at].as_str()) {
                                Some(status) => {
                                    todos[i].previous_status = Some(status);
                                },
                                None => {},
                            }
                        } else {
                            todos[i].change = ChangeKind::New;
                        }
                    }
                },
                None => {
                    todos[i].change = ChangeKind::New;
                },
            }
            i += 1;
        }
        assert(todos.deep_view() == classify_all(before, prior));
    }

    /// The place of the first of `hashes` that contains `key`, or the number
    /// of `hashes` if none does.
    fn find_previous(&self, hashes: &Vec<String>, key: &str) -> (at: usize)
        ensures
            at == first_match(hashes.deep_view(), key@),
            at <= hashes.len(),
    {
        let mut i: usize = 0;
        while i < hashes.len()
            invariant
                i <= hashes.len(),
                forall|j: int| 0 <= j < i ==> !contains_text(#[trigger] hashes.deep_view()[j], key@),
            decreases hashes.len() - i,
        {
            if contains(hashes[i].as_str(), key) {
                proof {
                    lemma_first_match_is(hashes.deep_view(), key@, i as int);
                }
                return i;
            }
            i += 1;
        }
        proof {
            lemma_first_match_is(hashes.deep_view(), key@, i as int);
        }
        i
    }

    /// The hash of `todo`: its status, file, line and content.
    pub fn hash_todo(&self, todo: &Todo) -> (hash: String)
        ensures
            hash@ == todo@.hash(),
    {
        let name = match todo.status {
            TodoStatus::Pending => "Pending",
            TodoStatus::Done => "Done",
            TodoStatus::InProgress => "InProgress",
        };
        let key = self.hash_todo_content(todo.content.as_str(), todo.file.as_str(), todo.line);
        let mut hash = String::from_str(name);
        hash.append(":");
        hash.append(key.as_str());
        hash
    }

    /// The key of an item: its file, line and content, without its status.
    pub fn hash_todo_content(&self, content: &str, file: &str, line: usize) -> (key: String)
        ensures
            key@ == content_key(file@, line as nat, content@),
    {
        let mut key = String::from_str(file);
        key.append(":");
        push_decimal(&mut key, line);
        key.append(":");
        key.append(content);
        key
    }

    /// The status that `hash` begins with, if it begins with one.
    pub fn extract_status_from_hash(&self, hash: &str) -> (status: Option<TodoStatus>)
        ensures
            status == status_of_hash(hash@),
    {
        if starts_with(hash, "Pending:") {
            Some(TodoStatus::Pending)
        } else if starts_with(hash, "Done:") {
            Some(TodoStatus::Done)
        } else if starts_with(hash, "InProgress:") {
            Some(TodoStatus::InProgress)
        } else {
            None
        }
    }

    /// Stores the hashes of `todos`, in order, as the record of the file
    /// `file_path`, in place of the record that the file had.
    pub fn update_state_for_file(
        &self,
        state: &mut State,
        file_path: &str,
        todos: &Vec<Todo>,
        now: Timestamp,
    )
        ensures
            final(state)@ == (StateView {
                sources: old(state)@.sources.insert(
                    file_path@,
                    record_of(todos.deep_view(), now),
                ),
                ..old(state)@
            }),
    {
        let mut item_hashes: Vec<String> = Vec::new();
        let mut i: usize = 0;
        while i < todos.len()
            invariant
                i <= todos.len(),
                item_hashes.deep_view() == hashes_of(todos.deep_view()).take(i as int),
            decreases todos.len() - i,
        {
            let ghost so_far = item_hashes.deep_view();
            let hash = self.hash_todo(&todos[i]);
            item_hashes.push(hash);
            assert(item_hashes.deep_view() == so_far.push(todos[i as int]@.hash()));
            i += 1;
        }
        assert(hashes_of(todos.deep_view()).take(todos.len() as int) == hashes_of(
            todos.deep_view(),
        ));
        let source_state = SourceState::Todo {
            last_checked: now,
            last_modified: now,
            item_hashes,
        };
        update_source(state, String::from_str(file_path), source_state);
    }
}

} // verus!
