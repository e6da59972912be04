//! What holds of the classification of checklist items, proved from its
//! definition.

use vstd::prelude::*;

use crate::collectors::todo::{
    changed_items, classified_items, classify, classify_all, content_key, file_report,
    files_report, first_match, hashes_of, item_hash, lemma_first_match_bounds, parse_text,
    prior_hashes, state_after_file, state_after_files, status_name, status_of_hash,
    TodoFileView,
};
use crate::models::{ChangeKind, TodoStatus, TodoView};
use crate::state::{SourceStateView, StateView};
use crate::text::{contains_text, occurs_at};
use crate::time::Timestamp;

verus! {

/// An item whose hash stands in the record of the previous run is unchanged.
pub proof fn lemma_known_hash_is_unchanged(item: TodoView, hashes: Seq<Seq<char>>)
    requires
        hashes.contains(item.hash()),
    ensures
        classify(item, Some(hashes)).change == ChangeKind::Unchanged,
        classify(item, Some(hashes)).previous_status == item.previous_status,
{
}

/// Every item of a file that the previous run did not record is new.
pub proof fn lemma_unrecorded_file_is_new(item: TodoView)
    ensures
        classify(item, None).change == ChangeKind::New,
{
}

/// An item that matches no hash of the previous run, neither by its hash nor
/// by its key, is new.
pub proof fn lemma_unmatched_item_is_new(item: TodoView, hashes: Seq<Seq<char>>)
    requires
        forall|j: int| 0 <= j < hashes.len() ==> !contains_text(#[trigger] hashes[j], item.key()),
    ensures
        classify(item, Some(hashes)).change == ChangeKind::New,
{
    lemma_first_match_bounds(hashes, item.key());
    lemma_hash_contains_key(item.status, item.file, item.line, item.content);
    if hashes.contains(item.hash()) {
        let j = choose|j: int| 0 <= j < hashes.len() && hashes[j] == item.hash();
        assert(!contains_text(hashes[j], item.key()));
    }
}

/// A hash contains the key of its item, and begins with the status of its
/// item and with no other.
pub proof fn lemma_hash_contains_key(
    status: TodoStatus,
    file: Seq<char>,
    line: nat,
    content: Seq<char>,
)
    ensures
        contains_text(item_hash(status, file, line, content), content_key(file, line, content)),
        status_of_hash(item_hash(status, file, line, content)) == Some(status),
{
    reveal_strlit("Pending");
    reveal_strlit("Done");
    reveal_strlit("InProgress");
    reveal_strlit("Pending:");
    reveal_strlit("Done:");
    reveal_strlit("InProgress:");
    reveal_strlit(":");
    let key = content_key(file, line, content);
    let hash = item_hash(status, file, line, content);
    let head = status_name(status) + ":"@;
    assert(hash.subrange(head.len() as int, head.len() as int + key.len()) == key);
    assert(occurs_at(hash, key, head.len() as int));
    match status {
        TodoStatus::Pending => {
            assert(hash.subrange(0, 8) == "Pending:"@);
        },
        TodoStatus::Done => {
            assert(hash[0] == 'D');
            assert("Pending:"@.is_prefix_of(hash) ==> hash.subrange(0, 8)[0] == 'P');
            assert(hash.subrange(0, 5) == "Done:"@);
        },
        TodoStatus::InProgress => {
            assert(hash[0] == 'I');
            assert("Pending:"@.is_prefix_of(hash) ==> hash.subrange(0, 8)[0] == 'P');
            assert("Done:"@.is_prefix_of(hash) ==> hash.subrange(0, 5)[0] == 'D');
            assert(hash.subrange(0, 11) == "InProgress:"@);
        },
    }
}

/// An item whose key stands in the record of the previous run under another
/// status is modified, and that status is its previous status. This is said
/// of an item whose own hash the record lacks, and of a record in which no
/// earlier hash contains the item's key under yet another status.
pub proof fn lemma_status_change_is_modified(
    item: TodoView,
    hashes: Seq<Seq<char>>,
    at: int,
    previous: TodoStatus,
)
    requires
        0 <= at < hashes.len(),
        hashes[at] == item_hash(previous, item.file, item.line, item.content),
        previous != item.status,
        !hashes.contains(item.hash()),
        forall|j: int|
            0 <= j < at && contains_text(#[trigger] hashes[j], item.key()) ==> status_of_hash(
                hashes[j],
            ) == Some(previous),
    ensures
        classify(item, Some(hashes)).change == ChangeKind::Modified,
        classify(item, Some(hashes)).previous_status == Some(previous),
{
    lemma_hash_contains_key(previous, item.file, item.line, item.content);
    lemma_first_match_bounds(hashes, item.key());
    let found = first_match(hashes, item.key());
    if found > at {
        assert(!contains_text(hashes[at], item.key()));
    }
}

/// Classifying an item leaves its hash as it was.
pub proof fn lemma_classify_keeps_hashes(items: Seq<TodoView>, prior: Option<Seq<Seq<char>>>)
    ensures
        hashes_of(classify_all(items, prior)) == hashes_of(items),
{
    assert(hashes_of(classify_all(items, prior)) =~= hashes_of(items));
}

/// Where every item is unchanged, nothing is reported.
pub proof fn lemma_all_unchanged_reports_nothing(items: Seq<TodoView>)
    requires
        forall|i: int| 0 <= i < items.len() ==> (#[trigger] items[i]).change == ChangeKind::Unchanged,
    ensures
        changed_items(items) == Seq::<TodoView>::empty(),
    decreases items.len(),
{
    if items.len() > 0 {
        lemma_all_unchanged_reports_nothing(items.drop_last());
    }
}

/// The hashes of the items that `file` states.
pub open spec fn parsed_hashes(file: TodoFileView) -> Seq<Seq<char>> {
    hashes_of(parse_text(file.content, file.path))
}

/// `state` holds, as the record of `file`, the hashes of the items that
/// `file` states now.
pub open spec fn remembers(state: StateView, file: TodoFileView) -> bool {
    prior_hashes(state, file.path) == Some(parsed_hashes(file))
}

/// No path stands in `files` with two different texts.
pub open spec fn one_text_per_path(files: Seq<TodoFileView>) -> bool {
    forall|i: int, j: int|
        0 <= i < files.len() && 0 <= j < files.len() && (#[trigger] files[i]).path == (
        #[trigger] files[j]).path ==> files[i].content == files[j].content
}

/// A run leaves as the record of a file the hashes of the items that the
/// file states, whatever the state before.
pub proof fn lemma_run_remembers_file(file: TodoFileView, state: StateView, now: Timestamp)
    ensures
        remembers(state_after_file(file, state, now), file),
        state_after_file(file, state, now).sources == state.sources.insert(
            file.path,
            SourceStateView::Todo {
                last_checked: now,
                last_modified: now,
                item_hashes: parsed_hashes(file),
            },
        ),
{
    lemma_classify_keeps_hashes(
        parse_text(file.content, file.path),
        prior_hashes(state, file.path),
    );
}

/// Against a state that remembers a file, every item of the file is
/// unchanged and the file's report is empty.
pub proof fn lemma_remembered_file_reports_nothing(file: TodoFileView, state: StateView)
    requires
        remembers(state, file),
    ensures
        file_report(file, state) == Seq::<TodoView>::empty(),
        forall|i: int|
            0 <= i < classified_items(file, state).len() ==> (#[trigger] classified_items(
                file,
                state,
            )[i]).change == ChangeKind::Unchanged,
{
    let items = parse_text(file.content, file.path);
    let prior = parsed_hashes(file);
    let classified = classified_items(file, state);
    assert forall|i: int| 0 <= i < classified.len() implies (#[trigger] classified[i]).change
        == ChangeKind::Unchanged by {
        assert(prior[i] == items[i].hash());
        assert(prior.contains(items[i].hash()));
    }
    lemma_all_unchanged_reports_nothing(classified);
}

/// A second run over a file that did not change reports nothing, and leaves
/// the hashes of the file's record as the first run left them.
pub proof fn lemma_second_run_of_file_reports_nothing(
    file: TodoFileView,
    state: StateView,
    first: Timestamp,
    second: Timestamp,
)
    ensures
        file_report(file, state_after_file(file, state, first)) == Seq::<TodoView>::empty(),
        prior_hashes(
            state_after_file(file, state_after_file(file, state, first), second),
            file.path,
        ) == prior_hashes(state_after_file(file, state, first), file.path),
{
    let after_first = state_after_file(file, state, first);
    lemma_run_remembers_file(file, state, first);
    lemma_remembered_file_reports_nothing(file, after_first);
    lemma_run_remembers_file(file, after_first, second);
}

/// A run leaves the record of every source that is none of the files it
/// read as it was, and with it the version and the time of the state.
pub proof fn lemma_unread_sources_keep_their_records(
    files: Seq<TodoFileView>,
    state: StateView,
    now: Timestamp,
    source: Seq<char>,
)
    requires
        forall|i: int| 0 <= i < files.len() ==> (#[trigger] files[i]).path != source,
    ensures
        state_after_files(files, state, now).sources.contains_key(source)
            == state.sources.contains_key(source),
        state_after_files(files, state, now).sources[source] == state.sources[source],
        state_after_files(files, state, now).version == state.version,
        state_after_files(files, state, now).last_updated == state.last_updated,
    decreases files.len(),
{
    if files.len() > 0 {
        let rest = files.drop_last();
        assert forall|i: int| 0 <= i < rest.len() implies (#[trigger] rest[i]).path != source by {
            assert(rest[i] == files[i]);
        }
        lemma_unread_sources_keep_their_records(rest, state, now, source);
        assert(files[files.len() - 1].path != source);
    }
}

proof fn lemma_step_keeps_memory(
    step: TodoFileView,
    file: TodoFileView,
    state: StateView,
    now: Timestamp,
)
    requires
        step.path == file.path ==> step.content == file.content,
        step.path != file.path ==> remembers(state, file),
    ensures
        remembers(state_after_file(step, state, now), file),
{
    lemma_run_remembers_file(step, state, now);
}

proof fn lemma_run_remembers_files(files: Seq<TodoFileView>, state: StateView, now: Timestamp)
    requires
        one_text_per_path(files),
    ensures
        forall|i: int|
            0 <= i < files.len() ==> remembers(
                state_after_files(files, state, now),
                #[trigger] files[i],
            ),
    decreases files.len(),
{
    if files.len() > 0 {
        let rest = files.drop_last();
        let last = files.last();
        let mid = state_after_files(rest, state, now);
        assert(one_text_per_path(rest)) by {
            assert forall|i: int, j: int|
                0 <= i < rest.len() && 0 <= j < rest.len() && (#[trigger] rest[i]).path == (
                #[trigger] rest[j]).path implies rest[i].content == rest[j].content by {
                assert(rest[i] == files[i] && rest[j] == files[j]);
            }
        }
        lemma_run_remembers_files(rest, state, now);
        assert forall|i: int| 0 <= i < files.len() implies remembers(
            state_after_files(files, state, now),
            #[trigger] files[i],
        ) by {
            if i < rest.len() {
                assert(rest[i] == files[i]);
                assert(files[i].path == files[files.len() - 1].path ==> files[i].content
                    == files[files.len() - 1].content);
            }
            lemma_step_keeps_memory(last, files[i], mid, now);
        }
    }
}

proof fn lemma_remembered_files_report_nothing(
    files: Seq<TodoFileView>,
    all: Seq<TodoFileView>,
    state: StateView,
    now: Timestamp,
)
    requires
        one_text_per_path(all),
        forall|i: int| 0 <= i < files.len() ==> all.contains(#[trigger] files[i]),
        forall|i: int| 0 <= i < all.len() ==> remembers(state, #[trigger] all[i]),
    ensures
        files_report(files, state, now) == Seq::<TodoView>::empty(),
        forall|i: int|
            0 <= i < all.len() ==> remembers(
                state_after_files(files, state, now),
                #[trigger] all[i],
            ),
    decreases files.len(),
{
    if files.len() > 0 {
        let rest = files.drop_last();
        let last = files.last();
        let mid = state_after_files(rest, state, now);
        assert forall|i: int| 0 <= i < rest.len() implies all.contains(#[trigger] rest[i]) by {
            assert(rest[i] == files[i]);
        }
        lemma_remembered_files_report_nothing(rest, all, state, now);
        assert(all.contains(files[files.len() - 1]));
        let k = choose|k: int| 0 <= k < all.len() && all[k] == last;
        assert(remembers(mid, all[k]));
        lemma_remembered_file_reports_nothing(last, mid);
        assert forall|i: int| 0 <= i < all.len() implies remembers(
            state_after_files(files, state, now),
            #[trigger] all[i],
        ) by {
            assert(all[i].path == all[k].path ==> all[i].content == all[k].content);
            lemma_step_keeps_memory(last, all[i], mid, now);
        }
    }
}

/// A second run over files that did not change reports nothing: every item
/// is unchanged against the state that the first run left. This is said of
/// files of which no path is listed with two different texts.
pub proof fn lemma_second_run_reports_nothing(
    files: Seq<TodoFileView>,
    state: StateView,
    first: Timestamp,
    second: Timestamp,
)
    requires
        one_text_per_path(files),
    ensures
        files_report(files, state_after_files(files, state, first), second) == Seq::<
            TodoView,
        >::empty(),
{
    let after_first = state_after_files(files, state, first);
    lemma_run_remembers_files(files, state, first);
    assert forall|i: int| 0 <= i < files.len() implies files.contains(#[trigger] files[i]) by {}
    lemma_remembered_files_report_nothing(files, files, after_first, second);
}

} // verus!
