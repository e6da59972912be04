//! What holds of the classification and the ordering of notes, proved from
//! their definitions.

use vstd::prelude::*;
use vstd::seq_lib::to_multiset_build;

use crate::collectors::notes::{
    directory_report, first_notes, insert_by_recency, is_eligible, is_markdown, note_of,
    notes_of, prior_files, sorted_by_recency, state_after_directories, NoteFileView,
    NotesDirectoryView,
};
use crate::models::{ChangeKind, NoteView};
use crate::state::StateView;
use crate::time::Timestamp;

verus! {

/// No note of `notes` stands before a note that was modified after it.
pub open spec fn newest_first(notes: Seq<NoteView>) -> bool {
    forall|i: int, j: int|
        0 <= i < j < notes.len() ==> !(#[trigger] notes[i]).modified_at.precedes(
            (#[trigger] notes[j]).modified_at,
        )
}

/// Every reported note stands for an eligible file, in the order of the files.
proof fn lemma_notes_of_files(
    files: Seq<NoteFileView>,
    prior: Option<Map<Seq<char>, Timestamp>>,
    since: Timestamp,
    max_bytes: nat,
)
    ensures
        forall|i: int|
            0 <= i < notes_of(files, prior, since, max_bytes).len() ==> exists|k: int|
                0 <= k < files.len() && is_eligible(files[k], since) && #[trigger] notes_of(
                    files,
                    prior,
                    since,
                    max_bytes,
                )[i] == note_of(files[k], prior, max_bytes),
    decreases files.len(),
{
    if files.len() > 0 {
        let rest = files.drop_last();
        lemma_notes_of_files(rest, prior, since, max_bytes);
        let all = notes_of(files, prior, since, max_bytes);
        let before = notes_of(rest, prior, since, max_bytes);
        assert forall|i: int| 0 <= i < all.len() implies exists|k: int|
            0 <= k < files.len() && is_eligible(files[k], since) && #[trigger] all[i] == note_of(
                files[k],
                prior,
                max_bytes,
            ) by {
            if i < before.len() {
                assert(all[i] == before[i]);
                let k = choose|k: int|
                    0 <= k < rest.len() && is_eligible(rest[k], since) && before[i] == note_of(
                        rest[k],
                        prior,
                        max_bytes,
                    );
                assert(files[k] == rest[k]);
            } else {
                assert(all[i] == note_of(files[files.len() - 1], prior, max_bytes));
            }
        }
    }
}

/// A reported note is new if the record of the previous run holds no file of
/// its path, and modified otherwise. It names a markdown file that was
/// modified at or after the cutoff.
pub proof fn lemma_reported_note_is_new_or_modified(
    directory: NotesDirectoryView,
    state: StateView,
    since: Timestamp,
    max_bytes: nat,
    i: int,
)
    requires
        0 <= i < directory_report(directory, state, since, max_bytes).len(),
    ensures
        ({
            let note = directory_report(directory, state, since, max_bytes)[i];
            let prior = prior_files(state, directory.path);
            &&& note.change == if prior is Some && prior->0.contains_key(note.path) {
                ChangeKind::Modified
            } else {
                ChangeKind::New
            }
            &&& is_markdown(note.path)
            &&& !note.modified_at.precedes(since)
        }),
{
    lemma_notes_of_files(directory.files, prior_files(state, directory.path), since, max_bytes);
}

/// A run leaves the record of every source that is none of the directories
/// it scanned as it was, and with it the version and the time of the state.
pub proof fn lemma_unscanned_sources_keep_their_records(
    directories: Seq<NotesDirectoryView>,
    state: StateView,
    since: Timestamp,
    max_bytes: nat,
    now: Timestamp,
    source: Seq<char>,
)
    requires
        forall|i: int| 0 <= i < directories.len() ==> (#[trigger] directories[i]).path != source,
    ensures
        state_after_directories(directories, state, since, max_bytes, now).sources.contains_key(
            source,
        ) == state.sources.contains_key(source),
        state_after_directories(directories, state, since, max_bytes, now).sources[source]
            == state.sources[source],
        state_after_directories(directories, state, since, max_bytes, now).version
            == state.version,
        state_after_directories(directories, state, since, max_bytes, now).last_updated
            == state.last_updated,
    decreases directories.len(),
{
    if directories.len() > 0 {
        let rest = directories.drop_last();
        assert forall|i: int| 0 <= i < rest.len() implies (#[trigger] rest[i]).path != source by {
            assert(rest[i] == directories[i]);
        }
        lemma_unscanned_sources_keep_their_records(rest, state, since, max_bytes, now, source);
        assert(directories[directories.len() - 1].path != source);
    }
}

/// Putting a note into notes that stand newest first leaves them newest
/// first, and adds that note and no other.
pub proof fn lemma_insert_by_recency(sorted: Seq<NoteView>, note: NoteView)
    requires
        newest_first(sorted),
    ensures
        newest_first(insert_by_recency(sorted, note)),
        insert_by_recency(sorted, note).len() == sorted.len() + 1,
        insert_by_recency(sorted, note).to_multiset() == sorted.to_multiset().insert(note),
        forall|k: int|
            0 <= k < insert_by_recency(sorted, note).len() ==> (#[trigger] insert_by_recency(
                sorted,
                note,
            )[k]) == note || sorted.contains(insert_by_recency(sorted, note)[k]),
    decreases sorted.len(),
{
    let result = insert_by_recency(sorted, note);
    if sorted.len() > 0 && sorted.last().modified_at.precedes(note.modified_at) {
        let rest = sorted.drop_last();
        let last = sorted.last();
        assert(newest_first(rest)) by {
            assert forall|i: int, j: int| 0 <= i < j < rest.len() implies !(
            #[trigger] rest[i]).modified_at.precedes((#[trigger] rest[j]).modified_at) by {
                assert(rest[i] == sorted[i] && rest[j] == sorted[j]);
            }
        }
        lemma_insert_by_recency(rest, note);
        let inner = insert_by_recency(rest, note);
        to_multiset_build(inner, last);
        to_multiset_build(rest, last);
        assert(rest.push(last) == sorted);
        assert(result.to_multiset() =~= sorted.to_multiset().insert(note));
        assert forall|k: int| 0 <= k < result.len() implies (#[trigger] result[k]) == note
            || sorted.contains(result[k]) by {
            if k < inner.len() {
                assert(result[k] == inner[k]);
                if inner[k] != note {
                    assert(rest.contains(inner[k]));
                    let p = choose|p: int| 0 <= p < rest.len() && rest[p] == inner[k];
                    assert(sorted[p] == inner[k]);
                }
            } else {
                assert(sorted[sorted.len() - 1] == result[k]);
            }
        }
        assert forall|i: int, j: int| 0 <= i < j < result.len() implies !(
        #[trigger] result[i]).modified_at.precedes((#[trigger] result[j]).modified_at) by {
            if j < inner.len() {
                assert(result[i] == inner[i] && result[j] == inner[j]);
            } else {
                assert(result[j] == last);
                assert(result[i] == inner[i]);
                if inner[i] != note {
                    assert(rest.contains(inner[i]));
                    let p = choose|p: int| 0 <= p < rest.len() && rest[p] == inner[i];
                    assert(sorted[p] == inner[i]);
                    assert(!sorted[p].modified_at.precedes(sorted[sorted.len() - 1].modified_at));
                }
            }
        }
    } else {
        to_multiset_build(sorted, note);
        assert forall|k: int| 0 <= k < result.len() implies (#[trigger] result[k]) == note
            || sorted.contains(result[k]) by {
            if k < sorted.len() {
                assert(sorted[k] == result[k]);
            }
        }
        assert forall|i: int, j: int| 0 <= i < j < result.len() implies !(
        #[trigger] result[i]).modified_at.precedes((#[trigger] result[j]).modified_at) by {
            if j < sorted.len() {
                assert(result[i] == sorted[i] && result[j] == sorted[j]);
            } else {
                assert(result[i] == sorted[i]);
                if i < sorted.len() - 1 {
                    assert(!sorted[i].modified_at.precedes(sorted[sorted.len() - 1].modified_at));
                }
            }
        }
    }
}

/// The notes sorted by recency are the given notes, each as often as it was
/// given, and they stand newest first.
pub proof fn lemma_sorted_by_recency(notes: Seq<NoteView>)
    ensures
        newest_first(sorted_by_recency(notes)),
        sorted_by_recency(notes).len() == notes.len(),
        sorted_by_recency(notes).to_multiset() == notes.to_multiset(),
    decreases notes.len(),
{
    if notes.len() == 0 {
        assert(sorted_by_recency(notes) == notes);
    } else {
        let rest = notes.drop_last();
        lemma_sorted_by_recency(rest);
        lemma_insert_by_recency(sorted_by_recency(rest), notes.last());
        to_multiset_build(rest, notes.last());
        assert(rest.push(notes.last()) == notes);
    }
}

/// Of notes that stand newest first, the first `limit` are the most recent:
/// no note that is left out was modified after one that is kept.
pub proof fn lemma_first_notes_are_most_recent(notes: Seq<NoteView>, limit: nat, i: int, j: int)
    requires
        newest_first(notes),
        0 <= i < first_notes(notes, limit).len(),
        first_notes(notes, limit).len() <= j < notes.len(),
    ensures
        first_notes(notes, limit)[i] == notes[i],
        !notes[i].modified_at.precedes(notes[j].modified_at),
{
}

} // verus!
