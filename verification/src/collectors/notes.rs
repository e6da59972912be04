//! Note directories: which note files a run reports, and as what.
//!
//! Scanning a directory is not done here. A run is handed, for each
//! directory, the files that were found in it, each with its modification
//! time and its text. A file is reported when it is a markdown file that was
//! modified at or after the cutoff; it is new when the record of the
//! previous run does not know its path, and modified otherwise.

use vstd::prelude::*;
use vstd::string::StringExecFns;
use vstd::utf8::{decode_utf8, encode_utf8, is_char_boundary};

use crate::config::Config;
use crate::error::ChronicleError;
use crate::models::{ChangeKind, Note, NoteView};
use crate::paths::{extension, extension_of, lowercase, to_lowercase};
use crate::state::{
    get_source, update_source, SourceState, SourceStateView, State, StateView,
};
use crate::string_map::StringMap;
use crate::text::{find_last, from_chars, last_index_of, same_text, to_chars, trim, trimmed};
use crate::time::Timestamp;

verus! {

/// A file of a notes directory as it was found.
#[derive(Debug)]
pub struct NoteFile {
    pub path: String,
    /// When the file was last modified.
    pub modified_at: Timestamp,
    /// The text of the file.
    pub content: String,
}

/// The mathematical value of a [`NoteFile`].
pub ghost struct NoteFileView {
    pub path: Seq<char>,
    pub modified_at: Timestamp,
    pub content: Seq<char>,
}

impl View for NoteFile {
    type V = NoteFileView;

    open spec fn view(&self) -> NoteFileView {
        NoteFileView { path: self.path@, modified_at: self.modified_at, content: self.content@ }
    }
}

impl DeepView for NoteFile {
    type V = NoteFileView;

    open spec fn deep_view(&self) -> NoteFileView {
        self@
    }
}

/// A notes directory as it was scanned: its path and the files directly in it.
#[derive(Debug)]
pub struct NotesDirectory {
    /// The path that identifies the directory.
    pub path: String,
    /// The files of the directory, in the order of the scan.
    pub files: Vec<NoteFile>,
}

/// The mathematical value of a [`NotesDirectory`].
pub ghost struct NotesDirectoryView {
    pub path: Seq<char>,
    pub files: Seq<NoteFileView>,
}

impl View for NotesDirectory {
    type V = NotesDirectoryView;

    open spec fn view(&self) -> NotesDirectoryView {
        NotesDirectoryView { path: self.path@, files: self.files.deep_view() }
    }
}

impl DeepView for NotesDirectory {
    type V = NotesDirectoryView;

    open spec fn deep_view(&self) -> NotesDirectoryView {
        self@
    }
}

/// Whether `lowered`, an extension in lower case, marks a markdown file.
pub open spec fn is_markdown_extension(lowered: Seq<char>) -> bool {
    lowered == "md"@ || lowered == "markdown"@
}

/// Whether `path` names a markdown file: it has an extension, and the
/// extension is `md` or `markdown` in any case of letters.
pub open spec fn is_markdown(path: Seq<char>) -> bool {
    match extension_of(path) {
        Some(ext) => is_markdown_extension(lowercase(ext)),
        None => false,
    }
}

/// The largest offset up to `index` at which `bytes` can be cut between two
/// characters.
pub open spec fn floor_boundary(bytes: Seq<u8>, index: int) -> int
    decreases index,
{
    if index <= 0 || is_char_boundary(bytes, index) {
        index
    } else {
        floor_boundary(bytes, index - 1)
    }
}

/// The head of a text that is cut to size: up to and with its last full
/// stop; for want of one, up to its last line feed; for want of both, all of
/// it, followed by three dots.
pub open spec fn cut_at_sentence(head: Seq<char>) -> Seq<char> {
    if last_index_of(head, '.') >= 0 {
        head.take(last_index_of(head, '.') + 1)
    } else if last_index_of(head, '\n') >= 0 {
        head.take(last_index_of(head, '\n'))
    } else {
        head + "..."@
    }
}

/// The excerpt of a note with the text `content`. A text of at most
/// `max_bytes` bytes in UTF-8 is its own excerpt. Of a longer text the
/// excerpt is taken from the first `max_bytes` bytes, less the bytes of a
/// character that the cut would split. Either is stripped of leading and
/// trailing whitespace.
pub open spec fn excerpt_of(content: Seq<char>, max_bytes: nat) -> Seq<char> {
    let bytes = encode_utf8(content);
    if bytes.len() <= max_bytes {
        trim(content)
    } else {
        trim(
            cut_at_sentence(
                decode_utf8(bytes.subrange(0, floor_boundary(bytes, max_bytes as int))),
            ),
        )
    }
}

/// The files that the previous run recorded for the directory `path`, if
/// `state` holds a notes record under that name.
pub open spec fn prior_files(state: StateView, path: Seq<char>) -> Option<
    Map<Seq<char>, Timestamp>,
> {
    if state.sources.contains_key(path) {
        match state.sources[path] {
            SourceStateView::Notes { files, .. } => Some(files),
            _ => None,
        }
    } else {
        None
    }
}

/// A note is new when the previous run recorded no file of its path, and
/// modified otherwise.
pub open spec fn note_change(
    path: Seq<char>,
    prior: Option<Map<Seq<char>, Timestamp>>,
) -> ChangeKind {
    match prior {
        Some(files) => if files.contains_key(path) {
            ChangeKind::Modified
        } else {
            ChangeKind::New
        },
        None => ChangeKind::New,
    }
}

/// A file is eligible when it is a markdown file that was modified at or
/// after `since`.
pub open spec fn is_eligible(file: NoteFileView, since: Timestamp) -> bool {
    is_markdown(file.path) && !file.modified_at.precedes(since)
}

/// The note that is reported for `file`.
pub open spec fn note_of(
    file: NoteFileView,
    prior: Option<Map<Seq<char>, Timestamp>>,
    max_bytes: nat,
) -> NoteView {
    NoteView {
        path: file.path,
        change: note_change(file.path, prior),
        modified_at: file.modified_at,
        excerpt: excerpt_of(file.content, max_bytes),
    }
}

/// The notes that are reported for the eligible files among `files`, in order.
pub open spec fn notes_of(
    files: Seq<NoteFileView>,
    prior: Option<Map<Seq<char>, Timestamp>>,
    since: Timestamp,
    max_bytes: nat,
) -> Seq<NoteView>
    decreases files.len(),
{
    if files.len() == 0 {
        Seq::empty()
    } else {
        let before = notes_of(files.drop_last(), prior, since, max_bytes);
        if is_eligible(files.last(), since) {
            before.push(note_of(files.last(), prior, max_bytes))
        } else {
            before
        }
    }
}

/// The modification times of `notes` by path. Of two notes of one path the
/// later is recorded.
pub open spec fn note_records(notes: Seq<NoteView>) -> Map<Seq<char>, Timestamp>
    decreases notes.len(),
{
    if notes.len() == 0 {
        Map::empty()
    } else {
        note_records(notes.drop_last()).insert(notes.last().path, notes.last().modified_at)
    }
}

/// The state after `notes` of the directory `path` were recorded at `now`.
pub open spec fn state_with_notes(
    state: StateView,
    path: Seq<char>,
    notes: Seq<NoteView>,
    now: Timestamp,
) -> StateView {
    StateView {
        sources: state.sources.insert(
            path,
            SourceStateView::Notes { last_checked: now, files: note_records(notes) },
        ),
        ..state
    }
}

/// What a run reports of one directory.
pub open spec fn directory_report(
    directory: NotesDirectoryView,
    state: StateView,
    since: Timestamp,
    max_bytes: nat,
) -> Seq<NoteView> {
    notes_of(directory.files, prior_files(state, directory.path), since, max_bytes)
}

/// The state that a run at `now` leaves after one directory.
pub open spec fn state_after_directory(
    directory: NotesDirectoryView,
    state: StateView,
    since: Timestamp,
    max_bytes: nat,
    now: Timestamp,
) -> StateView {
    state_with_notes(
        state,
        directory.path,
        directory_report(directory, state, since, max_bytes),
        now,
    )
}

/// The state that a run at `now` leaves after `directories`, in order.
pub open spec fn state_after_directories(
    directories: Seq<NotesDirectoryView>,
    state: StateView,
    since: Timestamp,
    max_bytes: nat,
    now: Timestamp,
) -> StateView
    decreases directories.len(),
{
    if directories.len() == 0 {
        state
    } else {
        state_after_directory(
            directories.last(),
            state_after_directories(directories.drop_last(), state, since, max_bytes, now),
            since,
            max_bytes,
            now,
        )
    }
}

/// The notes of all `directories`, in order, each directory against the
/// state that the directories before it left.
pub open spec fn merged_notes(
    directories: Seq<NotesDirectoryView>,
    state: StateView,
    since: Timestamp,
    max_bytes: nat,
    now: Timestamp,
) -> Seq<NoteView>
    decreases directories.len(),
{
    if directories.len() == 0 {
        Seq::empty()
    } else {
        merged_notes(directories.drop_last(), state, since, max_bytes, now) + directory_report(
            directories.last(),
            state_after_directories(directories.drop_last(), state, since, max_bytes, now),
            since,
            max_bytes,
        )
    }
}

/// `sorted` with `note` put in behind every note that is not older than it.
pub open spec fn insert_by_recency(sorted: Seq<NoteView>, note: NoteView) -> Seq<NoteView>
    decreases sorted.len(),
{
    if sorted.len() > 0 && sorted.last().modified_at.precedes(note.modified_at) {
        insert_by_recency(sorted.drop_last(), note).push(sorted.last())
    } else {
        sorted.push(note)
    }
}

/// `notes` from the most recently modified to the least. Notes that were
/// modified at the same instant keep their order.
pub open spec fn sorted_by_recency(notes: Seq<NoteView>) -> Seq<NoteView>
    decreases notes.len(),
{
    if notes.len() == 0 {
        Seq::empty()
    } else {
        insert_by_recency(sorted_by_recency(notes.drop_last()), notes.last())
    }
}

/// At most the first `limit` of `notes`.
pub open spec fn first_notes(notes: Seq<NoteView>, limit: nat) -> Seq<NoteView> {
    if notes.len() <= limit {
        notes
    } else {
        notes.take(limit as int)
    }
}

/// What a run reports of `directories`: the notes of all of them, from the
/// most recently modified to the least, and at most `limit` of them.
pub open spec fn notes_report(
    directories: Seq<NotesDirectoryView>,
    state: StateView,
    since: Timestamp,
    max_bytes: nat,
    limit: nat,
    now: Timestamp,
) -> Seq<NoteView> {
    first_notes(sorted_by_recency(merged_notes(directories, state, since, max_bytes, now)), limit)
}

/// Putting `note` into `sorted` puts it at `at`, when every note from `at`
/// on is older than `note` and the note before `at`, if any, is not.
pub proof fn lemma_insert_by_recency_at(sorted: Seq<NoteView>, note: NoteView, at: int)
    requires
        0 <= at <= sorted.len(),
        forall|j: int| at <= j < sorted.len() ==> (#[trigger] sorted[j]).modified_at.precedes(
            note.modified_at,
        ),
        at > 0 ==> !sorted[at - 1].modified_at.precedes(note.modified_at),
    ensures
        insert_by_recency(sorted, note) == sorted.take(at) + seq![note] + sorted.skip(at),
    decreases sorted.len() - at,
{
    if at == sorted.len() {
        assert(sorted.take(at) == sorted);
        assert(sorted.push(note) == sorted.take(at) + seq![note] + sorted.skip(at));
    } else {
        let rest = sorted.drop_last();
        assert(sorted[sorted.len() - 1].modified_at.precedes(note.modified_at));
        assert forall|j: int| at <= j < rest.len() implies (#[trigger] rest[j]).modified_at.precedes(
            note.modified_at,
        ) by {
            assert(rest[j] == sorted[j]);
        }
        if at > 0 {
            assert(rest[at - 1] == sorted[at - 1]);
        }
        lemma_insert_by_recency_at(rest, note, at);
        assert((rest.take(at) + seq![note] + rest.skip(at)).push(sorted.last()) == sorted.take(at)
            + seq![note] + sorted.skip(at));
    }
}

/// Reads what was found in note directories and tells which notes changed.
pub struct NotesCollector<'a> {
    config: &'a Config,
}

impl<'a> NotesCollector<'a> {
    pub fn new(config: &'a Config) -> (collector: Self)
        ensures
            collector.config() == config,
    {
        Self { config }
    }

    /// The settings that the collector was made with.
    pub closed spec fn config(self) -> &'a Config {
        self.config
    }

    /// Goes through `directories` in order and leaves in `state` the record
    /// of each. Reports the notes of all directories together, from the most
    /// recently modified to the least, and at most as many as the settings
    /// allow.
    pub fn collect(
        &self,
        directories: &Vec<NotesDirectory>,
        state: &mut State,
        since: Timestamp,
        now: Timestamp,
    ) -> (result: Result<Vec<Note>, ChronicleError>)
        ensures
            result matches Ok(notes) && notes.deep_view() == notes_report(
                directories.deep_view(),
                old(state)@,
                since,
                self.config().limits.max_chars_per_item as nat,
                self.config().limits.max_note_files as nat,
                now,
            ),
            final(state)@ == state_after_directories(
                directories.deep_view(),
                old(state)@,
                since,
                self.config().limits.max_chars_per_item as nat,
                now,
            ),
    {
        let mut all_notes: Vec<Note> = Vec::new();
        let ghost before = state@;
        let ghost scanned = directories.deep_view();
        let ghost max_bytes = self.config().limits.max_chars_per_item as nat;
        let mut i: usize = 0;
        while i < directories.len()
            invariant
                i <= directories.len(),
                scanned == directories.deep_view(),
                max_bytes == self.config().limits.max_chars_per_item as nat,
                all_notes.deep_view() == merged_notes(
                    scanned.take(i as int),
                    before,
                    since,
                    max_bytes,
                    now,
                ),
                state@ == state_after_directories(
                    scanned.take(i as int),
                    before,
                    since,
                    max_bytes,
                    now,
                ),
            decreases directories.len() - i,
        {
            proof {
                assert(scanned.take(i + 1).drop_last() == scanned.take(i as int));
                assert(scanned.take(i + 1).last() == directories[i as int]@);
            }
            let ghost so_far = all_notes.deep_view();
            let mut notes = self.collect_directory(&directories[i], state, since, now);
            let ghost added = notes.deep_view();
            all_notes.append(&mut notes);
            assert(all_notes.deep_view() == so_far + added);
            i += 1;
        }
        assert(scanned.take(directories.len() as int) == scanned);
        let mut sorted = self.sort_by_recency(&all_notes);
        sorted.truncate(self.config.limits.max_note_files);
        assert(sorted.deep_view() == first_notes(
            sorted_by_recency(all_notes.deep_view()),
            self.config().limits.max_note_files as nat,
        ));
        Ok(sorted)
    }

    /// `notes` from the most recently modified to the least. Notes that were
    /// modified at the same instant keep their order.
    pub fn sort_by_recency(&self, notes: &Vec<Note>) -> (sorted: Vec<Note>)
        ensures
            sorted.deep_view() == sorted_by_recency(notes.deep_view()),
    {
        let mut sorted: Vec<Note> = Vec::new();
        let mut i: usize = 0;
        while i < notes.len()
            invariant
                i <= notes.len(),
                sorted.len() == i,
                sorted.deep_view() == sorted_by_recency(notes.deep_view().take(i as int)),
            decreases notes.len() - i,
        {
            proof {
                let all = notes.deep_view();
                assert(all.take(i + 1).drop_last() == all.take(i as int));
                assert(all.take(i + 1).last() == notes[i as int]@);
            }
            let note = notes[i].clone();
            let mut at: usize = sorted.len();
            while at > 0 && sorted[at - 1].modified_at.is_before(&note.modified_at)
                invariant
                    at <= sorted.len(),
                    forall|j: int|
                        at <= j < sorted.len() ==> (#[trigger] sorted.deep_view()[j]).modified_at.precedes(
                            note.modified_at,
                        ),
                decreases at,
            {
                at -= 1;
            }
            let ghost so_far = sorted.deep_view();
            proof {
                if at > 0 {
                    assert(so_far[at - 1] == sorted[at - 1]@);
                }
                lemma_insert_by_recency_at(so_far, note@, at as int);
            }
            sorted.insert(at, note);
            assert(sorted.deep_view() == so_far.take(at as int) + seq![notes[i as int]@]
                + so_far.skip(at as int));
            i += 1;
        }
        assert(notes.deep_view().take(notes.len() as int) == notes.deep_view());
        sorted
    }

    /// Reports the eligible files of one directory, each as new or
    /// modified, and leaves in `state` the modification time of each
    /// reported file as the directory's record.
    pub fn collect_directory(
        &self,
        directory: &NotesDirectory,
        state: &mut State,
        since: Timestamp,
        now: Timestamp,
    ) -> (notes: Vec<Note>)
        ensures
            notes.deep_view() == directory_report(
                directory@,
                old(state)@,
                since,
                self.config().limits.max_chars_per_item as nat,
            ),
            final(state)@ == state_after_directory(
                directory@,
                old(state)@,
                since,
                self.config().limits.max_chars_per_item as nat,
                now,
            ),
    {
        let mut notes: Vec<Note> = Vec::new();
        let ghost prior = prior_files(state@, directory.path@);
        let ghost max_bytes = self.config().limits.max_chars_per_item as nat;
        let mut i: usize = 0;
        while i < directory.files.len()
            invariant
                i <= directory.files.len(),
                prior == prior_files(state@, directory.path@),
                max_bytes == self.config().limits.max_chars_per_item as nat,
                notes.deep_view() == notes_of(
                    directory.files.deep_view().take(i as int),
                    prior,
                    since,
                    max_bytes,
                ),
            decreases directory.files.len() - i,
        {
            proof {
                let all = directory.files.deep_view();
                assert(all.take(i + 1).drop_last() == all.take(i as int));
                assert(all.take(i + 1).last() == directory.files[i as int]@);
            }
            let file = &directory.files[i];
            if self.is_eligible(file.path.as_str(), file.modified_at, since) {
                let change = self.determine_note_change(
                    file.path.as_str(),
                    state,
                    directory.path.as_str(),
                );
                let excerpt = self.extract_excerpt(file.content.as_str());
                let ghost so_far = notes.deep_view();
                let note = Note {
                    path: file.path.clone(),
                    change,
                    modified_at: file.modified_at,
                    excerpt,
                };
                let ghost added = note@;
                notes.push(note);
                assert(notes.deep_view() == so_far.push(added));
            }
            i += 1;
        }
        assert(directory.files.deep_view().take(directory.files.len() as int)
            == directory.files.deep_view());
        self.update_state(state, directory.path.as_str(), &notes, now);
        notes
    }

    /// Whether a file of this path and modification time is eligible: a
    /// markdown file that was modified at or after `since`.
    pub fn is_eligible(&self, path: &str, modified_at: Timestamp, since: Timestamp) -> (b: bool)
        ensures
            b == (is_markdown(path@) && !modified_at.precedes(since)),
    {
        self.is_markdown_file(path) && !modified_at.is_before(&since)
    }

    /// Whether `path` names a markdown file.
    pub fn is_markdown_file(&self, path: &str) -> (b: bool)
        ensures
            b == is_markdown(path@),
    {
        match extension(path) {
            Some(ext) => {
                let ext_str = to_lowercase(ext.as_str());
                self.is_markdown_extension(ext_str.as_str())
            },
            None => false,
        }
    }

    /// Whether `lowered`, an extension in lower case, marks a markdown file.
    pub fn is_markdown_extension(&self, lowered: &str) -> (b: bool)
        ensures
            b == is_markdown_extension(lowered@),
    {
        same_text(lowered, "md") || same_text(lowered, "markdown")
    }

    /// The excerpt of a note with the text `content`.
    pub fn extract_excerpt(&self, content: &str) -> (excerpt: String)
        ensures
            excerpt@ == excerpt_of(content@, self.config().limits.max_chars_per_item as nat),
    {
        broadcast use vstd::utf8::group_utf8_lib;

        let max_chars = self.config.limits.max_chars_per_item;
        let ghost bytes = encode_utf8(content@);
        if content.as_bytes().len() <= max_chars {
            return trimmed(content);
        }
        let mut cut: usize = max_chars;
        while !content.is_char_boundary(cut)
            invariant
                cut <= max_chars < bytes.len(),
                bytes == encode_utf8(content@),
                floor_boundary(bytes, max_chars as int) == floor_boundary(bytes, cut as int),
            decreases cut,
        {
            proof {
                vstd::utf8::encode_utf8_valid_utf8(content@);
                vstd::utf8::is_char_boundary_start_end_of_seq(bytes);
            }
            cut -= 1;
        }
        let (head, _) = content.split_at(cut);
        assert(head@ == decode_utf8(bytes.subrange(0, cut as int))) by {
            assert(head@ == decode_utf8(encode_utf8(head@)));
        }
        let chars = to_chars(head);
        let cut_text = match find_last(&chars, '.') {
            Some(pos) => from_chars(&chars, 0, pos + 1),
            None => match find_last(&chars, '\n') {
                Some(pos) => from_chars(&chars, 0, pos),
                None => String::from_str(head).concat("..."),
            },
        };
        trimmed(cut_text.as_str())
    }

    /// A note is new when the record that `state` holds for the directory
    /// `dir_path` knows no file of its path, and modified otherwise.
    pub fn determine_note_change(&self, path: &str, state: &State, dir_path: &str) -> (change:
        ChangeKind)
        ensures
            change == note_change(path@, prior_files(state@, dir_path@)),
    {
        match get_source(state, dir_path) {
            Some(SourceState::Notes { files, .. }) => {
                if files.contains_key(path) {
                    ChangeKind::Modified
                } else {
                    ChangeKind::New
                }
            },
            _ => ChangeKind::New,
        }
    }

    /// Stores the modification times of `notes` as the record of the
    /// directory `dir_path`, in place of the record that the directory had.
    pub fn update_state(&self, state: &mut State, dir_path: &str, notes: &Vec<Note>, now: Timestamp)
        ensures
            final(state)@ == state_with_notes(old(state)@, dir_path@, notes.deep_view(), now),
    {
        let mut files: StringMap<Timestamp> = StringMap::new();
        let mut i: usize = 0;
        while i < notes.len()
            invariant
                i <= notes.len(),
                files@ == note_records(notes.deep_view().take(i as int)),
            decreases notes.len() - i,
        {
            proof {
                let all = notes.deep_view();
                assert(all.take(i + 1).drop_last() == all.take(i as int));
                assert(all.take(i + 1).last() == notes[i as int]@);
            }
            files.insert(notes[i].path.clone(), notes[i].modified_at);
            i += 1;
        }
        assert(notes.deep_view().take(notes.len() as int) == notes.deep_view());
        let source_state = SourceState::Notes { last_checked: now, files };
        update_source(state, String::from_str(dir_path), source_state);
    }
}

} // verus!
