//! The report as Markdown: a header, a table of counts, and one section for
//! each kind of source that has something to report.

use vstd::prelude::*;
use vstd::string::StringExecFns;

use crate::config::Config;
use crate::models::chronicle::{Chronicle, ChronicleStats, ChronicleView};
use crate::models::source::files_of_commits;
use crate::models::{
    Branch, BranchView, ChangeKind, CommitView, Note, NoteView, Repository, RepositoryView, Todo,
    TodoStatus, TodoView,
};
use crate::text::{
    decimal, distinct, distinct_strings, push_decimal, same_text, trim_end, trimmed_end,
};
use crate::time::{Date, Timestamp};

verus! {

/// The header of a report for `date`, made at `generated_at`, of what
/// happened since `since`.
pub open spec fn header_text(date: Date, generated_at: Timestamp, since: Timestamp) -> Seq<char> {
    "# Chronicle: "@ + date.text() + "\n\n"@ + "**Generated:** "@ + generated_at.text() + "\n"@
        + "**Since:** "@ + since.text()
}

/// The table of counts.
pub open spec fn summary_text(stats: ChronicleStats) -> Seq<char> {
    "## Summary\n\n"@ + "| Category | Count |\n"@ + "|----------|-------|\n"@ + "| Repositories | "@
        + decimal(stats.repo_count as nat) + " |\n"@ + "| Commits | "@ + decimal(
        stats.commit_count as nat,
    ) + " |\n"@ + "| New Branches | "@ + decimal(stats.new_branch_count as nat) + " |\n"@
        + "| New TODOs | "@ + decimal(stats.todos_new as nat) + " |\n"@ + "| Completed TODOs | "@
        + decimal(stats.todos_completed as nat) + " |\n"@ + "| Note Updates | "@ + decimal(
        stats.notes_count as nat,
    ) + " |"@
}

/// The checkbox of a status.
pub open spec fn status_marker(status: TodoStatus) -> Seq<char> {
    match status {
        TodoStatus::Pending => "[ ]"@,
        TodoStatus::Done => "[x]"@,
        TodoStatus::InProgress => "[~]"@,
    }
}

/// What is written behind a checklist item to say how it changed.
pub open spec fn todo_change_marker(todo: TodoView) -> Seq<char> {
    match todo.change {
        ChangeKind::New => " ← NEW"@,
        ChangeKind::Modified => if todo.was_completed() {
            " ← DONE"@
        } else {
            " ← MODIFIED"@
        },
        ChangeKind::Unchanged => ""@,
    }
}

/// The line of one checklist item.
pub open spec fn todo_text(todo: TodoView) -> Seq<char> {
    "- "@ + status_marker(todo.status) + " "@ + todo.content + todo_change_marker(todo) + "  \n"@
}

/// The files of `todos`, one per item.
pub open spec fn files_of_todos(todos: Seq<TodoView>) -> Seq<Seq<char>> {
    Seq::new(todos.len(), |i: int| todos[i].file)
}

/// The lines of those of `todos` that stand in `file`, in order.
pub open spec fn todo_lines_of_file(todos: Seq<TodoView>, file: Seq<char>) -> Seq<char>
    decreases todos.len(),
{
    if todos.len() == 0 {
        Seq::empty()
    } else if todos.last().file == file {
        todo_lines_of_file(todos.drop_last(), file) + todo_text(todos.last())
    } else {
        todo_lines_of_file(todos.drop_last(), file)
    }
}

/// The items of one file under the file's heading.
pub open spec fn todo_group_text(todos: Seq<TodoView>, file: Seq<char>) -> Seq<char> {
    "\n"@ + "### `"@ + file + "`\n\n"@ + todo_lines_of_file(todos, file)
}

/// The groups of `files`, in order.
pub open spec fn todo_groups_text(todos: Seq<TodoView>, files: Seq<Seq<char>>) -> Seq<char>
    decreases files.len(),
{
    if files.len() == 0 {
        Seq::empty()
    } else {
        todo_groups_text(todos, files.drop_last()) + todo_group_text(todos, files.last())
    }
}

/// The section of checklist items: one group per file, the files in the
/// order of their first item.
pub open spec fn todos_text(todos: Seq<TodoView>) -> Seq<char> {
    "## TODOs\n"@ + todo_groups_text(todos, distinct(files_of_todos(todos)))
}

/// One line per file.
pub open spec fn file_lines_text(files: Seq<Seq<char>>) -> Seq<char>
    decreases files.len(),
{
    if files.len() == 0 {
        Seq::empty()
    } else {
        file_lines_text(files.drop_last()) + ("- `"@ + files.last() + "`\n"@)
    }
}

/// What is written below the listed files to say how many were left out.
pub open spec fn more_files_text(count: nat, max_files: nat) -> Seq<char> {
    if count > max_files {
        "\n*... and "@ + decimal((count - max_files) as nat) + " more files*\n"@
    } else {
        ""@
    }
}

/// The changed files as a block that can be folded away: their number, then
/// at most `max_files` of them, then how many were left out.
pub open spec fn changed_files_text(files: Seq<Seq<char>>, max_files: nat) -> Seq<char> {
    "<details>\n"@ + "<summary>Changed files ("@ + decimal(files.len()) + ")</summary>\n\n"@
        + file_lines_text(
        if files.len() <= max_files {
            files
        } else {
            files.take(max_files as int)
        },
    ) + more_files_text(files.len(), max_files) + "\n</details>\n"@
}

/// What is written behind a commit to name its author.
pub open spec fn author_text(commit: CommitView, show_authors: bool) -> Seq<char> {
    if show_authors {
        " — *"@ + commit.author + "*"@
    } else {
        ""@
    }
}

/// The line of one commit.
pub open spec fn commit_text(commit: CommitView, show_authors: bool) -> Seq<char> {
    "- `"@ + commit.hash + "` "@ + commit.message + author_text(commit, show_authors) + "  \n"@
}

/// The lines of `commits`, in order.
pub open spec fn commit_lines_text(commits: Seq<CommitView>, show_authors: bool) -> Seq<char>
    decreases commits.len(),
{
    if commits.len() == 0 {
        Seq::empty()
    } else {
        commit_lines_text(commits.drop_last(), show_authors) + commit_text(
            commits.last(),
            show_authors,
        )
    }
}

/// What is written behind a branch's name to give its distance from the
/// default branch: nothing for the default branch, and nothing where the
/// distance is zero both ways.
pub open spec fn distance_text(branch: BranchView, default_branch: Seq<char>) -> Seq<char> {
    if branch.name != default_branch && (branch.ahead > 0 || branch.behind > 0) {
        " (ahead "@ + decimal(branch.ahead) + ", behind "@ + decimal(branch.behind) + ")"@
    } else {
        ""@
    }
}

/// What is written behind a branch's name to say that it is new.
pub open spec fn branch_change_marker(change: ChangeKind) -> Seq<char> {
    match change {
        ChangeKind::New => " ← NEW"@,
        _ => ""@,
    }
}

/// The changed files of a branch, if it has any, after an empty line.
pub open spec fn branch_files_text(files: Seq<Seq<char>>, max_files: nat) -> Seq<char> {
    if files.len() > 0 {
        "\n"@ + changed_files_text(files, max_files)
    } else {
        ""@
    }
}

/// The section of one branch: its heading, its commits, and the files that
/// its commits changed, each once, in the order of their first mention.
pub open spec fn branch_text(
    branch: BranchView,
    default_branch: Seq<char>,
    show_authors: bool,
    max_files: nat,
) -> Seq<char> {
    "#### `"@ + branch.name + "`"@ + distance_text(branch, default_branch) + branch_change_marker(
        branch.change,
    ) + "\n\n"@ + commit_lines_text(branch.commits, show_authors) + branch_files_text(
        distinct(files_of_commits(branch.commits)),
        max_files,
    )
}

/// `first` is listed before `second`: it is the default branch, or neither
/// is and it has more commits.
pub open spec fn listed_before(
    first: BranchView,
    second: BranchView,
    default_branch: Seq<char>,
) -> bool {
    first.name == default_branch || (second.name != default_branch && first.commits.len()
        > second.commits.len())
}

/// `ordered` with `branch` put in before every branch at the end that it is
/// listed before.
pub open spec fn insert_branch(
    ordered: Seq<BranchView>,
    branch: BranchView,
    default_branch: Seq<char>,
) -> Seq<BranchView>
    decreases ordered.len(),
{
    if ordered.len() > 0 && listed_before(branch, ordered.last(), default_branch) {
        insert_branch(ordered.drop_last(), branch, default_branch).push(ordered.last())
    } else {
        ordered.push(branch)
    }
}

/// `branches` in the order of the report: the default branch first, then the
/// others from the most commits to the fewest. Branches with equally many
/// commits keep their order.
pub open spec fn ordered_branches(branches: Seq<BranchView>, default_branch: Seq<char>) -> Seq<
    BranchView,
>
    decreases branches.len(),
{
    if branches.len() == 0 {
        Seq::empty()
    } else {
        insert_branch(
            ordered_branches(branches.drop_last(), default_branch),
            branches.last(),
            default_branch,
        )
    }
}

/// The sections of `branches`, in order, each followed by an empty line.
pub open spec fn branch_sections_text(
    branches: Seq<BranchView>,
    default_branch: Seq<char>,
    show_authors: bool,
    max_files: nat,
) -> Seq<char>
    decreases branches.len(),
{
    if branches.len() == 0 {
        Seq::empty()
    } else {
        branch_sections_text(branches.drop_last(), default_branch, show_authors, max_files) + (
        branch_text(branches.last(), default_branch, show_authors, max_files) + "\n"@)
    }
}

/// The section of one repository: its name, its path, and its branches in
/// the order of the report.
pub open spec fn repository_text(
    repository: RepositoryView,
    show_authors: bool,
    max_files: nat,
) -> Seq<char> {
    "### "@ + repository.name + "\n\n"@ + "**Path:** `"@ + repository.path + "`\n\n"@
        + branch_sections_text(
        ordered_branches(repository.branches, repository.default_branch),
        repository.default_branch,
        show_authors,
        max_files,
    )
}

/// The sections of `repositories`, in order, each after an empty line.
pub open spec fn repository_sections_text(
    repositories: Seq<RepositoryView>,
    show_authors: bool,
    max_files: nat,
) -> Seq<char>
    decreases repositories.len(),
{
    if repositories.len() == 0 {
        Seq::empty()
    } else {
        repository_sections_text(repositories.drop_last(), show_authors, max_files) + ("\n"@
            + repository_text(repositories.last(), show_authors, max_files))
    }
}

/// The section of repositories.
pub open spec fn git_activity_text(
    repositories: Seq<RepositoryView>,
    show_authors: bool,
    max_files: nat,
) -> Seq<char> {
    "## Git Activity\n"@ + repository_sections_text(repositories, show_authors, max_files)
}

/// What is written behind a note's path to say how it changed.
pub open spec fn note_change_marker(change: ChangeKind) -> Seq<char> {
    match change {
        ChangeKind::New => " ← new"@,
        ChangeKind::Modified => " ← modified"@,
        ChangeKind::Unchanged => ""@,
    }
}

/// The section of one note: its path, when it was modified, and its excerpt.
pub open spec fn note_text(note: NoteView) -> Seq<char> {
    "### `"@ + note.path + "`"@ + note_change_marker(note.change) + "\n\n"@ + "*Modified: "@
        + note.modified_at.text() + "*\n\n"@ + note.excerpt + "\n"@
}

/// The sections of `notes`, in order, each followed by an empty line.
pub open spec fn note_sections_text(notes: Seq<NoteView>) -> Seq<char>
    decreases notes.len(),
{
    if notes.len() == 0 {
        Seq::empty()
    } else {
        note_sections_text(notes.drop_last()) + (note_text(notes.last()) + "\n"@)
    }
}

/// The section of notes.
pub open spec fn notes_text(notes: Seq<NoteView>) -> Seq<char> {
    "## Notes\n\n"@ + note_sections_text(notes)
}

/// The section of repositories, followed by an empty line, if there is a
/// repository to report.
pub open spec fn git_part(
    chronicle: ChronicleView,
    show_authors: bool,
    max_files: nat,
) -> Seq<char> {
    if chronicle.repositories.len() > 0 {
        git_activity_text(chronicle.repositories, show_authors, max_files) + "\n\n"@
    } else {
        ""@
    }
}

/// The section of checklist items, followed by an empty line, if there is
/// an item to report.
pub open spec fn todos_part(chronicle: ChronicleView) -> Seq<char> {
    if chronicle.todos.len() > 0 {
        todos_text(chronicle.todos) + "\n\n"@
    } else {
        ""@
    }
}

/// The section of notes, followed by an empty line, if there is a note to
/// report.
pub open spec fn notes_part(chronicle: ChronicleView) -> Seq<char> {
    if chronicle.notes.len() > 0 {
        notes_text(chronicle.notes) + "\n\n"@
    } else {
        ""@
    }
}

/// The whole report: header, counts, and the sections that have something
/// to report, without whitespace at its end.
pub open spec fn report_text(chronicle: ChronicleView, show_authors: bool, max_files: nat) -> Seq<
    char,
> {
    trim_end(
        header_text(chronicle.date, chronicle.generated_at, chronicle.since) + "\n\n"@
            + summary_text(chronicle.stats()) + "\n\n"@ + git_part(
            chronicle,
            show_authors,
            max_files,
        ) + todos_part(chronicle) + notes_part(chronicle),
    )
}

/// Putting `branch` into `ordered` puts it at `at`, when it is listed before
/// every branch from `at` on and not before the branch ahead of `at`.
pub proof fn lemma_insert_branch_at(
    ordered: Seq<BranchView>,
    branch: BranchView,
    default_branch: Seq<char>,
    at: int,
)
    requires
        0 <= at <= ordered.len(),
        forall|j: int|
            at <= j < ordered.len() ==> listed_before(branch, #[trigger] ordered[j], default_branch),
        at > 0 ==> !listed_before(branch, ordered[at - 1], default_branch),
    ensures
        insert_branch(ordered, branch, default_branch) == ordered.take(at) + seq![branch]
            + ordered.skip(at),
    decreases ordered.len() - at,
{
    if at == ordered.len() {
        assert(ordered.take(at) == ordered);
        assert(ordered.push(branch) == ordered.take(at) + seq![branch] + ordered.skip(at));
    } else {
        let rest = ordered.drop_last();
        assert(listed_before(branch, ordered[ordered.len() - 1], default_branch));
        assert forall|j: int| at <= j < rest.len() implies listed_before(
            branch,
            #[trigger] rest[j],
            default_branch,
        ) by {
            assert(rest[j] == ordered[j]);
        }
        if at > 0 {
            assert(rest[at - 1] == ordered[at - 1]);
        }
        lemma_insert_branch_at(rest, branch, default_branch, at);
        assert((rest.take(at) + seq![branch] + rest.skip(at)).push(ordered.last()) == ordered.take(
            at,
        ) + seq![branch] + ordered.skip(at));
    }
}

/// Lays out reports as Markdown.
pub struct Renderer<'a> {
    config: &'a Config,
}

impl<'a> Renderer<'a> {
    pub fn new(config: &'a Config) -> (renderer: Self)
        ensures
            renderer.config() == config,
    {
        Self { config }
    }

    /// The settings that the renderer was made with.
    pub closed spec fn config(self) -> &'a Config {
        self.config
    }

    /// The whole report.
    pub fn render(&self, chronicle: &Chronicle) -> (text: String)
        requires
            chronicle@.counts_fit(),
        ensures
            text@ == report_text(
                chronicle@,
                self.config().display.show_authors,
                self.config().limits.max_changed_files as nat,
            ),
    {
        let mut output = self.render_header(
            &chronicle.date,
            chronicle.generated_at,
            chronicle.since,
        );
        output.append("\n\n");
        output.append(self.render_summary(chronicle).as_str());
        output.append("\n\n");
        if chronicle.repositories.len() > 0 {
            let mut part = self.render_git_activity(&chronicle.repositories);
            part.append("\n\n");
            output.append(part.as_str());
        } else {
            output.append("");
        }
        if chronicle.todos.len() > 0 {
            let mut part = self.render_todos(&chronicle.todos);
            part.append("\n\n");
            output.append(part.as_str());
        } else {
            output.append("");
        }
        if chronicle.notes.len() > 0 {
            let mut part = self.render_notes(&chronicle.notes);
            part.append("\n\n");
            output.append(part.as_str());
        } else {
            output.append("");
        }
        trimmed_end(output.as_str())
    }

    /// The header: the date of the report, when it was made, and its cutoff.
    pub fn render_header(&self, date: &Date, generated_at: Timestamp, since: Timestamp) -> (text:
        String)
        ensures
            text@ == header_text(*date, generated_at, since),
    {
        let mut output = String::from_str("# Chronicle: ");
        output.append(date.format().as_str());
        output.append("\n\n");
        output.append("**Generated:** ");
        output.append(generated_at.format().as_str());
        output.append("\n");
        output.append("**Since:** ");
        output.append(since.format().as_str());
        output
    }

    /// The table of counts.
    pub fn render_summary(&self, chronicle: &Chronicle) -> (text: String)
        requires
            chronicle@.counts_fit(),
        ensures
            text@ == summary_text(chronicle@.stats()),
    {
        let stats = chronicle.stats();
        let mut output = String::from_str("## Summary\n\n");
        output.append("| Category | Count |\n");
        output.append("|----------|-------|\n");
        output.append("| Repositories | ");
        push_decimal(&mut output, stats.repo_count);
        output.append(" |\n");
        output.append("| Commits | ");
        push_decimal(&mut output, stats.commit_count);
        output.append(" |\n");
        output.append("| New Branches | ");
        push_decimal(&mut output, stats.new_branch_count);
        output.append(" |\n");
        output.append("| New TODOs | ");
        push_decimal(&mut output, stats.todos_new);
        output.append(" |\n");
        output.append("| Completed TODOs | ");
        push_decimal(&mut output, stats.todos_completed);
        output.append(" |\n");
        output.append("| Note Updates | ");
        push_decimal(&mut output, stats.notes_count);
        output.append(" |");
        output
    }

    /// The section of repositories.
    pub fn render_git_activity(&self, repositories: &Vec<Repository>) -> (text: String)
        ensures
            text@ == git_activity_text(
                repositories.deep_view(),
                self.config().display.show_authors,
                self.config().limits.max_changed_files as nat,
            ),
    {
        let ghost show = self.config().display.show_authors;
        let ghost max_files = self.config().limits.max_changed_files as nat;
        let mut sections = String::new();
        let mut i: usize = 0;
        while i < repositories.len()
            invariant
                i <= repositories.len(),
                show == self.config().display.show_authors,
                max_files == self.config().limits.max_changed_files as nat,
                sections@ == repository_sections_text(
                    repositories.deep_view().take(i as int),
                    show,
                    max_files,
                ),
            decreases repositories.len() - i,
        {
            proof {
                let all = repositories.deep_view();
                assert(all.take(i + 1).drop_last() == all.take(i as int));
                assert(all.take(i + 1).last() == repositories[i as int]@);
            }
            let mut section = String::from_str("\n");
            section.append(self.render_repository(&repositories[i]).as_str());
            sections.append(section.as_str());
            i += 1;
        }
        assert(repositories.deep_view().take(repositories.len() as int)
            == repositories.deep_view());
        let mut output = String::from_str("## Git Activity\n");
        output.append(sections.as_str());
        output
    }

    /// The branches of `repository` in the order of the report.
    pub fn order_branches(&self, repository: &Repository) -> (ordered: Vec<Branch>)
        ensures
            ordered.deep_view() == ordered_branches(
                repository@.branches,
                repository@.default_branch,
            ),
    {
        let branches = &repository.branches;
        let default_branch = repository.default_branch.as_str();
        let mut ordered: Vec<Branch> = Vec::new();
        let mut i: usize = 0;
        while i < branches.len()
            invariant
                i <= branches.len(),
                default_branch@ == repository@.default_branch,
                ordered.len() == i,
                ordered.deep_view() == ordered_branches(
                    branches.deep_view().take(i as int),
                    default_branch@,
                ),
            decreases branches.len() - i,
        {
            proof {
                let all = branches.deep_view();
                assert(all.take(i + 1).drop_last() == all.take(i as int));
                assert(all.take(i + 1).last() == branches[i as int]@);
            }
            let branch = branches[i].clone();
            let branch_is_default = same_text(branch.name.as_str(), default_branch);
            let mut at: usize = ordered.len();
            while at > 0 && (branch_is_default || (!same_text(
                ordered[at - 1].name.as_str(),
                default_branch,
            ) && branch.commits.len() > ordered[at - 1].commits.len()))
                invariant
                    at <= ordered.len(),
                    branch_is_default == (branch@.name == default_branch@),
                    forall|j: int|
                        at <= j < ordered.len() ==> listed_before(
                            branch@,
                            #[trigger] ordered.deep_view()[j],
                            default_branch@,
                        ),
                decreases at,
            {
                at -= 1;
            }
            let ghost so_far = ordered.deep_view();
            proof {
                if at > 0 {
                    assert(so_far[at - 1] == ordered[at - 1]@);
                }
                lemma_insert_branch_at(so_far, branch@, default_branch@, at as int);
            }
            ordered.insert(at, branch);
            assert(ordered.deep_view() == so_far.take(at as int) + seq![branches[i as int]@]
                + so_far.skip(at as int));
            i += 1;
        }
        assert(branches.deep_view().take(branches.len() as int) == branches.deep_view());
        ordered
    }

    /// The section of one repository.
    pub fn render_repository(&self, repo: &Repository) -> (text: String)
        ensures
            text@ == repository_text(
                repo@,
                self.config().display.show_authors,
                self.config().limits.max_changed_files as nat,
            ),
    {
        let ghost show = self.config().display.show_authors;
        let ghost max_files = self.config().limits.max_changed_files as nat;
        let sorted_branches = self.order_branches(repo);
        let mut sections = String::new();
        let mut i: usize = 0;
        while i < sorted_branches.len()
            invariant
                i <= sorted_branches.len(),
                show == self.config().display.show_authors,
                max_files == self.config().limits.max_changed_files as nat,
                sections@ == branch_sections_text(
                    sorted_branches.deep_view().take(i as int),
                    repo@.default_branch,
                    show,
                    max_files,
                ),
            decreases sorted_branches.len() - i,
        {
            proof {
                let all = sorted_branches.deep_view();
                assert(all.take(i + 1).drop_last() == all.take(i as int));
                assert(all.take(i + 1).last() == sorted_branches[i as int]@);
            }
            let mut section = self.render_branch(&sorted_branches[i], repo.default_branch.as_str());
            section.append("\n");
            sections.append(section.as_str());
            i += 1;
        }
        assert(sorted_branches.deep_view().take(sorted_branches.len() as int)
            == sorted_branches.deep_view());
        let mut output = String::from_str("### ");
        output.append(repo.name.as_str());
        output.append("\n\n");
        output.append("**Path:** `");
        output.append(repo.path.as_str());
        output.append("`\n\n");
        output.append(sections.as_str());
        output
    }

    /// The section of one branch.
    pub fn render_branch(&self, branch: &Branch, default_branch: &str) -> (text: String)
        ensures
            text@ == branch_text(
                branch@,
                default_branch@,
                self.config().display.show_authors,
                self.config().limits.max_changed_files as nat,
            ),
    {
        let ghost show = self.config().display.show_authors;
        let change_marker = match branch.change {
            ChangeKind::New => " ← NEW",
            _ => "",
        };
        let ahead_behind = if !same_text(branch.name.as_str(), default_branch) && (branch.ahead > 0
            || branch.behind > 0) {
            let mut distance = String::from_str(" (ahead ");
            push_decimal(&mut distance, branch.ahead);
            distance.append(", behind ");
            push_decimal(&mut distance, branch.behind);
            distance.append(")");
            distance
        } else {
            String::from_str("")
        };
        let mut commit_lines = String::new();
        let mut i: usize = 0;
        while i < branch.commits.len()
            invariant
                i <= branch.commits.len(),
                show == self.config().display.show_authors,
                commit_lines@ == commit_lines_text(branch.commits.deep_view().take(i as int), show),
            decreases branch.commits.len() - i,
        {
            proof {
                let all = branch.commits.deep_view();
                assert(all.take(i + 1).drop_last() == all.take(i as int));
                assert(all.take(i + 1).last() == branch.commits[i as int]@);
            }
            let commit = &branch.commits[i];
            let author_info = if self.config.display.show_authors {
                let mut info = String::from_str(" — *");
                info.append(commit.author.as_str());
                info.append("*");
                info
            } else {
                String::from_str("")
            };
            let mut line = String::from_str("- `");
            line.append(commit.hash.as_str());
            line.append("` ");
            line.append(commit.message.as_str());
            line.append(author_info.as_str());
            line.append("  \n");
            commit_lines.append(line.as_str());
            i += 1;
        }
        assert(branch.commits.deep_view().take(branch.commits.len() as int)
            == branch.commits.deep_view());
        let all_files = distinct_strings(&branch.all_files());
        let files_block = if all_files.len() > 0 {
            let mut block = String::from_str("\n");
            block.append(self.render_changed_files(&all_files).as_str());
            block
        } else {
            String::from_str("")
        };
        let mut output = String::from_str("#### `");
        output.append(branch.name.as_str());
        output.append("`");
        output.append(ahead_behind.as_str());
        output.append(change_marker);
        output.append("\n\n");
        output.append(commit_lines.as_str());
        output.append(files_block.as_str());
        output
    }

    /// The changed files as a block that can be folded away.
    pub fn render_changed_files(&self, files: &Vec<String>) -> (text: String)
        ensures
            text@ == changed_files_text(
                files.deep_view(),
                self.config().limits.max_changed_files as nat,
            ),
    {
        let max_files = self.config.limits.max_changed_files;
        let file_count = files.len();
        let display_count = if file_count <= max_files {
            file_count
        } else {
            max_files
        };
        let ghost shown = if files.deep_view().len() <= max_files {
            files.deep_view()
        } else {
            files.deep_view().take(max_files as int)
        };
        let mut lines = String::new();
        let mut i: usize = 0;
        while i < display_count
            invariant
                i <= display_count <= files.len(),
                display_count == shown.len(),
                forall|k: int| 0 <= k < shown.len() ==> shown[k] == files.deep_view()[k],
                lines@ == file_lines_text(shown.take(i as int)),
            decreases display_count - i,
        {
            proof {
                assert(shown.take(i + 1).drop_last() == shown.take(i as int));
                assert(shown.take(i + 1).last() == files[i as int]@);
            }
            let mut line = String::from_str("- `");
            line.append(files[i].as_str());
            line.append("`\n");
            lines.append(line.as_str());
            i += 1;
        }
        assert(shown.take(display_count as int) == shown);
        let more = if file_count > max_files {
            let mut more = String::from_str("\n*... and ");
            push_decimal(&mut more, file_count - max_files);
            more.append(" more files*\n");
            more
        } else {
            String::from_str("")
        };
        let mut output = String::from_str("<details>\n");
        output.append("<summary>Changed files (");
        push_decimal(&mut output, file_count);
        output.append(")</summary>\n\n");
        output.append(lines.as_str());
        output.append(more.as_str());
        output.append("\n</details>\n");
        output
    }

    /// The section of checklist items.
    pub fn render_todos(&self, todos: &Vec<Todo>) -> (text: String)
        ensures
            text@ == todos_text(todos.deep_view()),
    {
        let mut all_files: Vec<String> = Vec::new();
        let mut k: usize = 0;
        while k < todos.len()
            invariant
                k <= todos.len(),
                all_files.deep_view() == files_of_todos(todos.deep_view()).take(k as int),
            decreases todos.len() - k,
        {
            let ghost so_far = all_files.deep_view();
            all_files.push(todos[k].file.clone());
            assert(all_files.deep_view() == so_far.push(todos[k as int]@.file));
            k += 1;
        }
        assert(files_of_todos(todos.deep_view()).take(todos.len() as int) == files_of_todos(
            todos.deep_view(),
        ));
        let files = distinct_strings(&all_files);
        let mut groups = String::new();
        let mut i: usize = 0;
        while i < files.len()
            invariant
                i <= files.len(),
                groups@ == todo_groups_text(todos.deep_view(), files.deep_view().take(i as int)),
            decreases files.len() - i,
        {
            proof {
                let all = files.deep_view();
                assert(all.take(i + 1).drop_last() == all.take(i as int));
                assert(all.take(i + 1).last() == files[i as int]@);
            }
            let file = files[i].as_str();
            let mut lines = String::new();
            let mut j: usize = 0;
            while j < todos.len()
                invariant
                    j <= todos.len(),
                    lines@ == todo_lines_of_file(todos.deep_view().take(j as int), file@),
                decreases todos.len() - j,
            {
                proof {
                    let all = todos.deep_view();
                    assert(all.take(j + 1).drop_last() == all.take(j as int));
                    assert(all.take(j + 1).last() == todos[j as int]@);
                }
                if same_text(todos[j].file.as_str(), file) {
                    lines.append(self.render_todo(&todos[j]).as_str());
                }
                j += 1;
            }
            assert(todos.deep_view().take(todos.len() as int) == todos.deep_view());
            let mut group = String::from_str("\n");
            group.append("### `");
            group.append(file);
            group.append("`\n\n");
            group.append(lines.as_str());
            groups.append(group.as_str());
            i += 1;
        }
        assert(files.deep_view().take(files.len() as int) == files.deep_view());
        let mut output = String::from_str("## TODOs\n");
        output.append(groups.as_str());
        output
    }

    /// The line of one checklist item.
    pub fn render_todo(&self, todo: &Todo) -> (text: String)
        ensures
            text@ == todo_text(todo@),
    {
        let status_marker = match todo.status {
            TodoStatus::Pending => "[ ]",
            TodoStatus::Done => "[x]",
            TodoStatus::InProgress => "[~]",
        };
        let change_marker = match todo.change {
            ChangeKind::New => " ← NEW",
            ChangeKind::Modified => if todo.was_completed() {
                " ← DONE"
            } else {
                " ← MODIFIED"
            },
            ChangeKind::Unchanged => "",
        };
        let mut output = String::from_str("- ");
        output.append(status_marker);
        output.append(" ");
        output.append(todo.content.as_str());
        output.append(change_marker);
        output.append("  \n");
        output
    }

    /// The section of notes.
    pub fn render_notes(&self, notes: &Vec<Note>) -> (text: String)
        ensures
            text@ == notes_text(notes.deep_view()),
    {
        let mut sections = String::new();
        let mut i: usize = 0;
        while i < notes.len()
            invariant
                i <= notes.len(),
                sections@ == note_sections_text(notes.deep_view().take(i as int)),
            decreases notes.len() - i,
        {
            proof {
                let all = notes.deep_view();
                assert(all.take(i + 1).drop_last() == all.take(i as int));
                assert(all.take(i + 1).last() == notes[i as int]@);
            }
            let mut section = self.render_note(&notes[i]);
            section.append("\n");
            sections.append(section.as_str());
            i += 1;
        }
        assert(notes.deep_view().take(notes.len() as int) == notes.deep_view());
        let mut output = String::from_str("## Notes\n\n");
        output.append(sections.as_str());
        output
    }

    /// The section of one note.
    pub fn render_note(&self, note: &Note) -> (text: String)
        ensures
            text@ == note_text(note@),
    {
        let change_marker = match note.change {
            ChangeKind::New => " ← new",
            ChangeKind::Modified => " ← modified",
            ChangeKind::Unchanged => "",
        };
        let mut output = String::from_str("### `");
        output.append(note.path.as_str());
        output.append("`");
        output.append(change_marker);
        output.append("\n\n");
        output.append("*Modified: ");
        output.append(note.modified_at.format().as_str());
        output.append("*\n\n");
        output.append(note.excerpt.as_str());
        output.append("\n");
        output
    }
}

} // verus!
