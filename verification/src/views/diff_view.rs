//! The lines that describe a commit and its changes, and their colours.

use crate::model::RepoCommit;
use crate::styles::Color;
use crate::text::{lines_of, occurs_at, split_parts, text_lines, text_starts_with, texts};
use crate::views::list_view::{colored, shown, Line, ListItem, ListState, ListView};
use crate::views::rows::{identity_rows, lemma_identity_rows_consistent, RowEvent, RowOutcome};
use vstd::string::StringExecFns;
use vstd::prelude::*;

verus! {

/// The line begins with the text.
pub open spec fn begins_with(line: Seq<char>, start: Seq<char>) -> bool {
    occurs_at(line, start, 0)
}

/// The colour of a line, by the way it begins; the first of these that fits
/// decides.
pub open spec fn line_color(line: Seq<char>) -> Color {
    if begins_with(line, "commit "@) {
        Color::Blue
    } else if begins_with(line, "Author: "@) {
        Color::LightBlue
    } else if begins_with(line, "AuthorDate: "@) {
        Color::Yellow
    } else if begins_with(line, "Commit: "@) {
        Color::Magenta
    } else if begins_with(line, "CommitDate: "@) {
        Color::Yellow
    } else if begins_with(line, "---"@) {
        Color::Yellow
    } else if begins_with(line, "+++"@) {
        Color::Yellow
    } else if begins_with(line, "new "@) {
        Color::Yellow
    } else if begins_with(line, "rename"@) {
        Color::Yellow
    } else if begins_with(line, "diff"@) {
        Color::Yellow
    } else if begins_with(line, "@"@) {
        Color::Magenta
    } else if begins_with(line, "+"@) {
        Color::Green
    } else if begins_with(line, "-"@) {
        Color::Red
    } else {
        Color::White
    }
}

/// The colour in which a line of the description of a commit is shown.
pub fn color_of(line: &str) -> (color: Color)
    ensures
        color == line_color(line@),
{
    if text_starts_with(line, "commit ") {
        Color::Blue
    } else if text_starts_with(line, "Author: ") {
        Color::LightBlue
    } else if text_starts_with(line, "AuthorDate: ") {
        Color::Yellow
    } else if text_starts_with(line, "Commit: ") {
        Color::Magenta
    } else if text_starts_with(line, "CommitDate: ") {
        Color::Yellow
    } else if text_starts_with(line, "---") {
        Color::Yellow
    } else if text_starts_with(line, "+++") {
        Color::Yellow
    } else if text_starts_with(line, "new ") {
        Color::Yellow
    } else if text_starts_with(line, "rename") {
        Color::Yellow
    } else if text_starts_with(line, "diff") {
        Color::Yellow
    } else if text_starts_with(line, "@") {
        Color::Magenta
    } else if text_starts_with(line, "+") {
        Color::Green
    } else if text_starts_with(line, "-") {
        Color::Red
    } else {
        Color::White
    }
}

/// The lines that the texts are shown as: each text in the colour that goes
/// with the way it begins.
pub open spec fn painted(lines: Seq<Seq<char>>) -> Seq<Line>
    decreases lines.len(),
{
    if lines.len() == 0 {
        Seq::empty()
    } else {
        painted(lines.drop_last()) + colored(
            split_parts(lines.last(), '\n'),
            Some(line_color(lines.last())),
        )
    }
}

/// The lines that describe a commit: the repository in red, what `git show`
/// said of the commit, a rule in yellow, and what `git diff` said of the
/// commit and its first parent.
pub open spec fn description(rel_path: Seq<char>, show: Seq<char>, diff: Seq<char>) -> Seq<Line> {
    colored(split_parts("Repo:       "@ + rel_path, '\n'), Some(Color::Red)) + painted(
        lines_of(show),
    ) + colored(split_parts("―――"@, '\n'), Some(Color::Yellow)) + painted(lines_of(diff))
}

/// The description of a commit, line by line.
#[derive(Debug, PartialEq, Eq)]
pub struct DiffView {
    list_view: ListView<ListItem>,
    commit: Option<RepoCommit>,
}

impl DiffView {
    /// The list of the lines.
    pub closed spec fn list(self) -> ListState<ListItem> {
        self.list_view@
    }

    /// The commit that is described, if there is one.
    pub closed spec fn described(self) -> Option<RepoCommit> {
        self.commit
    }

    /// A view that describes no commit.
    pub fn empty() -> (view: Self)
        ensures
            view.described() is None,
            view.list() == (ListState::<ListItem> {
                enabled: true,
                needs_relayout: true,
                focus: 0,
                items: Seq::empty(),
                rows_to_items: Seq::empty(),
            }),
    {
        DiffView { list_view: ListView::new(), commit: None }
    }

    /// Puts the lines of what a command said behind the other lines.
    fn add_output(&mut self, output: &str)
        ensures
            final(self).described() == old(self).described(),
            final(self).list().enabled == old(self).list().enabled,
            final(self).list().focus == old(self).list().focus,
            lines_of(output@).len() > 0 ==> final(self).list().needs_relayout,
            lines_of(output@).len() == 0 ==> final(self).list() == old(self).list(),
            shown(final(self).list().items) == shown(old(self).list().items) + painted(
                lines_of(output@),
            ),
            old(self).list().rows_to_items == identity_rows(old(self).list().items.len())
                ==> final(self).list().rows_to_items == identity_rows(
                final(self).list().items.len(),
            ),
    {
        let lines = text_lines(output);
        let mut k: usize = 0;
        proof {
            assert(shown(self.list().items) =~= shown(old(self).list().items) + painted(
                texts(lines@).take(0),
            ));
        }
        while k < lines.len()
            invariant
                0 <= k <= lines@.len(),
                texts(lines@) == lines_of(output@),
                self.described() == old(self).described(),
                self.list().enabled == old(self).list().enabled,
                self.list().focus == old(self).list().focus,
                k > 0 ==> self.list().needs_relayout,
                k == 0 ==> self.list() == old(self).list(),
                shown(self.list().items) == shown(old(self).list().items) + painted(
                    texts(lines@).take(k as int),
                ),
                old(self).list().rows_to_items == identity_rows(old(self).list().items.len())
                    ==> self.list().rows_to_items == identity_rows(self.list().items.len()),
            decreases lines@.len() - k,
        {
            let ghost before = self.list();
            let line = lines[k].clone();
            let color = color_of(line.as_str());
            self.list_view.insert_colorful_string(line, color);
            proof {
                let taken = texts(lines@).take(k + 1);
                assert(taken.drop_last() =~= texts(lines@).take(k as int));
                assert(shown(self.list().items) =~= shown(old(self).list().items) + painted(
                    taken,
                ));
                shown_len(self.list().items);
                shown_len(before.items);
            }
            k = k + 1;
        }
        proof {
            assert(texts(lines@).take(k as int) =~= texts(lines@));
        }
    }

    /// Describes the commit `entry` of the repository that is shown by the path
    /// `rel_path`: `show_output` is what `git show` said of the commit,
    /// `diff_output` what `git diff` said of the commit and its first parent.
    pub fn set_commit(
        &mut self,
        entry: &RepoCommit,
        rel_path: &str,
        show_output: &str,
        diff_output: &str,
    )
        ensures
            final(self).described() == Some(*entry),
            final(self).list().enabled,
            final(self).list().needs_relayout,
            final(self).list().focus == 0,
            final(self).list().rows_to_items == identity_rows(final(self).list().items.len()),
            final(self).list().is_consistent(),
            shown(final(self).list().items) == description(rel_path@, show_output@, diff_output@),
    {
        self.commit = Some(entry.clone());
        self.list_view = ListView::new();
        let mut repo_line = "Repo:       ".to_owned();
        repo_line.append(rel_path);
        self.list_view.insert_colorful_string(repo_line, Color::Red);
        proof {
            shown_len(self.list().items);
            assert(self.list().rows_to_items =~= identity_rows(self.list().items.len()));
        }
        self.add_output(show_output);
        let ghost before_rule = self.list();
        self.list_view.insert_colorful_string("―――".to_owned(), Color::Yellow);
        proof {
            shown_len(self.list().items);
            shown_len(before_rule.items);
            assert(self.list().rows_to_items =~= identity_rows(self.list().items.len()));
        }
        self.add_output(diff_output);
        let count = self.list_view.len();
        proof {
            lemma_identity_rows_consistent(count as nat);
            assert(shown(self.list().items) =~= description(
                rel_path@,
                show_output@,
                diff_output@,
            ));
        }
    }

    /// The commit that is described, if there is one.
    pub fn commit(&self) -> (commit: &Option<RepoCommit>)
        ensures
            *commit == self.described(),
    {
        &self.commit
    }

    /// The list of the lines.
    pub fn with_view(&self) -> (list: &ListView<ListItem>)
        ensures
            list@ == self.list(),
    {
        &self.list_view
    }

    /// Takes note that the list of the lines is laid out.
    pub fn layout_content(&mut self)
        ensures
            final(self).described() == old(self).described(),
            final(self).list() == (ListState { needs_relayout: false, ..old(self).list() }),
    {
        self.list_view.layout_content();
    }

    /// Takes an event that goes to the list of the lines.
    pub fn on_event(&mut self, event: RowEvent, has_on_submit: bool) -> (outcome: RowOutcome)
        ensures
            final(self).described() == old(self).described(),
            (final(self).list(), outcome) == old(self).list().after_event(event, has_on_submit),
    {
        self.list_view.on_inner_event(event, has_on_submit)
    }
}

/// As many lines are shown as there are items.
proof fn shown_len(items: Seq<ListItem>)
    ensures
        shown(items).len() == items.len(),
{
}

} // verus!
