//! The table of the history: its columns, its rows, and the line below it
//! that tells which commit is selected.

use crate::calendar::date_time_text;
use crate::history::MultiRepoHistory;
use crate::model::{Repo, RepoCommit};
use crate::styles::Color;
use crate::text::{decimal, order_of, push_decimal, text_order};
use crate::views::rows::identity_rows;
use crate::views::table_view::{
    HAlign, TableColumn, TableColumnWidth, TableView, TableViewItem,
};
use std::cmp::Ordering;
use vstd::prelude::*;
use vstd::string::StringExecFns;

verus! {

/// The width of the column of the commit times.
pub const COLUMN_WIDTH_COMMIT_DATE: usize = 22;

/// The width of the column of the repositories.
pub const COLUMN_WIDTH_REPO_NAME: usize = 15;

/// The width of the column of the committers.
pub const COLUMN_WIDTH_COMITTER: usize = 17;

/// The width of the column of the summaries.
pub const COLUMN_WIDTH_SUBJECT: usize = 50;

/// A column of the table of the history.
#[derive(Clone, Copy, Debug, PartialEq, Eq, Hash, Structural)]
pub enum Column {
    CommitDateTime,
    Comitter,
    Repo,
    Summary,
}

/// A row of the table of the history: a commit, its repository, and the
/// commit time as text.
#[derive(Debug, PartialEq, Eq)]
pub struct HistoryRow {
    pub commit: RepoCommit,
    pub repo: Repo,
    pub time: String,
}

impl HistoryRow {
    /// What the row shows in the column.
    pub open spec fn column_text(self, column: Column) -> Seq<char> {
        match column {
            Column::CommitDateTime => self.time@,
            Column::Comitter => self.commit.committer@,
            Column::Repo => self.repo.description@,
            Column::Summary => self.commit.summary@,
        }
    }

    /// The row is the row of the commit at place `k` of the history.
    pub open spec fn is_row_of(self, history: MultiRepoHistory, k: int) -> bool {
        &&& self.commit == history.commits@[k]
        &&& self.repo == history.repos@[self.commit.repo as int]
        &&& self.time@ == date_time_text(
            self.commit.commit_time.local_parts().unwrap(),
            self.commit.commit_time.offset_minutes as int,
        )
    }
}

impl Clone for HistoryRow {
    fn clone(&self) -> (copy: HistoryRow)
        ensures
            copy == *self,
    {
        HistoryRow {
            commit: self.commit.clone(),
            repo: self.repo.clone(),
            time: self.time.clone(),
        }
    }
}

impl TableViewItem<Column> for HistoryRow {
    fn to_column(&self, column: Column) -> (text: String)
        ensures
            text@ == self.column_text(column),
    {
        match column {
            Column::CommitDateTime => self.time.clone(),
            Column::Comitter => self.commit.committer.clone(),
            Column::Repo => self.repo.description.clone(),
            Column::Summary => self.commit.summary.clone(),
        }
    }

    fn cmp(&self, other: &Self, column: Column) -> (order: Ordering)
        ensures
            order == order_of(self.column_text(column), other.column_text(column)),
    {
        match column {
            Column::CommitDateTime => text_order(self.time.as_str(), other.time.as_str()),
            Column::Comitter => text_order(
                self.commit.committer.as_str(),
                other.commit.committer.as_str(),
            ),
            Column::Repo => text_order(
                self.repo.description.as_str(),
                other.repo.description.as_str(),
            ),
            Column::Summary => text_order(
                self.commit.summary.as_str(),
                other.commit.summary.as_str(),
            ),
        }
    }
}

/// The rows of the table of the history, one for each commit in the order of
/// the history; `None` where a commit has a commit time without a calendar
/// date.
pub fn history_rows(history: &MultiRepoHistory) -> (rows: Option<Vec<HistoryRow>>)
    requires
        history.is_consistent(),
    ensures
        rows is Some <==> crate::report::all_times_have_dates(*history),
        rows matches Some(r) ==> r@.len() == history.commits@.len() && forall|k: int|
            0 <= k < r@.len() ==> (#[trigger] r@[k]).is_row_of(*history, k),
{
    let mut rows: Vec<HistoryRow> = Vec::new();
    let mut k: usize = 0;
    while k < history.commits.len()
        invariant
            0 <= k <= history.commits@.len(),
            history.is_consistent(),
            rows@.len() == k,
            forall|j: int|
                0 <= j < k ==> (#[trigger] history.commits@[j]).commit_time.local_parts() is Some,
            forall|j: int| 0 <= j < k ==> (#[trigger] rows@[j]).is_row_of(*history, j),
        decreases history.commits@.len() - k,
    {
        let commit = &history.commits[k];
        let time = match commit.try_time_as_str() {
            Some(time) => time,
            None => {
                return None;
            },
        };
        let repo = history.repos[commit.repo].clone();
        rows.push(HistoryRow { commit: commit.clone(), repo, time });
        k = k + 1;
    }
    Some(rows)
}

/// The column is one of the table of the history: it has the given title,
/// asks for the given width, and has the given colour.
pub open spec fn is_history_column(
    made: TableColumn<Column>,
    column: Column,
    title: Seq<char>,
    width: usize,
    color: Option<Color>,
) -> bool {
    &&& made.column == column
    &&& made.title@ == title
    &&& !made.selected
    &&& made.alignment == HAlign::Left
    &&& made.width == 0
    &&& made.requested_width == Some(TableColumnWidth::Absolute(width))
    &&& made.color == color
}

/// Sets the column of the commit times up.
fn commit_date_column(c: TableColumn<Column>) -> (made: TableColumn<Column>)
    ensures
        made == (TableColumn {
            requested_width: Some(TableColumnWidth::Absolute(COLUMN_WIDTH_COMMIT_DATE)),
            ..c
        }),
{
    c.width(COLUMN_WIDTH_COMMIT_DATE)
}

/// Sets the column of the repositories up.
fn repo_column(c: TableColumn<Column>) -> (made: TableColumn<Column>)
    ensures
        made == (TableColumn {
            requested_width: Some(TableColumnWidth::Absolute(COLUMN_WIDTH_REPO_NAME)),
            color: Some(Color::Red),
            ..c
        }),
{
    c.width(COLUMN_WIDTH_REPO_NAME).color(Color::Red)
}

/// Sets the column of the committers up.
fn committer_column(c: TableColumn<Column>) -> (made: TableColumn<Column>)
    ensures
        made == (TableColumn {
            requested_width: Some(TableColumnWidth::Absolute(COLUMN_WIDTH_COMITTER)),
            color: Some(Color::Green),
            ..c
        }),
{
    c.width(COLUMN_WIDTH_COMITTER).color(Color::Green)
}

/// Sets the column of the summaries up.
fn summary_column(c: TableColumn<Column>) -> (made: TableColumn<Column>)
    ensures
        made == (TableColumn {
            requested_width: Some(TableColumnWidth::Absolute(COLUMN_WIDTH_SUBJECT)),
            color: Some(Color::White),
            ..c
        }),
{
    c.width(COLUMN_WIDTH_SUBJECT).color(Color::White)
}

/// The table of the history: the columns for commit time, repository,
/// committer and summary, and a row for each commit, in the order of the
/// history, with the focus on the first. `None` where a commit has a commit
/// time without a calendar date.
pub fn new_table(history: &MultiRepoHistory) -> (table: Option<TableView<HistoryRow, Column>>)
    requires
        history.is_consistent(),
    ensures
        table is Some <==> crate::report::all_times_have_dates(*history),
        table matches Some(t) ==> {
            &&& t@.enabled
            &&& t@.needs_relayout
            &&& !t@.column_select
            &&& t@.focus == 0
            &&& t@.is_consistent()
            &&& t@.rows_to_items == identity_rows(history.commits@.len())
            &&& t@.items.len() == history.commits@.len()
            &&& forall|k: int|
                0 <= k < t@.items.len() ==> (#[trigger] t@.items[k]).is_row_of(*history, k)
            &&& t@.columns.len() == 4
            &&& is_history_column(
                t@.columns[0],
                Column::CommitDateTime,
                "Commit"@,
                COLUMN_WIDTH_COMMIT_DATE,
                None,
            )
            &&& is_history_column(
                t@.columns[1],
                Column::Repo,
                "Repo"@,
                COLUMN_WIDTH_REPO_NAME,
                Some(Color::Red),
            )
            &&& is_history_column(
                t@.columns[2],
                Column::Comitter,
                "Committer"@,
                COLUMN_WIDTH_COMITTER,
                Some(Color::Green),
            )
            &&& is_history_column(
                t@.columns[3],
                Column::Summary,
                "Summary"@,
                COLUMN_WIDTH_SUBJECT,
                Some(Color::White),
            )
        },
{
    let rows = match history_rows(history) {
        Some(rows) => rows,
        None => {
            return None;
        },
    };
    let table = TableView::<HistoryRow, Column>::new();
    let table = table.column(Column::CommitDateTime, "Commit", commit_date_column);
    let table = table.column(Column::Repo, "Repo", repo_column);
    let table = table.column(Column::Comitter, "Committer", committer_column);
    let table = table.column(Column::Summary, "Summary", summary_column);
    let mut table = table;
    table.set_items(rows);
    table.set_selected_row(0);
    Some(table)
}

/// What the line below the table says of the commit that is selected: which
/// of how many it is, counted from one, and the path by which its repository
/// is shown.
pub open spec fn commit_bar(index: nat, size: nat, rel_path: Seq<char>) -> Seq<char> {
    "Commit "@ + decimal(index + 1) + " of "@ + decimal(size) + " - "@ + rel_path
}

/// The text of the line below the table for the commit at place `index` of
/// `size` commits.
pub fn update_commit_bar(index: usize, size: usize, rel_path: &str) -> (text: String)
    requires
        index < usize::MAX,
    ensures
        text@ == commit_bar(index as nat, size as nat, rel_path@),
{
    let mut text = "Commit ".to_owned();
    push_decimal(&mut text, (index + 1) as u64);
    text.append(" of ");
    push_decimal(&mut text, size as u64);
    text.append(" - ");
    text.append(rel_path);
    text
}

} // verus!
