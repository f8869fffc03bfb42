//! The history as a table for a report: one row of headings, one row for
//! each commit.

use crate::calendar::date_time_text;
use crate::history::MultiRepoHistory;
use crate::model::RepoCommit;
use crate::text::{decimal, optional_text, push_decimal, text_equals, texts};
use vstd::prelude::*;
use vstd::string::StringExecFns;

verus! {

/// The kind of file that a report is written to.
#[derive(Clone, Copy, Debug, PartialEq, Eq, Structural)]
pub enum ReportFormat {
    /// Comma-separated values.
    Csv,
    /// An OpenDocument spreadsheet.
    Ods,
    /// An Excel workbook.
    Xlsx,
}

/// Why no report can be made.
#[derive(Clone, Copy, Debug, PartialEq, Eq, Structural)]
pub enum ReportError {
    /// The name of the file does not end in `.csv`, `.ods` or `.xlsx`.
    UnknownFormat,
    /// A commit has a commit time that has no calendar date.
    TimeWithoutDate,
}

impl ReportError {
    /// The error in words.
    pub fn message(&self) -> (text: String)
        ensures
            text@ == match *self {
                ReportError::UnknownFormat =>
                    "Couldn't derive report format from filename. Supported endings are: .csv, .ods, .xlsx"@,
                ReportError::TimeWithoutDate => "A commit time is out of range"@,
            },
    {
        match self {
            ReportError::UnknownFormat =>
                "Couldn't derive report format from filename. Supported endings are: .csv, .ods, .xlsx".to_owned(),
            ReportError::TimeWithoutDate => "A commit time is out of range".to_owned(),
        }
    }
}

/// The extension of the file name of a path, if it has one.
pub uninterp spec fn path_extension(path: Seq<char>) -> Option<Seq<char>>;

/// `Path::extension` of the standard library, on text: the extension of the
/// file name of the path, if it has one. It is determined by the path alone.
#[verifier::external_body]
pub(crate) fn extension_of(path: &str) -> (extension: Option<String>)
    ensures
        optional_text(extension) == path_extension(path@),
{
    match std::path::Path::new(path).extension() {
        Some(extension) => match extension.to_str() {
            Some(extension) => Some(extension.to_string()),
            None => None,
        },
        None => None,
    }
}

/// The format that goes with the extension of a file name.
pub open spec fn format_of(extension: Option<Seq<char>>) -> Result<ReportFormat, ReportError> {
    match extension {
        Some(e) => if e == "csv"@ {
            Ok(ReportFormat::Csv)
        } else if e == "ods"@ {
            Ok(ReportFormat::Ods)
        } else if e == "xlsx"@ {
            Ok(ReportFormat::Xlsx)
        } else {
            Err(ReportError::UnknownFormat)
        },
        None => Err(ReportError::UnknownFormat),
    }
}

/// The text of an extension, if there is one.
pub open spec fn extension_text(extension: Option<&str>) -> Option<Seq<char>> {
    match extension {
        Some(e) => Some(e@),
        None => None,
    }
}

/// The format of the report that is written to a file with the given
/// extension: `csv`, `ods` and `xlsx` are known, in small letters.
pub fn report_format(extension: Option<&str>) -> (format: Result<ReportFormat, ReportError>)
    ensures
        format == format_of(extension_text(extension)),
{
    match extension {
        Some(e) => {
            if text_equals(e, "csv") {
                Ok(ReportFormat::Csv)
            } else if text_equals(e, "ods") {
                Ok(ReportFormat::Ods)
            } else if text_equals(e, "xlsx") {
                Ok(ReportFormat::Xlsx)
            } else {
                Err(ReportError::UnknownFormat)
            }
        },
        None => Err(ReportError::UnknownFormat),
    }
}

/// The headings of the report.
pub open spec fn heading_cells() -> Seq<Seq<char>> {
    seq![
        "Commit Date"@,
        "Local Path of Repo"@,
        "Commit Author"@,
        "Summary"@,
        "Message"@,
    ]
}

/// The cells of the row of one commit: its commit time, the path by which its
/// repository is shown, its author, its summary, its message.
pub open spec fn commit_cells(history: MultiRepoHistory, commit: RepoCommit) -> Seq<Seq<char>> {
    seq![
        date_time_text(
            commit.commit_time.local_parts().unwrap(),
            commit.commit_time.offset_minutes as int,
        ),
        history.repos@[commit.repo as int].rel_path@,
        commit.author_name@,
        commit.summary@,
        commit.message@,
    ]
}

/// The cells of the report: the headings, then the commits in the order of
/// the history.
pub open spec fn report_cells(history: MultiRepoHistory) -> Seq<Seq<Seq<char>>> {
    Seq::new(
        (history.commits@.len() + 1) as nat,
        |row: int|
            if row == 0 {
                heading_cells()
            } else {
                commit_cells(history, history.commits@[row - 1])
            },
    )
}

/// The cells of the rows.
pub open spec fn cells(rows: Seq<Vec<String>>) -> Seq<Seq<Seq<char>>> {
    rows.map_values(|row: Vec<String>| texts(row@))
}

/// Every commit of the history has a commit time with a calendar date.
pub open spec fn all_times_have_dates(history: MultiRepoHistory) -> bool {
    forall|k: int|
        0 <= k < history.commits@.len() ==> (
        #[trigger] history.commits@[k]).commit_time.local_parts() is Some
}

/// The row of headings.
fn heading_row() -> (row: Vec<String>)
    ensures
        texts(row@) == heading_cells(),
{
    let mut row: Vec<String> = Vec::new();
    row.push("Commit Date".to_owned());
    row.push("Local Path of Repo".to_owned());
    row.push("Commit Author".to_owned());
    row.push("Summary".to_owned());
    row.push("Message".to_owned());
    row
}

/// The rows of the report, or `None` where a commit has a commit time
/// without a calendar date.
pub fn model_into_spreadsheet(model: &MultiRepoHistory) -> (rows: Option<Vec<Vec<String>>>)
    requires
        model.is_consistent(),
    ensures
        rows is Some <==> all_times_have_dates(*model),
        rows matches Some(r) ==> cells(r@) == report_cells(*model),
{
    let mut rows: Vec<Vec<String>> = Vec::new();
    rows.push(heading_row());
    let mut k: usize = 0;
    while k < model.commits.len()
        invariant
            0 <= k <= model.commits@.len(),
            model.is_consistent(),
            rows@.len() == k + 1,
            forall|j: int|
                0 <= j < k ==> (#[trigger] model.commits@[j]).commit_time.local_parts() is Some,
            forall|r: int| 0 <= r <= k ==> texts((#[trigger] rows@[r])@) == report_cells(*model)[r],
        decreases model.commits@.len() - k,
    {
        let commit = &model.commits[k];
        let shown = match commit.try_time_as_str() {
            Some(shown) => shown,
            None => {
                return None;
            },
        };
        let mut row: Vec<String> = Vec::new();
        row.push(shown);
        row.push(model.repos[commit.repo].rel_path.clone());
        row.push(commit.author_name.clone());
        row.push(commit.summary.clone());
        row.push(commit.message.clone());
        rows.push(row);
        k = k + 1;
    }
    Some(rows)
}

/// What is said of a report that was written.
pub open spec fn written_text(format: ReportFormat, count: nat, path: Seq<char>) -> Seq<char> {
    "Wrote "@ + decimal(count) + match format {
        ReportFormat::Csv => " records as comma-separated-values to "@,
        ReportFormat::Ods => " records in Open Document Format to "@,
        ReportFormat::Xlsx => " records in MS Excel format to "@,
    } + path
}

/// A report, ready to be written.
#[derive(Debug, PartialEq, Eq)]
pub struct Report {
    pub format: ReportFormat,
    /// The rows, the headings first.
    pub rows: Vec<Vec<String>>,
    /// What to say once the report is written.
    pub written: String,
}

/// The report of the history for a file at `path` whose extension is
/// `extension`.
pub fn report_for(model: &MultiRepoHistory, extension: Option<&str>, path: &str) -> (report:
    Result<Report, ReportError>)
    requires
        model.is_consistent(),
    ensures
        match format_of(extension_text(extension)) {
            Ok(format) => if all_times_have_dates(*model) {
                report matches Ok(r) && r.format == format && cells(r.rows@) == report_cells(
                    *model,
                ) && r.written@ == written_text(format, model.commits@.len(), path@)
            } else {
                report == Err::<Report, ReportError>(ReportError::TimeWithoutDate)
            },
            Err(_) => report == Err::<Report, ReportError>(ReportError::UnknownFormat),
        },
{
    let format = match report_format(extension) {
        Ok(format) => format,
        Err(error) => {
            return Err(error);
        },
    };
    let rows = match model_into_spreadsheet(model) {
        Some(rows) => rows,
        None => {
            return Err(ReportError::TimeWithoutDate);
        },
    };
    let mut written = "Wrote ".to_owned();
    push_decimal(&mut written, model.commits.len() as u64);
    match format {
        ReportFormat::Csv => written.append(" records as comma-separated-values to "),
        ReportFormat::Ods => written.append(" records in Open Document Format to "),
        ReportFormat::Xlsx => written.append(" records in MS Excel format to "),
    }
    written.append(path);
    Ok(Report { format, rows, written })
}

/// The report of the history for the file at `output_file_path`, whose
/// extension names the format.
pub fn generate(model: &MultiRepoHistory, output_file_path: &str) -> (report: Result<
    Report,
    ReportError,
>)
    requires
        model.is_consistent(),
    ensures
        match format_of(path_extension(output_file_path@)) {
            Ok(format) => if all_times_have_dates(*model) {
                report matches Ok(r) && r.format == format && cells(r.rows@) == report_cells(
                    *model,
                ) && r.written@ == written_text(
                    format,
                    model.commits@.len(),
                    output_file_path@,
                )
            } else {
                report == Err::<Report, ReportError>(ReportError::TimeWithoutDate)
            },
            Err(_) => report == Err::<Report, ReportError>(ReportError::UnknownFormat),
        },
{
    match extension_of(output_file_path) {
        Some(extension) => report_for(model, Some(extension.as_str()), output_file_path),
        None => report_for(model, None, output_file_path),
    }
}

} // verus!
