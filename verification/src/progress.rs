//! What a scan tells about its progress: what is shown when a worker takes a
//! repository up and when it is done with it, the line that reports a
//! repository that cannot be walked, and the size of the pool of workers.

use crate::history::FailureStage;
use crate::model::Repo;
use vstd::prelude::*;
use vstd::string::StringExecFns;

verus! {

/// More workers than this make a scan slower, not faster.
pub const MAX_NUMBER_OF_THREADS: usize = 18;

/// The number of workers for a machine that can run `available` threads at a
/// time: as many, but no more than `MAX_NUMBER_OF_THREADS`.
pub fn worker_count(available: usize) -> (count: usize)
    ensures
        count == if available <= MAX_NUMBER_OF_THREADS {
            available
        } else {
            MAX_NUMBER_OF_THREADS
        },
{
    if available <= MAX_NUMBER_OF_THREADS {
        available
    } else {
        MAX_NUMBER_OF_THREADS
    }
}

/// The label of a worker that scans the repository: `Scanning`, a space, and
/// the path by which the repository is shown.
pub fn scanning_label(repo: &Repo) -> (label: String)
    ensures
        label@ == "Scanning "@ + repo.rel_path@,
{
    let mut label = "Scanning ".to_owned();
    label.append(repo.rel_path.as_str());
    label
}

/// The label of a worker that scans no repository.
pub fn idle_label() -> (label: String)
    ensures
        label@ == "Idle"@,
{
    "Idle".to_owned()
}

/// What is said of the step that failed.
pub open spec fn stage_text(stage: FailureStage) -> Seq<char> {
    match stage {
        FailureStage::Open => "Failed to open"@,
        FailureStage::CreateWalk => "Failed create revwalk"@,
        FailureStage::SeedWalk => "Failed query history"@,
    }
}

/// The line that reports a repository that could not be walked: what failed,
/// the path by which the repository is shown, and the cause, set apart by a
/// colon and a space.
pub fn failure_line(stage: FailureStage, repo: &Repo, cause: &str) -> (line: String)
    ensures
        line@ == stage_text(stage) + ": "@ + repo.rel_path@ + ": "@ + cause@,
{
    let mut line = match stage {
        FailureStage::Open => "Failed to open".to_owned(),
        FailureStage::CreateWalk => "Failed create revwalk".to_owned(),
        FailureStage::SeedWalk => "Failed query history".to_owned(),
    };
    line.append(": ");
    line.append(repo.rel_path.as_str());
    line.append(": ");
    line.append(cause);
    line
}

/// Something for the display of the progress to do.
#[derive(Debug, PartialEq, Eq)]
pub enum ProgressOp {
    /// A scan of so many repositories begins.
    Begin(usize),
    /// The worker that reports gets the label.
    Label(String),
    /// The line is written out.
    Log(String),
    /// One more repository is done.
    Tick,
}

/// What the operation shows, as a value.
pub enum ProgressShown {
    Begin(nat),
    Label(Seq<char>),
    Log(Seq<char>),
    Tick,
}

impl View for ProgressOp {
    type V = ProgressShown;

    open spec fn view(&self) -> ProgressShown {
        match *self {
            ProgressOp::Begin(total) => ProgressShown::Begin(total as nat),
            ProgressOp::Label(text) => ProgressShown::Label(text@),
            ProgressOp::Log(line) => ProgressShown::Log(line@),
            ProgressOp::Tick => ProgressShown::Tick,
        }
    }
}

/// What the operations show.
pub open spec fn shown_ops(ops: Seq<ProgressOp>) -> Seq<ProgressShown> {
    ops.map_values(|op: ProgressOp| op@)
}

/// What is reported before the repositories are scanned: how many there are.
pub fn scan_begins(repos: &Vec<Repo>) -> (op: ProgressOp)
    ensures
        op@ == ProgressShown::Begin(repos@.len()),
{
    ProgressOp::Begin(repos.len())
}

/// What a worker reports when it takes a repository up: its label says which
/// repository it scans.
pub fn repository_begins(repo: &Repo) -> (ops: Vec<ProgressOp>)
    ensures
        shown_ops(ops@) == seq![ProgressShown::Label("Scanning "@ + repo.rel_path@)],
{
    let mut ops: Vec<ProgressOp> = Vec::new();
    ops.push(ProgressOp::Label(scanning_label(repo)));
    ops
}

/// What a worker reports when it is done with a repository: a repository
/// that could not be walked (`failure` holds the step and the cause) is
/// written out; walked or not, the repository counts as done, and the worker
/// is idle.
pub fn repository_ends(repo: &Repo, failure: Option<(FailureStage, &str)>) -> (ops: Vec<
    ProgressOp,
>)
    ensures
        shown_ops(ops@) == match failure {
            Some((stage, cause)) => seq![
                ProgressShown::Log(
                    stage_text(stage) + ": "@ + repo.rel_path@ + ": "@ + cause@,
                ),
                ProgressShown::Tick,
                ProgressShown::Label("Idle"@),
            ],
            None => seq![ProgressShown::Tick, ProgressShown::Label("Idle"@)],
        },
{
    let mut ops: Vec<ProgressOp> = Vec::new();
    match failure {
        Some((stage, cause)) => {
            ops.push(ProgressOp::Log(failure_line(stage, repo, cause)));
        },
        None => {},
    }
    ops.push(ProgressOp::Tick);
    ops.push(ProgressOp::Label(idle_label()));
    proof {
        match failure {
            Some((stage, cause)) => {
                assert(shown_ops(ops@) =~= seq![
                    ProgressShown::Log(
                        stage_text(stage) + ": "@ + repo.rel_path@ + ": "@ + cause@,
                    ),
                    ProgressShown::Tick,
                    ProgressShown::Label("Idle"@),
                ]);
            },
            None => {
                assert(shown_ops(ops@) =~= seq![
                    ProgressShown::Tick,
                    ProgressShown::Label("Idle"@),
                ]);
            },
        }
    }
    ops
}

} // verus!
